//! Error types of each layer, the umbrella application error, and the HTTP
//! status that each error is answered with.

use vstd::prelude::*;
use vstd::string::to_string_from_display_ensures;

verus! {

/// An I/O error from the standard library, carried as it is.
#[verifier::external_type_specification]
#[verifier::external_body]
pub struct ExIoError(std::io::Error);

/// An error of the embedded database, carried as it is.
#[verifier::external_type_specification]
#[verifier::external_body]
pub struct ExRedbError(shodh_redb::Error);

/// The error of registering a second global logger, carried as it is.
#[verifier::external_type_specification]
#[verifier::external_body]
pub struct ExSetLoggerError(log::SetLoggerError);

/// The error of checking a FlatBuffer, carried as it is.
#[verifier::external_type_specification]
#[verifier::external_body]
pub struct ExInvalidFlatbuffer(flatbuffers::InvalidFlatbuffer);

/// Errors of the database layer.
#[derive(Debug)]
pub enum DbError {
    /// The database reported an error.
    Redb(shodh_redb::Error),
    /// A file operation failed.
    Io(std::io::Error),
    /// No write buffer is registered for the table.
    NoBuffer,
}

/// Errors of the configuration reader.
#[derive(Debug)]
pub enum ConfigError {
    /// An environment variable holds text that is not valid unicode.
    InvalidEnv(String),
    /// The `.env` file exists but cannot be read.
    DotenvRead(String, std::io::Error),
    /// A secrets file exists but cannot be read.
    SecretRead(String, std::io::Error),
    /// The key is in none of the sources.
    MissingKey(String),
}

/// Errors of the authentication layer.
#[derive(Debug)]
pub enum AuthError {
    /// Wrong username or password.
    InvalidCredentials,
    /// The session or refresh token has expired.
    TokenExpired,
    /// The token is malformed or was tampered with.
    InvalidToken,
    /// The user does not exist.
    UserNotFound(String),
    /// The account exists but is not active; the second field says how.
    AccountInactive(String, String),
    /// The request body could not be parsed.
    MalformedRequest(String),
    /// A required field is missing from the request.
    MissingField(String),
}

/// Umbrella error of the service.
#[derive(Debug)]
pub enum AppError {
    Db(DbError),
    Config(ConfigError),
    Auth(AuthError),
    /// A token could not be validated; holds the validator's message.
    Token(String),
    Io(std::io::Error),
    Logger(log::SetLoggerError),
    Flatbuffer(flatbuffers::InvalidFlatbuffer),
    /// A one-off message.
    Other(String),
}

/// 400 Bad Request.
pub const STATUS_BAD_REQUEST: u16 = 400;

/// 401 Unauthorized.
pub const STATUS_UNAUTHORIZED: u16 = 401;

/// 500 Internal Server Error.
pub const STATUS_INTERNAL_SERVER_ERROR: u16 = 500;

/// The HTTP status an error is answered with: credential and token
/// failures are 401, malformed or incomplete requests are 400, everything
/// else is 500.
pub open spec fn status_of(e: AppError) -> u16 {
    match e {
        AppError::Auth(a) => match a {
            AuthError::InvalidCredentials => STATUS_UNAUTHORIZED,
            AuthError::TokenExpired => STATUS_UNAUTHORIZED,
            AuthError::InvalidToken => STATUS_UNAUTHORIZED,
            AuthError::MalformedRequest(_) => STATUS_BAD_REQUEST,
            AuthError::MissingField(_) => STATUS_BAD_REQUEST,
            _ => STATUS_INTERNAL_SERVER_ERROR,
        },
        AppError::Token(_) => STATUS_UNAUTHORIZED,
        AppError::Flatbuffer(_) => STATUS_BAD_REQUEST,
        _ => STATUS_INTERNAL_SERVER_ERROR,
    }
}

impl AppError {
    /// The HTTP status code this error is answered with.
    pub fn status_code(&self) -> (code: u16)
        ensures
            code == status_of(*self),
            *self is Flatbuffer ==> code == 400,
            *self is Token ==> code == 401,
            (*self matches AppError::Auth(a) && (a is InvalidCredentials || a is TokenExpired
                || a is InvalidToken)) ==> code == 401,
            (*self matches AppError::Auth(a) && (a is MalformedRequest || a is MissingField))
                ==> code == 400,
            (*self matches AppError::Auth(a) && (a is UserNotFound || a is AccountInactive))
                ==> code == 500,
            (*self is Db || *self is Config || *self is Io || *self is Logger || *self is Other)
                ==> code == 500,
    {
        match self {
            AppError::Auth(e) => match e {
                AuthError::InvalidCredentials => STATUS_UNAUTHORIZED,
                AuthError::TokenExpired => STATUS_UNAUTHORIZED,
                AuthError::InvalidToken => STATUS_UNAUTHORIZED,
                AuthError::MalformedRequest(_) => STATUS_BAD_REQUEST,
                AuthError::MissingField(_) => STATUS_BAD_REQUEST,
                _ => STATUS_INTERNAL_SERVER_ERROR,
            },
            AppError::Token(_) => STATUS_UNAUTHORIZED,
            AppError::Flatbuffer(_) => STATUS_BAD_REQUEST,
            _ => STATUS_INTERNAL_SERVER_ERROR,
        }
    }
}

/// The text of an authentication error.
pub open spec fn auth_message(e: AuthError) -> Seq<char> {
    match e {
        AuthError::InvalidCredentials => "invalid credentials"@,
        AuthError::TokenExpired => "token expired"@,
        AuthError::InvalidToken => "invalid token"@,
        AuthError::UserNotFound(u) => "user not found: "@ + u@,
        AuthError::AccountInactive(u, state) => "account `"@ + u@ + "` is "@ + state@,
        AuthError::MalformedRequest(m) => "malformed request body: "@ + m@,
        AuthError::MissingField(f) => "missing required field: "@ + f@,
    }
}

/// The text of a configuration error; `cause` is the text of the I/O
/// error it carries, if any.
pub open spec fn config_message(e: ConfigError, cause: Seq<char>) -> Seq<char> {
    match e {
        ConfigError::InvalidEnv(k) => "environment variable `"@ + k@ + "` is not valid unicode"@,
        ConfigError::DotenvRead(f, _) => "cannot read .env file `"@ + f@ + "`: "@ + cause,
        ConfigError::SecretRead(f, _) => "cannot read secret file `"@ + f@ + "`: "@ + cause,
        ConfigError::MissingKey(k) => "required config key `"@ + k@
            + "` not found — checked secrets/, env, .env"@,
    }
}

/// The text of a database error; `cause` is the text of the error it
/// carries, if any.
pub open spec fn db_message(e: DbError, cause: Seq<char>) -> Seq<char> {
    match e {
        DbError::Redb(_) => "database error: "@ + cause,
        DbError::Io(_) => "io error: "@ + cause,
        DbError::NoBuffer => "no write buffer registered for this table"@,
    }
}

/// The prefix that names the layer of an application error.
pub open spec fn app_prefix(e: AppError) -> Seq<char> {
    match e {
        AppError::Db(_) => "database: "@,
        AppError::Config(_) => "config: "@,
        AppError::Auth(_) => "auth: "@,
        AppError::Token(_) => "auth: "@,
        AppError::Io(_) => "io: "@,
        AppError::Logger(_) => "logger: "@,
        AppError::Flatbuffer(_) => "flatbuffer: "@,
        AppError::Other(_) => Seq::<char>::empty(),
    }
}

impl AuthError {
    /// The text this error is shown with.
    pub fn message(&self) -> (m: String)
        ensures
            m@ == auth_message(*self),
    {
        match self {
            AuthError::InvalidCredentials => String::from_str("invalid credentials"),
            AuthError::TokenExpired => String::from_str("token expired"),
            AuthError::InvalidToken => String::from_str("invalid token"),
            AuthError::UserNotFound(u) => {
                let mut m = String::from_str("user not found: ");
                m.append(u.as_str());
                m
            },
            AuthError::AccountInactive(u, state) => {
                let mut m = String::from_str("account `");
                m.append(u.as_str());
                m.append("` is ");
                m.append(state.as_str());
                m
            },
            AuthError::MalformedRequest(r) => {
                let mut m = String::from_str("malformed request body: ");
                m.append(r.as_str());
                m
            },
            AuthError::MissingField(f) => {
                let mut m = String::from_str("missing required field: ");
                m.append(f.as_str());
                m
            },
        }
    }
}

impl ConfigError {
    /// The text this error is shown with.
    pub fn message(&self) -> (m: String)
        ensures
            match self {
                ConfigError::DotenvRead(_, io) => exists|t: String|
                    to_string_from_display_ensures::<std::io::Error>(io, t) && m@ == config_message(
                        *self,
                        t@,
                    ),
                ConfigError::SecretRead(_, io) => exists|t: String|
                    to_string_from_display_ensures::<std::io::Error>(io, t) && m@ == config_message(
                        *self,
                        t@,
                    ),
                _ => m@ == config_message(*self, Seq::empty()),
            },
    {
        match self {
            ConfigError::InvalidEnv(k) => {
                let mut m = String::from_str("environment variable `");
                m.append(k.as_str());
                m.append("` is not valid unicode");
                m
            },
            ConfigError::DotenvRead(f, io) => {
                let t = io.to_string();
                let mut m = String::from_str("cannot read .env file `");
                m.append(f.as_str());
                m.append("`: ");
                m.append(t.as_str());
                m
            },
            ConfigError::SecretRead(f, io) => {
                let t = io.to_string();
                let mut m = String::from_str("cannot read secret file `");
                m.append(f.as_str());
                m.append("`: ");
                m.append(t.as_str());
                m
            },
            ConfigError::MissingKey(k) => {
                let mut m = String::from_str("required config key `");
                m.append(k.as_str());
                m.append("` not found — checked secrets/, env, .env");
                m
            },
        }
    }
}

impl DbError {
    /// The text this error is shown with.
    pub fn message(&self) -> (m: String)
        ensures
            match self {
                DbError::Redb(e) => exists|t: String|
                    to_string_from_display_ensures::<shodh_redb::Error>(e, t) && m@ == db_message(
                        *self,
                        t@,
                    ),
                DbError::Io(e) => exists|t: String|
                    to_string_from_display_ensures::<std::io::Error>(e, t) && m@ == db_message(
                        *self,
                        t@,
                    ),
                DbError::NoBuffer => m@ == db_message(*self, Seq::empty()),
            },
    {
        match self {
            DbError::Redb(e) => {
                let t = e.to_string();
                let mut m = String::from_str("database error: ");
                m.append(t.as_str());
                m
            },
            DbError::Io(e) => {
                let t = e.to_string();
                let mut m = String::from_str("io error: ");
                m.append(t.as_str());
                m
            },
            DbError::NoBuffer => String::from_str("no write buffer registered for this table"),
        }
    }
}

impl AppError {
    /// The text this error is shown with: the layer's prefix, then the text
    /// of the error it carries (for an error of another crate, its
    /// `Display` text).
    pub fn message(&self) -> (m: String)
        ensures
            match self {
                AppError::Db(e) => match e {
                    DbError::Redb(x) => exists|t: String|
                        to_string_from_display_ensures::<shodh_redb::Error>(x, t) && m@ == app_prefix(
                            *self,
                        ) + db_message(*e, t@),
                    DbError::Io(x) => exists|t: String|
                        to_string_from_display_ensures::<std::io::Error>(x, t) && m@ == app_prefix(
                            *self,
                        ) + db_message(*e, t@),
                    DbError::NoBuffer => m@ == app_prefix(*self) + db_message(*e, Seq::empty()),
                },
                AppError::Config(e) => match e {
                    ConfigError::DotenvRead(_, x) => exists|t: String|
                        to_string_from_display_ensures::<std::io::Error>(x, t) && m@ == app_prefix(
                            *self,
                        ) + config_message(*e, t@),
                    ConfigError::SecretRead(_, x) => exists|t: String|
                        to_string_from_display_ensures::<std::io::Error>(x, t) && m@ == app_prefix(
                            *self,
                        ) + config_message(*e, t@),
                    _ => m@ == app_prefix(*self) + config_message(*e, Seq::empty()),
                },
                AppError::Auth(e) => m@ == app_prefix(*self) + auth_message(*e),
                AppError::Token(t) => m@ == app_prefix(*self) + t@,
                AppError::Io(x) => exists|t: String|
                    to_string_from_display_ensures::<std::io::Error>(x, t) && m@ == app_prefix(*self)
                        + t@,
                AppError::Logger(x) => exists|t: String|
                    to_string_from_display_ensures::<log::SetLoggerError>(x, t) && m@ == app_prefix(
                        *self,
                    ) + t@,
                AppError::Flatbuffer(x) => exists|t: String|
                    to_string_from_display_ensures::<flatbuffers::InvalidFlatbuffer>(x, t) && m@
                        == app_prefix(*self) + t@,
                AppError::Other(t) => m@ == t@,
            },
    {
        let (mut m, inner) = match self {
            AppError::Db(e) => (String::from_str("database: "), e.message()),
            AppError::Config(e) => (String::from_str("config: "), e.message()),
            AppError::Auth(e) => (String::from_str("auth: "), e.message()),
            AppError::Token(t) => (String::from_str("auth: "), t.clone()),
            AppError::Io(e) => (String::from_str("io: "), e.to_string()),
            AppError::Logger(e) => (String::from_str("logger: "), e.to_string()),
            AppError::Flatbuffer(e) => (String::from_str("flatbuffer: "), e.to_string()),
            AppError::Other(t) => (String::new(), t.clone()),
        };
        let ghost prefix = m@;
        assert(prefix == app_prefix(*self));
        m.append(inner.as_str());
        m
    }
}

/// A request body that is not a valid FlatBuffer is the client's fault:
/// it is answered with 400 Bad Request.
pub proof fn malformed_flatbuffer_is_bad_request(e: flatbuffers::InvalidFlatbuffer)
    ensures
        status_of(AppError::Flatbuffer(e)) == 400,
{
}

/// Every error is answered with one of 400, 401 or 500, and only failures
/// of the client's request (a malformed body, a missing field, a bad
/// FlatBuffer) get 400, only failed credentials or tokens get 401.
pub proof fn status_is_client_or_server_error(e: AppError)
    ensures
        status_of(e) == 400 || status_of(e) == 401 || status_of(e) == 500,
        status_of(e) == 400 <==> (e is Flatbuffer || (e matches AppError::Auth(a) && (
        a is MalformedRequest || a is MissingField))),
        status_of(e) == 401 <==> (e is Token || (e matches AppError::Auth(a) && (
        a is InvalidCredentials || a is TokenExpired || a is InvalidToken))),
{
}

} // verus!
