use micro_template::errors::{AppError, AuthError, ConfigError, DbError};
use micro_template::maintenance::backup_path_now;

#[test]
fn auth_messages() {
    assert_eq!(AuthError::InvalidCredentials.message(), "invalid credentials");
    assert_eq!(AuthError::TokenExpired.message(), "token expired");
    assert_eq!(AuthError::InvalidToken.message(), "invalid token");
    assert_eq!(AuthError::UserNotFound("bob".into()).message(), "user not found: bob");
    assert_eq!(
        AuthError::AccountInactive("bob".into(), "banned".into()).message(),
        "account `bob` is banned"
    );
    assert_eq!(AuthError::MalformedRequest("short".into()).message(), "malformed request body: short");
    assert_eq!(AuthError::MissingField("username".into()).message(), "missing required field: username");
}

#[test]
fn config_messages() {
    assert_eq!(ConfigError::InvalidEnv("K".into()).message(), "environment variable `K` is not valid unicode");
    assert_eq!(
        ConfigError::MissingKey("DB_PATH".into()).message(),
        "required config key `DB_PATH` not found — checked secrets/, env, .env"
    );
    let io = std::io::Error::new(std::io::ErrorKind::PermissionDenied, "denied");
    assert_eq!(ConfigError::SecretRead("secrets/K".into(), io).message(), "cannot read secret file `secrets/K`: denied");
    let io = std::io::Error::new(std::io::ErrorKind::Other, "gone");
    assert_eq!(ConfigError::DotenvRead(".env".into(), io).message(), "cannot read .env file `.env`: gone");
}

#[test]
fn db_and_app_messages() {
    assert_eq!(DbError::NoBuffer.message(), "no write buffer registered for this table");
    let io = std::io::Error::new(std::io::ErrorKind::Other, "full");
    assert_eq!(DbError::Io(io).message(), "io error: full");
    assert_eq!(AppError::Db(DbError::NoBuffer).message(), "database: no write buffer registered for this table");
    assert_eq!(AppError::Auth(AuthError::InvalidToken).message(), "auth: invalid token");
    assert_eq!(AppError::Token("bad signature".into()).message(), "auth: bad signature");
    assert_eq!(AppError::Config(ConfigError::MissingKey("K".into())).message(),
        "config: required config key `K` not found — checked secrets/, env, .env");
    let io = std::io::Error::new(std::io::ErrorKind::Other, "eof");
    assert_eq!(AppError::Io(io).message(), "io: eof");
    assert_eq!(AppError::Other("plain".into()).message(), "plain");
}

#[test]
fn backup_path_now_is_in_backup_dir() {
    let p = backup_path_now();
    assert!(p.starts_with("backups/redb_"), "{p}");
    assert!(p.ends_with(".redb"));
    let secs: u64 = p["backups/redb_".len()..p.len() - ".redb".len()].parse().unwrap();
    assert!(secs > 1_600_000_000);
}
