use micro_template::errors::{AppError, AuthError, ConfigError, DbError};
use micro_template::logging::{current_timestamp, format_clock_reading, format_record, format_timestamp, init, LogLevel, MaxLevel};
use micro_template::login::{user_login, LoginReply};
use micro_template::maintenance::{backup_dir, backup_path, daily_first, daily_next, DailyStep, MaintenanceClock};

#[test]
fn auth_failures_are_unauthorized() {
    assert_eq!(AppError::Auth(AuthError::InvalidCredentials).status_code(), 401);
    assert_eq!(AppError::Auth(AuthError::TokenExpired).status_code(), 401);
    assert_eq!(AppError::Auth(AuthError::InvalidToken).status_code(), 401);
    assert_eq!(AppError::Token("expired".to_string()).status_code(), 401);
}

#[test]
fn malformed_requests_are_bad_request() {
    assert_eq!(AppError::Auth(AuthError::MalformedRequest("x".to_string())).status_code(), 400);
    assert_eq!(AppError::Auth(AuthError::MissingField("username".to_string())).status_code(), 400);
}

#[test]
fn other_errors_are_internal() {
    assert_eq!(AppError::Auth(AuthError::UserNotFound("bob".to_string())).status_code(), 500);
    assert_eq!(
        AppError::Auth(AuthError::AccountInactive("bob".to_string(), "banned".to_string())).status_code(),
        500
    );
    assert_eq!(AppError::Db(DbError::NoBuffer).status_code(), 500);
    assert_eq!(AppError::Config(ConfigError::MissingKey("K".to_string())).status_code(), 500);
    assert_eq!(AppError::Other("boom".to_string()).status_code(), 500);
    let io = std::io::Error::new(std::io::ErrorKind::Other, "disk");
    assert_eq!(AppError::Io(io).status_code(), 500);
}

#[test]
fn login_without_username_is_refused() {
    for name in [None, Some(""), Some("<none>")] {
        match user_login(name) {
            Err(AuthError::MissingField(f)) => assert_eq!(f, "username"),
            _ => panic!("expected MissingField for {name:?}"),
        }
    }
}

#[test]
fn login_with_username_succeeds_with_zero_tokens() {
    match user_login(Some("alice")) {
        Ok(LoginReply::Success { refresh, session }) => {
            assert_eq!(refresh, [0u8; 21]);
            assert_eq!(session, [0u8; 11]);
        },
        _ => panic!("expected success"),
    }
}

#[test]
fn timestamp_is_zero_padded() {
    assert_eq!(format_timestamp(3661, 5), "01:01:01.005");
    assert_eq!(format_timestamp(0, 0), "00:00:00.000");
    assert_eq!(format_timestamp(86399, 999), "23:59:59.999");
    assert_eq!(format_timestamp(86400 + 45296, 120), "12:34:56.120");
}

#[test]
fn current_timestamp_has_fixed_shape() {
    let ts = current_timestamp();
    let cs: Vec<char> = ts.chars().collect();
    assert_eq!(cs.len(), 12, "{ts}");
    assert_eq!(cs[2], ':');
    assert_eq!(cs[5], ':');
    assert_eq!(cs[8], '.');
    assert!(cs.iter().enumerate().all(|(i, c)| [2, 5, 8].contains(&i) || c.is_ascii_digit()));
    let ms: u32 = ts[9..].parse().unwrap();
    assert!(ms < 1000);
}

#[test]
fn info_record_has_no_location() {
    let line = format_record("12:00:00.000", LogLevel::Info, "app", Some("src/main.rs"), Some(7), "hello");
    assert_eq!(line, "12:00:00.000 [INFO ] [app] hello");
    let line = format_record("t", LogLevel::Error, "db", None, None, "bad");
    assert_eq!(line, "t [ERROR] [db] bad");
    let line = format_record("t", LogLevel::Warn, "db", None, None, "w");
    assert_eq!(line, "t [WARN ] [db] w");
}

#[test]
fn debug_and_trace_records_name_file_and_line() {
    let line = format_record("t", LogLevel::Debug, "app", Some("src/lib.rs"), Some(42), "m");
    assert_eq!(line, "t [DEBUG] [app] src/lib.rs:42 — m");
    let line = format_record("t", LogLevel::Trace, "app", None, None, "m");
    assert_eq!(line, "t [TRACE] [app] <unknown>:0 — m");
}

#[test]
fn logger_start_up_applies_trace_level() {
    assert!(matches!(init(Ok(())), Ok(MaxLevel::Trace)));
}

struct QuietLogger;

impl log::Log for QuietLogger {
    fn enabled(&self, _: &log::Metadata) -> bool {
        false
    }
    fn log(&self, _: &log::Record) {}
    fn flush(&self) {}
}

static QUIET: QuietLogger = QuietLogger;

#[test]
fn failed_registration_applies_no_level() {
    let _ = log::set_logger(&QUIET);
    let second = log::set_logger(&QUIET);
    assert!(second.is_err());
    assert!(init(second).is_err());
}

#[test]
fn daily_maintenance_every_day_of_ticks() {
    let mut clock = MaintenanceClock::new(3600);
    for tick in 1..=48u32 {
        let daily = clock.advance();
        assert_eq!(daily, tick % 24 == 0, "tick {tick}");
    }
}

#[test]
fn tick_longer_than_a_day_is_never_daily_until_wrap() {
    let mut clock = MaintenanceClock::new(100_000);
    for _ in 0..10 {
        assert!(!clock.advance());
    }
}

#[test]
fn backup_path_names_time() {
    assert_eq!(backup_dir(), "backups");
    assert_eq!(backup_path(1700000000), "backups/redb_1700000000.redb");
    assert_eq!(backup_path(0), "backups/redb_0.redb");
}

#[test]
fn clock_before_epoch_reads_midnight() {
    assert_eq!(format_clock_reading(None), "00:00:00.000");
    assert_eq!(format_clock_reading(Some((3661, 5))), "01:01:01.005");
}

#[test]
fn daily_loop_waits_compacts_then_backs_up() {
    let s = daily_first();
    assert!(matches!(s, DailyStep::Sleep { secs: 86400 }));
    let s = daily_next(s);
    assert!(matches!(s, DailyStep::Compact));
    let s = daily_next(s);
    assert!(matches!(s, DailyStep::Backup));
    let s = daily_next(s);
    assert!(matches!(s, DailyStep::Sleep { secs: 86400 }));
}
