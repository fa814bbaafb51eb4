//! Log line and timestamp formatting for the stderr logger, and logger
//! start-up.

use vstd::prelude::*;
use crate::text::{decimal, digit_char, lemma_decimal_len, lemma_three_digits, lemma_two_digits, lemma_zero_padded_len, push_decimal, push_zero_padded, zero_padded};

verus! {

/// A clock reading.
#[verifier::external_type_specification]
#[verifier::external_body]
pub struct ExSystemTime(std::time::SystemTime);

/// The error of reading a clock that stands before the given instant.
#[verifier::external_type_specification]
#[verifier::external_body]
pub struct ExSystemTimeError(std::time::SystemTimeError);

/// `SystemTime::now`: the current time of the system clock; nothing is
/// claimed of its value.
pub assume_specification[ std::time::SystemTime::now ]() -> std::time::SystemTime;

/// `SystemTime::duration_since`: the time from `earlier` to `t`, or an error
/// when `earlier` is later; nothing is claimed of which.
pub assume_specification[ std::time::SystemTime::duration_since ](
    t: &std::time::SystemTime,
    earlier: std::time::SystemTime,
) -> Result<core::time::Duration, std::time::SystemTimeError>;

/// `Duration::as_secs`: the whole seconds of a duration; nothing more is
/// claimed, a duration being opaque here.
pub assume_specification[ core::time::Duration::as_secs ](d: &core::time::Duration) -> u64;

/// `Duration::subsec_millis`: the whole milliseconds of the fractional
/// second of a duration, which its documentation bounds below one thousand.
pub assume_specification[ core::time::Duration::subsec_millis ](d: &core::time::Duration) -> (ms:
    u32)
    ensures
        ms < 1000,
;

/// `std::time::UNIX_EPOCH`, the instant that Unix time counts from.
#[verifier::external_body]
fn unix_epoch() -> std::time::SystemTime {
    std::time::UNIX_EPOCH
}

/// The most verbose level that the runtime filter lets through.
pub enum MaxLevel {
    Off,
    Error,
    Warn,
    Info,
    Debug,
    Trace,
}

/// Severity of a log record, most severe first.
pub enum LogLevel {
    Error,
    Warn,
    Info,
    Debug,
    Trace,
}

/// The level as it stands in a log line: its name, left-aligned in a
/// field of five characters.
pub open spec fn level_label(level: LogLevel) -> Seq<char> {
    match level {
        LogLevel::Error => "ERROR"@,
        LogLevel::Warn => "WARN "@,
        LogLevel::Info => "INFO "@,
        LogLevel::Debug => "DEBUG"@,
        LogLevel::Trace => "TRACE"@,
    }
}

/// Debug and trace lines also name the source file and line.
pub open spec fn shows_location(level: LogLevel) -> bool {
    level is Debug || level is Trace
}

/// One log line:
/// `{ts} [{level}] [{target}] {file}:{line} — {msg}` for debug and trace,
/// `{ts} [{level}] [{target}] {msg}` otherwise; a missing file reads
/// `<unknown>` and a missing line number reads `0`.
pub open spec fn record_text(
    ts: Seq<char>,
    level: LogLevel,
    target: Seq<char>,
    file: Option<Seq<char>>,
    line: Option<u32>,
    msg: Seq<char>,
) -> Seq<char> {
    let head = ts + " ["@ + level_label(level) + "] ["@ + target + "] "@;
    let location = if shows_location(level) {
        (match file {
            Some(f) => f,
            None => "<unknown>"@,
        }) + ":"@ + decimal(
            match line {
                Some(n) => n as nat,
                None => 0,
            },
        ) + " — "@
    } else {
        Seq::<char>::empty()
    };
    head + location + msg
}

/// Formats one log record as a line (without the newline).
pub fn format_record(
    ts: &str,
    level: LogLevel,
    target: &str,
    file: Option<&str>,
    line: Option<u32>,
    msg: &str,
) -> (out: String)
    ensures
        out@ == record_text(
            ts@,
            level,
            target@,
            match file {
                Some(f) => Some(f@),
                None => None,
            },
            line,
            msg@,
        ),
{
    let mut out = String::from_str(ts);
    out.append(" [");
    let label = match level {
        LogLevel::Error => "ERROR",
        LogLevel::Warn => "WARN ",
        LogLevel::Info => "INFO ",
        LogLevel::Debug => "DEBUG",
        LogLevel::Trace => "TRACE",
    };
    out.append(label);
    out.append("] [");
    out.append(target);
    out.append("] ");
    let ghost head = out@;
    let located = match level {
        LogLevel::Debug => true,
        LogLevel::Trace => true,
        _ => false,
    };
    if located {
        let f = match file {
            Some(f) => f,
            None => "<unknown>",
        };
        out.append(f);
        out.append(":");
        let n: u32 = match line {
            Some(n) => n,
            None => 0,
        };
        push_decimal(&mut out, n as u64);
        out.append(" — ");
    }
    let ghost with_location = out@;
    out.append(msg);
    proof {
        let fv = match file {
            Some(f) => Some(f@),
            None => None,
        };
        let expected = record_text(ts@, level, target@, fv, line, msg@);
        assert(out@ =~= expected);
    }
    out
}

/// A time of day `HH:MM:SS.mmm` (UTC) for `secs` seconds and `millis`
/// milliseconds after the Unix epoch.
pub open spec fn timestamp_text(secs: u64, millis: u32) -> Seq<char> {
    zero_padded(((secs / 3600) % 24) as nat, 2) + ":"@ + zero_padded(((secs / 60) % 60) as nat, 2)
        + ":"@ + zero_padded((secs % 60) as nat, 2) + "."@ + zero_padded(millis as nat, 3)
}

/// Formats a time of day as `HH:MM:SS.mmm`.
pub fn format_timestamp(secs: u64, millis: u32) -> (out: String)
    requires
        millis < 1000,
    ensures
        out@ == timestamp_text(secs, millis),
{
    let h: u64 = (secs / 3600) % 24;
    let m: u64 = (secs / 60) % 60;
    let s: u64 = secs % 60;
    let mut out = String::new();
    push_zero_padded(&mut out, h, 2);
    out.append(":");
    push_zero_padded(&mut out, m, 2);
    out.append(":");
    push_zero_padded(&mut out, s, 2);
    out.append(".");
    push_zero_padded(&mut out, millis as u64, 3);
    assert(out@ =~= timestamp_text(secs, millis));
    out
}

/// The system clock as whole seconds and milliseconds since the Unix
/// epoch; `None` when the clock stands before 1970.
pub(crate) fn since_unix_epoch() -> (r: Option<(u64, u32)>)
    ensures
        r matches Some(t) ==> t.1 < 1000,
{
    let now = std::time::SystemTime::now();
    match now.duration_since(unix_epoch()) {
        Ok(d) => Some((d.as_secs(), d.subsec_millis())),
        Err(_) => None,
    }
}

/// Seconds and milliseconds of a clock reading, a clock before 1970
/// counting as zero elapsed.
pub open spec fn reading_or_epoch(reading: Option<(u64, u32)>) -> (u64, u32) {
    match reading {
        Some(t) => t,
        None => (0, 0),
    }
}

/// The time of day `HH:MM:SS.mmm` of a clock reading (seconds and
/// milliseconds since the Unix epoch); a clock before 1970 (`None`) reads
/// `00:00:00.000`.
pub fn format_clock_reading(reading: Option<(u64, u32)>) -> (out: String)
    requires
        reading matches Some(t) ==> t.1 < 1000,
    ensures
        out@ == timestamp_text(reading_or_epoch(reading).0, reading_or_epoch(reading).1),
{
    match reading {
        Some((secs, millis)) => format_timestamp(secs, millis),
        None => format_timestamp(0, 0),
    }
}

/// The current UTC time of day as `HH:MM:SS.mmm`, read from the system
/// clock (a clock set before 1970 reads as midnight).
pub fn current_timestamp() -> (out: String)
    ensures
        exists|reading: Option<(u64, u32)>|
            (reading matches Some(t) ==> t.1 < 1000) && out@ == timestamp_text(
                reading_or_epoch(reading).0,
                reading_or_epoch(reading).1,
            ),
{
    format_clock_reading(since_unix_epoch())
}

/// Completes logger start-up once the logger has been registered:
/// `registration` is the outcome of registering it.  On success the result
/// is the runtime maximum level to apply, `Trace`, which lets every level
/// through (the levels compiled in do the filtering); on failure no level
/// is to be applied and the registration error is handed back unchanged.
pub fn init(registration: Result<(), log::SetLoggerError>) -> (r: Result<MaxLevel, log::SetLoggerError>)
    ensures
        registration is Ok <==> r == Ok::<MaxLevel, log::SetLoggerError>(MaxLevel::Trace),
        registration is Err ==> r is Err && r->Err_0 == registration->Err_0,
{
    match registration {
        Ok(()) => Ok(MaxLevel::Trace),
        Err(e) => Err(e),
    }
}

/// Every timestamp has the shape `HH:MM:SS.mmm`: twelve characters, with
/// `:` at positions 2 and 5 and `.` at position 8.
pub proof fn timestamp_has_fixed_shape(secs: u64, millis: u32)
    requires
        millis < 1000,
    ensures
        timestamp_text(secs, millis).len() == 12,
        timestamp_text(secs, millis)[2] == ':',
        timestamp_text(secs, millis)[5] == ':',
        timestamp_text(secs, millis)[8] == '.',
{
    let h = ((secs / 3600) % 24) as nat;
    let m = ((secs / 60) % 60) as nat;
    let s = (secs % 60) as nat;
    lemma_decimal_len(h);
    lemma_decimal_len(m);
    lemma_decimal_len(s);
    lemma_decimal_len(millis as nat);
    lemma_zero_padded_len(h, 2);
    lemma_zero_padded_len(m, 2);
    lemma_zero_padded_len(s, 2);
    lemma_zero_padded_len(millis as nat, 3);
    reveal_strlit(":");
    reveal_strlit(".");
    let t = timestamp_text(secs, millis);
    assert(t == zero_padded(h, 2) + ":"@ + zero_padded(m, 2) + ":"@ + zero_padded(s, 2) + "."@
        + zero_padded(millis as nat, 3));
}

/// A clock set before 1970 reads as midnight, `00:00:00.000`.
pub proof fn clock_before_epoch_reads_midnight()
    ensures
        timestamp_text(reading_or_epoch(None).0, reading_or_epoch(None).1) == "00:00:00.000"@,
{
    reveal_strlit("00:00:00.000");
    reveal_strlit(":");
    reveal_strlit(".");
    assert(decimal(0) == seq!['0']);
    assert(zero_padded(0, 2) =~= seq!['0', '0']);
    assert(zero_padded(0, 3) =~= seq!['0', '0', '0']);
    assert(timestamp_text(0, 0) =~= "00:00:00.000"@);
}

/// The stamp of a clock reading spells out its UTC time of day digit by
/// digit: hours (of the day), minutes and seconds in two digits each and
/// milliseconds in three, separated by `:`, `:` and `.`.
pub proof fn timestamp_spells_time_of_day(secs: u64, millis: u32)
    requires
        millis < 1000,
    ensures
        ({
            let h = (secs / 3600) % 24;
            let m = (secs / 60) % 60;
            let s = secs % 60;
            timestamp_text(secs, millis) == seq![
                digit_char((h / 10) as int),
                digit_char((h % 10) as int),
                ':',
                digit_char((m / 10) as int),
                digit_char((m % 10) as int),
                ':',
                digit_char((s / 10) as int),
                digit_char((s % 10) as int),
                '.',
                digit_char((millis / 100) as int),
                digit_char(((millis / 10) % 10) as int),
                digit_char((millis % 10) as int),
            ]
        }),
{
    let h = (secs / 3600) % 24;
    let m = (secs / 60) % 60;
    let s = secs % 60;
    lemma_two_digits(h as nat);
    lemma_two_digits(m as nat);
    lemma_two_digits(s as nat);
    lemma_three_digits(millis as nat);
    reveal_strlit(":");
    reveal_strlit(".");
    assert(timestamp_text(secs, millis) =~= seq![
        digit_char((h / 10) as int),
        digit_char((h % 10) as int),
        ':',
        digit_char((m / 10) as int),
        digit_char((m % 10) as int),
        ':',
        digit_char((s / 10) as int),
        digit_char((s % 10) as int),
        '.',
        digit_char((millis / 100) as int),
        digit_char(((millis / 10) % 10) as int),
        digit_char((millis % 10) as int),
    ]);
}

} // verus!
