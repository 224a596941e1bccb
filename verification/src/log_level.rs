//! Choosing the log level from an optional setting such as the `LOG`
//! environment variable given at build time.
use core::str::FromStr;
use vstd::prelude::*;

verus! {

/// A maximum log level.
#[derive(Clone, Copy, PartialEq, Eq, Structural, Debug)]
pub enum LogLevel {
    /// Nothing is logged.
    Off,
    /// Errors only.
    Error,
    /// Warnings and above.
    Warn,
    /// Information and above.
    Info,
    /// Debugging messages and above.
    Debug,
    /// Everything.
    Trace,
}

/// `c` with ASCII lower-case letters turned to upper case.
pub open spec fn ascii_upper(c: char) -> char {
    if 'a' <= c && c <= 'z' {
        ((c as u32) - 32) as char
    } else {
        c
    }
}

/// Whether `s` spells the upper-case ASCII word `name`, ignoring ASCII case.
pub open spec fn spells(s: Seq<char>, name: Seq<char>) -> bool {
    s.len() == name.len() && forall|i: int| 0 <= i < s.len() ==> #[trigger] ascii_upper(s[i]) == name[i]
}

/// The level whose name `s` is, ignoring ASCII case: `OFF`, `ERROR`, `WARN`,
/// `INFO`, `DEBUG` or `TRACE`.
pub open spec fn level_named(s: Seq<char>) -> Option<LogLevel> {
    if spells(s, seq!['O', 'F', 'F']) {
        Some(LogLevel::Off)
    } else if spells(s, seq!['E', 'R', 'R', 'O', 'R']) {
        Some(LogLevel::Error)
    } else if spells(s, seq!['W', 'A', 'R', 'N']) {
        Some(LogLevel::Warn)
    } else if spells(s, seq!['I', 'N', 'F', 'O']) {
        Some(LogLevel::Info)
    } else if spells(s, seq!['D', 'E', 'B', 'U', 'G']) {
        Some(LogLevel::Debug)
    } else if spells(s, seq!['T', 'R', 'A', 'C', 'E']) {
        Some(LogLevel::Trace)
    } else {
        None
    }
}

/// The level a setting selects: the named level, and `Trace` when the
/// setting is missing or names no level.
pub open spec fn level_for(env: Option<Seq<char>>) -> LogLevel {
    match env {
        Some(s) => match level_named(s) {
            Some(l) => l,
            None => LogLevel::Trace,
        },
        None => LogLevel::Trace,
    }
}

/// Parses a level name with the `log` crate's `LevelFilter::from_str`, which
/// compares the text, ignoring ASCII case, with the names `OFF`, `ERROR`,
/// `WARN`, `INFO`, `DEBUG` and `TRACE`.
#[verifier::external_body]
fn parse_level(s: &str) -> (r: Option<LogLevel>)
    ensures
        r == level_named(s@),
{
    match log::LevelFilter::from_str(s) {
        Ok(log::LevelFilter::Off) => Some(LogLevel::Off),
        Ok(log::LevelFilter::Error) => Some(LogLevel::Error),
        Ok(log::LevelFilter::Warn) => Some(LogLevel::Warn),
        Ok(log::LevelFilter::Info) => Some(LogLevel::Info),
        Ok(log::LevelFilter::Debug) => Some(LogLevel::Debug),
        Ok(log::LevelFilter::Trace) => Some(LogLevel::Trace),
        Err(_) => None,
    }
}

/// Sets the `log` crate's global maximum level with `log::set_max_level`.
/// Nothing is stated of the global it changes.
#[verifier::external_body]
fn set_max_level(level: LogLevel) {
    log::set_max_level(match level {
        LogLevel::Off => log::LevelFilter::Off,
        LogLevel::Error => log::LevelFilter::Error,
        LogLevel::Warn => log::LevelFilter::Warn,
        LogLevel::Info => log::LevelFilter::Info,
        LogLevel::Debug => log::LevelFilter::Debug,
        LogLevel::Trace => log::LevelFilter::Trace,
    });
}

/// The level a setting selects.
pub fn log_level_for(env: Option<&str>) -> (r: LogLevel)
    ensures
        r == level_for(
            match env {
                Some(s) => Some(s@),
                None => None,
            },
        ),
{
    match env {
        Some(s) => match parse_level(s) {
            Some(level) => level,
            None => LogLevel::Trace,
        },
        None => LogLevel::Trace,
    }
}

/// Sets the maximum log level from the setting `env` and returns the level
/// set: the named level, and `Trace` when the setting is missing or names no
/// level.
pub fn set_log_level(env: Option<&str>) -> (r: LogLevel)
    ensures
        r == level_for(
            match env {
                Some(s) => Some(s@),
                None => None,
            },
        ),
{
    let level = log_level_for(env);
    set_max_level(level);
    level
}

} // verus!
