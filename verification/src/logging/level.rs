//! Levels: the verbosity an event carries and the most verbose level a
//! filter lets through, ordered as tracing orders them.

use vstd::prelude::*;

use crate::config::values::{parse_unsigned, parse_unsigned_text};
use crate::text::{eq_ignore_case, lower};

verus! {

/// The most verbose level a filter admits; `Off` admits nothing.
#[derive(Debug, Clone, Copy, PartialEq, Eq, Structural)]
pub enum LevelFilter {
    Off,
    Error,
    Warn,
    Info,
    Debug,
    Trace,
}

/// An event's level.
#[derive(Debug, Clone, Copy, PartialEq, Eq, Structural)]
pub enum Level {
    Error,
    Warn,
    Info,
    Debug,
    Trace,
}

/// How verbose a filter is: `Off` is 0, `Trace` 5.
pub open spec fn filter_rank(f: LevelFilter) -> nat {
    match f {
        LevelFilter::Off => 0,
        LevelFilter::Error => 1,
        LevelFilter::Warn => 2,
        LevelFilter::Info => 3,
        LevelFilter::Debug => 4,
        LevelFilter::Trace => 5,
    }
}

/// How verbose an event is: `Error` is 1, `Trace` 5.
pub open spec fn level_rank(l: Level) -> nat {
    match l {
        Level::Error => 1,
        Level::Warn => 2,
        Level::Info => 3,
        Level::Debug => 4,
        Level::Trace => 5,
    }
}

/// The filter a number names, 0 (off) to 5 (trace).
pub open spec fn filter_of_number(n: nat) -> Option<LevelFilter> {
    if n == 0 {
        Some(LevelFilter::Off)
    } else if n == 1 {
        Some(LevelFilter::Error)
    } else if n == 2 {
        Some(LevelFilter::Warn)
    } else if n == 3 {
        Some(LevelFilter::Info)
    } else if n == 4 {
        Some(LevelFilter::Debug)
    } else if n == 5 {
        Some(LevelFilter::Trace)
    } else {
        None
    }
}

/// `LevelFilter::from_str` as tracing reads it: a number 0 to 5, else the
/// empty text (error) or a level name in any case.
pub open spec fn parse_level_spec(text: Seq<char>) -> Option<LevelFilter> {
    let by_number = match parse_unsigned(text, usize::MAX as nat) {
        Ok(n) => filter_of_number(n),
        Err(_) => None,
    };
    if by_number is Some {
        by_number
    } else if text.len() == 0 {
        Some(LevelFilter::Error)
    } else if lower(text) == "error"@ {
        Some(LevelFilter::Error)
    } else if lower(text) == "warn"@ {
        Some(LevelFilter::Warn)
    } else if lower(text) == "info"@ {
        Some(LevelFilter::Info)
    } else if lower(text) == "debug"@ {
        Some(LevelFilter::Debug)
    } else if lower(text) == "trace"@ {
        Some(LevelFilter::Trace)
    } else if lower(text) == "off"@ {
        Some(LevelFilter::Off)
    } else {
        None
    }
}

/// Whether an event at `level` passes a filter at `allowed`.
pub open spec fn passes(level: Level, allowed: LevelFilter) -> bool {
    level_rank(level) <= filter_rank(allowed)
}

pub fn parse_level_filter(text: &str) -> (r: Option<LevelFilter>)
    ensures
        r == parse_level_spec(text@),
{
    proof {
        reveal_strlit("error");
        reveal_strlit("warn");
        reveal_strlit("info");
        reveal_strlit("debug");
        reveal_strlit("trace");
        reveal_strlit("off");
        assert(lower("error"@) =~= "error"@);
        assert(lower("warn"@) =~= "warn"@);
        assert(lower("info"@) =~= "info"@);
        assert(lower("debug"@) =~= "debug"@);
        assert(lower("trace"@) =~= "trace"@);
        assert(lower("off"@) =~= "off"@);
    }
    match parse_unsigned_text(text, usize::MAX as u64) {
        Ok(n) => {
            if n <= 5 {
                return Some(
                    if n == 0 {
                        LevelFilter::Off
                    } else if n == 1 {
                        LevelFilter::Error
                    } else if n == 2 {
                        LevelFilter::Warn
                    } else if n == 3 {
                        LevelFilter::Info
                    } else if n == 4 {
                        LevelFilter::Debug
                    } else {
                        LevelFilter::Trace
                    },
                );
            }
        },
        Err(_) => {},
    }
    if text.unicode_len() == 0 {
        Some(LevelFilter::Error)
    } else if eq_ignore_case(text, "error") {
        Some(LevelFilter::Error)
    } else if eq_ignore_case(text, "warn") {
        Some(LevelFilter::Warn)
    } else if eq_ignore_case(text, "info") {
        Some(LevelFilter::Info)
    } else if eq_ignore_case(text, "debug") {
        Some(LevelFilter::Debug)
    } else if eq_ignore_case(text, "trace") {
        Some(LevelFilter::Trace)
    } else if eq_ignore_case(text, "off") {
        Some(LevelFilter::Off)
    } else {
        None
    }
}

pub fn admits_level(level: Level, allowed: LevelFilter) -> (r: bool)
    ensures
        r == passes(level, allowed),
{
    let l: u8 = match level {
        Level::Error => 1,
        Level::Warn => 2,
        Level::Info => 3,
        Level::Debug => 4,
        Level::Trace => 5,
    };
    let a: u8 = match allowed {
        LevelFilter::Off => 0,
        LevelFilter::Error => 1,
        LevelFilter::Warn => 2,
        LevelFilter::Info => 3,
        LevelFilter::Debug => 4,
        LevelFilter::Trace => 5,
    };
    l <= a
}

} // verus!
