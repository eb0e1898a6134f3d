//! Severity levels, their order and their names.
//!
//! The names are those of the `log` crate, which is asked for them: a level
//! read from text is whatever `log` reads from it.

use std::cmp::Ordering;
use std::str::FromStr;
use vstd::prelude::*;
use vstd::std_specs::cmp::PartialOrdSpecImpl;

use crate::text::{folded, is_alpha, same_ignoring_case};

verus! {

/// The severity of one log record, most severe first.
#[derive(Clone, Copy, Debug, PartialEq, Eq, Hash, Structural)]
pub enum Level {
    Error,
    Warn,
    Info,
    Debug,
    Trace,
}

/// The most verbose severity that is let through; `Off` lets nothing through.
#[derive(Clone, Copy, Debug, PartialEq, Eq, Hash, Structural)]
pub enum LevelFilter {
    Off,
    Error,
    Warn,
    Info,
    Debug,
    Trace,
}

/// What `log` answers to a text that names no level.
pub const UNKNOWN_LEVEL: &'static str =
    "attempted to convert a string that doesn't match an existing log level";

impl Level {
    /// Position in the severity order: `Error` is 1, `Trace` is 5.
    pub open spec fn rank(self) -> nat {
        match self {
            Level::Error => 1,
            Level::Warn => 2,
            Level::Info => 3,
            Level::Debug => 4,
            Level::Trace => 5,
        }
    }

    /// The name of the level, in capitals.
    pub open spec fn name(self) -> Seq<char> {
        match self {
            Level::Error => "ERROR"@,
            Level::Warn => "WARN"@,
            Level::Info => "INFO"@,
            Level::Debug => "DEBUG"@,
            Level::Trace => "TRACE"@,
        }
    }

    /// The position of the level in the severity order.
    pub fn severity(self) -> (r: u8)
        ensures
            r == self.rank(),
    {
        match self {
            Level::Error => 1,
            Level::Warn => 2,
            Level::Info => 3,
            Level::Debug => 4,
            Level::Trace => 5,
        }
    }

    /// The filter that lets through this level and every more severe one.
    pub fn to_level_filter(self) -> (r: LevelFilter)
        ensures
            r.rank() == self.rank(),
    {
        match self {
            Level::Error => LevelFilter::Error,
            Level::Warn => LevelFilter::Warn,
            Level::Info => LevelFilter::Info,
            Level::Debug => LevelFilter::Debug,
            Level::Trace => LevelFilter::Trace,
        }
    }
}

impl LevelFilter {
    /// Position in the severity order: `Off` is 0, `Trace` is 5.
    pub open spec fn rank(self) -> nat {
        match self {
            LevelFilter::Off => 0,
            LevelFilter::Error => 1,
            LevelFilter::Warn => 2,
            LevelFilter::Info => 3,
            LevelFilter::Debug => 4,
            LevelFilter::Trace => 5,
        }
    }

    /// The name of the filter, in capitals.
    pub open spec fn name(self) -> Seq<char> {
        match self {
            LevelFilter::Off => "OFF"@,
            LevelFilter::Error => "ERROR"@,
            LevelFilter::Warn => "WARN"@,
            LevelFilter::Info => "INFO"@,
            LevelFilter::Debug => "DEBUG"@,
            LevelFilter::Trace => "TRACE"@,
        }
    }

    /// The textual form of the filter: its name in lower case.
    pub open spec fn text(self) -> Seq<char> {
        match self {
            LevelFilter::Off => "off"@,
            LevelFilter::Error => "error"@,
            LevelFilter::Warn => "warn"@,
            LevelFilter::Info => "info"@,
            LevelFilter::Debug => "debug"@,
            LevelFilter::Trace => "trace"@,
        }
    }

    /// Whether a record of severity `level` is emitted under this filter.
    pub open spec fn lets_through(self, level: Level) -> bool {
        level.rank() <= self.rank()
    }

    /// The textual form of the filter: its name in lower case.
    pub fn to_text(self) -> (r: &'static str)
        ensures
            r@ == self.text(),
    {
        match self {
            LevelFilter::Off => "off",
            LevelFilter::Error => "error",
            LevelFilter::Warn => "warn",
            LevelFilter::Info => "info",
            LevelFilter::Debug => "debug",
            LevelFilter::Trace => "trace",
        }
    }

    /// The filter that `text` names, in any case of its letters; a text that
    /// names none is an error, with the words of `log`.
    pub fn from_text(text: &str) -> (r: Result<LevelFilter, String>)
        ensures
            match r {
                Ok(level) => level_filter_named(text@) == Some(level),
                Err(message) => level_filter_named(text@) is None && message@ == UNKNOWN_LEVEL@,
            },
    {
        match level_filter_from_str(text) {
            Ok(level) => Ok(level),
            Err(error) => Err(parse_level_error_text(&error)),
        }
    }

    /// The position of the filter in the severity order.
    pub fn severity(self) -> (r: u8)
        ensures
            r == self.rank(),
    {
        match self {
            LevelFilter::Off => 0,
            LevelFilter::Error => 1,
            LevelFilter::Warn => 2,
            LevelFilter::Info => 3,
            LevelFilter::Debug => 4,
            LevelFilter::Trace => 5,
        }
    }

    /// Whether a record of severity `level` is emitted under this filter.
    pub fn enabled(self, level: Level) -> (r: bool)
        ensures
            r == self.lets_through(level),
    {
        level.severity() <= self.severity()
    }
}

/// The filter that a text names, whatever the case of its ASCII letters.
pub open spec fn level_filter_named(name: Seq<char>) -> Option<LevelFilter> {
    if same_ignoring_case(name, LevelFilter::Off.name()) {
        Some(LevelFilter::Off)
    } else if same_ignoring_case(name, LevelFilter::Error.name()) {
        Some(LevelFilter::Error)
    } else if same_ignoring_case(name, LevelFilter::Warn.name()) {
        Some(LevelFilter::Warn)
    } else if same_ignoring_case(name, LevelFilter::Info.name()) {
        Some(LevelFilter::Info)
    } else if same_ignoring_case(name, LevelFilter::Debug.name()) {
        Some(LevelFilter::Debug)
    } else if same_ignoring_case(name, LevelFilter::Trace.name()) {
        Some(LevelFilter::Trace)
    } else {
        None
    }
}

impl PartialOrd for LevelFilter {
    fn partial_cmp(&self, other: &Self) -> (r: Option<Ordering>) {
        let a = self.severity();
        let b = other.severity();
        if a < b {
            Some(Ordering::Less)
        } else if a == b {
            Some(Ordering::Equal)
        } else {
            Some(Ordering::Greater)
        }
    }
}

impl PartialOrdSpecImpl for LevelFilter {
    open spec fn obeys_partial_cmp_spec() -> bool {
        true
    }

    open spec fn partial_cmp_spec(&self, other: &Self) -> Option<Ordering> {
        if self.rank() < other.rank() {
            Some(Ordering::Less)
        } else if self.rank() == other.rank() {
            Some(Ordering::Equal)
        } else {
            Some(Ordering::Greater)
        }
    }
}

impl PartialOrd for Level {
    fn partial_cmp(&self, other: &Self) -> (r: Option<Ordering>) {
        let a = self.severity();
        let b = other.severity();
        if a < b {
            Some(Ordering::Less)
        } else if a == b {
            Some(Ordering::Equal)
        } else {
            Some(Ordering::Greater)
        }
    }
}

impl PartialOrdSpecImpl for Level {
    open spec fn obeys_partial_cmp_spec() -> bool {
        true
    }

    open spec fn partial_cmp_spec(&self, other: &Self) -> Option<Ordering> {
        if self.rank() < other.rank() {
            Some(Ordering::Less)
        } else if self.rank() == other.rank() {
            Some(Ordering::Equal)
        } else {
            Some(Ordering::Greater)
        }
    }
}

/// The error of `log` for a text that names no level.
#[verifier::external_type_specification]
#[verifier::external_body]
pub struct ExParseLevelError(log::ParseLevelError);

/// `LevelFilter::from_str` of `log`: the text is compared with the six names
/// `OFF`, `ERROR`, `WARN`, `INFO`, `DEBUG` and `TRACE` without regard to ASCII
/// case, and the filter of the name that matches is returned; a text that
/// matches none is an error.
#[verifier::external_body]
pub(crate) fn level_filter_from_str(name: &str) -> (r: Result<LevelFilter, log::ParseLevelError>)
    ensures
        r is Ok <==> level_filter_named(name@) is Some,
        r matches Ok(level) ==> level_filter_named(name@) == Some(level),
{
    match log::LevelFilter::from_str(name) {
        Ok(log::LevelFilter::Off) => Ok(LevelFilter::Off),
        Ok(log::LevelFilter::Error) => Ok(LevelFilter::Error),
        Ok(log::LevelFilter::Warn) => Ok(LevelFilter::Warn),
        Ok(log::LevelFilter::Info) => Ok(LevelFilter::Info),
        Ok(log::LevelFilter::Debug) => Ok(LevelFilter::Debug),
        Ok(log::LevelFilter::Trace) => Ok(LevelFilter::Trace),
        Err(error) => Err(error),
    }
}

/// The `Display` text of `log`'s `ParseLevelError`, which is the same for every
/// such error.
#[verifier::external_body]
pub(crate) fn parse_level_error_text(error: &log::ParseLevelError) -> (r: String)
    ensures
        r@ == UNKNOWN_LEVEL@,
{
    error.to_string()
}

/// `LevelFilter::as_str` of `log`: the name of the filter, in capitals.
#[verifier::external_body]
pub(crate) fn level_filter_as_str(level: LevelFilter) -> (r: &'static str)
    ensures
        r@ == level.name(),
{
    let filter = match level {
        LevelFilter::Off => log::LevelFilter::Off,
        LevelFilter::Error => log::LevelFilter::Error,
        LevelFilter::Warn => log::LevelFilter::Warn,
        LevelFilter::Info => log::LevelFilter::Info,
        LevelFilter::Debug => log::LevelFilter::Debug,
        LevelFilter::Trace => log::LevelFilter::Trace,
    };
    filter.as_str()
}

/// `Level::as_str` of `log`: the name of the level, in capitals.
#[verifier::external_body]
pub(crate) fn level_as_str(level: Level) -> (r: &'static str)
    ensures
        r@ == level.name(),
{
    let level = match level {
        Level::Error => log::Level::Error,
        Level::Warn => log::Level::Warn,
        Level::Info => log::Level::Info,
        Level::Debug => log::Level::Debug,
        Level::Trace => log::Level::Trace,
    };
    level.as_str()
}

/// The severity order: `Off` lets no record through, and of two filters the
/// more verbose one lets through every record that the other does and at least
/// one severity more.
pub proof fn lemma_severity_order(quiet: LevelFilter, verbose: LevelFilter)
    requires
        quiet.rank() < verbose.rank(),
    ensures
        forall|level: Level| !LevelFilter::Off.lets_through(level),
        forall|level: Level| quiet.lets_through(level) ==> verbose.lets_through(level),
        exists|level: Level| verbose.lets_through(level) && !quiet.lets_through(level),
{
    let witness = match verbose {
        LevelFilter::Off => Level::Error,
        LevelFilter::Error => Level::Error,
        LevelFilter::Warn => Level::Warn,
        LevelFilter::Info => Level::Info,
        LevelFilter::Debug => Level::Debug,
        LevelFilter::Trace => Level::Trace,
    };
    assert(verbose.lets_through(witness) && !quiet.lets_through(witness));
}

/// A filter is read back from its textual form, and from its name in
/// capitals.
pub proof fn lemma_level_text_round_trip(level: LevelFilter)
    ensures
        level_filter_named(level.text()) == Some(level),
        level_filter_named(level.name()) == Some(level),
{
    reveal_strlit("off");
    reveal_strlit("error");
    reveal_strlit("warn");
    reveal_strlit("info");
    reveal_strlit("debug");
    reveal_strlit("trace");
    reveal_strlit("OFF");
    reveal_strlit("ERROR");
    reveal_strlit("WARN");
    reveal_strlit("INFO");
    reveal_strlit("DEBUG");
    reveal_strlit("TRACE");
    let off = folded(LevelFilter::Off.name());
    let error = folded(LevelFilter::Error.name());
    let warn = folded(LevelFilter::Warn.name());
    let info = folded(LevelFilter::Info.name());
    let debug = folded(LevelFilter::Debug.name());
    let trace = folded(LevelFilter::Trace.name());
    assert(off.len() == 3 && error.len() == 5 && warn.len() == 4 && info.len() == 4);
    assert(debug.len() == 5 && trace.len() == 5);
    assert(warn[0] == 'w' && info[0] == 'i');
    assert(error[0] == 'e' && debug[0] == 'd' && trace[0] == 't');
    assert(folded(level.text()) =~= folded(level.name()));
}

/// The textual form of a filter is made of letters, and of one at least.
pub proof fn lemma_level_text_is_letters(level: LevelFilter)
    ensures
        level.text().len() > 0,
        forall|i: int| 0 <= i < level.text().len() ==> is_alpha(#[trigger] level.text()[i]),
{
    reveal_strlit("off");
    reveal_strlit("error");
    reveal_strlit("warn");
    reveal_strlit("info");
    reveal_strlit("debug");
    reveal_strlit("trace");
}

/// The six filters stand in one chain, from `Off` to `Trace`.
pub proof fn lemma_severity_chain()
    ensures
        LevelFilter::Off.rank() < LevelFilter::Error.rank() < LevelFilter::Warn.rank()
            < LevelFilter::Info.rank() < LevelFilter::Debug.rank() < LevelFilter::Trace.rank(),
        forall|a: LevelFilter, b: LevelFilter| a.rank() == b.rank() ==> a == b,
{
}

} // verus!
