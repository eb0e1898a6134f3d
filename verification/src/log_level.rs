//! The level names that a configuration may carry, and their reading.

use vstd::prelude::*;
use vstd::string::*;

use crate::severity::{level_filter_named, lemma_level_text_round_trip, LevelFilter};
use crate::text::{eq_ignoring_case, same_ignoring_case};

verus! {

/// The name of the level `Trace`.
pub const TRACE: &'static str = "trace";

/// The name of the level `Debug`.
pub const DEBUG: &'static str = "debug";

/// The name of the level `Info`.
pub const INFO: &'static str = "info";

/// The name of the level `Warn`.
pub const WARN: &'static str = "warn";

/// The name of the level `Error`.
pub const ERROR: &'static str = "error";

/// The name of the level `Off`, at which nothing is emitted.
pub const OFF: &'static str = "off";

/// The filter that a level name stands for, whatever the case of its ASCII
/// letters.
pub open spec fn level_of(level: Seq<char>) -> Option<LevelFilter> {
    if same_ignoring_case(level, TRACE@) {
        Some(LevelFilter::Trace)
    } else if same_ignoring_case(level, DEBUG@) {
        Some(LevelFilter::Debug)
    } else if same_ignoring_case(level, INFO@) {
        Some(LevelFilter::Info)
    } else if same_ignoring_case(level, WARN@) {
        Some(LevelFilter::Warn)
    } else if same_ignoring_case(level, ERROR@) {
        Some(LevelFilter::Error)
    } else if same_ignoring_case(level, OFF@) {
        Some(LevelFilter::Off)
    } else {
        None
    }
}

/// The error for a text that is no level name.
pub open spec fn unknown_level_message(level: Seq<char>) -> Seq<char> {
    "unknown log_level:"@ + level + ",one of:[trace,debug,info,warn,error,off]"@
}

/// The filter for a level name, or `Debug` where the text is no level name.
pub open spec fn level_or_debug(level: Seq<char>) -> LevelFilter {
    match level_of(level) {
        Some(filter) => filter,
        None => LevelFilter::Debug,
    }
}

/// Reads a level name; a text that is none falls back to `Debug`.
pub fn form_log_level(level: &str) -> (r: LevelFilter)
    ensures
        r == level_or_debug(level@),
{
    match validate_log_level(level) {
        Ok(filter) => filter,
        Err(_) => LevelFilter::Debug,
    }
}

/// Reads a level name; a text that is none is an error that quotes it and
/// lists the names.
pub fn validate_log_level(level: &str) -> (r: Result<LevelFilter, String>)
    ensures
        match r {
            Ok(filter) => level_of(level@) == Some(filter),
            Err(message) => level_of(level@) is None && message@ == unknown_level_message(level@),
        },
{
    if eq_ignoring_case(level, TRACE) {
        Ok(LevelFilter::Trace)
    } else if eq_ignoring_case(level, DEBUG) {
        Ok(LevelFilter::Debug)
    } else if eq_ignoring_case(level, INFO) {
        Ok(LevelFilter::Info)
    } else if eq_ignoring_case(level, WARN) {
        Ok(LevelFilter::Warn)
    } else if eq_ignoring_case(level, ERROR) {
        Ok(LevelFilter::Error)
    } else if eq_ignoring_case(level, OFF) {
        Ok(LevelFilter::Off)
    } else {
        let mut message = "unknown log_level:".to_owned();
        message.append(level);
        message.append(",one of:[trace,debug,info,warn,error,off]");
        Err(message)
    }
}

/// The level names of a configuration are the names that `log` knows, and
/// every filter is read back from its textual form.
pub proof fn lemma_level_names_are_those_of_log(level: Seq<char>, filter: LevelFilter)
    ensures
        level_of(level) == level_filter_named(level),
        level_of(filter.text()) == Some(filter),
        level_or_debug(filter.text()) == filter,
{
    reveal_strlit("trace");
    reveal_strlit("debug");
    reveal_strlit("info");
    reveal_strlit("warn");
    reveal_strlit("error");
    reveal_strlit("off");
    lemma_level_text_round_trip(LevelFilter::Off);
    lemma_level_text_round_trip(LevelFilter::Error);
    lemma_level_text_round_trip(LevelFilter::Warn);
    lemma_level_text_round_trip(LevelFilter::Info);
    lemma_level_text_round_trip(LevelFilter::Debug);
    lemma_level_text_round_trip(LevelFilter::Trace);
    assert(TRACE@ == LevelFilter::Trace.text());
    assert(DEBUG@ == LevelFilter::Debug.text());
    assert(INFO@ == LevelFilter::Info.text());
    assert(WARN@ == LevelFilter::Warn.text());
    assert(ERROR@ == LevelFilter::Error.text());
    assert(OFF@ == LevelFilter::Off.text());
    lemma_level_text_round_trip(filter);
}

} // verus!
