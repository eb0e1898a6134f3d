//! Levels as they are written: the types that can stand for a level name, the
//! level of one target, and the reading of a directive.

use vstd::prelude::*;
use vstd::std_specs::convert::FromSpecImpl;
use vstd::string::*;

use crate::severity::{level_as_str, level_filter_as_str, Level, LevelFilter};

pub mod parser;
pub mod written;

pub use parser::{parse_directive, parse_level, ParseError};

verus! {

/// What a [`TargetLevel`] holds, as plain values.
pub struct TargetLevelView {
    pub name: Seq<char>,
    pub level: LevelFilter,
}

/// The level of one target.
#[derive(Debug, PartialEq, Eq)]
pub struct TargetLevel {
    name: String,
    level: LevelFilter,
}

impl View for TargetLevel {
    type V = TargetLevelView;

    closed spec fn view(&self) -> TargetLevelView {
        TargetLevelView { name: self.name@, level: self.level }
    }
}

/// The views of a list of target levels.
pub open spec fn target_level_views(targets: Seq<TargetLevel>) -> Seq<TargetLevelView> {
    Seq::new(targets.len(), |i: int| targets[i]@)
}

impl Clone for TargetLevel {
    fn clone(&self) -> (r: Self)
        ensures
            r@ == self@,
    {
        TargetLevel { name: self.name.clone(), level: self.level }
    }
}

impl TargetLevel {
    /// The name of the target.
    pub fn name(&self) -> (r: &String)
        ensures
            r@ == self@.name,
    {
        &self.name
    }

    /// The level of the target.
    pub fn level(&self) -> (r: LevelFilter)
        ensures
            r == self@.level,
    {
        self.level
    }
}

impl From<(&str, LevelFilter)> for TargetLevel {
    /// The target of the given name with the given level.
    fn from(value: (&str, LevelFilter)) -> (r: Self)
        ensures
            r@ == (TargetLevelView { name: value.0@, level: value.1 }),
    {
        TargetLevel { name: value.0.to_owned(), level: value.1 }
    }
}

impl FromSpecImpl<(&str, LevelFilter)> for TargetLevel {
    /// Two targets of one name and level need not be one value: what `from`
    /// gives is stated of its view.
    open spec fn obeys_from_spec() -> bool {
        false
    }

    open spec fn from_spec(value: (&str, LevelFilter)) -> Self {
        arbitrary()
    }
}

/// A value that stands for a level name.
pub trait LevelInto {
    /// The level name that the value stands for.
    spec fn level_text(&self) -> Seq<char>;

    /// The level name that the value stands for.
    fn into_level(&self) -> (r: &str)
        ensures
            r@ == self.level_text(),
    ;
}

impl LevelInto for &str {
    open spec fn level_text(&self) -> Seq<char> {
        self@
    }

    fn into_level(&self) -> (r: &str) {
        self
    }
}

impl LevelInto for String {
    open spec fn level_text(&self) -> Seq<char> {
        self@
    }

    fn into_level(&self) -> (r: &str) {
        self.as_str()
    }
}

impl LevelInto for &String {
    open spec fn level_text(&self) -> Seq<char> {
        self@
    }

    fn into_level(&self) -> (r: &str) {
        self.as_str()
    }
}

impl LevelInto for LevelFilter {
    open spec fn level_text(&self) -> Seq<char> {
        self.name()
    }

    fn into_level(&self) -> (r: &str) {
        level_filter_as_str(*self)
    }
}

impl LevelInto for Level {
    open spec fn level_text(&self) -> Seq<char> {
        self.name()
    }

    fn into_level(&self) -> (r: &str) {
        level_as_str(*self)
    }
}

/// Reads the level of a configuration from its text.
pub struct LevelSerde;

impl LevelSerde {
    /// Reads a directive; see [`parse_level`].
    pub fn deserialize(s: &str) -> (r: Result<(LevelFilter, Vec<TargetLevel>), String>)
        ensures
            parser::is_parse_of(r, s@),
    {
        parse_level(s)
    }
}

} // verus!
