//! Output sinks: where emitted records go.
//!
//! A configuration names its sinks by one token or by a list of tokens; either
//! shape is read into an ordered list of sink kinds, in which a kind may occur
//! more than once.

use vstd::prelude::*;
use vstd::string::*;

use crate::text::{eq_ignoring_case, folded, same_ignoring_case, texts};

verus! {

/// The token of the file sink.
pub const KIND_FILE: &'static str = "file";

/// The token of the console sink.
pub const KIND_CONSOLE: &'static str = "console";

/// What is said of the tokens that are accepted.
pub const KIND_EXPECT: &'static str =
    "expect out_kind string or vec:'console','file' or ['console','file']";

/// One kind of output sink.
#[derive(Debug, PartialEq, Eq, Clone, Copy, Structural)]
pub enum OutKind {
    File,
    Console,
}

/// The sink kinds of a configuration as they are written: a single token, or a
/// list of tokens.
#[derive(Debug, PartialEq, Eq)]
pub enum KindTokens {
    One(String),
    Many(Vec<String>),
}

/// The kind that a token names, whatever the case of its ASCII letters.
pub open spec fn kind_named(token: Seq<char>) -> Option<OutKind> {
    if same_ignoring_case(token, KIND_FILE@) {
        Some(OutKind::File)
    } else if same_ignoring_case(token, KIND_CONSOLE@) {
        Some(OutKind::Console)
    } else {
        None
    }
}

/// The error for a token that names no kind: it quotes the token and lists the
/// tokens that are accepted.
pub open spec fn invalid_kind_message(token: Seq<char>) -> Seq<char> {
    "Invalid state '"@ + token + "',"@ + KIND_EXPECT@
}

impl KindTokens {
    /// The tokens, in order; a single token is a list of one.
    pub open spec fn tokens(self) -> Seq<Seq<char>> {
        match self {
            KindTokens::One(token) => seq![token@],
            KindTokens::Many(list) => texts(list@),
        }
    }
}

impl OutKind {
    /// The canonical, lower-case name of the kind.
    pub open spec fn name(self) -> Seq<char> {
        match self {
            OutKind::File => KIND_FILE@,
            OutKind::Console => KIND_CONSOLE@,
        }
    }

    /// The canonical, lower-case name of the kind.
    pub fn as_str(&self) -> (r: &'static str)
        ensures
            r@ == self.name(),
    {
        match self {
            OutKind::File => KIND_FILE,
            OutKind::Console => KIND_CONSOLE,
        }
    }

    /// The kind that `value` names. The caller has made sure that it names one.
    pub fn from(value: &str) -> (r: OutKind)
        requires
            kind_named(value@) is Some,
        ensures
            kind_named(value@) == Some(r),
    {
        if eq_ignoring_case(value, KIND_FILE) {
            OutKind::File
        } else {
            OutKind::Console
        }
    }
}

/// Reads sink kinds from their tokens.
pub struct KindSerde;

impl KindSerde {
    /// Reads one token: `file` or `console` in any case; anything else is an
    /// error that quotes the token.
    pub fn deserialize(s: &str) -> (r: Result<OutKind, String>)
        ensures
            match r {
                Ok(kind) => kind_named(s@) == Some(kind),
                Err(message) => kind_named(s@) is None && message@ == invalid_kind_message(s@),
            },
    {
        if eq_ignoring_case(s, KIND_FILE) {
            Ok(OutKind::File)
        } else if eq_ignoring_case(s, KIND_CONSOLE) {
            Ok(OutKind::Console)
        } else {
            let mut message = "Invalid state '".to_owned();
            message.append(s);
            message.append("',");
            message.append(KIND_EXPECT);
            Err(message)
        }
    }
}

/// Whether every one of the first `n` tokens names a kind.
pub open spec fn all_kinds_named(tokens: Seq<Seq<char>>, n: int) -> bool {
    forall|i: int| 0 <= i < n ==> (#[trigger] kind_named(tokens[i])) is Some
}

/// Reads the sink kinds of a configuration, in the order of their tokens. The
/// first token that names no kind fails the whole reading, with the error of
/// that token.
pub fn deserialize_out_kind(input: &KindTokens) -> (r: Result<Vec<OutKind>, String>)
    ensures
        r is Ok <==> all_kinds_named(input.tokens(), input.tokens().len() as int),
        r matches Ok(kinds) ==> kinds.len() == input.tokens().len() && forall|i: int|
            0 <= i < kinds.len() ==> kind_named(#[trigger] input.tokens()[i]) == Some(kinds[i]),
        r matches Err(message) ==> exists|i: int|
            0 <= i < input.tokens().len() && all_kinds_named(input.tokens(), i) && kind_named(
                #[trigger] input.tokens()[i],
            ) is None && message@ == invalid_kind_message(input.tokens()[i]),
{
    match input {
        KindTokens::One(token) => {
            match KindSerde::deserialize(token.as_str()) {
                Ok(kind) => {
                    let mut kinds: Vec<OutKind> = Vec::new();
                    kinds.push(kind);
                    Ok(kinds)
                },
                Err(message) => {
                    assert(kind_named(input.tokens()[0]) is None);
                    Err(message)
                },
            }
        },
        KindTokens::Many(list) => {
            let mut kinds: Vec<OutKind> = Vec::new();
            let mut i: usize = 0;
            while i < list.len()
                invariant
                    i <= list.len(),
                    input.tokens() == texts(list@),
                    kinds.len() == i,
                    forall|k: int|
                        0 <= k < i ==> kind_named(#[trigger] input.tokens()[k]) == Some(kinds[k]),
                decreases list.len() - i,
            {
                match KindSerde::deserialize(list[i].as_str()) {
                    Ok(kind) => {
                        kinds.push(kind);
                    },
                    Err(message) => {
                        assert(kind_named(input.tokens()[i as int]) is None);
                        return Err(message);
                    },
                }
                i = i + 1;
            }
            Ok(kinds)
        },
    }
}

/// Writes sink kinds as their canonical tokens.
pub fn serialize_out_kind(kinds: &Vec<OutKind>) -> (r: Vec<String>)
    ensures
        r.len() == kinds.len(),
        forall|i: int| 0 <= i < r.len() ==> (#[trigger] r[i])@ == kinds[i].name(),
{
    let mut tokens: Vec<String> = Vec::new();
    let mut i: usize = 0;
    while i < kinds.len()
        invariant
            i <= kinds.len(),
            tokens.len() == i,
            forall|k: int| 0 <= k < i ==> (#[trigger] tokens[k])@ == kinds[k].name(),
        decreases kinds.len() - i,
    {
        tokens.push(kinds[i].as_str().to_owned());
        i = i + 1;
    }
    tokens
}

/// Every kind is read back from its canonical name.
pub proof fn lemma_kind_name_round_trip(kind: OutKind)
    ensures
        kind_named(kind.name()) == Some(kind),
{
    reveal_strlit("file");
    reveal_strlit("console");
    assert(KIND_FILE@.len() == 4 && KIND_CONSOLE@.len() == 7);
    assert(folded(KIND_FILE@).len() != folded(KIND_CONSOLE@).len());
}

/// Written and read back, a list of sink kinds is the same list.
pub proof fn lemma_out_kind_round_trip(kinds: Seq<OutKind>, tokens: Seq<Seq<char>>)
    requires
        tokens.len() == kinds.len(),
        forall|i: int| 0 <= i < kinds.len() ==> tokens[i] == kinds[i].name(),
    ensures
        all_kinds_named(tokens, tokens.len() as int),
        forall|i: int| 0 <= i < kinds.len() ==> kind_named(#[trigger] tokens[i]) == Some(kinds[i]),
{
    assert forall|i: int| 0 <= i < kinds.len() implies kind_named(#[trigger] tokens[i]) == Some(
        kinds[i],
    ) by {
        lemma_kind_name_round_trip(kinds[i]);
    }
}

/// One token reads as the list of that one token does.
pub proof fn lemma_one_token_is_a_list_of_one(token: String, list: Vec<String>)
    requires
        list@.len() == 1,
        list@[0]@ == token@,
    ensures
        KindTokens::One(token).tokens() == KindTokens::Many(list).tokens(),
{
    assert(KindTokens::One(token).tokens() =~= KindTokens::Many(list).tokens());
}

/// What a token names does not depend on the case of its ASCII letters.
pub proof fn lemma_kind_ignores_case(a: Seq<char>, b: Seq<char>)
    requires
        same_ignoring_case(a, b),
    ensures
        kind_named(a) == kind_named(b),
{
}

} // verus!
