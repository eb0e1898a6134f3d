//! The grammar of a directive: a global level, then the levels of single
//! targets.
//!
//! ```text
//! directive    := level [ space* "," clause+ ]
//! clause       := space* name "=" level space* [ "," ]
//! level        := letter+            one of off, error, warn, info, debug, trace
//! name         := (letter | digit | ":" | "_")+
//! ```
//!
//! A level is read in any case. Every clause is taken as long as one can be
//! read; the directive is well formed when nothing is left behind the last
//! clause. A comma may close the last clause, but not stand alone behind the
//! global level.

use vstd::prelude::*;
use vstd::string::*;

use crate::level::{target_level_views, TargetLevel, TargetLevelView};
use crate::severity::{
    level_filter_from_str, level_filter_named, parse_level_error_text, LevelFilter, UNKNOWN_LEVEL,
};
use crate::text::{
    chars_of, lemma_run_end, lemma_run_end_append, lemma_run_end_goes_on, run_end, scan, CharClass,
};

verus! {

/// Why and where a directive is not well formed.
pub struct Failure {
    /// The number of characters that were read before the fault.
    pub offset: int,
    /// What is said of the fault: nothing where a character is out of place,
    /// [`UNKNOWN_LEVEL`] where the global level is no level name.
    pub cause: Seq<char>,
}

/// One clause of a directive, and where the next one may start.
pub struct Clause {
    pub target: TargetLevelView,
    pub next: int,
}

/// What a directive says: its global level and its targets, in their order.
pub struct Directive {
    pub level: LevelFilter,
    pub targets: Seq<TargetLevelView>,
}

/// The clause that starts at `from`, if one does: white space, a name, `=`, a
/// level name, white space, and a comma where one follows.
pub open spec fn clause_at(s: Seq<char>, from: int) -> Option<Clause> {
    let name_start = run_end(s, from, CharClass::Space);
    let name_end = run_end(s, name_start, CharClass::Name);
    let level_end = run_end(s, name_end + 1, CharClass::Alpha);
    let tail = run_end(s, level_end, CharClass::Space);
    if name_start < name_end < s.len() && s[name_end] == '=' && name_end + 1 < level_end
        && level_filter_named(s.subrange(name_end + 1, level_end)) is Some {
        Some(
            Clause {
                target: TargetLevelView {
                    name: s.subrange(name_start, name_end),
                    level: level_filter_named(s.subrange(name_end + 1, level_end))->0,
                },
                next: if tail < s.len() && s[tail] == ',' {
                    tail + 1
                } else {
                    tail
                },
            },
        )
    } else {
        None
    }
}

/// The clauses that follow one another from `from` on, and the index at which
/// no further clause starts.
pub open spec fn clauses_from(s: Seq<char>, from: int) -> (Seq<TargetLevelView>, int)
    decreases s.len() - from,
{
    match clause_at(s, from) {
        Some(clause) => if from < clause.next <= s.len() {
            let rest = clauses_from(s, clause.next);
            (seq![clause.target] + rest.0, rest.1)
        } else {
            (Seq::empty(), from)
        },
        None => (Seq::empty(), from),
    }
}

/// What the text `s` says as a directive, or where and why it is none.
pub open spec fn directive(s: Seq<char>) -> Result<Directive, Failure> {
    let level_end = run_end(s, 0, CharClass::Alpha);
    if level_end == 0 {
        Err(Failure { offset: 0, cause: Seq::empty() })
    } else {
        match level_filter_named(s.subrange(0, level_end)) {
            None => Err(Failure { offset: 0, cause: UNKNOWN_LEVEL@ }),
            Some(level) => {
                let comma = run_end(s, level_end, CharClass::Space);
                if comma < s.len() && s[comma] == ',' && clause_at(s, comma + 1) is Some {
                    let (targets, stop) = clauses_from(s, comma + 1);
                    if stop == s.len() {
                        Ok(Directive { level, targets })
                    } else {
                        Err(Failure { offset: stop, cause: Seq::empty() })
                    }
                } else if level_end == s.len() {
                    Ok(Directive { level, targets: Seq::empty() })
                } else {
                    Err(Failure { offset: level_end, cause: Seq::empty() })
                }
            },
        }
    }
}

/// The message for a directive that is not well formed: the directive, a caret
/// under the place of the fault, and the cause.
pub open spec fn failure_message(input: Seq<char>, failure: Failure) -> Seq<char> {
    "Failed to parse level:\n"@ + input + "\n"@ + Seq::new(failure.offset as nat, |i: int| ' ')
        + "^\n"@ + failure.cause
}

/// A clause ends behind its start, and within the text.
pub proof fn lemma_clause_advances(s: Seq<char>, from: int)
    requires
        0 <= from <= s.len(),
    ensures
        clause_at(s, from) matches Some(clause) ==> from < clause.next <= s.len(),
{
    let name_start = run_end(s, from, CharClass::Space);
    lemma_run_end(s, from, CharClass::Space);
    let name_end = run_end(s, name_start, CharClass::Name);
    lemma_run_end(s, name_start, CharClass::Name);
    if name_end < s.len() {
        let level_end = run_end(s, name_end + 1, CharClass::Alpha);
        lemma_run_end(s, name_end + 1, CharClass::Alpha);
        lemma_run_end(s, level_end, CharClass::Space);
    }
}

/// A name of a target: at least one character, and letters, digits, `:` and
/// `_` only.
pub open spec fn is_name(name: Seq<char>) -> bool {
    name.len() > 0 && forall|i: int| 0 <= i < name.len() ==> CharClass::Name.holds(#[trigger] name[i])
}

/// Every clause that is read has a name.
proof fn lemma_clauses_are_named(s: Seq<char>, from: int)
    requires
        0 <= from <= s.len(),
    ensures
        forall|i: int|
            0 <= i < clauses_from(s, from).0.len() ==> is_name(
                (#[trigger] clauses_from(s, from).0[i]).name,
            ),
        from <= clauses_from(s, from).1 <= s.len(),
    decreases s.len() - from,
{
    lemma_clause_advances(s, from);
    if let Some(clause) = clause_at(s, from) {
        let name_start = run_end(s, from, CharClass::Space);
        lemma_run_end(s, from, CharClass::Space);
        lemma_run_end(s, name_start, CharClass::Name);
        assert(is_name(clause.target.name));
        lemma_clauses_are_named(s, clause.next);
    }
}

/// No target of a directive is without a name: each name is at least one
/// character long and made of letters, digits, `:` and `_`.
pub proof fn lemma_targets_are_named(s: Seq<char>)
    ensures
        directive(s) matches Ok(read) ==> forall|i: int|
            0 <= i < read.targets.len() ==> is_name((#[trigger] read.targets[i]).name),
{
    let level_end = run_end(s, 0, CharClass::Alpha);
    lemma_run_end(s, 0, CharClass::Alpha);
    let comma = run_end(s, level_end, CharClass::Space);
    lemma_run_end(s, level_end, CharClass::Space);
    if comma < s.len() {
        lemma_clauses_are_named(s, comma + 1);
    }
}

/// Behind a text that does not end in a comma, let a comma and more text
/// follow. The clause that starts at `from` is then the same as in the text
/// alone, but that it takes the comma where it reached the end of the text.
pub proof fn lemma_clause_before_comma(s: Seq<char>, more: Seq<char>, from: int)
    requires
        0 <= from <= s.len(),
        s.len() > 0 ==> s.last() != ',',
        more.len() > 0,
        more[0] == ',',
    ensures
        clause_at(s, from) is None ==> clause_at(s + more, from) is None,
        clause_at(s, from) matches Some(clause) ==> clause_at(s + more, from) == Some(
            Clause {
                target: clause.target,
                next: if clause.next == s.len() {
                    clause.next + 1
                } else {
                    clause.next
                },
            },
        ),
{
    let t = s + more;
    lemma_run_stops_at_comma(s, more, from, CharClass::Space);
    let name_start = run_end(s, from, CharClass::Space);
    lemma_run_end(s, from, CharClass::Space);
    lemma_run_stops_at_comma(s, more, name_start, CharClass::Name);
    let name_end = run_end(s, name_start, CharClass::Name);
    lemma_run_end(s, name_start, CharClass::Name);
    assert(t[s.len() as int] == ',');
    if name_end < s.len() {
        assert(t[name_end] == s[name_end]);
        lemma_run_stops_at_comma(s, more, name_end + 1, CharClass::Alpha);
        let level_end = run_end(s, name_end + 1, CharClass::Alpha);
        lemma_run_end(s, name_end + 1, CharClass::Alpha);
        lemma_run_stops_at_comma(s, more, level_end, CharClass::Space);
        let tail = run_end(s, level_end, CharClass::Space);
        lemma_run_end(s, level_end, CharClass::Space);
        assert(t.subrange(name_end + 1, level_end) =~= s.subrange(name_end + 1, level_end));
        assert(t.subrange(name_start, name_end) =~= s.subrange(name_start, name_end));
        if tail < s.len() {
            assert(t[tail] == s[tail]);
        }
    }
}

/// A comma behind a text ends every run of letters, of name characters and of
/// white space where the text ends it, at the latest.
proof fn lemma_run_stops_at_comma(s: Seq<char>, more: Seq<char>, from: int, class: CharClass)
    requires
        0 <= from <= s.len(),
        more.len() > 0,
        more[0] == ',',
        class == CharClass::Alpha || class == CharClass::Name || class == CharClass::Space,
    ensures
        run_end(s + more, from, class) == run_end(s, from, class),
{
    lemma_run_end(s, from, class);
    if run_end(s, from, class) < s.len() {
        lemma_run_end_append(s, more, from, class);
    } else {
        lemma_run_end_goes_on(s, more, from, class);
    }
}

/// Behind a text that does not end in a comma, let a comma and more text
/// follow. The clauses that followed one another up to the end of the text are
/// then followed by the clauses of what stands behind the comma.
pub proof fn lemma_clauses_before_comma(s: Seq<char>, more: Seq<char>, from: int)
    requires
        0 <= from <= s.len(),
        s.len() > 0 ==> s.last() != ',',
        more.len() > 0,
        more[0] == ',',
        clause_at(s, from) is Some,
        clauses_from(s, from).1 == s.len(),
    ensures
        clause_at(s + more, from) is Some,
        clauses_from(s + more, from) == (
            clauses_from(s, from).0 + clauses_from(s + more, s.len() as int + 1).0,
            clauses_from(s + more, s.len() as int + 1).1,
        ),
    decreases s.len() - from,
{
    let t = s + more;
    lemma_clause_advances(s, from);
    lemma_clause_before_comma(s, more, from);
    let clause = clause_at(s, from)->0;
    let rest = clauses_from(t, s.len() as int + 1);
    if clause.next == s.len() {
        assert(clause_at(s, clause.next) is None) by {
            lemma_run_end(s, clause.next, CharClass::Space);
            lemma_run_end(s, clause.next, CharClass::Name);
        }
        assert(clauses_from(s, clause.next) == (Seq::<TargetLevelView>::empty(), clause.next));
        assert(clauses_from(s, from).0 =~= seq![clause.target]);
        assert(clauses_from(t, from) == (seq![clause.target] + rest.0, rest.1));
    } else {
        assert(clauses_from(s, clause.next).1 == s.len());
        lemma_clauses_before_comma(s, more, clause.next);
        assert(seq![clause.target] + (clauses_from(s, clause.next).0 + rest.0) =~= (seq![
            clause.target,
        ] + clauses_from(s, clause.next).0) + rest.0);
    }
}

/// A comma may close the last clause: where a directive with at least one
/// target does not end in a comma, the directive with a comma behind it says
/// the same.
pub proof fn lemma_closing_comma(s: Seq<char>)
    requires
        directive(s) is Ok,
        directive(s)->Ok_0.targets.len() > 0,
        s.last() != ',',
    ensures
        directive(s.push(',')) == directive(s),
{
    let more = seq![','];
    let t = s + more;
    assert(t =~= s.push(','));
    let level_end = run_end(s, 0, CharClass::Alpha);
    lemma_run_end(s, 0, CharClass::Alpha);
    lemma_run_stops_at_comma(s, more, 0, CharClass::Alpha);
    assert(t.subrange(0, level_end) =~= s.subrange(0, level_end));
    let comma = run_end(s, level_end, CharClass::Space);
    lemma_run_end(s, level_end, CharClass::Space);
    lemma_run_stops_at_comma(s, more, level_end, CharClass::Space);
    assert(t[comma] == s[comma]);
    lemma_clauses_before_comma(s, more, comma + 1);
    assert(clause_at(t, t.len() as int) is None) by {
        lemma_run_end(t, t.len() as int, CharClass::Space);
        lemma_run_end(t, t.len() as int, CharClass::Name);
    }
    assert(clauses_from(t, t.len() as int) == (Seq::<TargetLevelView>::empty(), t.len() as int));
    assert(clauses_from(s, comma + 1).0 + Seq::<TargetLevelView>::empty() =~= clauses_from(
        s,
        comma + 1,
    ).0);
}

/// Why and where a directive is not well formed.
#[derive(Debug, PartialEq, Eq)]
pub struct ParseError {
    /// The number of characters that were read before the fault.
    pub offset: usize,
    /// What is said of the fault; empty where a character is out of place.
    pub cause: String,
}

impl View for ParseError {
    type V = Failure;

    open spec fn view(&self) -> Failure {
        Failure { offset: self.offset as int, cause: self.cause@ }
    }
}

impl ParseError {
    /// The message of the error for the directive `input`.
    pub fn message(&self, input: &str) -> (r: String)
        ensures
            r@ == failure_message(input@, self@),
    {
        let mut message = "Failed to parse level:\n".to_owned();
        message.append(input);
        message.append("\n");
        let ghost head = message@;
        let mut i: usize = 0;
        while i < self.offset
            invariant
                i <= self.offset,
                message@ == head + Seq::new(i as nat, |k: int| ' '),
            decreases self.offset - i,
        {
            proof {
                reveal_strlit(" ");
            }
            message.append(" ");
            assert(message@ =~= head + Seq::new((i + 1) as nat, |k: int| ' '));
            i = i + 1;
        }
        message.append("^\n");
        message.append(self.cause.as_str());
        message
    }
}

/// Reads the clause that starts at `from`.
fn parse_clause(input: &str, chars: &Vec<char>, from: usize) -> (r: Option<(TargetLevel, usize)>)
    requires
        chars@ == input@,
        from <= chars.len(),
    ensures
        match r {
            Some((target, next)) => clause_at(input@, from as int) == Some(
                Clause { target: target@, next: next as int },
            ) && from < next <= chars.len(),
            None => clause_at(input@, from as int) is None,
        },
{
    let name_start = scan(chars, from, CharClass::Space);
    let name_end = scan(chars, name_start, CharClass::Name);
    if name_start == name_end || name_end == chars.len() || chars[name_end] != '=' {
        return None;
    }
    let level_end = scan(chars, name_end + 1, CharClass::Alpha);
    if level_end == name_end + 1 {
        return None;
    }
    let level = match level_filter_from_str(input.substring_char(name_end + 1, level_end)) {
        Ok(level) => level,
        Err(_) => {
            return None;
        },
    };
    let tail = scan(chars, level_end, CharClass::Space);
    let next = if tail < chars.len() && chars[tail] == ',' {
        tail + 1
    } else {
        tail
    };
    let target = TargetLevel::from((input.substring_char(name_start, name_end), level));
    Some((target, next))
}

/// Whether `r` is what reading the directive `s` gives.
pub open spec fn is_directive_of(
    r: Result<(LevelFilter, Vec<TargetLevel>), ParseError>,
    s: Seq<char>,
) -> bool {
    match r {
        Ok((level, targets)) => directive(s) == Ok::<Directive, Failure>(
            Directive { level, targets: target_level_views(targets@) },
        ),
        Err(error) => directive(s) == Err::<Directive, Failure>(error@),
    }
}

/// Whether `r` is what reading the directive `s` gives, an error being given
/// as its message.
pub open spec fn is_parse_of(r: Result<(LevelFilter, Vec<TargetLevel>), String>, s: Seq<char>) -> bool {
    match r {
        Ok((level, targets)) => directive(s) == Ok::<Directive, Failure>(
            Directive { level, targets: target_level_views(targets@) },
        ),
        Err(message) => directive(s) is Err && message@ == failure_message(s, directive(s)->Err_0),
    }
}

/// Reads a directive: the global level and the targets in the order in which
/// they are written, or where and why the text is no directive.
pub fn parse_directive(input: &str) -> (r: Result<(LevelFilter, Vec<TargetLevel>), ParseError>)
    ensures
        is_directive_of(r, input@),
{
    let chars = chars_of(input);
    let level_end = scan(&chars, 0, CharClass::Alpha);
    if level_end == 0 {
        return Err(ParseError { offset: 0, cause: String::new() });
    }
    let level = match level_filter_from_str(input.substring_char(0, level_end)) {
        Ok(level) => level,
        Err(error) => {
            return Err(ParseError { offset: 0, cause: parse_level_error_text(&error) });
        },
    };
    let mut targets: Vec<TargetLevel> = Vec::new();
    let comma = scan(&chars, level_end, CharClass::Space);
    if comma < chars.len() && chars[comma] == ',' {
        let mut from = comma + 1;
        loop
            invariant_except_break
                chars@ == input@,
                from <= chars.len(),
                clauses_from(input@, comma as int + 1) == (
                    target_level_views(targets@) + clauses_from(input@, from as int).0,
                    clauses_from(input@, from as int).1,
                ),
                from == comma + 1 <==> targets.len() == 0,
            ensures
                from <= chars.len(),
                clauses_from(input@, comma as int + 1) == (
                    target_level_views(targets@),
                    from as int,
                ),
                targets.len() == 0 <==> clause_at(input@, comma as int + 1) is None,
            decreases chars.len() - from,
        {
            match parse_clause(input, &chars, from) {
                Some((target, next)) => {
                    let ghost before = target_level_views(targets@);
                    let ghost rest = clauses_from(input@, next as int);
                    targets.push(target);
                    assert(target_level_views(targets@) =~= before.push(target@));
                    assert(before + (seq![target@] + rest.0) =~= before.push(target@) + rest.0);
                    from = next;
                },
                None => {
                    assert(target_level_views(targets@) + Seq::<TargetLevelView>::empty()
                        =~= target_level_views(targets@));
                    break;
                },
            }
        }
        if targets.len() > 0 {
            if from == chars.len() {
                return Ok((level, targets));
            }
            return Err(ParseError { offset: from, cause: String::new() });
        }
    }
    assert(target_level_views(targets@) =~= Seq::empty());
    if level_end == chars.len() {
        Ok((level, targets))
    } else {
        Err(ParseError { offset: level_end, cause: String::new() })
    }
}

/// Reads a directive, as [`parse_directive`] does; an error is given as its
/// message.
pub fn parse_level(input: &str) -> (r: Result<(LevelFilter, Vec<TargetLevel>), String>)
    ensures
        is_parse_of(r, input@),
{
    match parse_directive(input) {
        Ok(parsed) => Ok(parsed),
        Err(error) => Err(error.message(input)),
    }
}

} // verus!
