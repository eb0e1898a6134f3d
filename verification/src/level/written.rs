//! The plain text of a directive, and what reading it gives back.
//!
//! A directive is written plainly as its level in lower case, followed for
//! every target by a comma, the name, `=` and the level. The grammar reads
//! such a text back as what was written, and so a configuration whose level
//! is set from it holds the level and the targets that were written.

use vstd::prelude::*;

use crate::config::{as_text, level_set_by, targets_of};
use crate::level::parser::{
    clause_at, clauses_from, directive, is_name, lemma_clauses_before_comma, Clause, Directive,
    Failure,
};
use crate::level::TargetLevelView;
use crate::severity::{
    lemma_level_text_is_letters, lemma_level_text_round_trip, level_filter_named, LevelFilter,
};
use crate::text::{
    folded, lemma_run_end, lemma_run_end_append, lemma_run_end_goes_on, lemma_run_end_is, run_end,
    CharClass,
};

verus! {

/// The plain text of one target: its name, `=`, and its level in lower case.
pub open spec fn written_target(target: TargetLevelView) -> Seq<char> {
    target.name + seq!['='] + target.level.text()
}

/// The plain text of a directive: the level in lower case, and for every
/// target a comma and the text of the target.
pub open spec fn written(read: Directive) -> Seq<char>
    decreases read.targets.len(),
{
    if read.targets.len() == 0 {
        read.level.text()
    } else {
        written(Directive { level: read.level, targets: read.targets.drop_last() }) + seq![',']
            + written_target(read.targets.last())
    }
}

/// Every target has a name: at least one character, and letters, digits, `:`
/// and `_` only.
pub open spec fn all_named(targets: Seq<TargetLevelView>) -> bool {
    forall|i: int| 0 <= i < targets.len() ==> is_name((#[trigger] targets[i]).name)
}

/// The characters of a comma and the text of a target behind it.
proof fn lemma_target_chars(target: TargetLevelView)
    ensures
        ({
            let more = seq![','] + written_target(target);
            let name = target.name;
            let level = target.level.text();
            &&& more.len() == 2 + name.len() + level.len()
            &&& more[0] == ','
            &&& forall|i: int| 0 <= i < name.len() ==> #[trigger] more[1 + i] == name[i]
            &&& more[1 + name.len() as int] == '='
            &&& forall|i: int|
                0 <= i < level.len() ==> #[trigger] more[2 + name.len() + i] == level[i]
        }),
{
}

/// Behind any text, a comma and the text of a target are read as one clause,
/// which reaches the end.
proof fn lemma_target_is_read(s: Seq<char>, target: TargetLevelView)
    requires
        is_name(target.name),
    ensures
        clauses_from(s + (seq![','] + written_target(target)), s.len() as int + 1) == (
            seq![target],
            (s + (seq![','] + written_target(target))).len() as int,
        ),
{
    let more = seq![','] + written_target(target);
    let name = target.name;
    let level = target.level.text();
    let t = s + more;
    let start = s.len() as int + 1;
    let name_end = start + name.len();
    let end = t.len() as int;
    lemma_target_chars(target);
    lemma_level_text_is_letters(target.level);
    lemma_level_text_round_trip(target.level);
    assert forall|k: int| s.len() <= k < t.len() implies t[k] == more[k - s.len()] by {}
    assert(run_end(t, start, CharClass::Space) == start) by {
        assert(t[start] == more[1 + 0int]);
        assert(CharClass::Name.holds(name[0]));
        lemma_run_end_is(t, start, CharClass::Space, start);
    }
    assert(run_end(t, start, CharClass::Name) == name_end) by {
        assert forall|k: int| start <= k < name_end implies CharClass::Name.holds(
            #[trigger] t[k],
        ) by {
            assert(t[k] == more[1 + (k - start)]);
            assert(CharClass::Name.holds(name[k - start]));
        }
        assert(t[name_end] == '=');
        lemma_run_end_is(t, start, CharClass::Name, name_end);
    }
    assert(t[name_end] == '=');
    assert(run_end(t, name_end + 1, CharClass::Alpha) == end) by {
        assert forall|k: int| name_end + 1 <= k < end implies CharClass::Alpha.holds(
            #[trigger] t[k],
        ) by {
            assert(t[k] == more[2 + name.len() + (k - name_end - 1)]);
        }
        lemma_run_end_is(t, name_end + 1, CharClass::Alpha, end);
    }
    assert(run_end(t, end, CharClass::Space) == end);
    assert(t.subrange(start, name_end) =~= name) by {
        assert forall|i: int| 0 <= i < name.len() implies t.subrange(start, name_end)[i]
            == name[i] by {
            assert(t[start + i] == more[1 + i]);
        }
    }
    assert(t.subrange(name_end + 1, end) =~= level) by {
        assert forall|i: int| 0 <= i < level.len() implies t.subrange(name_end + 1, end)[i]
            == level[i] by {
            assert(t[name_end + 1 + i] == more[2 + name.len() + i]);
        }
    }
    assert(clause_at(t, start) == Some(Clause { target, next: end }));
    assert(clause_at(t, end) is None) by {
        lemma_run_end(t, end, CharClass::Name);
    }
    assert(clauses_from(t, end) == (Seq::<TargetLevelView>::empty(), end));
    assert(seq![target] + Seq::<TargetLevelView>::empty() =~= seq![target]);
}

/// Whether the text `s` is made as the plain text of `read` is: it starts
/// with the level, which is followed by a comma and by the clauses of the
/// targets, and it ends in a letter.
#[verifier::opaque]
spec fn reads_as(s: Seq<char>, read: Directive) -> bool {
    let level_end = read.level.text().len() as int;
    &&& s.len() >= level_end > 0
    &&& CharClass::Alpha.holds(s.last())
    &&& run_end(s, 0, CharClass::Alpha) == level_end
    &&& s.subrange(0, level_end) == read.level.text()
    &&& if read.targets.len() == 0 {
        s.len() == level_end
    } else {
        &&& s.len() > level_end
        &&& s[level_end] == ','
        &&& clause_at(s, level_end + 1) is Some
        &&& clauses_from(s, level_end + 1) == (read.targets, s.len() as int)
    }
}

/// The text of a level alone is made as a plain text is.
proof fn lemma_level_reads(level: LevelFilter)
    ensures
        reads_as(level.text(), Directive { level, targets: Seq::empty() }),
{
    reveal(reads_as);
    let text = level.text();
    lemma_level_text_is_letters(level);
    lemma_run_end_is(text, 0, CharClass::Alpha, text.len() as int);
    assert(text.subrange(0, text.len() as int) =~= text);
}

/// With a comma and the text of a target behind it, a text ends in a letter
/// and starts as before.
proof fn lemma_target_follows(s: Seq<char>, read: Directive, target: TargetLevelView)
    requires
        reads_as(s, read),
        is_name(target.name),
    ensures
        ({
            let t = s + (seq![','] + written_target(target));
            let level_end = read.level.text().len() as int;
            &&& t.len() > s.len()
            &&& t[s.len() as int] == ','
            &&& CharClass::Alpha.holds(t.last())
            &&& run_end(t, 0, CharClass::Alpha) == level_end
            &&& t.subrange(0, level_end) == read.level.text()
            &&& read.targets.len() > 0 ==> t[level_end] == ','
        }),
{
    reveal(reads_as);
    let more = seq![','] + written_target(target);
    let t = s + more;
    let level = target.level.text();
    let level_end = read.level.text().len() as int;
    lemma_target_chars(target);
    lemma_level_text_is_letters(target.level);
    assert(t.last() == level.last()) by {
        assert(t[t.len() - 1] == more[more.len() - 1]);
        assert(more[2 + target.name.len() + (level.len() - 1)] == level[level.len() - 1]);
    }
    assert(t.subrange(0, level_end) =~= s.subrange(0, level_end));
    assert(t[s.len() as int] == more[0]);
    if read.targets.len() == 0 {
        assert(run_end(more, 0, CharClass::Alpha) == 0);
        lemma_run_end_goes_on(s, more, 0, CharClass::Alpha);
    } else {
        lemma_run_end_append(s, more, 0, CharClass::Alpha);
        assert(t[level_end] == s[level_end]);
    }
}

/// A text that is made as a plain text is, with a comma and the text of one
/// more target behind it, is made as the plain text with that target is.
proof fn lemma_one_more_target(s: Seq<char>, read: Directive, target: TargetLevelView)
    requires
        reads_as(s, read),
        is_name(target.name),
    ensures
        reads_as(
            s + (seq![','] + written_target(target)),
            Directive { level: read.level, targets: read.targets.push(target) },
        ),
{
    reveal(reads_as);
    let more = seq![','] + written_target(target);
    let t = s + more;
    let level_end = read.level.text().len() as int;
    lemma_target_follows(s, read, target);
    lemma_target_is_read(s, target);
    if read.targets.len() == 0 {
        assert(read.targets.push(target) =~= seq![target]);
    } else {
        lemma_clauses_before_comma(s, more, level_end + 1);
        assert(read.targets.push(target) =~= read.targets + seq![target]);
    }
}

/// The plain text of a directive is made as [`reads_as`] says.
proof fn lemma_written_shape(read: Directive)
    requires
        all_named(read.targets),
    ensures
        reads_as(written(read), read),
    decreases read.targets.len(),
{
    if read.targets.len() == 0 {
        lemma_level_reads(read.level);
        assert(read.targets =~= Seq::empty());
    } else {
        let before = Directive { level: read.level, targets: read.targets.drop_last() };
        let target = read.targets.last();
        assert(all_named(before.targets)) by {
            assert forall|i: int| 0 <= i < before.targets.len() implies is_name(
                (#[trigger] before.targets[i]).name,
            ) by {
                assert(before.targets[i] == read.targets[i]);
            }
        }
        assert(is_name(target.name));
        lemma_written_shape(before);
        lemma_one_more_target(written(before), before, target);
        assert(written(read) =~= written(before) + (seq![','] + written_target(target)));
        assert(before.targets.push(target) =~= read.targets);
    }
}

/// A directive that is written plainly is read back as what was written.
pub proof fn lemma_written_is_read_back(read: Directive)
    requires
        all_named(read.targets),
    ensures
        directive(written(read)) == Ok::<Directive, Failure>(read),
{
    reveal(reads_as);
    let s = written(read);
    let level_end = read.level.text().len() as int;
    lemma_written_shape(read);
    lemma_level_text_round_trip(read.level);
    if read.targets.len() == 0 {
        assert(run_end(s, level_end, CharClass::Space) == level_end);
        assert(read.targets =~= Seq::empty());
    } else {
        lemma_run_end_is(s, level_end, CharClass::Space, level_end);
    }
}

/// A text that names a level, in any case of its letters, is a directive: that
/// level, and no targets.
pub proof fn lemma_level_name_is_a_directive(s: Seq<char>)
    requires
        level_filter_named(s) is Some,
    ensures
        directive(s) == Ok::<Directive, Failure>(
            Directive { level: level_filter_named(s)->0, targets: Seq::empty() },
        ),
        level_set_by(s) == s,
        targets_of(s) == as_text(Seq::empty()),
{
    let level = level_filter_named(s)->0;
    let text = level.text();
    lemma_level_text_is_letters(level);
    lemma_level_text_round_trip(level);
    assert(folded(s) == folded(text));
    assert(s.len() == folded(s).len() == text.len());
    assert forall|k: int| 0 <= k < s.len() implies CharClass::Alpha.holds(#[trigger] s[k]) by {
        assert(folded(s)[k] == folded(text)[k]);
        assert(CharClass::Alpha.holds(text[k]));
    }
    lemma_run_end_is(s, 0, CharClass::Alpha, s.len() as int);
    assert(s.subrange(0, s.len() as int) =~= s);
    assert(run_end(s, s.len() as int, CharClass::Space) == s.len());
}

/// A configuration whose level is set from a directive that is written
/// plainly holds the level and the targets that were written.
pub proof fn lemma_written_is_set(read: Directive)
    requires
        all_named(read.targets),
    ensures
        level_set_by(written(read)) == read.level.text(),
        targets_of(written(read)) == as_text(read.targets),
{
    reveal(reads_as);
    lemma_written_shape(read);
    lemma_written_is_read_back(read);
}

} // verus!
