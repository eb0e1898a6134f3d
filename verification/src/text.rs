//! Character sequences: the plain model through which the crate reads text.
//!
//! Every string is looked at as its `Seq<char>`. This module classifies
//! characters, finds where a run of one class ends, folds ASCII case and cuts a
//! text at a separator.

use vstd::prelude::*;
use vstd::string::*;

verus! {

/// A set of characters that a scan can run over.
#[derive(Clone, Copy, Debug, PartialEq, Eq, Structural)]
pub enum CharClass {
    /// ASCII letters.
    Alpha,
    /// ASCII letters and digits, `:` and `_`.
    Name,
    /// Space, tab, carriage return and line feed.
    Space,
    /// Every character but the given one.
    Except(char),
}

pub open spec fn is_alpha(c: char) -> bool {
    ('a' <= c && c <= 'z') || ('A' <= c && c <= 'Z')
}

pub open spec fn is_digit(c: char) -> bool {
    '0' <= c && c <= '9'
}

impl CharClass {
    /// Whether `c` belongs to the class.
    pub open spec fn holds(self, c: char) -> bool {
        match self {
            CharClass::Alpha => is_alpha(c),
            CharClass::Name => is_alpha(c) || is_digit(c) || c == ':' || c == '_',
            CharClass::Space => c == ' ' || c == '\t' || c == '\r' || c == '\n',
            CharClass::Except(x) => c != x,
        }
    }

    pub fn test(self, c: char) -> (r: bool)
        ensures
            r == self.holds(c),
    {
        let alpha = ('a' <= c && c <= 'z') || ('A' <= c && c <= 'Z');
        match self {
            CharClass::Alpha => alpha,
            CharClass::Name => alpha || ('0' <= c && c <= '9') || c == ':' || c == '_',
            CharClass::Space => c == ' ' || c == '\t' || c == '\r' || c == '\n',
            CharClass::Except(x) => c != x,
        }
    }
}

/// Where the run of `class` characters that starts at `from` ends: the first
/// index at or after `from` that is the end of `s` or holds a character outside
/// the class.
pub open spec fn run_end(s: Seq<char>, from: int, class: CharClass) -> int
    decreases s.len() - from,
{
    if 0 <= from < s.len() && class.holds(s[from]) {
        run_end(s, from + 1, class)
    } else {
        from
    }
}

/// `run_end` is the one index that closes the run: everything before it is in
/// the class, and it is the end of the text or a character outside the class.
pub proof fn lemma_run_end(s: Seq<char>, from: int, class: CharClass)
    requires
        0 <= from <= s.len(),
    ensures
        from <= run_end(s, from, class) <= s.len(),
        forall|k: int| from <= k < run_end(s, from, class) ==> class.holds(#[trigger] s[k]),
        run_end(s, from, class) < s.len() ==> !class.holds(s[run_end(s, from, class)]),
    decreases s.len() - from,
{
    if from < s.len() && class.holds(s[from]) {
        lemma_run_end(s, from + 1, class);
    }
}

/// Any index that closes the run is `run_end`.
pub proof fn lemma_run_end_is(s: Seq<char>, from: int, class: CharClass, end: int)
    requires
        0 <= from <= end <= s.len(),
        forall|k: int| from <= k < end ==> class.holds(#[trigger] s[k]),
        end < s.len() ==> !class.holds(s[end]),
    ensures
        run_end(s, from, class) == end,
    decreases end - from,
{
    if from < end {
        assert(class.holds(s[from]));
        lemma_run_end_is(s, from + 1, class, end);
    }
}

/// What follows a text does not move the end of a run that ends within the
/// text.
pub proof fn lemma_run_end_append(s: Seq<char>, tail: Seq<char>, from: int, class: CharClass)
    requires
        0 <= from <= s.len(),
        run_end(s, from, class) < s.len(),
    ensures
        run_end(s + tail, from, class) == run_end(s, from, class),
{
    let end = run_end(s, from, class);
    lemma_run_end(s, from, class);
    assert forall|k: int| from <= k < end implies class.holds(#[trigger] (s + tail)[k]) by {
        assert((s + tail)[k] == s[k]);
    }
    assert((s + tail)[end] == s[end]);
    lemma_run_end_is(s + tail, from, class, end);
}

/// A run that reaches the end of a text goes on into what follows the text.
pub proof fn lemma_run_end_goes_on(s: Seq<char>, tail: Seq<char>, from: int, class: CharClass)
    requires
        0 <= from <= s.len(),
        run_end(s, from, class) == s.len(),
    ensures
        run_end(s + tail, from, class) == s.len() + run_end(tail, 0, class),
{
    let end = s.len() + run_end(tail, 0, class);
    lemma_run_end(s, from, class);
    lemma_run_end(tail, 0, class);
    assert forall|k: int| from <= k < end implies class.holds(#[trigger] (s + tail)[k]) by {
        if k < s.len() {
            assert((s + tail)[k] == s[k]);
        } else {
            assert((s + tail)[k] == tail[k - s.len()]);
        }
    }
    if end < (s + tail).len() {
        assert((s + tail)[end] == tail[end - s.len()]);
    }
    lemma_run_end_is(s + tail, from, class, end);
}

/// Scans `chars` from `from` over the characters of `class`.
pub fn scan(chars: &Vec<char>, from: usize, class: CharClass) -> (end: usize)
    requires
        from <= chars.len(),
    ensures
        end == run_end(chars@, from as int, class),
        from <= end <= chars.len(),
{
    let mut end: usize = from;
    while end < chars.len() && class.test(chars[end])
        invariant
            from <= end <= chars.len(),
            run_end(chars@, from as int, class) == run_end(chars@, end as int, class),
        decreases chars.len() - end,
    {
        end = end + 1;
    }
    end
}

/// The characters of `s`, in order.
pub fn chars_of(s: &str) -> (v: Vec<char>)
    ensures
        v@ == s@,
{
    let mut v: Vec<char> = Vec::new();
    for c in it: s.chars()
        invariant
            v@ == it.seq().take(it.index() as int),
    {
        v.push(c);
    }
    v
}

/// The lower-case form of an ASCII capital; any other character is itself.
pub open spec fn lower(c: char) -> char {
    if 'A' <= c && c <= 'Z' {
        ((c as u8) + 32) as char
    } else {
        c
    }
}

pub fn to_lower(c: char) -> (r: char)
    ensures
        r == lower(c),
{
    if 'A' <= c && c <= 'Z' {
        ((c as u8) + 32) as char
    } else {
        c
    }
}

/// `s` with every ASCII capital replaced by its lower-case form.
pub open spec fn folded(s: Seq<char>) -> Seq<char> {
    Seq::new(s.len(), |i: int| lower(s[i]))
}

/// Equality of two texts up to ASCII case.
pub open spec fn same_ignoring_case(a: Seq<char>, b: Seq<char>) -> bool {
    folded(a) == folded(b)
}

/// Compares two texts up to ASCII case.
pub fn eq_ignoring_case(a: &str, b: &str) -> (r: bool)
    ensures
        r == same_ignoring_case(a@, b@),
{
    let x = chars_of(a);
    let y = chars_of(b);
    if x.len() != y.len() {
        assert(folded(a@).len() != folded(b@).len());
        return false;
    }
    let mut i: usize = 0;
    while i < x.len()
        invariant
            i <= x.len(),
            x.len() == y.len(),
            x@ == a@,
            y@ == b@,
            forall|k: int| 0 <= k < i ==> lower(x@[k]) == lower(y@[k]),
        decreases x.len() - i,
    {
        if to_lower(x[i]) != to_lower(y[i]) {
            assert(folded(a@)[i as int] != folded(b@)[i as int]);
            return false;
        }
        i = i + 1;
    }
    assert(folded(a@) =~= folded(b@));
    true
}

/// The pieces of `s` from `from` on, cut at every `sep`. There is always at
/// least one piece; `a,b,` cut at `,` gives `a`, `b` and the empty text.
pub open spec fn split_from(s: Seq<char>, from: int, sep: char) -> Seq<Seq<char>>
    decreases s.len() - from,
{
    let end = run_end(s, from, CharClass::Except(sep));
    if 0 <= from <= end < s.len() {
        seq![s.subrange(from, end)] + split_from(s, end + 1, sep)
    } else {
        seq![s.subrange(from, end)]
    }
}

/// The pieces of `s` cut at every `sep`.
pub open spec fn split(s: Seq<char>, sep: char) -> Seq<Seq<char>> {
    split_from(s, 0, sep)
}

/// The view of a string that may be absent.
pub open spec fn opt_text(o: Option<String>) -> Option<Seq<char>> {
    match o {
        Some(s) => Some(s@),
        None => None,
    }
}

/// The view of a string slice that may be absent.
pub open spec fn opt_str(o: Option<&str>) -> Option<Seq<char>> {
    match o {
        Some(s) => Some(s@),
        None => None,
    }
}

/// The characters with the Unicode property White_Space.
pub open spec fn is_whitespace(c: char) -> bool {
    ||| '\u{9}' <= c && c <= '\u{d}'
    ||| c == ' '
    ||| c == '\u{85}'
    ||| c == '\u{a0}'
    ||| c == '\u{1680}'
    ||| '\u{2000}' <= c && c <= '\u{200a}'
    ||| c == '\u{2028}'
    ||| c == '\u{2029}'
    ||| c == '\u{202f}'
    ||| c == '\u{205f}'
    ||| c == '\u{3000}'
}

/// A text is blank when it is empty or holds white space only.
pub open spec fn is_blank(s: Seq<char>) -> bool {
    forall|i: int| 0 <= i < s.len() ==> is_whitespace(#[trigger] s[i])
}

/// Whether `c` has the Unicode property White_Space.
pub fn whitespace(c: char) -> (r: bool)
    ensures
        r == is_whitespace(c),
{
    ('\u{9}' <= c && c <= '\u{d}') || c == ' ' || c == '\u{85}' || c == '\u{a0}' || c == '\u{1680}'
        || ('\u{2000}' <= c && c <= '\u{200a}') || c == '\u{2028}' || c == '\u{2029}' || c
        == '\u{202f}' || c == '\u{205f}' || c == '\u{3000}'
}

/// Whether `s` is empty or holds white space only.
pub fn blank(s: &str) -> (r: bool)
    ensures
        r == is_blank(s@),
{
    let chars = chars_of(s);
    let mut i: usize = 0;
    while i < chars.len()
        invariant
            i <= chars.len(),
            chars@ == s@,
            forall|k: int| 0 <= k < i ==> is_whitespace(#[trigger] s@[k]),
        decreases chars.len() - i,
    {
        if !whitespace(chars[i]) {
            return false;
        }
        i = i + 1;
    }
    true
}

/// A copy of a string that may be absent.
pub fn copy_opt(o: &Option<String>) -> (r: Option<String>)
    ensures
        opt_text(r) == opt_text(*o),
{
    match o {
        Some(s) => Some(s.clone()),
        None => None,
    }
}

/// The views of a list of strings.
pub open spec fn texts(v: Seq<String>) -> Seq<Seq<char>> {
    Seq::new(v.len(), |i: int| v[i]@)
}

/// A text has a single piece exactly when the separator does not occur in it.
pub proof fn lemma_split_single(s: Seq<char>, sep: char)
    ensures
        split(s, sep).len() >= 1,
        split(s, sep).len() == 1 <==> !s.contains(sep),
        split(s, sep).len() == 1 ==> split(s, sep)[0] == s,
{
    let end = run_end(s, 0, CharClass::Except(sep));
    lemma_run_end(s, 0, CharClass::Except(sep));
    if end < s.len() {
        assert(s[end] == sep);
        lemma_split_from_len(s, end + 1, sep);
    } else {
        assert(s.subrange(0, end) =~= s);
        assert(!s.contains(sep)) by {
            if s.contains(sep) {
                let k = choose|k: int| 0 <= k < s.len() && s[k] == sep;
                assert(CharClass::Except(sep).holds(s[k]));
            }
        }
    }
}

/// Cutting always leaves at least one piece.
pub proof fn lemma_split_from_len(s: Seq<char>, from: int, sep: char)
    requires
        0 <= from <= s.len(),
    ensures
        split_from(s, from, sep).len() >= 1,
    decreases s.len() - from,
{
    let end = run_end(s, from, CharClass::Except(sep));
    lemma_run_end(s, from, CharClass::Except(sep));
    if end < s.len() {
        lemma_split_from_len(s, end + 1, sep);
    }
}

/// No piece holds the separator.
pub proof fn lemma_pieces_hold_no_separator(s: Seq<char>, from: int, sep: char)
    requires
        0 <= from <= s.len(),
    ensures
        forall|i: int|
            0 <= i < split_from(s, from, sep).len() ==> !(#[trigger] split_from(s, from, sep)[i])
                .contains(sep),
    decreases s.len() - from,
{
    let class = CharClass::Except(sep);
    let end = run_end(s, from, class);
    let piece = s.subrange(from, end);
    lemma_run_end(s, from, class);
    assert(!piece.contains(sep)) by {
        if piece.contains(sep) {
            let k = choose|k: int| 0 <= k < piece.len() && piece[k] == sep;
            assert(class.holds(s[from + k]));
        }
    }
    if end < s.len() {
        lemma_pieces_hold_no_separator(s, end + 1, sep);
        let rest = split_from(s, end + 1, sep);
        assert forall|i: int| 0 <= i < split_from(s, from, sep).len() implies !(
        #[trigger] split_from(s, from, sep)[i]).contains(sep) by {
            if i > 0 {
                assert(split_from(s, from, sep)[i] == rest[i - 1]);
            }
        }
    }
}

/// Cuts `input` at every `sep`.
pub fn split_text(input: &str, sep: char) -> (pieces: Vec<String>)
    ensures
        texts(pieces@) == split(input@, sep),
        pieces.len() >= 1,
{
    let chars = chars_of(input);
    let mut pieces: Vec<String> = Vec::new();
    let mut from: usize = 0;
    loop
        invariant_except_break
            chars@ == input@,
            from <= chars.len(),
            split(input@, sep) == texts(pieces@) + split_from(input@, from as int, sep),
        ensures
            texts(pieces@) == split(input@, sep),
            pieces.len() >= 1,
        decreases chars.len() - from,
    {
        let end = scan(&chars, from, CharClass::Except(sep));
        let piece = input.substring_char(from, end).to_owned();
        let ghost before = texts(pieces@);
        pieces.push(piece);
        assert(texts(pieces@) =~= before.push(input@.subrange(from as int, end as int)));
        if end < chars.len() {
            assert(split(input@, sep) =~= texts(pieces@) + split_from(
                input@,
                end as int + 1,
                sep,
            ));
            from = end + 1;
        } else {
            assert(split(input@, sep) =~= texts(pieces@));
            break;
        }
    }
    pieces
}

} // verus!
