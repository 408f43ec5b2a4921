//! Operations on text, seen as a sequence of characters.

use vstd::prelude::*;
use vstd::slice::slice_subrange;

verus! {

/// `String::push` appends one character.
pub assume_specification[ String::push ](s: &mut String, c: char)
    ensures
        final(s)@ == old(s)@.push(c),
;

/// The characters of `s`, in order.
pub fn chars_of(s: &str) -> (chars: Vec<char>)
    ensures
        chars@ == s@,
{
    let mut chars: Vec<char> = Vec::new();
    for c in it: s.chars()
        invariant
            it.seq() == s@,
            chars@ == s@.take(it.index() as int),
    {
        chars.push(c);
        assert(s@.take(it.index() + 1) =~= s@.take(it.index() as int).push(c));
    }
    assert(s@.take(s@.len() as int) =~= s@);
    chars
}

/// The text made of `chars`, in order.
pub fn string_of(chars: &[char]) -> (s: String)
    ensures
        s@ == chars@,
{
    let mut s = String::new();
    for i in 0..chars.len()
        invariant
            s@ == chars@.take(i as int),
    {
        s.push(chars[i]);
        assert(chars@.take(i + 1) =~= chars@.take(i as int).push(chars@[i as int]));
    }
    assert(chars@.take(chars@.len() as int) =~= chars@);
    s
}

/// `pattern` stands in `text` at position `at`.
pub open spec fn occurs_at(text: Seq<char>, pattern: Seq<char>, at: int) -> bool {
    0 <= at && at + pattern.len() <= text.len() && text.subrange(at, at + pattern.len())
        == pattern
}

/// `pattern` stands somewhere in `text`.
pub open spec fn contains(text: Seq<char>, pattern: Seq<char>) -> bool {
    exists|at: int| #[trigger] occurs_at(text, pattern, at)
}

/// `text` after as many leading copies of `prefix` as there are.
pub open spec fn without_leading(text: Seq<char>, prefix: Seq<char>) -> Seq<char>
    decreases text.len(),
{
    if prefix.len() > 0 && prefix.is_prefix_of(text) {
        without_leading(text.skip(prefix.len() as int), prefix)
    } else {
        text
    }
}

/// `text` before as many trailing copies of `suffix` as there are.
pub open spec fn without_trailing(text: Seq<char>, suffix: Seq<char>) -> Seq<char>
    decreases text.len(),
{
    if suffix.len() > 0 && suffix.is_suffix_of(text) {
        without_trailing(text.take(text.len() - suffix.len()), suffix)
    } else {
        text
    }
}

/// `text` with each copy of `from` replaced by `to`, from left to right.
pub open spec fn replaced(text: Seq<char>, from: Seq<char>, to: Seq<char>) -> Seq<char>
    decreases text.len(),
{
    if text.len() == 0 || from.len() == 0 {
        text
    } else if from.is_prefix_of(text) {
        to + replaced(text.skip(from.len() as int), from, to)
    } else {
        seq![text[0]] + replaced(text.skip(1), from, to)
    }
}

/// The pieces of `text` between the characters that `cut` holds of: one more
/// than there are such characters, some of them perhaps empty.
pub open spec fn pieces(text: Seq<char>, cut: spec_fn(char) -> bool) -> Seq<Seq<char>>
    decreases text.len(),
{
    if text.len() == 0 {
        seq![Seq::empty()]
    } else {
        let before = pieces(text.drop_last(), cut);
        if cut(text.last()) {
            before.push(Seq::empty())
        } else {
            before.drop_last().push(before.last().push(text.last()))
        }
    }
}

/// What each of `parts` holds.
pub open spec fn views(parts: Seq<Vec<char>>) -> Seq<Seq<char>> {
    parts.map_values(|part: Vec<char>| part@)
}

/// What each of `list` holds.
pub open spec fn strings(list: Seq<String>) -> Seq<Seq<char>> {
    list.map_values(|s: String| s@)
}

/// What `text` holds, where there is one.
pub open spec fn maybe(text: Option<String>) -> Option<Seq<char>> {
    match text {
        Some(found) => Some(found@),
        None => None,
    }
}

/// The characters with the Unicode property White_Space.
pub open spec fn is_space(c: char) -> bool {
    ||| '\u{9}' <= c <= '\u{d}'
    ||| c == '\u{20}'
    ||| c == '\u{85}'
    ||| c == '\u{a0}'
    ||| c == '\u{1680}'
    ||| '\u{2000}' <= c <= '\u{200a}'
    ||| c == '\u{2028}'
    ||| c == '\u{2029}'
    ||| c == '\u{202f}'
    ||| c == '\u{205f}'
    ||| c == '\u{3000}'
}

/// `text` without the white space at its start.
pub open spec fn trimmed_start(text: Seq<char>) -> Seq<char>
    decreases text.len(),
{
    if text.len() > 0 && is_space(text.first()) {
        trimmed_start(text.drop_first())
    } else {
        text
    }
}

/// `text` without the white space at its end.
pub open spec fn trimmed_end(text: Seq<char>) -> Seq<char>
    decreases text.len(),
{
    if text.len() > 0 && is_space(text.last()) {
        trimmed_end(text.drop_last())
    } else {
        text
    }
}

/// `text` without the white space at its two ends.
pub open spec fn trimmed(text: Seq<char>) -> Seq<char> {
    trimmed_end(trimmed_start(text))
}

/// The words of `text`: what white space parts, without empty pieces.
pub open spec fn words(text: Seq<char>) -> Seq<Seq<char>> {
    pieces(text, |c: char| is_space(c)).filter(|piece: Seq<char>| piece.len() > 0)
}

/// Whether `a` and `b` hold the same characters.
pub fn same_chars(a: &[char], b: &[char]) -> (same: bool)
    ensures
        same == (a@ == b@),
{
    if a.len() != b.len() {
        return false;
    }
    for i in 0..a.len()
        invariant
            a@.len() == b@.len(),
            forall|j: int| 0 <= j < i ==> a@[j] == b@[j],
    {
        if a[i] != b[i] {
            assert(a@[i as int] != b@[i as int]);
            return false;
        }
    }
    assert(a@ =~= b@);
    true
}

/// Whether `a` and `b` are the same text.
pub fn same_text(a: &str, b: &str) -> (same: bool)
    ensures
        same == (a@ == b@),
{
    let a_chars = chars_of(a);
    let b_chars = chars_of(b);
    same_chars(a_chars.as_slice(), b_chars.as_slice())
}

/// Whether `pattern` stands in `text` at position `at`.
pub fn stands_at(text: &[char], pattern: &[char], at: usize) -> (found: bool)
    ensures
        found == occurs_at(text@, pattern@, at as int),
{
    if pattern.len() > text.len() || at > text.len() - pattern.len() {
        return false;
    }
    same_chars(slice_subrange(text, at, at + pattern.len()), pattern)
}

/// Whether `text` contains `pattern`.
pub fn contains_chars(text: &[char], pattern: &[char]) -> (found: bool)
    ensures
        found == contains(text@, pattern@),
{
    let mut at: usize = 0;
    while at < text.len()
        invariant
            at <= text@.len(),
            forall|i: int| 0 <= i < at ==> !occurs_at(text@, pattern@, i),
        decreases text@.len() - at,
    {
        if stands_at(text, pattern, at) {
            return true;
        }
        at += 1;
    }
    let last = stands_at(text, pattern, at);
    assert(!last ==> forall|i: int| !occurs_at(text@, pattern@, i));
    last
}

/// Whether `text` starts with `prefix`.
pub fn starts_with(text: &[char], prefix: &[char]) -> (found: bool)
    ensures
        found == prefix@.is_prefix_of(text@),
{
    stands_at(text, prefix, 0)
}

/// Whether `text` ends with `suffix`.
pub fn ends_with(text: &[char], suffix: &[char]) -> (found: bool)
    ensures
        found == suffix@.is_suffix_of(text@),
{
    suffix.len() <= text.len() && stands_at(text, suffix, text.len() - suffix.len())
}

/// `text` after its leading copies of `prefix`.
pub fn trim_start_matches<'a>(text: &'a [char], prefix: &[char]) -> (rest: &'a [char])
    ensures
        rest@ == without_leading(text@, prefix@),
{
    let mut rest = text;
    if prefix.len() == 0 {
        return rest;
    }
    while starts_with(rest, prefix)
        invariant
            prefix@.len() > 0,
            without_leading(rest@, prefix@) == without_leading(text@, prefix@),
        decreases rest@.len(),
    {
        let ghost before = rest@;
        rest = slice_subrange(rest, prefix.len(), rest.len());
        assert(rest@ =~= before.skip(prefix@.len() as int));
    }
    rest
}

/// `text` before its trailing copies of `suffix`.
pub fn trim_end_matches<'a>(text: &'a [char], suffix: &[char]) -> (rest: &'a [char])
    ensures
        rest@ == without_trailing(text@, suffix@),
{
    let mut rest = text;
    if suffix.len() == 0 {
        return rest;
    }
    while ends_with(rest, suffix)
        invariant
            suffix@.len() > 0,
            without_trailing(rest@, suffix@) == without_trailing(text@, suffix@),
        decreases rest@.len(),
    {
        let ghost before = rest@;
        rest = slice_subrange(rest, 0, rest.len() - suffix.len());
        assert(rest@ =~= before.take(before.len() - suffix@.len()));
    }
    rest
}

/// `text` with each copy of `from` replaced by `to`.
pub fn replace(text: &[char], from: &[char], to: &[char]) -> (out: Vec<char>)
    requires
        from@.len() > 0,
    ensures
        out@ == replaced(text@, from@, to@),
{
    let mut out: Vec<char> = Vec::new();
    let mut at: usize = 0;
    assert(text@.skip(0) =~= text@);
    while at < text.len()
        invariant
            from@.len() > 0,
            at <= text@.len(),
            out@ + replaced(text@.skip(at as int), from@, to@) =~= replaced(text@, from@, to@),
        decreases text@.len() - at,
    {
        let ghost rest = text@.skip(at as int);
        if stands_at(text, from, at) {
            assert(from@.is_prefix_of(rest)) by {
                assert(rest.subrange(0, from@.len() as int) =~= text@.subrange(
                    at as int,
                    at + from@.len(),
                ));
            }
            append_chars(&mut out, to);
            at += from.len();
            assert(text@.skip(at as int) =~= rest.skip(from@.len() as int));
        } else {
            assert(!from@.is_prefix_of(rest)) by {
                if from@.is_prefix_of(rest) {
                    assert(rest.subrange(0, from@.len() as int) =~= text@.subrange(
                        at as int,
                        at + from@.len(),
                    ));
                }
            }
            out.push(text[at]);
            at += 1;
            assert(text@.skip(at as int) =~= rest.skip(1));
        }
    }
    assert(text@.skip(at as int).len() == 0);
    out
}

/// Appends `more` to `out`.
pub fn append_chars(out: &mut Vec<char>, more: &[char])
    ensures
        final(out)@ == old(out)@ + more@,
{
    let ghost before = out@;
    for i in 0..more.len()
        invariant
            out@ == before + more@.take(i as int),
    {
        out.push(more[i]);
        assert(more@.take(i + 1) =~= more@.take(i as int).push(more@[i as int]));
    }
    assert(more@.take(more@.len() as int) =~= more@);
}

/// A text has at least one piece.
pub proof fn lemma_some_piece(text: Seq<char>, cut: spec_fn(char) -> bool)
    ensures
        pieces(text, cut).len() > 0,
    decreases text.len(),
{
    if text.len() > 0 {
        lemma_some_piece(text.drop_last(), cut);
    }
}

/// Whether `c` is white space.
pub fn is_whitespace(c: char) -> (space: bool)
    ensures
        space == is_space(c),
{
    ('\u{9}' <= c && c <= '\u{d}') || c == '\u{20}' || c == '\u{85}' || c == '\u{a0}' || c
        == '\u{1680}' || ('\u{2000}' <= c && c <= '\u{200a}') || c == '\u{2028}' || c
        == '\u{2029}' || c == '\u{202f}' || c == '\u{205f}' || c == '\u{3000}'
}

/// `text` without the white space at its end.
pub fn trim_end<'a>(text: &'a [char]) -> (rest: &'a [char])
    ensures
        rest@ == trimmed_end(text@),
{
    let mut end: usize = text.len();
    assert(text@.take(end as int) =~= text@);
    while end > 0 && is_whitespace(text[end - 1])
        invariant
            end <= text@.len(),
            trimmed_end(text@.take(end as int)) == trimmed_end(text@),
        decreases end,
    {
        assert(text@.take(end as int).drop_last() =~= text@.take(end - 1));
        end -= 1;
    }
    assert(text@.subrange(0, end as int) =~= text@.take(end as int));
    slice_subrange(text, 0, end)
}

/// `text` without the white space at its start.
pub fn trim_start<'a>(text: &'a [char]) -> (rest: &'a [char])
    ensures
        rest@ == trimmed_start(text@),
{
    let mut start: usize = 0;
    assert(text@.skip(0) =~= text@);
    while start < text.len() && is_whitespace(text[start])
        invariant
            start <= text@.len(),
            trimmed_start(text@.skip(start as int)) == trimmed_start(text@),
        decreases text@.len() - start,
    {
        assert(text@.skip(start as int).drop_first() =~= text@.skip(start + 1));
        start += 1;
    }
    assert(text@.subrange(start as int, text@.len() as int) =~= text@.skip(start as int));
    slice_subrange(text, start, text.len())
}

/// `text` without the white space at its two ends.
pub fn trim<'a>(text: &'a [char]) -> (rest: &'a [char])
    ensures
        rest@ == trimmed(text@),
{
    trim_end(trim_start(text))
}

/// The pieces of `text` between the characters that `is_cut` holds of, which
/// are those that `cut` holds of.
fn split_by(
    text: &[char],
    is_cut: impl Fn(char) -> bool,
    Ghost(cut): Ghost<spec_fn(char) -> bool>,
) -> (parts: Vec<Vec<char>>)
    requires
        forall|c: char| #[trigger] is_cut.requires((c,)),
        forall|c: char, yes: bool| #[trigger] is_cut.ensures((c,), yes) ==> yes == cut(c),
    ensures
        views(parts@) == pieces(text@, cut),
{
    let mut parts: Vec<Vec<char>> = Vec::new();
    let mut part: Vec<char> = Vec::new();
    assert(views(parts@).push(part@) =~= pieces(text@.take(0), cut));
    for i in 0..text.len()
        invariant
            forall|c: char| #[trigger] is_cut.requires((c,)),
            forall|c: char, yes: bool| #[trigger] is_cut.ensures((c,), yes) ==> yes == cut(c),
            views(parts@).push(part@) == pieces(text@.take(i as int), cut),
    {
        let c = text[i];
        let ghost before = views(parts@).push(part@);
        assert(text@.take(i + 1).drop_last() =~= text@.take(i as int));
        assert(before.drop_last() =~= views(parts@));
        if is_cut(c) {
            parts.push(part);
            part = Vec::new();
            assert(views(parts@) =~= before);
            assert(part@ =~= Seq::empty());
        } else {
            part.push(c);
        }
    }
    let ghost before = views(parts@).push(part@);
    parts.push(part);
    assert(views(parts@) =~= before);
    assert(text@.take(text@.len() as int) =~= text@);
    parts
}

/// The pieces of `text` between the characters that `marks` holds.
pub fn split_on(text: &[char], marks: &[char]) -> (parts: Vec<Vec<char>>)
    ensures
        views(parts@) == pieces(text@, |c: char| marks@.contains(c)),
{
    let is_mark = |c: char| -> (yes: bool)
        ensures
            yes == marks@.contains(c),
    {
        holds(marks, c)
    };
    split_by(text, is_mark, Ghost(|c: char| marks@.contains(c)))
}

/// Whether `c` is one of `marks`.
pub fn holds(marks: &[char], c: char) -> (found: bool)
    ensures
        found == marks@.contains(c),
{
    for i in 0..marks.len()
        invariant
            forall|j: int| 0 <= j < i ==> marks@[j] != c,
    {
        if marks[i] == c {
            assert(marks@[i as int] == c);
            return true;
        }
    }
    false
}

/// The words of `text`.
pub fn split_whitespace(text: &[char]) -> (found: Vec<Vec<char>>)
    ensures
        views(found@) == words(text@),
{
    let is_gap = |c: char| -> (yes: bool)
        ensures
            yes == is_space(c),
    {
        is_whitespace(c)
    };
    let parts = split_by(text, is_gap, Ghost(|c: char| is_space(c)));
    let ghost all = pieces(text@, |c: char| is_space(c));
    let ghost some = |piece: Seq<char>| piece.len() > 0;
    let mut found: Vec<Vec<char>> = Vec::new();
    let mut i: usize = 0;
    assert(views(found@) =~= all.take(0).filter(some)) by {
        reveal(Seq::filter);
    }
    while i < parts.len()
        invariant
            i <= parts@.len(),
            views(parts@) == all,
            some == (|piece: Seq<char>| piece.len() > 0),
            views(found@) == all.take(i as int).filter(some),
        decreases parts@.len() - i,
    {
        let part = &parts[i];
        let ghost before = views(found@);
        proof {
            assert(part@ == all[i as int]);
            assert(all.take(i + 1) =~= all.take(i as int).push(part@));
            all.take(i as int).lemma_filter_push(part@, some);
        }
        if part.len() > 0 {
            let mut copy: Vec<char> = Vec::new();
            append_chars(&mut copy, part.as_slice());
            assert(copy@ =~= part@);
            found.push(copy);
            assert(views(found@) =~= before.push(part@));
        }
        i += 1;
    }
    assert(all.take(all.len() as int) =~= all);
    found
}

/// What stands in a part of a text stands in the text.
pub proof fn lemma_part_of_part(text: Seq<char>, part: Seq<char>, pattern: Seq<char>)
    requires
        contains(text, part),
        contains(part, pattern),
    ensures
        contains(text, pattern),
{
    let i = choose|i: int| #[trigger] occurs_at(text, part, i);
    let j = choose|j: int| #[trigger] occurs_at(part, pattern, j);
    assert(text.subrange(i + j, i + j + pattern.len()) =~= part.subrange(j, j + pattern.len()));
    assert(occurs_at(text, pattern, i + j));
}

/// The last piece of a text stands at its end.
proof fn lemma_last_piece(text: Seq<char>, cut: spec_fn(char) -> bool)
    ensures
        pieces(text, cut).len() > 0,
        pieces(text, cut).last().is_suffix_of(text),
    decreases text.len(),
{
    if text.len() > 0 {
        lemma_last_piece(text.drop_last(), cut);
    }
}

/// Each piece of a text stands in it.
pub proof fn lemma_piece_occurs(text: Seq<char>, cut: spec_fn(char) -> bool, i: int)
    requires
        0 <= i < pieces(text, cut).len(),
    ensures
        contains(text, pieces(text, cut)[i]),
    decreases text.len(),
{
    let all = pieces(text, cut);
    let piece = all[i];
    if i == all.len() - 1 {
        lemma_last_piece(text, cut);
        assert(occurs_at(text, piece, text.len() - piece.len()));
    } else {
        let front = text.drop_last();
        assert(piece == pieces(front, cut)[i]);
        lemma_piece_occurs(front, cut, i);
        let at = choose|at: int| #[trigger] occurs_at(front, piece, at);
        assert(text.subrange(at, at + piece.len()) =~= front.subrange(at, at + piece.len()));
        assert(occurs_at(text, piece, at));
    }
}

/// What is left of a text without the white space at its start stands at its
/// end.
proof fn lemma_trimmed_start(text: Seq<char>)
    ensures
        trimmed_start(text).is_suffix_of(text),
    decreases text.len(),
{
    if text.len() > 0 && is_space(text.first()) {
        lemma_trimmed_start(text.drop_first());
    }
}

/// What is left of a text without the white space at its end stands at its
/// start.
pub proof fn lemma_trimmed_end(text: Seq<char>)
    ensures
        trimmed_end(text).is_prefix_of(text),
    decreases text.len(),
{
    if text.len() > 0 && is_space(text.last()) {
        lemma_trimmed_end(text.drop_last());
    }
}

/// What is left of a text without the white space at its ends stands in it.
pub proof fn lemma_trimmed_occurs(text: Seq<char>)
    ensures
        contains(text, trimmed(text)),
{
    let tail = trimmed_start(text);
    lemma_trimmed_start(text);
    lemma_trimmed_end(tail);
    assert(occurs_at(text, tail, text.len() - tail.len()));
    assert(occurs_at(tail, trimmed(text), 0));
    lemma_part_of_part(text, tail, trimmed(text));
}

/// No character of `text` is cut at.
pub open spec fn uncut(text: Seq<char>, cut: spec_fn(char) -> bool) -> bool {
    forall|i: int| 0 <= i < text.len() ==> !cut(#[trigger] text[i])
}

/// A text without a cut is one piece.
pub proof fn lemma_one_piece(text: Seq<char>, cut: spec_fn(char) -> bool)
    requires
        uncut(text, cut),
    ensures
        pieces(text, cut) == seq![text],
    decreases text.len(),
{
    if text.len() == 0 {
        assert(text =~= Seq::empty());
    } else {
        let front = text.drop_last();
        assert(forall|i: int| 0 <= i < front.len() ==> front[i] == text[i]);
        assert(!cut(text[text.len() - 1]));
        lemma_one_piece(front, cut);
        assert(front.push(text.last()) =~= text);
        assert(pieces(text, cut) =~= seq![text]);
    }
}

/// A text with one cut is two pieces.
pub proof fn lemma_two_pieces(
    before: Seq<char>,
    mark: char,
    behind: Seq<char>,
    cut: spec_fn(char) -> bool,
)
    requires
        uncut(before, cut),
        cut(mark),
        uncut(behind, cut),
    ensures
        pieces(before.push(mark) + behind, cut) == seq![before, behind],
    decreases behind.len(),
{
    let text = before.push(mark) + behind;
    if behind.len() == 0 {
        assert(text =~= before.push(mark));
        assert(text.drop_last() =~= before);
        lemma_one_piece(before, cut);
        assert(behind =~= Seq::empty());
        assert(pieces(text, cut) =~= seq![before, behind]);
    } else {
        let front = behind.drop_last();
        assert(forall|i: int| 0 <= i < front.len() ==> front[i] == behind[i]);
        assert(!cut(behind[behind.len() - 1]));
        lemma_two_pieces(before, mark, front, cut);
        assert(text.drop_last() =~= before.push(mark) + front);
        assert(front.push(behind.last()) =~= behind);
        assert(pieces(text, cut) =~= seq![before, behind]);
    }
}

/// A pattern is found in a text exactly where the text is something, the pattern,
/// and something more: wherever it stands, and however long the text is.
pub proof fn law_pattern_is_found_wherever_it_stands(text: Seq<char>, pattern: Seq<char>)
    ensures
        contains(text, pattern) <==> exists|before: Seq<char>, behind: Seq<char>|
            text == #[trigger] (before + pattern + behind),
{
    if contains(text, pattern) {
        let at = choose|at: int| #[trigger] occurs_at(text, pattern, at);
        let before = text.take(at);
        let behind = text.skip(at + pattern.len());
        assert(text =~= before + text.subrange(at, at + pattern.len()) + behind);
        assert(text == before + pattern + behind);
    }
    if exists|before: Seq<char>, behind: Seq<char>| text == #[trigger] (before + pattern + behind) {
        let (before, behind) = choose|before: Seq<char>, behind: Seq<char>|
            text == #[trigger] (before + pattern + behind);
        lemma_found_between(before, pattern, behind);
    }
}

/// A pattern is found between what stands before it and what stands behind it.
pub proof fn lemma_found_between(before: Seq<char>, pattern: Seq<char>, behind: Seq<char>)
    ensures
        contains(before + pattern + behind, pattern),
{
    let text = before + pattern + behind;
    let at = before.len() as int;
    assert(text.subrange(at, at + pattern.len()) =~= pattern);
    assert(occurs_at(text, pattern, at));
}

/// One more copy at the start is left out too, and a text that does not start
/// with the prefix is left as it is.
pub proof fn law_leading_copies_are_left_out(text: Seq<char>, prefix: Seq<char>)
    requires
        prefix.len() > 0,
    ensures
        without_leading(prefix + text, prefix) == without_leading(text, prefix),
        !prefix.is_prefix_of(text) ==> without_leading(text, prefix) == text,
        !prefix.is_prefix_of(without_leading(text, prefix)),
    decreases text.len(),
{
    let longer = prefix + text;
    assert(longer.subrange(0, prefix.len() as int) =~= prefix);
    assert(longer.skip(prefix.len() as int) =~= text);
    if prefix.is_prefix_of(text) {
        law_leading_copies_are_left_out(text.skip(prefix.len() as int), prefix);
    }
}

/// One more copy at the end is left out too, and a text that does not end with
/// the suffix is left as it is.
pub proof fn law_trailing_copies_are_left_out(text: Seq<char>, suffix: Seq<char>)
    requires
        suffix.len() > 0,
    ensures
        without_trailing(text + suffix, suffix) == without_trailing(text, suffix),
        !suffix.is_suffix_of(text) ==> without_trailing(text, suffix) == text,
        !suffix.is_suffix_of(without_trailing(text, suffix)),
    decreases text.len(),
{
    let longer = text + suffix;
    assert(longer.subrange(longer.len() - suffix.len(), longer.len() as int) =~= suffix);
    assert(longer.take(longer.len() - suffix.len()) =~= text);
    if suffix.is_suffix_of(text) {
        law_trailing_copies_are_left_out(text.take(text.len() - suffix.len()), suffix);
    }
}

/// What stands before the first copy stays, the copy is replaced, and what stands
/// behind it is treated in the same way; without a copy nothing changes.
pub proof fn law_first_copy_is_replaced(
    before: Seq<char>,
    from: Seq<char>,
    behind: Seq<char>,
    to: Seq<char>,
)
    requires
        from.len() > 0,
        forall|at: int|
            0 <= at < before.len() ==> !#[trigger] occurs_at(before + from + behind, from, at),
    ensures
        replaced(before + from + behind, from, to) == before + to + replaced(behind, from, to),
        !contains(behind, from) ==> replaced(behind, from, to) == behind,
{
    if !contains(behind, from) {
        lemma_nothing_replaced(behind, from, to);
    }
    let text = before + from + behind;
    lemma_replaced_from(text, before.len() as int, from, to);
    assert(text.take(before.len() as int) =~= before);
    assert(text.skip(before.len() as int + from.len()) =~= behind);
    assert(occurs_at(text, from, before.len() as int)) by {
        assert(text.subrange(before.len() as int, before.len() as int + from.len()) =~= from);
    }
}

/// The first copy that stands in a text is replaced.
#[verifier::spinoff_prover]
proof fn lemma_replaced_from(text: Seq<char>, first: int, from: Seq<char>, to: Seq<char>)
    requires
        from.len() > 0,
        0 <= first,
        forall|at: int| 0 <= at < first ==> !#[trigger] occurs_at(text, from, at),
    ensures
        occurs_at(text, from, first) ==> replaced(text, from, to) == text.take(first) + to
            + replaced(text.skip(first + from.len()), from, to),
    decreases first,
{
    if occurs_at(text, from, first) {
        if first == 0 {
            assert(from.is_prefix_of(text));
            assert(text.take(0) + to =~= to);
        } else {
            let rest = text.skip(1);
            assert(!occurs_at(text, from, 0));
            assert(!from.is_prefix_of(text));
            assert forall|at: int| 0 <= at < first - 1 implies !#[trigger] occurs_at(
                rest,
                from,
                at,
            ) by {
                assert(!occurs_at(text, from, at + 1));
                if occurs_at(rest, from, at) {
                    assert(text.subrange(at + 1, at + 1 + from.len()) =~= rest.subrange(
                        at,
                        at + from.len(),
                    ));
                }
            }
            lemma_replaced_from(rest, first - 1, from, to);
            assert(rest.subrange(first - 1, first - 1 + from.len()) =~= text.subrange(
                first,
                first + from.len(),
            ));
            assert(occurs_at(rest, from, first - 1));
            let tail = replaced(text.skip(first + from.len()), from, to);
            assert(rest.skip(first - 1 + from.len()) =~= text.skip(first + from.len()));
            assert(seq![text[0]] + (rest.take(first - 1) + to + tail) =~= text.take(first) + to
                + tail);
        }
    }
}

/// Where `from` does not stand in a text, nothing is replaced.
pub proof fn lemma_nothing_replaced(text: Seq<char>, from: Seq<char>, to: Seq<char>)
    requires
        !contains(text, from),
    ensures
        replaced(text, from, to) == text,
    decreases text.len(),
{
    if text.len() > 0 && from.len() > 0 {
        let rest = text.skip(1);
        if from.is_prefix_of(text) {
            assert(occurs_at(text, from, 0));
        }
        assert forall|at: int| !#[trigger] occurs_at(rest, from, at) by {
            if occurs_at(rest, from, at) {
                assert(text.subrange(at + 1, at + 1 + from.len()) =~= rest.subrange(
                    at,
                    at + from.len(),
                ));
                assert(occurs_at(text, from, at + 1));
            }
        }
        lemma_nothing_replaced(rest, from, to);
        assert(seq![text[0]] + rest =~= text);
    }
}

/// A text without a cut is one piece, and a cut parts the pieces before it from
/// those behind it.
pub proof fn law_cut_parts_the_pieces(
    before: Seq<char>,
    mark: char,
    behind: Seq<char>,
    cut: spec_fn(char) -> bool,
)
    requires
        cut(mark),
    ensures
        pieces(before.push(mark) + behind, cut) == pieces(before, cut) + pieces(behind, cut),
        (forall|i: int| 0 <= i < before.len() ==> !cut(#[trigger] before[i])) ==> pieces(
            before,
            cut,
        ) == seq![before],
    decreases behind.len(),
{
    let text = before.push(mark) + behind;
    if forall|i: int| 0 <= i < before.len() ==> !cut(#[trigger] before[i]) {
        lemma_one_piece(before, cut);
    }
    if behind.len() == 0 {
        assert(text =~= before.push(mark));
        assert(text.drop_last() =~= before);
        assert(pieces(text, cut) =~= pieces(before, cut) + pieces(behind, cut));
    } else {
        let front = behind.drop_last();
        law_cut_parts_the_pieces(before, mark, front, cut);
        lemma_some_piece(front, cut);
        assert(text.drop_last() =~= before.push(mark) + front);
        assert(pieces(text, cut) =~= pieces(before, cut) + pieces(behind, cut));
    }
}

/// No piece holds a cut.
pub proof fn law_no_piece_holds_a_cut(text: Seq<char>, cut: spec_fn(char) -> bool, i: int, j: int)
    requires
        0 <= i < pieces(text, cut).len(),
        0 <= j < pieces(text, cut)[i].len(),
    ensures
        !cut(pieces(text, cut)[i][j]),
    decreases text.len(),
{
    if text.len() > 0 {
        let front = text.drop_last();
        let before = pieces(front, cut);
        lemma_some_piece(front, cut);
        if cut(text.last()) {
            if i < before.len() {
                law_no_piece_holds_a_cut(front, cut, i, j);
            }
        } else if i < before.len() - 1 || j < before.last().len() {
            law_no_piece_holds_a_cut(front, cut, i, j);
        }
    }
}

/// Each stretch of a text from a cut, or the start, to the next cut, or the end,
/// is a piece.
pub proof fn law_each_stretch_is_a_piece(
    text: Seq<char>,
    cut: spec_fn(char) -> bool,
    from: int,
    to: int,
)
    requires
        0 <= from <= to <= text.len(),
        from == 0 || cut(text[from - 1]),
        to == text.len() || cut(text[to]),
        forall|i: int| from <= i < to ==> !cut(#[trigger] text[i]),
    ensures
        pieces(text, cut).contains(text.subrange(from, to)),
{
    let stretch = text.subrange(from, to);
    lemma_one_piece(stretch, cut);
    let tail = text.skip(from);
    if to == text.len() {
        assert(tail =~= stretch);
    } else {
        let behind = text.skip(to + 1);
        assert(tail =~= stretch.push(text[to]) + behind);
        law_cut_parts_the_pieces(stretch, text[to], behind, cut);
    }
    assert(pieces(tail, cut)[0] == stretch);
    lemma_some_piece(tail, cut);
    if from == 0 {
        assert(tail =~= text);
    } else {
        let before = text.take(from - 1);
        assert(text =~= before.push(text[from - 1]) + tail);
        law_cut_parts_the_pieces(before, text[from - 1], tail, cut);
        assert(pieces(text, cut)[pieces(before, cut).len() as int] == stretch);
    }
}

/// What is left of a text without the white space at its start: all of it from
/// the first other character on.
proof fn lemma_trimmed_start_from(text: Seq<char>) -> (from: int)
    ensures
        0 <= from <= text.len(),
        trimmed_start(text) == text.skip(from),
        forall|i: int| 0 <= i < from ==> is_space(#[trigger] text[i]),
        from < text.len() ==> !is_space(text[from]),
    decreases text.len(),
{
    if text.len() > 0 && is_space(text.first()) {
        let rest = text.drop_first();
        let from = lemma_trimmed_start_from(rest);
        assert(rest.skip(from) =~= text.skip(from + 1));
        assert forall|i: int| 0 <= i < from + 1 implies is_space(#[trigger] text[i]) by {
            if i > 0 {
                assert(rest[i - 1] == text[i]);
            }
        }
        from + 1
    } else {
        assert(text.skip(0) =~= text);
        0
    }
}

/// What is left of a text without the white space at its end: all of it up to the
/// last other character.
pub proof fn lemma_trimmed_end_to(text: Seq<char>) -> (to: int)
    ensures
        0 <= to <= text.len(),
        trimmed_end(text) == text.take(to),
        forall|i: int| to <= i < text.len() ==> is_space(#[trigger] text[i]),
        to > 0 ==> !is_space(text[to - 1]),
    decreases text.len(),
{
    if text.len() > 0 && is_space(text.last()) {
        let rest = text.drop_last();
        let to = lemma_trimmed_end_to(rest);
        assert(rest.take(to) =~= text.take(to));
        assert forall|i: int| to <= i < text.len() implies is_space(#[trigger] text[i]) by {
            if i < rest.len() {
                assert(rest[i] == text[i]);
            }
        }
        to
    } else {
        assert(text.take(text.len() as int) =~= text);
        text.len() as int
    }
}

/// Trimming leaves out white space at the two ends, all of it, and nothing else.
pub proof fn law_only_white_space_is_trimmed(text: Seq<char>)
    ensures
        exists|from: int, to: int|
            0 <= from <= to <= text.len() && trimmed(text) == #[trigger] text.subrange(from, to)
                && (forall|i: int| 0 <= i < from || to <= i < text.len() ==> is_space(
                #[trigger] text[i],
            )) && (from < to ==> !is_space(text[from]) && !is_space(text[to - 1])),
        forall|c: char| #[trigger] is_space(c) ==> !('!' <= c <= '~'),
        is_space(' ') && is_space('\t') && is_space('\n') && is_space('\r'),
{
    let from = lemma_trimmed_start_from(text);
    let tail = text.skip(from);
    let to = lemma_trimmed_end_to(tail);
    assert(tail.take(to) =~= text.subrange(from, from + to));
    assert forall|i: int| 0 <= i < from || from + to <= i < text.len() implies is_space(
        #[trigger] text[i],
    ) by {
        if i >= from {
            assert(tail[i - from] == text[i]);
        }
    }
    if to > 0 {
        assert(tail[to - 1] == text[from + to - 1]);
        assert(tail[0] == text[from]);
    }
    assert(trimmed(text) == text.subrange(from, from + to));
}

/// White space parts the words before it from those behind it, and a text without
/// white space is one word, unless it is empty.
pub proof fn law_white_space_parts_the_words(before: Seq<char>, gap: char, behind: Seq<char>)
    requires
        is_space(gap),
    ensures
        words(before.push(gap) + behind) == words(before) + words(behind),
        (forall|i: int| 0 <= i < before.len() ==> !is_space(#[trigger] before[i])) ==> words(
            before,
        ) == (if before.len() > 0 {
            seq![before]
        } else {
            Seq::empty()
        }),
{
    let cut = |c: char| is_space(c);
    let some = |piece: Seq<char>| piece.len() > 0;
    law_cut_parts_the_pieces(before, gap, behind, cut);
    Seq::filter_distributes_over_add(pieces(before, cut), pieces(behind, cut), some);
    if forall|i: int| 0 <= i < before.len() ==> !is_space(#[trigger] before[i]) {
        assert(pieces(before, cut) =~= Seq::<Seq<char>>::empty().push(before));
        Seq::<Seq<char>>::empty().lemma_filter_push(before, some);
        assert(Seq::<Seq<char>>::empty().filter(some) =~= Seq::empty()) by {
            reveal(Seq::filter);
        }
        assert(words(before) =~= (if before.len() > 0 {
            seq![before]
        } else {
            Seq::empty()
        }));
    }
}

/// A list is seen with all its members, each as it is.
pub proof fn law_lists_are_seen_whole(parts: Seq<Vec<char>>, list: Seq<String>, text: String)
    ensures
        views(parts).len() == parts.len(),
        forall|i: int| 0 <= i < parts.len() ==> #[trigger] views(parts)[i] == parts[i]@,
        strings(list).len() == list.len(),
        forall|i: int| 0 <= i < list.len() ==> #[trigger] strings(list)[i] == list[i]@,
        maybe(Some(text)) == Some(text@),
        maybe(None) is None,
{
}

} // verus!
