//! Helpers on text: strings as sequences of characters.

use crate::outside::push_char;
use vstd::prelude::*;

verus! {

/// The characters of `text`, in order.
pub fn chars_of(text: &str) -> (chars: Vec<char>)
    ensures
        chars@ == text@,
{
    let mut chars: Vec<char> = Vec::new();
    for c in it: text.chars()
        invariant
            it.seq() == text@,
            chars@ == text@.take(it.index() as int),
    {
        chars.push(c);
        assert(text@.take(it.index() + 1) =~= text@.take(it.index() as int).push(c));
    }
    assert(text@.take(text@.len() as int) =~= text@);
    chars
}

/// The text that `chars` spell.
pub fn string_of(chars: &Vec<char>) -> (text: String)
    ensures
        text@ == chars@,
{
    let mut text = String::new();
    let mut i: usize = 0;
    while i < chars.len()
        invariant
            i <= chars@.len(),
            text@ == chars@.take(i as int),
        decreases chars@.len() - i,
    {
        push_char(&mut text, chars[i]);
        i += 1;
        assert(chars@.take(i as int) =~= chars@.take(i - 1).push(chars@[i - 1]));
    }
    assert(chars@.take(chars@.len() as int) =~= chars@);
    text
}

/// `needle` stands in `hay` from position `at` on.
pub open spec fn spec_occurs_at(needle: Seq<char>, hay: Seq<char>, at: int) -> bool {
    &&& 0 <= at
    &&& at + needle.len() <= hay.len()
    &&& hay.subrange(at, at + needle.len()) == needle
}

/// `needle` stands somewhere in `hay`, its characters side by side.
pub open spec fn spec_contains(hay: Seq<char>, needle: Seq<char>) -> bool {
    exists|at: int| spec_occurs_at(needle, hay, at)
}

/// `needle` stands in `hay` from position `at` on.
fn occurs_at(needle: &Vec<char>, hay: &Vec<char>, at: usize) -> (found: bool)
    requires
        at + needle@.len() <= hay@.len(),
    ensures
        found == spec_occurs_at(needle@, hay@, at as int),
{
    let mut i: usize = 0;
    while i < needle.len()
        invariant
            i <= needle@.len(),
            at + needle@.len() <= hay.len(),
            forall|j: int| 0 <= j < i ==> hay@[at + j] == needle@[j],
        decreases needle@.len() - i,
    {
        if hay[at + i] != needle[i] {
            assert(hay@.subrange(at as int, at + needle@.len())[i as int] != needle@[i as int]);
            return false;
        }
        i += 1;
    }
    assert(hay@.subrange(at as int, at + needle@.len()) =~= needle@);
    true
}

/// Whether `needle` stands somewhere in `hay`. The empty text stands in
/// every text.
pub fn contains_chars(hay: &Vec<char>, needle: &Vec<char>) -> (found: bool)
    ensures
        found == spec_contains(hay@, needle@),
{
    if needle.len() > hay.len() {
        return false;
    }
    if needle.len() == 0 {
        assert(spec_occurs_at(needle@, hay@, 0)) by {
            assert(hay@.subrange(0, 0) =~= needle@);
        }
        return true;
    }
    let last = hay.len() - needle.len();
    let mut at: usize = 0;
    while at <= last
        invariant
            at <= last + 1,
            last < usize::MAX,
            last == hay@.len() - needle@.len(),
            forall|k: int| 0 <= k < at ==> !spec_occurs_at(needle@, hay@, k),
        decreases last + 1 - at,
    {
        if occurs_at(needle, hay, at) {
            return true;
        }
        at += 1;
    }
    false
}

/// Whether `needle` stands somewhere in `hay`.
pub fn contains(hay: &str, needle: &str) -> (found: bool)
    ensures
        found == spec_contains(hay@, needle@),
{
    let hay_chars = chars_of(hay);
    let needle_chars = chars_of(needle);
    contains_chars(&hay_chars, &needle_chars)
}

/// Whether the two texts are the same.
pub fn chars_eq(a: &Vec<char>, b: &Vec<char>) -> (equal: bool)
    ensures
        equal == (a@ == b@),
{
    if a.len() != b.len() {
        return false;
    }
    let mut i: usize = 0;
    while i < a.len()
        invariant
            i <= a@.len(),
            a@.len() == b@.len(),
            forall|j: int| 0 <= j < i ==> a@[j] == b@[j],
        decreases a@.len() - i,
    {
        if a[i] != b[i] {
            return false;
        }
        i += 1;
    }
    assert(a@ =~= b@);
    true
}

/// Whether `chars` spell `literal`.
pub fn chars_spell(chars: &Vec<char>, literal: &str) -> (equal: bool)
    ensures
        equal == (chars@ == literal@),
{
    let wanted = chars_of(literal);
    chars_eq(chars, &wanted)
}

/// The pieces of `text` between the separators, in order: one more than
/// there are separators. The empty text has one empty piece.
pub open spec fn spec_split(text: Seq<char>, separator: char) -> Seq<Seq<char>>
    decreases text.len(),
{
    if text.len() == 0 {
        seq![Seq::<char>::empty()]
    } else {
        let before = spec_split(text.drop_last(), separator);
        if text.last() == separator {
            before.push(Seq::<char>::empty())
        } else {
            before.update(before.len() - 1, before.last().push(text.last()))
        }
    }
}

/// The pieces of `pieces` in one text, with `separator` between each two.
pub open spec fn spec_join(pieces: Seq<Seq<char>>, separator: char) -> Seq<char>
    decreases pieces.len(),
{
    if pieces.len() == 0 {
        Seq::<char>::empty()
    } else if pieces.len() == 1 {
        pieces[0]
    } else {
        spec_join(pieces.drop_last(), separator).push(separator) + pieces.last()
    }
}

/// The texts that `pieces` hold, in order.
pub open spec fn spec_views(pieces: Seq<Vec<char>>) -> Seq<Seq<char>> {
    Seq::new(pieces.len(), |i: int| pieces[i]@)
}

/// The pieces of `text` between the separators.
pub fn split_chars(text: &Vec<char>, separator: char) -> (pieces: Vec<Vec<char>>)
    ensures
        spec_views(pieces@) == spec_split(text@, separator),
        pieces@.len() >= 1,
{
    let mut pieces: Vec<Vec<char>> = Vec::new();
    let mut piece: Vec<char> = Vec::new();
    let mut i: usize = 0;
    while i < text.len()
        invariant
            i <= text@.len(),
            spec_views(pieces@).push(piece@) == spec_split(text@.take(i as int), separator),
        decreases text@.len() - i,
    {
        let c = text[i];
        proof {
            assert(text@.take(i + 1).drop_last() =~= text@.take(i as int));
        }
        let ghost before = spec_views(pieces@).push(piece@);
        if c == separator {
            pieces.push(piece);
            piece = Vec::new();
            assert(spec_views(pieces@) =~= before);
        } else {
            piece.push(c);
            assert(spec_views(pieces@).push(piece@) =~= before.update(
                before.len() - 1,
                before.last().push(c),
            ));
        }
        i += 1;
    }
    assert(text@.take(text@.len() as int) =~= text@);
    let ghost before = spec_views(pieces@).push(piece@);
    pieces.push(piece);
    assert(spec_views(pieces@) =~= before);
    pieces
}

/// A split has at least one piece, no piece holds the separator, and the
/// pieces joined by the separator give the text back.
pub proof fn lemma_split_join(text: Seq<char>, separator: char)
    ensures
        spec_split(text, separator).len() >= 1,
        forall|i: int, j: int|
            0 <= i < spec_split(text, separator).len() && 0 <= j < spec_split(
                text,
                separator,
            )[i].len() ==> spec_split(text, separator)[i][j] != separator,
        spec_join(spec_split(text, separator), separator) == text,
    decreases text.len(),
{
    if text.len() > 0 {
        let front = text.drop_last();
        lemma_split_join(front, separator);
        let before = spec_split(front, separator);
        let pieces = spec_split(text, separator);
        if text.last() == separator {
            assert(pieces.drop_last() =~= before);
            assert(spec_join(pieces, separator) =~= text);
        } else {
            let grown = before.last().push(text.last());
            if before.len() == 1 {
                assert(spec_join(pieces, separator) =~= text);
            } else {
                assert(pieces.drop_last() =~= before.drop_last());
                assert(spec_join(pieces, separator) =~= spec_join(before, separator).push(
                    text.last(),
                ));
                assert(spec_join(pieces, separator) =~= text);
            }
        }
    }
}

/// A text without the separator is one piece.
pub proof fn lemma_split_one_piece(text: Seq<char>, separator: char)
    requires
        forall|i: int| 0 <= i < text.len() ==> text[i] != separator,
    ensures
        spec_split(text, separator) == seq![text],
    decreases text.len(),
{
    if text.len() == 0 {
        assert(text =~= Seq::<char>::empty());
    } else {
        let front = text.drop_last();
        assert forall|i: int| 0 <= i < front.len() implies front[i] != separator by {
            assert(front[i] == text[i]);
        }
        lemma_split_one_piece(front, separator);
        let before = spec_split(front, separator);
        assert(before.len() == 1 && before[0] == front);
        assert(text[text.len() - 1] != separator);
        assert(front.push(text.last()) =~= text);
        assert(before.update(0, front.push(text.last())) =~= seq![text]);
    }
}

/// A text, the separator and a text without the separator: the pieces of
/// the first text, and the last text as one piece more.
pub proof fn lemma_split_last_piece(before: Seq<char>, last: Seq<char>, separator: char)
    requires
        forall|i: int| 0 <= i < last.len() ==> last[i] != separator,
    ensures
        spec_split(before + seq![separator] + last, separator) == spec_split(
            before,
            separator,
        ).push(last),
    decreases last.len(),
{
    let text = before + seq![separator] + last;
    lemma_split_join(before, separator);
    if last.len() == 0 {
        assert(text.drop_last() =~= before);
        assert(last =~= Seq::<char>::empty());
    } else {
        let front = last.drop_last();
        lemma_split_last_piece(before, front, separator);
        assert(text.drop_last() =~= before + seq![separator] + front);
        assert(text.last() == last.last());
        assert(front.push(last.last()) =~= last);
        assert(spec_split(text, separator) =~= spec_split(before, separator).push(last));
    }
}

/// `a` comes before `b` in the order of a dictionary whose alphabet is the
/// code points: at the first place where they differ `a` has the smaller
/// character, or `a` ends there and `b` does not.
pub open spec fn spec_lex_lt(a: Seq<char>, b: Seq<char>) -> bool
    decreases a.len(),
{
    if b.len() == 0 {
        false
    } else if a.len() == 0 {
        true
    } else if a[0] != b[0] {
        a[0] < b[0]
    } else {
        spec_lex_lt(a.drop_first(), b.drop_first())
    }
}

/// Whether `a` comes before `b` in the order of the code points.
pub fn lex_lt(a: &Vec<char>, b: &Vec<char>) -> (before: bool)
    ensures
        before == spec_lex_lt(a@, b@),
{
    let mut i: usize = 0;
    assert(a@.skip(0) =~= a@ && b@.skip(0) =~= b@);
    while i < a.len() && i < b.len()
        invariant
            i <= a@.len(),
            i <= b@.len(),
            spec_lex_lt(a@, b@) == spec_lex_lt(a@.skip(i as int), b@.skip(i as int)),
        decreases a@.len() - i,
    {
        proof {
            assert(a@.skip(i as int).drop_first() =~= a@.skip(i + 1));
            assert(b@.skip(i as int).drop_first() =~= b@.skip(i + 1));
        }
        if a[i] != b[i] {
            return a[i] < b[i];
        }
        i += 1;
    }
    i < b.len()
}

/// No text comes before itself.
pub proof fn lemma_lex_lt_irreflexive(a: Seq<char>)
    ensures
        !spec_lex_lt(a, a),
    decreases a.len(),
{
    if a.len() > 0 {
        lemma_lex_lt_irreflexive(a.drop_first());
    }
}

/// Of two different texts one comes before the other.
pub proof fn lemma_lex_lt_total(a: Seq<char>, b: Seq<char>)
    ensures
        a == b || spec_lex_lt(a, b) || spec_lex_lt(b, a),
        !(spec_lex_lt(a, b) && spec_lex_lt(b, a)),
    decreases a.len(),
{
    if a.len() == 0 || b.len() == 0 {
        if a.len() == 0 && b.len() == 0 {
            assert(a =~= b);
        }
    } else if a[0] == b[0] {
        lemma_lex_lt_total(a.drop_first(), b.drop_first());
        if a.drop_first() == b.drop_first() {
            assert(a =~= seq![a[0]] + a.drop_first());
            assert(b =~= seq![b[0]] + b.drop_first());
        }
    }
}

/// What comes before something that comes before a third comes before the
/// third.
pub proof fn lemma_lex_lt_transitive(a: Seq<char>, b: Seq<char>, c: Seq<char>)
    requires
        spec_lex_lt(a, b),
        spec_lex_lt(b, c),
    ensures
        spec_lex_lt(a, c),
    decreases a.len(),
{
    if a.len() > 0 && b.len() > 0 && c.len() > 0 {
        if a[0] == b[0] && b[0] == c[0] {
            lemma_lex_lt_transitive(a.drop_first(), b.drop_first(), c.drop_first());
        }
    }
}

} // verus!
