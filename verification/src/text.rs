//! Character sequences: first positions, splitting on a separator, prefixes.
//!
//! A string is modelled by its view, the sequence of its characters. The
//! executable functions work on a `Vec<char>` read off the string once, so
//! that a position is an index.

use vstd::prelude::*;

verus! {

/// The position of the first `c` in `s`, or the length of `s` where `s`
/// holds no `c`.
pub open spec fn first_position(s: Seq<char>, c: char) -> nat
    decreases s.len(),
{
    if s.len() == 0 || s[0] == c {
        0
    } else {
        1 + first_position(s.skip(1), c)
    }
}

/// `i` is where the first `c` of `s` stands, or the length of `s` where
/// there is none.
pub open spec fn is_first_position(s: Seq<char>, c: char, i: int) -> bool {
    &&& 0 <= i <= s.len()
    &&& i < s.len() ==> s[i] == c
    &&& forall|j: int| 0 <= j < i ==> s[j] != c
}

/// `first_position` is a first position.
pub proof fn lemma_first_position(s: Seq<char>, c: char)
    ensures
        is_first_position(s, c, first_position(s, c) as int),
    decreases s.len(),
{
    if s.len() == 0 || s[0] == c {
    } else {
        let tail = s.skip(1);
        lemma_first_position(tail, c);
        let i = first_position(s, c) as int;
        assert forall|j: int| 0 <= j < i implies s[j] != c by {
            if j > 0 {
                assert(s[j] == tail[j - 1]);
            }
        }
    }
}

/// There is one first position only.
pub proof fn lemma_first_position_unique(s: Seq<char>, c: char, i: int)
    requires
        is_first_position(s, c, i),
    ensures
        first_position(s, c) == i,
{
    lemma_first_position(s, c);
}

/// The pieces of `s` between the occurrences of `sep`, in order. There is
/// always one piece at least, and an empty piece wherever two separators
/// meet or one stands at an end.
pub open spec fn split(s: Seq<char>, sep: char) -> Seq<Seq<char>>
    decreases s.len(),
{
    let i = first_position(s, sep) as int;
    if i < s.len() {
        seq![s.take(i)] + split(s.skip(i + 1), sep)
    } else {
        seq![s]
    }
}

/// No piece of a split holds the separator.
pub proof fn lemma_split_pieces(s: Seq<char>, sep: char, k: int)
    requires
        0 <= k < split(s, sep).len(),
    ensures
        !split(s, sep)[k].contains(sep),
    decreases s.len(),
{
    lemma_first_position(s, sep);
    let i = first_position(s, sep) as int;
    if i < s.len() && k > 0 {
        lemma_split_pieces(s.skip(i + 1), sep, k - 1);
    }
}

/// The pieces of `pieces`, with a `sep` between each two neighbours.
pub open spec fn join(pieces: Seq<Seq<char>>, sep: char) -> Seq<char>
    decreases pieces.len(),
{
    if pieces.len() == 0 {
        Seq::empty()
    } else if pieces.len() == 1 {
        pieces[0]
    } else {
        pieces[0] + seq![sep] + join(pieces.skip(1), sep)
    }
}

/// A split loses nothing: its pieces, joined by the separator, are the text
/// that was split.
pub proof fn lemma_split_join(s: Seq<char>, sep: char)
    ensures
        split(s, sep).len() >= 1,
        join(split(s, sep), sep) == s,
    decreases s.len(),
{
    lemma_first_position(s, sep);
    let i = first_position(s, sep) as int;
    if i < s.len() {
        let rest = s.skip(i + 1);
        lemma_split_join(rest, sep);
        let pieces = split(s, sep);
        assert(pieces.skip(1) =~= split(rest, sep));
    }
}

/// The views of the strings of `v`, in order.
pub open spec fn texts_of(v: Seq<String>) -> Seq<Seq<char>> {
    Seq::new(v.len(), |i: int| v[i]@)
}

/// The view of the string that `o` holds, if it holds one.
pub open spec fn text_of(o: Option<String>) -> Option<Seq<char>> {
    match o {
        Some(s) => Some(s@),
        None => None,
    }
}

/// The characters of `s`, in order.
pub(crate) fn chars_of(s: &str) -> (chars: Vec<char>)
    ensures
        chars@ == s@,
{
    let mut chars: Vec<char> = Vec::new();
    for c in it: s.chars()
        invariant
            chars@ == it.seq().take(it.index() as int),
            it.seq() == s@,
    {
        chars.push(c);
    }
    chars
}

/// The first index in `from..to` at which `chars` holds `c`, or `to` where
/// it holds none there.
pub(crate) fn find_in(chars: &Vec<char>, from: usize, to: usize, c: char) -> (i: usize)
    requires
        from <= to <= chars.len(),
    ensures
        from <= i <= to,
        i == from + first_position(chars@.subrange(from as int, to as int), c),
{
    let mut i: usize = from;
    while i < to && chars[i] != c
        invariant
            from <= i <= to <= chars.len(),
            forall|j: int| from <= j < i ==> chars@[j] != c,
        decreases to - i,
    {
        i += 1;
    }
    proof {
        lemma_first_position_unique(chars@.subrange(from as int, to as int), c, i - from);
    }
    i
}

/// Whether `chars` holds exactly `word` in `from..to`.
pub(crate) fn range_is(chars: &Vec<char>, from: usize, to: usize, word: &Vec<char>) -> (b: bool)
    requires
        from <= to <= chars.len(),
    ensures
        b == (chars@.subrange(from as int, to as int) == word@),
{
    if to - from != word.len() {
        return false;
    }
    let ghost part = chars@.subrange(from as int, to as int);
    let mut i: usize = 0;
    while i < word.len()
        invariant
            i <= word.len(),
            from + word.len() == to <= chars.len(),
            part == chars@.subrange(from as int, to as int),
            forall|j: int| 0 <= j < i ==> part[j] == word@[j],
        decreases word.len() - i,
    {
        if chars[from + i] != word[i] {
            return false;
        }
        i += 1;
    }
    assert(part =~= word@);
    true
}

/// Whether `text` begins with `prefix`.
pub(crate) fn starts_with(text: &Vec<char>, prefix: &Vec<char>) -> (b: bool)
    ensures
        b == prefix@.is_prefix_of(text@),
{
    prefix.len() <= text.len() && range_is(text, 0, prefix.len(), prefix)
}

} // verus!
