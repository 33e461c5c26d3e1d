//! The deep link: its query, the query's segments and their `url` parameters.
//!
//! A link reads `scheme://host?key1=val1&key2=val2...`. The query is what
//! follows the first `?`. It is split on `&` into segments, and a segment is
//! split on its first `=` into a key and a value. Only the values under the
//! key `url` matter here; a link may carry several.

use crate::text::{
    chars_of, find_in, first_position, lemma_first_position, lemma_first_position_unique,
    range_is, split, text_of, texts_of,
};
use vstd::prelude::*;
use vstd::string::*;

verus! {

/// The scheme under which the shell is registered as the links' handler.
pub const SCHEME: &'static str = "vocabkiller";

/// What follows the first `?` of `link`; `None` where the link has no `?`.
pub open spec fn query_of(link: Seq<char>) -> Option<Seq<char>> {
    let i = first_position(link, '?') as int;
    if i < link.len() {
        Some(link.skip(i + 1))
    } else {
        None
    }
}

/// The key and the value of `segment`, parted by its first `=`; `None` where
/// the segment has no `=`.
pub open spec fn key_value(segment: Seq<char>) -> Option<(Seq<char>, Seq<char>)> {
    let i = first_position(segment, '=') as int;
    if i < segment.len() {
        Some((segment.take(i), segment.skip(i + 1)))
    } else {
        None
    }
}

/// The value of `segment` where its key is `url`.
pub open spec fn url_parameter(segment: Seq<char>) -> Option<Seq<char>> {
    match key_value(segment) {
        Some((key, value)) => if key == "url"@ {
            Some(value)
        } else {
            None
        },
        None => None,
    }
}

/// The values of the `url` parameters among `segments`, in order.
pub open spec fn parameters_in(segments: Seq<Seq<char>>) -> Seq<Seq<char>> {
    segments.filter_map(|segment: Seq<char>| url_parameter(segment))
}

/// The values of the `url` parameters of `link`, in order and still encoded.
/// A link without a query has none.
pub open spec fn url_parameters_of(link: Seq<char>) -> Seq<Seq<char>> {
    match query_of(link) {
        Some(query) => parameters_in(split(query, '&')),
        None => Seq::empty(),
    }
}

/// What `filter_map` keeps of two sequences in a row is what it keeps of the
/// first, then what it keeps of the second.
proof fn lemma_filter_map_concat<A, B>(a: Seq<A>, b: Seq<A>, f: spec_fn(A) -> Option<B>)
    ensures
        (a + b).filter_map(f) == a.filter_map(f) + b.filter_map(f),
    decreases b.len(),
{
    if b.len() > 0 {
        assert((a + b).drop_last() =~= a + b.drop_last());
        lemma_filter_map_concat(a, b.drop_last(), f);
    }
}

/// The parameters of a list of segments are those of its first segment, then
/// those of the others.
proof fn lemma_parameters_in_first(first: Seq<char>, others: Seq<Seq<char>>)
    ensures
        parameters_in(seq![first] + others) == match url_parameter(first) {
            Some(value) => seq![value] + parameters_in(others),
            None => parameters_in(others),
        },
{
    let f = |segment: Seq<char>| url_parameter(segment);
    lemma_filter_map_concat(seq![first], others, f);
    Seq::lemma_filter_map_singleton(first, f);
}

/// A link without a `?` has no query, and so no parameter.
pub proof fn lemma_no_query(link: Seq<char>)
    requires
        !link.contains('?'),
    ensures
        query_of(link) is None,
        url_parameters_of(link) == Seq::<Seq<char>>::empty(),
{
    lemma_first_position(link, '?');
}

/// A segment `url=` and a value has that value for its `url` parameter,
/// whatever the value holds: only the first `=` parts key and value.
pub proof fn lemma_url_segment(value: Seq<char>)
    ensures
        url_parameter("url="@ + value) == Some(value),
{
    reveal_strlit("url=");
    reveal_strlit("url");
    let segment = "url="@ + value;
    lemma_first_position_unique(segment, '=', 3);
    assert(segment.take(3) =~= "url"@);
}

/// A link that ends in `?url=` and a value without `&`, and has no `?`
/// before that, has that value for its one `url` parameter.
pub proof fn lemma_single_parameter(head: Seq<char>, value: Seq<char>)
    requires
        !head.contains('?'),
        !value.contains('&'),
    ensures
        url_parameters_of(head + "?url="@ + value) == seq![value],
{
    reveal_strlit("?url=");
    reveal_strlit("url=");
    let link = head + "?url="@ + value;
    let mark = head.len() as int;
    lemma_first_position_unique(link, '?', mark);
    let query = "url="@ + value;
    assert(link.skip(mark + 1) =~= query);
    lemma_first_position_unique(query, '&', query.len() as int);
    lemma_url_segment(value);
    Seq::lemma_filter_map_singleton(query, |segment: Seq<char>| url_parameter(segment));
}

/// The value of the segment that `link` holds in `from..to`, where the
/// segment's key is `url`.
fn url_value(
    link: &str,
    chars: &Vec<char>,
    key: &Vec<char>,
    from: usize,
    to: usize,
) -> (value: Option<String>)
    requires
        chars@ == link@,
        key@ == "url"@,
        from <= to <= chars.len(),
    ensures
        text_of(value) == url_parameter(link@.subrange(from as int, to as int)),
{
    let ghost segment = link@.subrange(from as int, to as int);
    let sign: usize = find_in(chars, from, to, '=');
    if sign < to && range_is(chars, from, sign, key) {
        let value: &str = link.substring_char(sign + 1, to);
        assert(segment.skip(sign - from + 1) =~= value@);
        Some(String::from_str(value))
    } else {
        proof {
            if sign < to {
                assert(segment.take(sign - from) =~= link@.subrange(from as int, sign as int));
            }
        }
        None
    }
}

/// The values of the `url` parameters of `link`, in order and still encoded.
pub fn url_parameters(link: &str) -> (values: Vec<String>)
    ensures
        texts_of(values@) == url_parameters_of(link@),
{
    let chars = chars_of(link);
    let key = chars_of("url");
    let n: usize = chars.len();
    let mut values: Vec<String> = Vec::new();
    let mark: usize = find_in(&chars, 0, n, '?');
    assert(chars@.subrange(0, n as int) =~= link@);
    if mark == n {
        return values;
    }
    let mut pos: usize = mark + 1;
    loop
        invariant_except_break
            url_parameters_of(link@) == texts_of(values@) + parameters_in(
                split(link@.skip(pos as int), '&'),
            ),
        invariant
            pos <= n == chars.len(),
            chars@ == link@,
            key@ == "url"@,
        ensures
            url_parameters_of(link@) == texts_of(values@),
        decreases n - pos,
    {
        let ghost rest = link@.skip(pos as int);
        let end: usize = find_in(&chars, pos, n, '&');
        let ghost segment = link@.subrange(pos as int, end as int);
        assert(rest.take(end - pos) =~= segment);
        if let Some(value) = url_value(link, &chars, &key, pos, end) {
            values.push(value);
        }
        if end == n {
            proof {
                lemma_parameters_in_first(segment, Seq::empty());
            }
            break;
        }
        proof {
            lemma_parameters_in_first(segment, split(rest.skip(end - pos + 1), '&'));
            assert(rest.skip(end - pos + 1) =~= link@.skip(end + 1));
        }
        pos = end + 1;
    }
    values
}

} // verus!
