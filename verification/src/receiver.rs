//! What the shell does with a deep link: which addresses it reads out of it
//! and which windows it asks for.
//!
//! Every `url` parameter of the link is decoded; one that does not decode is
//! passed over. Every decoded address that is a web address gets a window.
//! Nothing is said of a parameter that is passed over or of an address that
//! is refused.

use crate::escape::{decoded_text, percent_decode};
use crate::link::{lemma_no_query, lemma_single_parameter, url_parameters, url_parameters_of};
use crate::text::texts_of;
use crate::window::{lemma_empty_refused, open_window, requests_window, web_url, WindowRequest};
use vstd::prelude::*;

verus! {

/// The texts that `values` decode to, in order; a value that does not decode
/// leaves no trace.
pub open spec fn decoded_in(values: Seq<Seq<char>>) -> Seq<Seq<char>> {
    values.filter_map(|value: Seq<char>| decoded_text(value))
}

/// The addresses that `link` asks to show: its `url` parameters, decoded.
pub open spec fn decoded_urls(link: Seq<char>) -> Seq<Seq<char>> {
    decoded_in(url_parameters_of(link))
}

/// The web addresses among `urls`, in order.
pub open spec fn shown_in(urls: Seq<Seq<char>>) -> Seq<Seq<char>> {
    urls.filter(|url: Seq<char>| web_url(url))
}

/// The addresses that `link` gets a window for.
pub open spec fn window_urls(link: Seq<char>) -> Seq<Seq<char>> {
    shown_in(decoded_urls(link))
}

/// `requests` holds one window for each of `urls`, in order.
pub open spec fn windows_for(requests: Seq<WindowRequest>, urls: Seq<Seq<char>>) -> bool {
    &&& requests.len() == urls.len()
    &&& forall|i: int|
        0 <= i < requests.len() ==> requests_window((#[trigger] requests[i])@, urls[i])
}

/// A link without a `?` asks for nothing: no parameter is read out of it and
/// no window is opened.
pub proof fn lemma_no_query_no_window(link: Seq<char>)
    requires
        !link.contains('?'),
    ensures
        decoded_urls(link) == Seq::<Seq<char>>::empty(),
        window_urls(link) == Seq::<Seq<char>>::empty(),
{
    reveal(Seq::filter);
    lemma_no_query(link);
}

/// Every address that gets a window is a web address.
pub proof fn lemma_windows_show_web_urls(link: Seq<char>, i: int)
    requires
        0 <= i < window_urls(link).len(),
    ensures
        web_url(window_urls(link)[i]),
{
    decoded_urls(link).lemma_filter_pred(|url: Seq<char>| web_url(url), i);
}

/// A link that ends in `?url=` and an encoded value without `&`, and has no
/// `?` before that, asks to show what the value decodes to, where it decodes,
/// and gets a window for it, where that is a web address.
pub proof fn lemma_single_url(head: Seq<char>, encoded: Seq<char>)
    requires
        !head.contains('?'),
        !encoded.contains('&'),
    ensures
        decoded_urls(head + "?url="@ + encoded) == match decoded_text(encoded) {
            Some(url) => seq![url],
            None => Seq::empty(),
        },
        window_urls(head + "?url="@ + encoded) == match decoded_text(encoded) {
            Some(url) => if web_url(url) {
                seq![url]
            } else {
                Seq::empty()
            },
            None => Seq::empty(),
        },
{
    lemma_single_parameter(head, encoded);
    Seq::lemma_filter_map_singleton(encoded, |value: Seq<char>| decoded_text(value));
    let shown = |url: Seq<char>| web_url(url);
    reveal(Seq::filter);
    if let Some(url) = decoded_text(encoded) {
        Seq::<Seq<char>>::empty().lemma_filter_push(url, shown);
    }
}

/// The link `vocabkiller://open?url=` and a value that decodes to
/// `https://example.com` asks to show that address, and gets one window, for
/// it.
pub proof fn lemma_example_link(encoded: Seq<char>)
    requires
        !encoded.contains('&'),
        decoded_text(encoded) == Some("https://example.com"@),
    ensures
        decoded_urls("vocabkiller://open?url="@ + encoded) == seq!["https://example.com"@],
        window_urls("vocabkiller://open?url="@ + encoded) == seq!["https://example.com"@],
{
    reveal_strlit("vocabkiller://open?url=");
    reveal_strlit("vocabkiller://open");
    reveal_strlit("?url=");
    reveal_strlit("https://example.com");
    reveal_strlit("https://");
    let head = "vocabkiller://open"@;
    assert("vocabkiller://open?url="@ =~= head + "?url="@);
    lemma_single_url(head, encoded);
}

/// An empty `url` value decodes to the empty text, which is no web address:
/// a link that ends in `?url=`, with no `?` before that, asks to show the
/// empty text and gets no window.
pub proof fn lemma_empty_value_no_window(head: Seq<char>)
    requires
        !head.contains('?'),
    ensures
        decoded_text(Seq::<char>::empty()) == Some(Seq::<char>::empty()),
        decoded_urls(head + "?url="@) == seq![Seq::<char>::empty()],
        window_urls(head + "?url="@) == Seq::<Seq<char>>::empty(),
{
    lemma_single_url(head, Seq::empty());
    lemma_empty_refused();
}

/// The texts that `values` decode to, in order.
pub fn decode_all(values: &Vec<String>) -> (texts: Vec<String>)
    ensures
        texts_of(texts@) == decoded_in(texts_of(values@)),
{
    let ghost encoded = texts_of(values@);
    let ghost decode = |value: Seq<char>| decoded_text(value);
    let mut texts: Vec<String> = Vec::new();
    for i in 0..values.len()
        invariant
            encoded == texts_of(values@),
            decode == |value: Seq<char>| decoded_text(value),
            texts_of(texts@) == encoded.take(i as int).filter_map(decode),
    {
        proof {
            encoded.lemma_filter_map_take_succ(decode, i as int);
        }
        if let Some(text) = percent_decode(values[i].as_str()) {
            texts.push(text);
        }
    }
    assert(encoded.take(values.len() as int) =~= encoded);
    texts
}

/// The addresses that `link` asks to show: its `url` parameters, decoded, in
/// the order in which the link has them.
pub fn deep_link_urls(link: &str) -> (urls: Vec<String>)
    ensures
        texts_of(urls@) == decoded_urls(link@),
{
    let values = url_parameters(link);
    decode_all(&values)
}

/// A window, asked for now, for each web address among `urls`, in order. The
/// clock is read once for each, one reading right after the other, so the
/// windows may well share a label: a caller that builds each window before
/// it asks for the next calls `open_window` once for each address.
pub fn open_windows(urls: &Vec<String>) -> (requests: Vec<WindowRequest>)
    ensures
        windows_for(requests@, shown_in(texts_of(urls@))),
{
    let ghost all = texts_of(urls@);
    let ghost shown = |url: Seq<char>| web_url(url);
    let mut requests: Vec<WindowRequest> = Vec::new();
    proof {
        reveal(Seq::filter);
    }
    for i in 0..urls.len()
        invariant
            all == texts_of(urls@),
            shown == |url: Seq<char>| web_url(url),
            windows_for(requests@, all.take(i as int).filter(shown)),
    {
        proof {
            assert(all.take(i + 1) =~= all.take(i as int).push(all[i as int]));
            all.take(i as int).lemma_filter_push(all[i as int], shown);
        }
        if let Some(request) = open_window(urls[i].as_str()) {
            requests.push(request);
        }
    }
    assert(all.take(urls.len() as int) =~= all);
    requests
}

/// The windows that `link` asks for, each asked for now: one for each of its
/// `url` parameters that decodes to a web address, in the link's order. A
/// link that asks for nothing gives the empty list; no failure is told of.
pub fn handle_link(link: &str) -> (requests: Vec<WindowRequest>)
    ensures
        windows_for(requests@, window_urls(link@)),
{
    let urls = deep_link_urls(link);
    open_windows(&urls)
}

} // verus!
