//! The window that a web address is shown in.
//!
//! An address is shown only if it begins with `http://` or `https://`,
//! letter for letter. The window for it is always on top, resizable, 480 by
//! 720 logical units inside, titled `PopFS`, and carries a label made of the
//! time at which it was asked for.

use crate::clock::now_millis;
use crate::decimal::{lemma_signed_decimal_injective, push_signed_decimal, signed_decimal};
use crate::text::{chars_of, starts_with};
use vstd::prelude::*;
use vstd::string::*;

verus! {

/// The width of a window's interior, in logical units.
pub const WINDOW_WIDTH: u32 = 480;

/// The height of a window's interior, in logical units.
pub const WINDOW_HEIGHT: u32 = 720;

/// What the host's windowing interface is asked for.
#[derive(Debug, PartialEq, Eq)]
pub struct WindowRequest {
    /// The name by which the host tells this window from its others.
    pub label: String,
    /// The address that the window shows.
    pub url: String,
    /// The text in the window's title bar.
    pub title: String,
    /// The width of the interior, in logical units.
    pub width: u32,
    /// The height of the interior, in logical units.
    pub height: u32,
    /// Whether the user may resize the window.
    pub resizable: bool,
    /// Whether the window stays above the others.
    pub always_on_top: bool,
}

/// A `WindowRequest` with its strings as character sequences.
pub ghost struct WindowRequestView {
    pub label: Seq<char>,
    pub url: Seq<char>,
    pub title: Seq<char>,
    pub width: int,
    pub height: int,
    pub resizable: bool,
    pub always_on_top: bool,
}

impl View for WindowRequest {
    type V = WindowRequestView;

    open spec fn view(&self) -> WindowRequestView {
        WindowRequestView {
            label: self.label@,
            url: self.url@,
            title: self.title@,
            width: self.width as int,
            height: self.height as int,
            resizable: self.resizable,
            always_on_top: self.always_on_top,
        }
    }
}

impl Clone for WindowRequest {
    fn clone(&self) -> (copy: Self)
        ensures
            copy@ == self@,
    {
        WindowRequest {
            label: self.label.clone(),
            url: self.url.clone(),
            title: self.title.clone(),
            width: self.width,
            height: self.height,
            resizable: self.resizable,
            always_on_top: self.always_on_top,
        }
    }
}

/// Whether `url` begins with `http://` or with `https://`. Upper case does
/// not count.
pub open spec fn web_url(url: Seq<char>) -> bool {
    "http://"@.is_prefix_of(url) || "https://"@.is_prefix_of(url)
}

/// The label of a window asked for at `millis` milliseconds since 1970.
pub open spec fn label_of(millis: int) -> Seq<char> {
    "fv-"@ + signed_decimal(millis)
}

/// The window that shows `url`, asked for at `millis`.
pub open spec fn request_for(url: Seq<char>, millis: int) -> WindowRequestView {
    WindowRequestView {
        label: label_of(millis),
        url,
        title: "PopFS"@,
        width: WINDOW_WIDTH as int,
        height: WINDOW_HEIGHT as int,
        resizable: true,
        always_on_top: true,
    }
}

/// `request` is the window that shows `url`, asked for at some moment.
pub open spec fn requests_window(request: WindowRequestView, url: Seq<char>) -> bool {
    exists|millis: i64| request == #[trigger] request_for(url, millis as int)
}

/// A web address begins with `http`.
pub proof fn lemma_web_url_begins(url: Seq<char>)
    requires
        web_url(url),
    ensures
        url.len() >= 7,
        url[0] == 'h',
        url[1] == 't',
        url[2] == 't',
        url[3] == 'p',
{
    reveal_strlit("http://");
    reveal_strlit("https://");
    let found = if "http://"@.is_prefix_of(url) {
        "http://"@
    } else {
        "https://"@
    };
    let head = url.subrange(0, found.len() as int);
    assert(head[0] == url[0] && head[1] == url[1] && head[2] == url[2] && head[3] == url[3]);
}

/// An `ftp://` address is not shown, whatever follows the scheme.
pub proof fn lemma_ftp_refused(url: Seq<char>)
    requires
        "ftp://"@.is_prefix_of(url),
    ensures
        !web_url(url),
{
    reveal_strlit("ftp://");
    assert(url.subrange(0, 6)[0] == url[0]);
    if web_url(url) {
        lemma_web_url_begins(url);
    }
}

/// The empty text is not shown.
pub proof fn lemma_empty_refused()
    ensures
        !web_url(Seq::empty()),
{
    if web_url(Seq::empty()) {
        lemma_web_url_begins(Seq::empty());
    }
}

/// Windows asked for at different moments carry different labels.
pub proof fn lemma_label_injective(a: int, b: int)
    requires
        a != b,
    ensures
        label_of(a) != label_of(b),
{
    if label_of(a) == label_of(b) {
        let prefix = "fv-"@;
        assert((prefix + signed_decimal(a)).skip(prefix.len() as int) =~= signed_decimal(a));
        assert((prefix + signed_decimal(b)).skip(prefix.len() as int) =~= signed_decimal(b));
        lemma_signed_decimal_injective(a, b);
    }
}

/// Whether `url` may be shown: whether it begins with `http://` or with
/// `https://`.
pub fn is_web_url(url: &str) -> (b: bool)
    ensures
        b == web_url(url@),
{
    let chars = chars_of(url);
    let plain = chars_of("http://");
    let secure = chars_of("https://");
    starts_with(&chars, &plain) || starts_with(&chars, &secure)
}

/// The label of a window asked for at `millis`: `fv-` and the number.
pub fn window_label(millis: i64) -> (label: String)
    ensures
        label@ == label_of(millis as int),
{
    let mut label = String::from_str("fv-");
    push_signed_decimal(&mut label, millis);
    label
}

fn request_at(url: &str, millis: i64) -> (request: WindowRequest)
    ensures
        request@ == request_for(url@, millis as int),
{
    WindowRequest {
        label: window_label(millis),
        url: String::from_str(url),
        title: String::from_str("PopFS"),
        width: WINDOW_WIDTH,
        height: WINDOW_HEIGHT,
        resizable: true,
        always_on_top: true,
    }
}

/// The window that shows `url`, asked for at `millis`; `None` where `url` is
/// not a web address.
pub fn window_request(url: &str, millis: i64) -> (request: Option<WindowRequest>)
    ensures
        web_url(url@) ==> request is Some && request->0@ == request_for(url@, millis as int),
        !web_url(url@) ==> request is None,
{
    if is_web_url(url) {
        Some(request_at(url, millis))
    } else {
        None
    }
}

/// The window that shows `url`, asked for now; `None` where `url` is not a
/// web address. The clock is read only for an address that is shown. The
/// label is made of its reading, so two windows asked for within one
/// millisecond share a label.
pub fn open_window(url: &str) -> (request: Option<WindowRequest>)
    ensures
        web_url(url@) ==> request is Some && requests_window(request->0@, url@),
        !web_url(url@) ==> request is None,
{
    if is_web_url(url) {
        let millis: i64 = now_millis();
        Some(request_at(url, millis))
    } else {
        None
    }
}

} // verus!
