//! URIs.

use vstd::prelude::*;

use crate::text::byte_count;

verus! {

/// The scheme that `http::Uri` finds in a text, or nothing where the text is no URI or has none.
pub uninterp spec fn scheme_of(text: Seq<char>) -> Option<Seq<char>>;

/// The scheme of a URI.
///
/// Trusted: parsing a text as `http::Uri` and asking for `scheme_str` depends on the text alone.
#[verifier::external_body]
pub(crate) fn uri_scheme(text: &str) -> (r: Option<String>)
    ensures
        match r {
            Some(scheme) => scheme_of(text@) == Some(scheme@),
            None => scheme_of(text@) is None,
        },
{
    let uri = text.parse::<http::Uri>().ok()?;
    uri.scheme_str().map(str::to_owned)
}

/// The longest URL, without its query and fragment, whose path can be set: `url::Url` counts its
/// parts with 32 bits.
pub const MAX_URL_BYTES: u32 = 0xFFFF_FFFF;

/// The path that `url::Url` finds in a text, or nothing where the text is no URL.
pub uninterp spec fn url_path_of(text: Seq<char>) -> Option<Seq<char>>;

/// The URL that `url::Url` makes of a text with another path, or nothing where the text is no URL.
pub uninterp spec fn url_with_path_of(text: Seq<char>, path: Seq<char>) -> Option<Seq<char>>;

/// The path of a URL.
///
/// Trusted: `url::Url::parse` and then `path` depend on the text alone.
#[verifier::external_body]
pub(crate) fn url_path(text: &str) -> (r: Option<String>)
    ensures
        match r {
            Some(path) => url_path_of(text@) == Some(path@),
            None => url_path_of(text@) is None,
        },
{
    let url = url::Url::parse(text).ok()?;
    Some(url.path().to_owned())
}

/// What `url::Url` makes of a text up to the end of its path, or nothing where the text is no URL.
pub uninterp spec fn url_front_of(text: Seq<char>) -> Option<Seq<char>>;

/// A URL in its normal form, up to the end of its path.
///
/// Trusted: `url::Url::parse` and then the part before `url::Position::AfterPath` depend on the
/// text alone, and there is one exactly where the text is a URL.
#[verifier::external_body]
pub(crate) fn url_front(text: &str) -> (r: Option<String>)
    ensures
        match r {
            Some(front) => url_front_of(text@) == Some(front@),
            None => url_front_of(text@) is None,
        },
        r is Some <==> url_path_of(text@) is Some,
{
    let url = url::Url::parse(text).ok()?;
    Some(url[..url::Position::AfterPath].to_owned())
}

/// Text without slashes at its end.
pub open spec fn without_slashes(text: Seq<char>) -> Seq<char>
    decreases text.len(),
{
    if text.len() > 0 && text.last() == '/' {
        without_slashes(text.drop_last())
    } else {
        text
    }
}

/// A URL in its normal form, with its own path without slashes at its end.
///
/// Trusted: `url::Url::parse`, then `set_path` and `as_str`, depend on the text and the path
/// alone, and fail exactly where the text is no URL. `set_path` panics where the URL up to the end
/// of its path, before or after the change, is longer than 32 bits can count. The path is the URL's
/// own, in normal form and perhaps shorter, so the URL does not grow.
#[verifier::external_body]
pub(crate) fn url_with_path(text: &str, path: &str) -> (r: Option<String>)
    requires
        url_front_of(text@) matches Some(front) ==> byte_count(front) <= MAX_URL_BYTES,
        url_path_of(text@) matches Some(own) ==> path@ == without_slashes(own),
    ensures
        match r {
            Some(url) => url_with_path_of(text@, path@) == Some(url@),
            None => url_with_path_of(text@, path@) is None,
        },
        r is Some <==> url_path_of(text@) is Some,
{
    let mut url = url::Url::parse(text).ok()?;
    url.set_path(path);
    Some(url.as_str().to_owned())
}

} // verus!
