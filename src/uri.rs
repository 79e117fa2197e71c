//! Composition of a target URI with a relative path.
use vstd::prelude::*;
use vstd::string::{StrSliceExecFns, StringExecFns};

use hyper::http::uri::InvalidUri;
use hyper::Uri;

verus! {

/// `hyper::Uri` (the `http` crate's `Uri`), carried through opaque.
#[verifier::external_type_specification]
#[verifier::external_body]
pub struct ExUri(hyper::Uri);

/// The `http` crate's parse error for a URI, carried through opaque.
#[verifier::external_type_specification]
#[verifier::external_body]
pub struct ExInvalidUri(hyper::http::uri::InvalidUri);

/// What `Uri`'s parser makes of the text: the URI, or `None` where it
/// refuses the text.
pub uninterp spec fn uri_parsed(s: Seq<char>) -> Option<Uri>;

/// The text that `Uri`'s `Display` writes for a URI.
pub uninterp spec fn uri_text_of(u: Uri) -> Seq<char>;

/// Relies on `Uri`'s `Display`: the URI written back as text (scheme,
/// authority, path and query), which depends on the URI alone.
#[verifier::external_body]
fn uri_text(u: &Uri) -> (r: String)
    ensures
        r@ == uri_text_of(*u),
{
    u.to_string()
}

/// Relies on `Uri::try_from(String)`: it parses the text, and whether it
/// accepts depends on the text alone.
#[verifier::external_body]
fn parse_uri(s: String) -> (r: Result<Uri, InvalidUri>)
    ensures
        r is Ok <==> uri_parsed(s@) is Some,
        r matches Ok(u) ==> uri_parsed(s@) == Some(u),
{
    Uri::try_from(s)
}

/// The path without one leading separator, if it has one.
pub open spec fn relative(path: Seq<char>) -> Seq<char> {
    if path.len() > 0 && path[0] == '/' {
        path.drop_first()
    } else {
        path
    }
}

/// The text of a base URI followed by a path, with one leading separator of
/// the path dropped.
pub fn join_path(base: &str, path: &str) -> (r: String)
    ensures
        r@ == base@ + relative(path@),
{
    let n = path.unicode_len();
    let tail = if n > 0 && path.get_char(0) == '/' {
        path.substring_char(1, n)
    } else {
        path
    };
    proof {
        if n > 0 && path@[0] == '/' {
            assert(tail@ =~= path@.drop_first());
        }
    }
    String::from_str(base).concat(tail)
}

/// A URI built from another one and a path.
pub trait UriExt: Sized {
    /// The URI whose text is this one's followed by `path` without one
    /// leading separator, or the parser's error when that text is no URI.
    fn with_path(&self, path: &str) -> Result<Self, InvalidUri>;
}

impl UriExt for Uri {
    fn with_path(&self, path: &str) -> (r: Result<Uri, InvalidUri>)
        ensures
            r is Ok <==> uri_parsed(uri_text_of(*self) + relative(path@)) is Some,
            r matches Ok(u) ==> uri_parsed(uri_text_of(*self) + relative(path@)) == Some(u),
    {
        let base = uri_text(self);
        parse_with_path(base.as_str(), path)
    }
}

/// Parses `base` followed by `path` without one leading separator.
pub fn parse_with_path(base: &str, path: &str) -> (r: Result<Uri, InvalidUri>)
    ensures
        r is Ok <==> uri_parsed(base@ + relative(path@)) is Some,
        r matches Ok(u) ==> uri_parsed(base@ + relative(path@)) == Some(u),
{
    parse_uri(join_path(base, path))
}

} // verus!
