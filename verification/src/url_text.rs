//! URLs, by the text that they are written as.

use vstd::prelude::*;

use crate::text::first_index;
use crate::text::lemma_first_index;

verus! {

/// `url::Url`, carried through without a look inside.
#[verifier::external_type_specification]
#[verifier::external_body]
pub struct ExUrl(url::Url);

/// How a URL is written.
pub uninterp spec fn written(url: url::Url) -> Seq<char>;

/// How the URL that a text stands for is written; for a text that stands for
/// none, what the error says.
pub uninterp spec fn parsed(text: Seq<char>) -> Result<Seq<char>, Seq<char>>;

/// How a URL is written with the scheme of a socket, if it can have that one.
pub uninterp spec fn with_scheme(url: Seq<char>, scheme: Seq<char>) -> Option<Seq<char>>;

/// How the URL of a socket is written with another path.
pub uninterp spec fn with_path(url: Seq<char>, path: Seq<char>) -> Seq<char>;

/// The scheme that a URL is written with.
pub open spec fn scheme_of(url: Seq<char>) -> Seq<char> {
    url.take(first_index(url, ':'))
}

/// Whether a scheme is one of a socket.
pub open spec fn for_sockets(scheme: Seq<char>) -> bool {
    scheme == "ws"@ || scheme == "wss"@
}

/// `url::Url::parse`. Claimed: the text alone decides whether there is a URL,
/// how it is written and, where there is none, what the error says.
#[verifier::external_body]
pub(crate) fn parse_url(text: &str) -> (url: Result<url::Url, String>)
    ensures
        match url {
            Ok(url) => parsed(text@) == Ok::<Seq<char>, Seq<char>>(written(url)),
            Err(error) => parsed(text@) == Err::<Seq<char>, Seq<char>>(error@),
        },
{
    url::Url::parse(text).map_err(|error| error.to_string())
}

/// `url::Url::scheme`. Claimed: what the URL is written with before its first
/// colon.
#[verifier::external_body]
pub(crate) fn url_scheme(url: &url::Url) -> (scheme: String)
    ensures
        scheme@ == scheme_of(written(*url)),
{
    url.scheme().to_string()
}

/// `url::Url::set_scheme`, for the scheme of a socket. Claimed: how the URL is
/// written and the scheme alone decide whether it can have it and how it is
/// written then, which is with that scheme and not longer by more than it. Where
/// it cannot, it stays as it is.
#[verifier::external_body]
pub(crate) fn set_url_scheme(url: &mut url::Url, scheme: &str) -> (set: Result<(), ()>)
    requires
        for_sockets(scheme@),
        written(*old(url)).len() + scheme@.len() <= u32::MAX,
    ensures
        set is Ok == with_scheme(written(*old(url)), scheme@) is Some,
        set is Ok ==> with_scheme(written(*old(url)), scheme@) == Some(written(*final(url))),
        set is Ok ==> scheme_of(written(*final(url))) == scheme@,
        set is Ok ==> written(*final(url)).len() <= written(*old(url)).len() + scheme@.len(),
        set is Err ==> *final(url) == *old(url),
{
    url.set_scheme(scheme)
}

/// `url::Url::set_path`, on the URL of a socket. Claimed: how the URL is written
/// and the path alone decide how it is written then. A character of the path
/// takes up to four bytes, each of which may be written as three, and a URL is
/// no longer than a number of 32 bits can say.
#[verifier::external_body]
pub(crate) fn set_url_path(url: &mut url::Url, path: &str)
    requires
        for_sockets(scheme_of(written(*old(url)))),
        written(*old(url)).len() + 12 * path@.len() <= u32::MAX,
    ensures
        written(*final(url)) == with_path(written(*old(url)), path@),
{
    url.set_path(path)
}

/// `url::Url::as_str`. Claimed: how the URL is written.
#[verifier::external_body]
pub(crate) fn url_text(url: &url::Url) -> (text: String)
    ensures
        text@ == written(*url),
{
    url.as_str().to_string()
}

/// The scheme of a URL is what stands before its first colon.
pub proof fn law_the_scheme_stands_before_the_colon(scheme: Seq<char>, rest: Seq<char>)
    requires
        !scheme.contains(':'),
    ensures
        scheme_of(scheme.push(':') + rest) == scheme,
{
    let url = scheme.push(':') + rest;
    assert forall|j: int| 0 <= j < scheme.len() implies url[j] != ':' by {
        assert(scheme.contains(scheme[j]));
    }
    lemma_first_index(url, ':', scheme.len() as int);
    assert(url.take(scheme.len() as int) =~= scheme);
}

} // verus!
