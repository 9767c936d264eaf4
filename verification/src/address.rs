//! Resolution of an endpoint address to the URL a transport connects to.

use vstd::prelude::*;

verus! {

/// Why an endpoint specification does not name a usable transport target.
#[derive(Debug, Clone, Copy, PartialEq, Eq, Structural)]
pub enum InvalidEndpointError {
    /// The address is not an absolute URL.
    Malformed,
    /// The address is a URL of a scheme other than `http` and `https`.
    UnsupportedScheme,
    /// The address stands alone and the builder has no default transport to reach it through.
    NoTransport,
}

/// The serialisation of the URL that `reqwest::Url::parse` reads from `address`,
/// or `None` where it rejects the address.
pub uninterp spec fn parsed_url(address: Seq<char>) -> Option<Seq<char>>;

/// Calls `reqwest::Url::parse` and hands out the parsed URL as its serialisation.
///
/// This contract is believed, not proved. It claims that the result depends on
/// the address alone: `None` where the parser returns an error, and the
/// serialisation of the URL where it returns one. It gives that result a name and
/// says no more of it: what makes an absolute URL, and how one is normalised, is
/// the parser's to say.
#[verifier::external_body]
fn parse_url(address: &str) -> (url: Option<String>)
    ensures
        url.deep_view() == parsed_url(address@),
{
    match reqwest::Url::parse(address) {
        Ok(url) => Some(String::from(url)),
        Err(_) => None,
    }
}

/// A serialised URL is supported when its scheme is `http` or `https`. The
/// serialisation begins with the scheme in lower case, and for these two schemes
/// `://` follows it.
pub open spec fn is_supported_url(url: Seq<char>) -> bool {
    "http://"@.is_prefix_of(url) || "https://"@.is_prefix_of(url)
}

/// What an address resolves to, given what the URL parser made of it.
pub open spec fn accepted(parsed: Option<Seq<char>>) -> Result<Seq<char>, InvalidEndpointError> {
    match parsed {
        None => Err(InvalidEndpointError::Malformed),
        Some(url) => if is_supported_url(url) {
            Ok(url)
        } else {
            Err(InvalidEndpointError::UnsupportedScheme)
        },
    }
}

/// What an address resolves to: the normalised URL of a usable target, or the
/// reason why it names none.
pub open spec fn resolution(address: Seq<char>) -> Result<Seq<char>, InvalidEndpointError> {
    accepted(parsed_url(address))
}

/// Whether `text` begins with `prefix`, character by character.
pub fn starts_with(text: &str, prefix: &str) -> (r: bool)
    ensures
        r == prefix@.is_prefix_of(text@),
{
    let n: usize = prefix.unicode_len();
    if text.unicode_len() < n {
        return false;
    }
    let mut i: usize = 0;
    while i < n
        invariant
            i <= n,
            n == prefix@.len(),
            n <= text@.len(),
            forall|k: int| 0 <= k < i ==> text@[k] == prefix@[k],
        decreases n - i,
    {
        if text.get_char(i) != prefix.get_char(i) {
            assert(text@.subrange(0, n as int)[i as int] != prefix@[i as int]);
            return false;
        }
        i = i + 1;
    }
    assert(prefix@ =~= text@.subrange(0, n as int));
    true
}

/// Decides on an address from what the URL parser made of it: a parsed URL with a
/// supported scheme is the endpoint's URL, anything else is an error.
pub fn accept(parsed: Option<String>) -> (r: Result<String, InvalidEndpointError>)
    ensures
        match accepted(parsed.deep_view()) {
            Ok(u) => r matches Ok(url) && url@ == u,
            Err(e) => r matches Err(x) && x == e,
        },
{
    match parsed {
        None => Err(InvalidEndpointError::Malformed),
        Some(url) => {
            if starts_with(url.as_str(), "http://") || starts_with(url.as_str(), "https://") {
                Ok(url)
            } else {
                Err(InvalidEndpointError::UnsupportedScheme)
            }
        },
    }
}

/// Resolves an address to the normalised URL of a usable target.
pub fn resolve(address: &str) -> (r: Result<String, InvalidEndpointError>)
    ensures
        match resolution(address@) {
            Ok(u) => r matches Ok(url) && url@ == u,
            Err(e) => r matches Err(x) && x == e,
        },
{
    accept(parse_url(address))
}

} // verus!
