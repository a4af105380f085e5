//! URLs and hosts as plain values, and the calls into the URL parser.
//!
//! A `Url` holds the serialization that the parser produced; two URLs are the
//! same page exactly when their serializations are equal. What the parser
//! computes is not defined here: each call has a name, and the contracts of
//! this library are stated over those names.
use vstd::prelude::*;
use crate::text::str_eq;

verus! {

/// Why a text could not be parsed as an absolute URL.
#[derive(Debug, Clone, Copy, PartialEq, Eq, Structural)]
pub enum UrlParseFailure {
    /// The text is a relative reference: it can only be read against a base.
    RelativeUrlWithoutBase,
    /// Any other failure.
    Other,
}

/// The host of a URL: a domain name or an IP address, the latter as its bits.
#[derive(Debug, PartialEq, Eq, Hash)]
pub enum Host {
    Domain(String),
    Ipv4(u32),
    Ipv6(u128),
}

/// A host as a mathematical value.
pub enum HostView {
    Domain(Seq<char>),
    Ipv4(u32),
    Ipv6(u128),
}

impl View for Host {
    type V = HostView;

    open spec fn view(&self) -> HostView {
        match self {
            Host::Domain(name) => HostView::Domain(name@),
            Host::Ipv4(bits) => HostView::Ipv4(*bits),
            Host::Ipv6(bits) => HostView::Ipv6(*bits),
        }
    }
}

impl DeepView for Host {
    type V = HostView;

    open spec fn deep_view(&self) -> HostView {
        self@
    }
}

impl Clone for Host {
    fn clone(&self) -> (copy: Self)
        ensures
            copy@ == self@,
    {
        match self {
            Host::Domain(name) => Host::Domain(name.clone()),
            Host::Ipv4(bits) => Host::Ipv4(*bits),
            Host::Ipv6(bits) => Host::Ipv6(*bits),
        }
    }
}

impl Host {
    /// Whether two hosts are the same: the same kind, and the same name or address.
    pub fn same(&self, other: &Host) -> (r: bool)
        ensures
            r == (self@ == other@),
    {
        match (self, other) {
            (Host::Domain(a), Host::Domain(b)) => str_eq(a.as_str(), b.as_str()),
            (Host::Ipv4(a), Host::Ipv4(b)) => *a == *b,
            (Host::Ipv6(a), Host::Ipv6(b)) => *a == *b,
            _ => false,
        }
    }
}

/// What `url::Url::parse` makes of a text: the serialization of the URL, or
/// the failure.
pub uninterp spec fn url_parse_result(raw: Seq<char>) -> Result<Seq<char>, UrlParseFailure>;

/// What `url::Url::join` makes of a reference read against the URL with the
/// serialization `base`: the serialization of the joined URL, if there is one.
pub uninterp spec fn url_join_result(base: Seq<char>, raw: Seq<char>) -> Option<Seq<char>>;

/// The serialization that `url::Url::set_fragment(None)` leaves of the URL
/// with the serialization `url`, if `url` is one.
pub uninterp spec fn url_without_fragment(url: Seq<char>) -> Option<Seq<char>>;

/// What `url::Url::host` gives for the URL with the serialization `url`.
pub uninterp spec fn url_host(url: Seq<char>) -> Option<HostView>;

/// Calls `url::Url::parse` and hands out the serialization of the URL. Of
/// the parser's failures only `RelativeUrlWithoutBase` is told apart. The
/// contract names the result and claims nothing more of it.
#[verifier::external_body]
fn parse_text(raw: &str) -> (r: Result<String, UrlParseFailure>)
    ensures
        match r {
            Ok(text) => url_parse_result(raw@) == Ok::<Seq<char>, UrlParseFailure>(text@),
            Err(failure) => url_parse_result(raw@) == Err::<Seq<char>, UrlParseFailure>(failure),
        },
{
    match url::Url::parse(raw) {
        Ok(url) => Ok(url.into()),
        Err(url::ParseError::RelativeUrlWithoutBase) => Err(
            UrlParseFailure::RelativeUrlWithoutBase,
        ),
        Err(_) => Err(UrlParseFailure::Other),
    }
}

/// Reads `base` back into a `url::Url`, calls `url::Url::join` on it and
/// hands out the serialization of the joined URL; `None` where either step
/// fails. The contract names the result and claims nothing more of it.
#[verifier::external_body]
fn join_text(base: &str, raw: &str) -> (r: Option<String>)
    ensures
        r.deep_view() == url_join_result(base@, raw@),
{
    match url::Url::parse(base) {
        Ok(base) => base.join(raw).ok().map(String::from),
        Err(_) => None,
    }
}

/// Reads `url` back into a `url::Url`, calls `url::Url::set_fragment(None)`
/// on it and hands out the serialization that is left; `None` where `url`
/// does not parse. The contract names the result and claims nothing more of it.
#[verifier::external_body]
fn strip_fragment_text(url: &str) -> (r: Option<String>)
    ensures
        r.deep_view() == url_without_fragment(url@),
{
    match url::Url::parse(url) {
        Ok(mut parsed) => {
            parsed.set_fragment(None);
            Some(parsed.into())
        },
        Err(_) => None,
    }
}

/// Reads `url` back into a `url::Url`, calls `url::Url::host` on it and
/// converts the host variant by variant, an address to its bits; `None` where
/// `url` does not parse or has no host. The contract names the result and
/// claims nothing more of it.
#[verifier::external_body]
fn host_of_text(url: &str) -> (r: Option<Host>)
    ensures
        r.deep_view() == url_host(url@),
{
    match url::Url::parse(url).ok()?.host()? {
        url::Host::Domain(name) => Some(Host::Domain(name.to_string())),
        url::Host::Ipv4(address) => Some(Host::Ipv4(address.to_bits())),
        url::Host::Ipv6(address) => Some(Host::Ipv6(address.to_bits())),
    }
}

/// A parsed URL, held as its serialization.
#[derive(Debug, PartialEq, Eq, Hash)]
pub struct Url {
    text: String,
}

impl View for Url {
    type V = Seq<char>;

    closed spec fn view(&self) -> Seq<char> {
        self.text@
    }
}

impl DeepView for Url {
    type V = Seq<char>;

    open spec fn deep_view(&self) -> Seq<char> {
        self@
    }
}

impl Clone for Url {
    fn clone(&self) -> (copy: Self)
        ensures
            copy@ == self@,
    {
        Url { text: self.text.clone() }
    }
}

/// The canonical form of a reference found on the page `base`: the reference
/// parsed on its own, or against `base` where it is relative, and then without
/// its fragment.
pub open spec fn resolved(base: Seq<char>, raw: Seq<char>) -> Option<Seq<char>> {
    match url_parse_result(raw) {
        Ok(url) => url_without_fragment(url),
        Err(UrlParseFailure::RelativeUrlWithoutBase) => match url_join_result(base, raw) {
            Some(url) => url_without_fragment(url),
            None => None,
        },
        Err(UrlParseFailure::Other) => None,
    }
}

/// The canonical form of an absolute URL given as text: parsed, and then
/// without its fragment.
pub open spec fn canonical(raw: Seq<char>) -> Option<Seq<char>> {
    match url_parse_result(raw) {
        Ok(url) => url_without_fragment(url),
        Err(_) => None,
    }
}

impl Url {
    /// Parses an absolute URL.
    pub fn parse(raw: &str) -> (r: Result<Url, UrlParseFailure>)
        ensures
            match r {
                Ok(url) => url_parse_result(raw@) == Ok::<Seq<char>, UrlParseFailure>(url@),
                Err(failure) => url_parse_result(raw@) == Err::<Seq<char>, UrlParseFailure>(
                    failure,
                ),
            },
    {
        match parse_text(raw) {
            Ok(text) => Ok(Url { text }),
            Err(failure) => Err(failure),
        }
    }

    /// Reads a reference against this URL as its base.
    pub fn join(&self, raw: &str) -> (r: Option<Url>)
        ensures
            r.deep_view() == url_join_result(self@, raw@),
    {
        match join_text(self.text.as_str(), raw) {
            Some(text) => Some(Url { text }),
            None => None,
        }
    }

    /// This URL without its fragment.
    pub fn without_fragment(&self) -> (r: Option<Url>)
        ensures
            r.deep_view() == url_without_fragment(self@),
    {
        match strip_fragment_text(self.text.as_str()) {
            Some(text) => Some(Url { text }),
            None => None,
        }
    }

    /// The host of this URL, if it has one.
    pub fn host(&self) -> (r: Option<Host>)
        ensures
            r.deep_view() == url_host(self@),
    {
        host_of_text(self.text.as_str())
    }

    /// The serialization of this URL.
    pub fn as_str(&self) -> (text: &str)
        ensures
            text@ == self@,
    {
        self.text.as_str()
    }

    /// The serialization of this URL, as an owned text.
    pub fn to_string(&self) -> (text: String)
        ensures
            text@ == self@,
    {
        self.text.clone()
    }

    /// Whether two URLs have the same serialization.
    pub fn same(&self, other: &Url) -> (r: bool)
        ensures
            r == (self@ == other@),
    {
        str_eq(self.text.as_str(), other.text.as_str())
    }

    /// Parses an absolute URL and drops its fragment: the form under which a
    /// page is entered in the graph.
    pub fn parse_canonical(raw: &str) -> (r: Option<Url>)
        ensures
            r.deep_view() == canonical(raw@),
    {
        match Url::parse(raw) {
            Ok(url) => url.without_fragment(),
            Err(_) => None,
        }
    }
}

} // verus!
