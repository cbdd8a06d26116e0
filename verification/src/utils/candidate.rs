//! Building a candidate: the full, canonical address for what was typed.
//!
//! Parsing and canonical form are the `url` crate's. This module decides what
//! is handed to the parser and what becomes of its answer.

use vstd::prelude::*;
use crate::utils::slug::{trim_end_slash, without_end_slash};

verus! {

/// What the parser made of an input.
#[derive(Debug, PartialEq, Eq)]
pub enum ParsedUrl {
    /// An absolute address: its canonical text and its host, if it has one.
    Absolute { canonical: String, host: Option<String> },
    /// The input has no scheme.
    MissingScheme,
    /// The input is no address for any other reason.
    Malformed,
}

/// A `ParsedUrl` as plain values.
pub enum ParseModel {
    Absolute { canonical: Seq<char>, host: Option<Seq<char>> },
    MissingScheme,
    Malformed,
}

impl View for ParsedUrl {
    type V = ParseModel;

    open spec fn view(&self) -> ParseModel {
        match *self {
            ParsedUrl::Absolute { canonical, host } => ParseModel::Absolute {
                canonical: canonical@,
                host: host.deep_view(),
            },
            ParsedUrl::MissingScheme => ParseModel::MissingScheme,
            ParsedUrl::Malformed => ParseModel::Malformed,
        }
    }
}

/// What `url::Url::parse` makes of `input`: the serialization and the host of
/// the address it returns, or which kind of error.
pub uninterp spec fn url_parse(input: Seq<char>) -> ParseModel;

/// The scheme that is put before an input without one.
pub open spec fn scheme_prefix(secure: bool) -> Seq<char> {
    if secure {
        "https://"@
    } else {
        "http://"@
    }
}

/// How the parser tells whether an input has a scheme: an input without a
/// colon has none; an input that starts with `http://` or `https://` has
/// one, and where it is an address, the address starts with the same.
pub open spec fn reads_scheme(input: Seq<char>, parsed: ParseModel) -> bool {
    &&& !input.contains(':') ==> parsed is MissingScheme
    &&& forall|secure: bool|
        #![trigger scheme_prefix(secure)]
        scheme_prefix(secure).is_prefix_of(input) ==> {
            &&& !(parsed is MissingScheme)
            &&& parsed matches ParseModel::Absolute { canonical, .. } ==> scheme_prefix(
                secure,
            ).is_prefix_of(canonical)
        }
}

/// Parses `input` as an absolute address with `url::Url::parse`.
///
/// Trusted: the result is a function of the input's text alone, named
/// `url_parse`. `MissingScheme` stands for the parser's error
/// `RelativeUrlWithoutBase`, `Malformed` for its others. Three facts are
/// stated of the parser. It finds a scheme only where it reaches a colon,
/// so an input without one has no scheme. It takes the letters `http` or
/// `https` up to the colon for a scheme, so an input that starts with these
/// has one. It writes the scheme in lower case, then `:`, then `//` for
/// these two schemes, at the start of what it returns, so the address it
/// makes of such an input starts with `http://` or `https://` as the input
/// does.
#[verifier::external_body]
fn parse_absolute(input: &str) -> (parsed: ParsedUrl)
    ensures
        parsed@ == url_parse(input@),
        reads_scheme(input@, parsed@),
{
    match url::Url::parse(input) {
        Ok(u) => ParsedUrl::Absolute {
            host: u.host_str().map(String::from),
            canonical: String::from(u),
        },
        Err(url::ParseError::RelativeUrlWithoutBase) => ParsedUrl::MissingScheme,
        Err(_) => ParsedUrl::Malformed,
    }
}

/// The canonical address in a parser's answer, if it is one.
pub open spec fn canonical_of(parsed: ParseModel) -> Option<Seq<char>> {
    match parsed {
        ParseModel::Absolute { canonical, .. } => Some(canonical),
        ParseModel::MissingScheme => None,
        ParseModel::Malformed => None,
    }
}

/// The candidate for `raw`: the canonical form of `raw` where it parses; of
/// `raw` behind the preferred scheme where `raw` has no scheme; none
/// otherwise.
pub open spec fn candidate(raw: Seq<char>, secure: bool) -> Option<Seq<char>> {
    match url_parse(raw) {
        ParseModel::Absolute { canonical, .. } => Some(canonical),
        ParseModel::MissingScheme => canonical_of(url_parse(scheme_prefix(secure) + raw)),
        ParseModel::Malformed => None,
    }
}

/// How a candidate `c` that was built for `raw` starts: as `raw` where `raw`
/// starts with `http://` or `https://`; with the preferred scheme where `raw`
/// has no scheme, as every `raw` without a colon.
pub open spec fn starts_as_asked(raw: Seq<char>, secure: bool, c: Seq<char>) -> bool {
    &&& forall|given: bool|
        #![trigger scheme_prefix(given)]
        scheme_prefix(given).is_prefix_of(raw) ==> scheme_prefix(given).is_prefix_of(c)
    &&& url_parse(raw) is MissingScheme || !raw.contains(':') ==> scheme_prefix(
        secure,
    ).is_prefix_of(c)
}

/// The host in a parser's answer, or `raw` where the answer has none.
pub open spec fn host_or_raw(parsed: ParseModel, raw: Seq<char>) -> Seq<char> {
    match parsed {
        ParseModel::Absolute { host: Some(h), .. } => h,
        _ => raw,
    }
}

/// The bare host name of `raw`.
pub open spec fn bare_host(raw: Seq<char>) -> Seq<char> {
    without_end_slash(host_or_raw(url_parse(raw), raw))
}

impl ParsedUrl {
    /// The canonical address, if the input was one.
    pub fn into_canonical(self) -> (r: Option<String>)
        ensures
            r.deep_view() == canonical_of(self@),
    {
        match self {
            ParsedUrl::Absolute { canonical, host: _ } => Some(canonical),
            ParsedUrl::MissingScheme => None,
            ParsedUrl::Malformed => None,
        }
    }

    /// The host that was parsed, or `raw` where there is none.
    pub fn into_host_or(self, raw: &str) -> (r: String)
        ensures
            r@ == host_or_raw(self@, raw@),
    {
        match self {
            ParsedUrl::Absolute { canonical: _, host: Some(h) } => h,
            _ => String::from_str(raw),
        }
    }

    /// Whether the parser found no scheme.
    pub fn is_missing_scheme(&self) -> (r: bool)
        ensures
            r == (self@ is MissingScheme),
    {
        match self {
            ParsedUrl::MissingScheme => true,
            _ => false,
        }
    }
}

/// `raw` behind `https://` or `http://`.
pub fn with_scheme(raw: &str, secure: bool) -> (r: String)
    ensures
        r@ == scheme_prefix(secure) + raw@,
{
    let scheme = if secure {
        String::from_str("https://")
    } else {
        String::from_str("http://")
    };
    scheme.concat(raw)
}

/// Parses a possibly incomplete address and returns the full one.
///
/// An input with a scheme is parsed as it is, whatever `is_secure` says. An
/// input without one is parsed again behind `https://` if `is_secure`, else
/// behind `http://`; that second answer is final.
pub fn parse_url(url: String, is_secure: bool) -> (r: Option<String>)
    ensures
        r.deep_view() == candidate(url@, is_secure),
        r matches Some(c) ==> starts_as_asked(url@, is_secure, c@),
{
    let first = parse_absolute(url.as_str());
    if first.is_missing_scheme() {
        let full = with_scheme(url.as_str(), is_secure);
        assert(scheme_prefix(is_secure).is_prefix_of(full@));
        parse_absolute(full.as_str()).into_canonical()
    } else {
        first.into_canonical()
    }
}

/// Strips everything but the host name from an address: the host that the
/// parser finds, or the input itself where it finds none, without a closing
/// slash.
pub fn strip_all(url: &str) -> (r: String)
    ensures
        r@ == bare_host(url@),
{
    let host = parse_absolute(url).into_host_or(url);
    trim_end_slash(host)
}

/// The scheme preference plays no part for an input that has a scheme: both
/// preferences give the parser's answer to the input as it is.
pub proof fn lemma_given_scheme_is_kept(raw: Seq<char>)
    requires
        !(url_parse(raw) is MissingScheme),
    ensures
        candidate(raw, true) == candidate(raw, false),
        candidate(raw, true) == canonical_of(url_parse(raw)),
{
}

/// For an input without a scheme the candidate is the parser's answer to the
/// input behind `https://` for the secure preference, behind `http://` for
/// the other.
pub proof fn lemma_missing_scheme_is_supplied(raw: Seq<char>, secure: bool)
    requires
        url_parse(raw) is MissingScheme,
    ensures
        candidate(raw, secure) == canonical_of(url_parse(scheme_prefix(secure) + raw)),
        scheme_prefix(secure).is_prefix_of(scheme_prefix(secure) + raw),
{
}

} // verus!
