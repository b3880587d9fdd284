//! Resolution of scraped link targets against a base URL, with the
//! same-origin policy.
//!
//! The url crate does the RFC 3986 work. Its results are functions of its
//! text arguments alone, so the contracts name them: `parse_of` for parsing,
//! `join_of` for relative resolution, `origin_of` for the origin triple's
//! serialization, and `defrag_of` for fragment stripping.

use vstd::prelude::*;
use crate::error::UrlParseError;
use url::Url;

verus! {

/// The serialization of `url::Url::parse` on the given text: `Some` exactly
/// when the text parses as an absolute URL.
pub uninterp spec fn parse_of(s: Seq<char>) -> Option<Seq<char>>;

/// The serialization of joining the target against the base with
/// `url::Url::join` (RFC 3986 relative resolution): `None` when the base
/// does not parse or the join fails.
pub uninterp spec fn join_of(base: Seq<char>, target: Seq<char>) -> Option<Seq<char>>;

/// The ASCII serialization of the (scheme, host, port) origin triple of a
/// parsed URL, from `url::Origin::ascii_serialization`.
pub uninterp spec fn origin_of(u: Seq<char>) -> Seq<char>;

/// The serialization after `url::Url::set_fragment(None)`: the URL with its
/// fragment removed.
pub uninterp spec fn defrag_of(u: Seq<char>) -> Seq<char>;

/// A text in normal form: it parses, and parsing returns it unchanged.
/// Every serialization the url crate hands out is in this form.
pub open spec fn is_normal_url(s: Seq<char>) -> bool {
    parse_of(s) == Some(s)
}

/// Relies on url::Url::parse: `Ok` exactly when the text is a parseable
/// absolute URL, and then the parsed URL's serialization, which re-parses
/// to itself.
#[verifier::external_body]
pub(crate) fn parse_url_text(s: &str) -> (r: Result<String, url::ParseError>)
    ensures
        (match r {
            Ok(u) => parse_of(s@) == Some(u@) && is_normal_url(u@),
            Err(_) => parse_of(s@) is None,
        }),
{
    match Url::parse(s) {
        Ok(u) => Ok(String::from(u)),
        Err(e) => Err(e),
    }
}

/// Relies on url::Url::join: it resolves the target against the base by the
/// RFC 3986 rules; it can succeed only if the base itself parses, and its
/// result's serialization re-parses to itself.
#[verifier::external_body]
fn join_text(base: &str, target: &str) -> (r: Result<String, url::ParseError>)
    ensures
        (match r {
            Ok(u) => join_of(base@, target@) == Some(u@) && is_normal_url(u@)
                && parse_of(base@) is Some,
            Err(_) => join_of(base@, target@) is None,
        }),
{
    match Url::parse(base) {
        Ok(b) => match b.join(target) {
            Ok(u) => Ok(String::from(u)),
            Err(e) => Err(e),
        },
        Err(e) => Err(e),
    }
}

/// Relies on url::Url::origin and url::Origin::ascii_serialization: equal
/// serializations mean equal (scheme, host, port) triples.
#[verifier::external_body]
fn origins_match(a: &str, b: &str) -> (r: bool)
    requires
        parse_of(a@) is Some,
        parse_of(b@) is Some,
    ensures
        r == (origin_of(a@) == origin_of(b@)),
{
    match (Url::parse(a), Url::parse(b)) {
        (Ok(ua), Ok(ub)) => {
            ua.origin().ascii_serialization() == ub.origin().ascii_serialization()
        }
        _ => false,
    }
}

/// Relies on url::Url::set_fragment(None): it removes the fragment and
/// leaves scheme, authority, path and query unchanged, so the origin is
/// kept and the result re-parses to itself.
#[verifier::external_body]
pub(crate) fn defrag_text(u: &str) -> (r: Option<String>)
    ensures
        (match r {
            Some(v) => parse_of(u@) is Some && v@ == defrag_of(u@) && is_normal_url(v@)
                && origin_of(v@) == origin_of(u@),
            None => parse_of(u@) is None,
        }),
{
    match Url::parse(u) {
        Ok(mut parsed) => {
            parsed.set_fragment(None);
            Some(String::from(parsed))
        }
        Err(_) => None,
    }
}

/// Resolve a scraped target against a base URL and enforce the same-origin
/// policy.
///
/// Returns the effective URL when the target joins against the base and the
/// result stays on the base's (scheme, host, port) origin; `Parse` when the
/// target cannot be parsed or joined at all; `BadOrigin` when the resolved
/// origin differs from the base's.
pub fn parse_url(base: &str, target: &str) -> (r: Result<String, UrlParseError>)
    ensures
        (match r {
            Ok(u) => join_of(base@, target@) == Some(u@)
                && origin_of(u@) == origin_of(base@)
                && is_normal_url(u@),
            Err(UrlParseError::Parse(_)) => join_of(base@, target@) is None,
            Err(UrlParseError::BadOrigin) => (match join_of(base@, target@) {
                Some(u) => origin_of(u) != origin_of(base@),
                None => false,
            }),
        }),
{
    match join_text(base, target) {
        Ok(u) => {
            if origins_match(u.as_str(), base) {
                Ok(u)
            } else {
                Err(UrlParseError::BadOrigin)
            }
        }
        Err(e) => Err(UrlParseError::Parse(e)),
    }
}

} // verus!
