//! Helpers for the server wrapper: query-string lookup.

use vstd::prelude::*;
use crate::url_parser::parse_of;
use url::Url;

verus! {

/// The decoded query key/value pairs of a parsed URL, in order, as
/// `url::Url::query_pairs` yields them.
pub uninterp spec fn query_pairs_of(u: Seq<char>) -> Seq<(Seq<char>, Seq<char>)>;

/// Relies on url::Url::query_pairs: the decoded pairs, in order; `None`
/// exactly when the text does not parse.
#[verifier::external_body]
fn query_pairs_text(u: &str) -> (r: Option<Vec<(String, String)>>)
    ensures
        (match r {
            Some(v) => parse_of(u@) is Some && v.deep_view() == query_pairs_of(u@),
            None => parse_of(u@) is None,
        }),
{
    match Url::parse(u) {
        Ok(parsed) => {
            Some(parsed.query_pairs().map(|(k, v)| (k.into_owned(), v.into_owned())).collect())
        }
        Err(_) => None,
    }
}

/// Relies on std's equality on str.
#[verifier::external_body]
fn str_eq(a: &str, b: &str) -> (r: bool)
    ensures
        r == (a@ == b@),
{
    a == b
}

/// The value of the first pair whose key is `name`, if any.
pub open spec fn first_query_value(
    pairs: Seq<(Seq<char>, Seq<char>)>,
    name: Seq<char>,
) -> Option<Seq<char>>
    decreases pairs.len(),
{
    if pairs.len() == 0 {
        None
    } else if pairs.first().0 == name {
        Some(pairs.first().1)
    } else {
        first_query_value(pairs.drop_first(), name)
    }
}

/// Look up the first query parameter named `name` in the given URL.
///
/// Returns its decoded value; `None` when the URL does not parse or carries
/// no such parameter.
pub fn find_query_param(url: &str, name: &str) -> (r: Option<String>)
    ensures
        (match r {
            Some(v) => parse_of(url@) is Some
                && first_query_value(query_pairs_of(url@), name@) == Some(v@),
            None => parse_of(url@) is None
                || first_query_value(query_pairs_of(url@), name@) is None,
        }),
{
    let pairs = match query_pairs_text(url) {
        Some(p) => p,
        None => {
            return None;
        }
    };
    let ghost pseq: Seq<(Seq<char>, Seq<char>)> = pairs.deep_view();
    proof {
        assert(pseq.skip(0) =~= pseq);
    }
    let mut i: usize = 0;
    while i < pairs.len()
        invariant
            i <= pairs.len(),
            pseq == pairs.deep_view(),
            first_query_value(query_pairs_of(url@), name@)
                == first_query_value(pseq.skip(i as int), name@),
            parse_of(url@) is Some,
            query_pairs_of(url@) == pseq,
        decreases pairs.len() - i,
    {
        proof {
            assert(pseq.skip(i as int).first() == pseq[i as int]);
            assert(pseq.skip(i as int).drop_first() =~= pseq.skip(i + 1));
        }
        let pair = &pairs[i];
        if str_eq(pair.0.as_str(), name) {
            return Some(pair.1.clone());
        }
        i += 1;
    }
    proof {
        assert(pseq.skip(pairs.len() as int) =~= Seq::<(Seq<char>, Seq<char>)>::empty());
    }
    None
}

} // verus!
