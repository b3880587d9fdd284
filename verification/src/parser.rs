//! Link extraction from a fetched document.
//!
//! The scraper crate locates anchor elements; what each found href resolves
//! to, and which of them are kept, is decided here: each href is resolved
//! against the base URL, dropped silently when it does not resolve or leaves
//! the base's origin, stripped of its fragment, and added to a set.

use vstd::prelude::*;
use crate::error::ExtractError;
use crate::ty::Urls;
use crate::url_parser::{parse_url, defrag_text, join_of, origin_of, defrag_of};
use crate::urls::{urls_new, urls_insert, urls_of};
use scraper::{Html, Selector};

verus! {

/// The href attributes of the anchor elements of a document, in document
/// order, as scraper's HTML parsing and selection find them: `None` exactly
/// when the selector machinery itself fails.
pub uninterp spec fn scrape_of(html: Seq<char>) -> Option<Seq<Seq<char>>>;

/// Relies on scraper::Html::parse_document, scraper::Selector::parse and
/// scraper::ElementRef::attr: the anchor hrefs of a document, a function of
/// its text alone.
#[verifier::external_body]
fn scrape_hrefs(html: &str) -> (r: Option<Vec<String>>)
    ensures
        (match r {
            Some(v) => scrape_of(html@) == Some(v.deep_view()),
            None => scrape_of(html@) is None,
        }),
{
    let doc = Html::parse_document(html);
    let selector = match Selector::parse("a") {
        Ok(s) => s,
        Err(_) => {
            return None;
        }
    };
    let hrefs = doc
        .select(&selector)
        .filter_map(|a| a.value().attr("href").map(|s| s.to_string()))
        .collect();
    Some(hrefs)
}

/// The set of URLs a page's hrefs resolve to: each href joined against the
/// base, kept only when the join succeeds and stays on the base's origin,
/// with its fragment stripped.
pub open spec fn resolved_links(base: Seq<char>, hrefs: Seq<Seq<char>>) -> Set<Seq<char>>
    decreases hrefs.len(),
{
    if hrefs.len() == 0 {
        Set::empty()
    } else {
        let rest = resolved_links(base, hrefs.drop_last());
        match join_of(base, hrefs.last()) {
            Some(u) => if origin_of(u) == origin_of(base) {
                rest.insert(defrag_of(u))
            } else {
                rest
            },
            None => rest,
        }
    }
}

/// Extract the anchor hrefs of the document and resolve each against the
/// base URL.
///
/// A single href that does not resolve or leaves the base's origin is
/// skipped silently; two hrefs that differ only by fragment fold into one
/// entry. A failure of the extraction machinery itself fails the whole call.
pub fn parse(base: &str, html: &str) -> (r: Result<Urls, ExtractError>)
    ensures
        r is Ok <==> scrape_of(html@) is Some,
        (match r {
            Ok(urls) => urls_of(urls) == resolved_links(base@, scrape_of(html@).unwrap())
                && (forall |l: Seq<char>| #[trigger] urls_of(urls).contains(l)
                    ==> origin_of(l) == origin_of(base@)),
            Err(_) => true,
        }),
{
    let hrefs = match scrape_hrefs(html) {
        Some(h) => h,
        None => {
            return Err(ExtractError);
        }
    };
    let ghost hseq: Seq<Seq<char>> = hrefs.deep_view();
    let mut urls = urls_new();
    let mut i: usize = 0;
    while i < hrefs.len()
        invariant
            i <= hrefs.len(),
            hseq == hrefs.deep_view(),
            urls_of(urls) == resolved_links(base@, hseq.take(i as int)),
            forall |l: Seq<char>| #[trigger] urls_of(urls).contains(l)
                ==> origin_of(l) == origin_of(base@),
        decreases hrefs.len() - i,
    {
        proof {
            assert(hseq.take(i + 1).drop_last() =~= hseq.take(i as int));
            assert(hseq.take(i + 1).last() == hseq[i as int]);
            assert(hseq[i as int] == hrefs@[i as int]@);
        }
        let href = &hrefs[i];
        match parse_url(base, href.as_str()) {
            Ok(u) => {
                match defrag_text(u.as_str()) {
                    Some(v) => {
                        urls_insert(&mut urls, v);
                    }
                    None => {
                        // unreachable: the joined URL is in normal form
                        proof {
                            assert(false);
                        }
                    }
                }
            }
            Err(_) => {}
        }
        i += 1;
    }
    proof {
        assert(hseq.take(hrefs.len() as int) =~= hseq);
    }
    Ok(urls)
}

/// Law: two links that resolve to URLs differing only by their fragments
/// fold into exactly one resolved entry.
pub proof fn lemma_fragment_folding(
    base: Seq<char>,
    t1: Seq<char>,
    t2: Seq<char>,
    u1: Seq<char>,
    u2: Seq<char>,
)
    requires
        join_of(base, t1) == Some(u1),
        join_of(base, t2) == Some(u2),
        origin_of(u1) == origin_of(base),
        origin_of(u2) == origin_of(base),
        defrag_of(u1) == defrag_of(u2),
    ensures
        resolved_links(base, seq![t1, t2]) == Set::<Seq<char>>::empty().insert(defrag_of(u1)),
        resolved_links(base, seq![t1, t2]).len() == 1,
{
    let pair = seq![t1, t2];
    assert(pair.drop_last() =~= seq![t1]);
    assert(seq![t1].drop_last() =~= Seq::<Seq<char>>::empty());
    assert(resolved_links(base, Seq::empty()) == Set::<Seq<char>>::empty());
    assert(resolved_links(base, seq![t1]) == Set::<Seq<char>>::empty().insert(defrag_of(u1)));
    assert(resolved_links(base, pair) =~= Set::<Seq<char>>::empty().insert(defrag_of(u1)));
    assert(Set::<Seq<char>>::empty().insert(defrag_of(u1)).len() == 1);
}

} // verus!
