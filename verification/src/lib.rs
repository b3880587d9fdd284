//! Website crawling library.
//!
//! Given a seed URL, the crawl engine discovers and fetches same-origin
//! pages, extracts outgoing links, and returns the set of URLs it reached.
//! The engine itself only decides: an external driving loop pulls work with
//! `Crawler::next_task`, performs the fetch, and feeds the outcome back with
//! `Crawler::submit_result` until the engine reports quiescence.

use vstd::prelude::*;

pub mod error;
pub mod parser;
pub mod ty;
pub mod url_parser;
pub mod urls;
pub mod util;

use crate::error::UrlParseError;
use crate::ty::{Token, Urls};
use crate::url_parser::{origin_of, parse_of, parse_url_text};
use crate::urls::{urls_contains, urls_elements, urls_insert, urls_new, urls_pick, urls_remove, urls_of};

verus! {

/// The spec-level state of a crawl: the three URL sets and the token count.
#[verifier::ext_equal]
pub ghost struct CrawlerView {
    /// URLs that have been handed to a fetch task at some point.
    pub crawled: Set<Seq<char>>,
    /// URLs discovered but not yet dispatched.
    pub queue: Set<Seq<char>>,
    /// Effective URLs of successful fetches: the crawl's result.
    pub effective: Set<Seq<char>>,
    /// The quiescence token count: 1 for the engine's own reference, plus
    /// one per dispatched task whose outcome is still outstanding.
    pub token: nat,
}

/// The state of a freshly built engine: one seed queued, nothing crawled,
/// only the engine's token reference live.
pub open spec fn init_view(seed: Seq<char>) -> CrawlerView {
    CrawlerView {
        crawled: Set::empty(),
        queue: Set::empty().insert(seed),
        effective: Set::empty(),
        token: 1,
    }
}

/// Dispatching `u`: it moves from the queue to the crawled set, and the
/// token gains the reference the task will carry.
pub open spec fn dispatch_transition(pre: CrawlerView, u: Seq<char>) -> CrawlerView {
    CrawlerView {
        crawled: pre.crawled.insert(u),
        queue: pre.queue.remove(u),
        effective: pre.effective,
        token: pre.token + 1,
    }
}

/// Delivering a payload: its effective source URL becomes crawled and
/// reachable, the discovered links not already crawled join the queue, and
/// the payload's token reference is released.
pub open spec fn submit_transition(
    pre: CrawlerView,
    source: Seq<char>,
    links: Set<Seq<char>>,
) -> CrawlerView {
    let crawled = pre.crawled.insert(source);
    CrawlerView {
        crawled,
        queue: pre.queue.union(links.difference(crawled)),
        effective: pre.effective.insert(source),
        token: (pre.token - 1) as nat,
    }
}

/// Delivering a failed fetch: only the task's token reference is released.
pub open spec fn release_transition(pre: CrawlerView) -> CrawlerView {
    CrawlerView { token: (pre.token - 1) as nat, ..pre }
}

/// One engine event: what a step of the engine did.
pub ghost enum EngineEvent {
    /// `next_task` handed this URL out as a task.
    Dispatch(Seq<char>),
    /// `submit_result` took a payload: its effective source URL and links.
    Deliver(Seq<char>, Set<Seq<char>>),
    /// `submit_result` took a failed fetch.
    DeliverNone,
    /// An idle report (`Awaiting` or `Done`): no change.
    Idle,
}

/// How an event takes one view to the next.
pub open spec fn event_step(pre: CrawlerView, ev: EngineEvent, post: CrawlerView) -> bool {
    match ev {
        EngineEvent::Dispatch(u) => post == dispatch_transition(pre, u),
        EngineEvent::Deliver(source, links) => post == submit_transition(pre, source, links),
        EngineEvent::DeliverNone => post == release_transition(pre),
        EngineEvent::Idle => post == pre,
    }
}

/// Any step the engine can take: a dispatch, a payload delivery, a failed
/// fetch's delivery, or no change (the idle reports).
pub open spec fn engine_step(pre: CrawlerView, post: CrawlerView) -> bool {
    exists |ev: EngineEvent| #[trigger] event_step(pre, ev, post)
}

/// One unit of crawl work, or the engine's idle state.
pub enum CrawlStep {
    /// Fetch this URL, parse the document, and submit the outcome.
    Task(String),
    /// The queue is empty, but dispatched work is outstanding and may refill
    /// it: the crawl is not over.
    Awaiting,
    /// Quiescence: the crawl is complete.
    Done,
}

/// The spec-level content of a payload.
pub ghost struct PayloadView {
    /// The effective (post-redirect) URL the document was fetched from.
    pub source: Seq<char>,
    /// The URLs discovered on the document.
    pub links: Set<Seq<char>>,
}

/// The outcome of one successfully fetched and parsed page: the effective
/// source URL and the links discovered on it.
pub struct CrawlerPayload {
    /// url of the source document for the discovered URLs
    source: String,
    /// parsed URLs
    urls: Urls,
}

impl View for CrawlerPayload {
    type V = PayloadView;

    closed spec fn view(&self) -> PayloadView {
        PayloadView { source: self.source@, links: urls_of(self.urls) }
    }
}

impl CrawlerPayload {
    /// Construct a new payload from the effective source URL and the set of
    /// URLs scraped from its document.
    pub fn new(source: String, urls: Urls) -> (r: CrawlerPayload)
        ensures
            r@.source == source@,
            r@.links == urls_of(urls),
    {
        CrawlerPayload { source, urls }
    }
}

/// Website crawl engine.
///
/// It owns the frontier of a crawl and decides; it does no I/O of its own.
/// One external driving loop pulls dispatchable URLs with `next_task`,
/// fetches and parses them with whatever transport it has, and feeds each
/// outcome back with `submit_result`, until `next_task` reports `Done`.
pub struct Crawler {
    /// all urls handed to fetch tasks, including redirect sources
    crawled: Urls,
    /// urls to be crawled
    queue: Urls,
    /// the resulting urls, without redirects
    effective: Urls,
    /// active task counter
    token: Token,
}

impl View for Crawler {
    type V = CrawlerView;

    closed spec fn view(&self) -> CrawlerView {
        CrawlerView {
            crawled: urls_of(self.crawled),
            queue: urls_of(self.queue),
            effective: urls_of(self.effective),
            token: self.token.spec_count(),
        }
    }
}

impl Crawler {
    /// The engine invariant: its own token reference is always live.
    pub open spec fn wf(&self) -> bool {
        self@.token >= 1
    }

    /// Create a new crawl engine seeded with one URL.
    ///
    /// Fails exactly when the seed is not a parseable absolute URL; on
    /// success the queue holds the parsed seed alone.
    pub fn new(start: &str) -> (r: Result<Crawler, UrlParseError>)
        ensures
            (match r {
                Ok(c) => c.wf() && (match parse_of(start@) {
                    Some(seed) => c@ == init_view(seed),
                    None => false,
                }),
                Err(e) => parse_of(start@) is None && (e matches UrlParseError::Parse(_)),
            }),
    {
        let seed = match parse_url_text(start) {
            Ok(u) => u,
            Err(e) => {
                return Err(UrlParseError::Parse(e));
            }
        };
        let mut queue = urls_new();
        urls_insert(&mut queue, seed);
        let crawler = Crawler {
            crawled: urls_new(),
            queue,
            effective: urls_new(),
            token: Token::new(),
        };
        proof {
            assert(crawler@ =~= init_view(parse_of(start@).unwrap()));
        }
        Ok(crawler)
    }

    /// Producer side: hand out the next URL to fetch, or report the crawl's
    /// state.
    ///
    /// Dispatches an arbitrary queued URL (order is unspecified), moving it
    /// to the crawled set so it is never dispatched again. With an empty
    /// queue, reports `Done` exactly when only the engine's own token
    /// reference is live — quiescence — and `Awaiting` otherwise.
    pub fn next_task(&mut self) -> (r: CrawlStep)
        requires
            old(self).wf(),
            old(self)@.token < u64::MAX,
        ensures
            final(self).wf(),
            (match r {
                CrawlStep::Task(u) => old(self)@.queue.contains(u@)
                    && final(self)@ == dispatch_transition(old(self)@, u@),
                CrawlStep::Awaiting => final(self)@ == old(self)@
                    && old(self)@.queue == Set::<Seq<char>>::empty()
                    && old(self)@.token > 1,
                CrawlStep::Done => final(self)@ == old(self)@
                    && old(self)@.queue == Set::<Seq<char>>::empty()
                    && old(self)@.token == 1,
            }),
            (r is Done) <==> (old(self)@.queue == Set::<Seq<char>>::empty()
                && old(self)@.token == 1),
    {
        match urls_pick(&self.queue) {
            Some(url) => {
                urls_remove(&mut self.queue, url.as_str());
                urls_insert(&mut self.crawled, url.clone());
                self.token.acquire();
                proof {
                    assert(self@ =~= dispatch_transition(old(self)@, url@));
                }
                CrawlStep::Task(url)
            }
            None => {
                if self.token.count() > 1 {
                    CrawlStep::Awaiting
                } else {
                    CrawlStep::Done
                }
            }
        }
    }

    /// Consumer side: take the outcome of one dispatched task.
    ///
    /// A payload adds its effective source URL to the crawled and reachable
    /// sets and queues every discovered link that is not already crawled; a
    /// failed fetch (`None`) only releases the task's token reference. This
    /// operation never fails: a degenerate fetch is absorbed silently.
    pub fn submit_result(&mut self, item: Option<CrawlerPayload>)
        requires
            old(self).wf(),
            old(self)@.token >= 2,
        ensures
            final(self).wf(),
            (match item {
                Some(p) => final(self)@ == submit_transition(old(self)@, p@.source, p@.links),
                None => final(self)@ == release_transition(old(self)@),
            }),
    {
        match item {
            Some(payload) => {
                let CrawlerPayload { source, urls } = payload;
                let ghost src: Seq<char> = source@;
                let ghost all: Set<Seq<char>> = urls_of(urls);
                urls_insert(&mut self.crawled, source.clone());
                urls_insert(&mut self.effective, source);
                let ghost crawled_now: Set<Seq<char>> = urls_of(self.crawled);
                let links = urls_elements(&urls);
                let ghost lseq: Seq<Seq<char>> = links.deep_view();
                let mut i: usize = 0;
                while i < links.len()
                    invariant
                        i <= links.len(),
                        lseq == links.deep_view(),
                        urls_of(self.crawled) == crawled_now,
                        urls_of(self.effective) == old(self)@.effective.insert(src),
                        self.token.spec_count() == old(self)@.token,
                        urls_of(self.queue) == old(self)@.queue.union(
                            lseq.take(i as int).to_set().difference(crawled_now)),
                    decreases links.len() - i,
                {
                    proof {
                        assert(lseq[i as int] == links@[i as int]@);
                        assert forall |x: Seq<char>| lseq.take(i + 1).to_set().contains(x)
                            <==> lseq.take(i as int).to_set().insert(lseq[i as int]).contains(x)
                        by {
                            if lseq.take(i + 1).to_set().contains(x) {
                                let j = choose |j: int| 0 <= j < i + 1
                                    && #[trigger] lseq.take(i + 1)[j] == x;
                                if j < i {
                                    assert(lseq.take(i as int)[j] == x);
                                }
                            }
                            if lseq.take(i as int).to_set().contains(x) {
                                let j = choose |j: int| 0 <= j < i
                                    && #[trigger] lseq.take(i as int)[j] == x;
                                assert(lseq.take(i + 1)[j] == x);
                            }
                            if x == lseq[i as int] {
                                assert(lseq.take(i + 1)[i as int] == x);
                            }
                        }
                        assert(lseq.take(i + 1).to_set() =~= lseq.take(i as int).to_set()
                            .insert(lseq[i as int]));
                    }
                    let link = &links[i];
                    let already = urls_contains(&self.crawled, link.as_str());
                    if !already {
                        urls_insert(&mut self.queue, link.clone());
                    }
                    proof {
                        assert(urls_of(self.queue) =~= old(self)@.queue.union(
                            lseq.take(i + 1).to_set().difference(crawled_now)));
                    }
                    i += 1;
                }
                self.token.release();
                proof {
                    assert(lseq.take(links.len() as int) =~= lseq);
                    assert(self@ =~= submit_transition(old(self)@, src, all));
                }
            }
            None => {
                self.token.release();
                proof {
                    assert(self@ =~= release_transition(old(self)@));
                }
            }
        }
    }

    /// Consume the engine and return the reachable set: the effective URLs
    /// of the successful fetches. Meaningful only once `next_task` has
    /// reported `Done`.
    pub fn into_result(self) -> (r: Urls)
        ensures
            urls_of(r) == self@.effective,
    {
        self.effective
    }
}

/// Law: over any single engine step, a URL that is in the crawled set and
/// out of the queue stays so. A dispatched URL is never re-dispatched, even
/// when several pages rediscover it: a delivered payload queues only links
/// outside the crawled set.
pub proof fn lemma_no_redispatch_step(pre: CrawlerView, post: CrawlerView, u: Seq<char>)
    requires
        engine_step(pre, post),
        pre.crawled.contains(u),
        !pre.queue.contains(u),
    ensures
        post.crawled.contains(u),
        !post.queue.contains(u),
{
    let ev = choose |ev: EngineEvent| #[trigger] event_step(pre, ev, post);
    match ev {
        EngineEvent::Dispatch(v) => {
            assert(!post.queue.contains(u));
        }
        EngineEvent::Deliver(source, links) => {
            assert(post.crawled.contains(u));
            assert(!links.difference(post.crawled).contains(u));
        }
        EngineEvent::DeliverNone => {}
        EngineEvent::Idle => {}
    }
}

/// A run of the engine: consecutive states related by engine steps.
pub open spec fn engine_trace(t: Seq<CrawlerView>) -> bool {
    forall |i: int| 1 <= i < t.len() ==> #[trigger] engine_step(t[i - 1], t[i])
}

/// Law: along any run of the engine, once a URL has entered the crawled
/// (dispatched) set while out of the queue, it never re-enters the queue,
/// and it stays crawled.
pub proof fn lemma_no_redispatch(t: Seq<CrawlerView>, k: int, j: int, u: Seq<char>)
    requires
        engine_trace(t),
        0 <= k <= j < t.len(),
        t[k].crawled.contains(u),
        !t[k].queue.contains(u),
    ensures
        t[j].crawled.contains(u),
        !t[j].queue.contains(u),
    decreases j - k,
{
    if j > k {
        lemma_no_redispatch(t, k, j - 1, u);
        assert(engine_step(t[j - 1], t[j]));
        lemma_no_redispatch_step(t[j - 1], t[j], u);
    }
}

/// Every URL the view can still dispatch or has reported reachable lies on
/// the given origin.
pub open spec fn confined(v: CrawlerView, origin: Seq<char>) -> bool {
    &&& forall |u: Seq<char>| #[trigger] v.queue.contains(u) ==> origin_of(u) == origin
    &&& forall |u: Seq<char>| #[trigger] v.effective.contains(u) ==> origin_of(u) == origin
}

/// An event whose delivered payload, if any, carries only URLs on the given
/// origin — what `parse` guarantees for a page fetched from it.
pub open spec fn confined_event(ev: EngineEvent, origin: Seq<char>) -> bool {
    match ev {
        EngineEvent::Deliver(source, links) => origin_of(source) == origin
            && (forall |l: Seq<char>| #[trigger] links.contains(l) ==> origin_of(l) == origin),
        _ => true,
    }
}

/// An engine step whose delivered payload, if any, stays on the given origin.
pub open spec fn confined_step(pre: CrawlerView, post: CrawlerView, origin: Seq<char>) -> bool {
    exists |ev: EngineEvent| #[trigger] event_step(pre, ev, post) && confined_event(ev, origin)
}

/// Law: origin confinement is inductive. Starting from a seed on the given
/// origin, as long as every delivered payload carries only URLs on that
/// origin — which link resolution guarantees for same-origin pages — the
/// queue and the reachable result never leave it.
pub proof fn lemma_origin_confinement_step(
    pre: CrawlerView,
    post: CrawlerView,
    origin: Seq<char>,
)
    requires
        confined(pre, origin),
        confined_step(pre, post, origin),
    ensures
        confined(post, origin),
{
    let ev = choose |ev: EngineEvent|
        #[trigger] event_step(pre, ev, post) && confined_event(ev, origin);
    match ev {
        EngineEvent::Deliver(source, links) => {
            assert forall |u: Seq<char>| #[trigger] post.queue.contains(u)
                implies origin_of(u) == origin
            by {
                if !pre.queue.contains(u) {
                    assert(links.contains(u));
                }
            }
        }
        EngineEvent::Dispatch(u) => {
            assert(confined(post, origin));
        }
        EngineEvent::DeliverNone => {}
        EngineEvent::Idle => {}
    }
}

/// Law: along a run whose seed lies on the given origin and whose payloads
/// all stay on it, the final reachable set holds same-origin URLs only:
/// cross-origin links never appear in the result.
pub proof fn lemma_origin_confinement(t: Seq<CrawlerView>, origin: Seq<char>, j: int)
    requires
        t.len() > 0,
        confined(t[0], origin),
        forall |i: int| 1 <= i < t.len() ==> #[trigger] confined_step(t[i - 1], t[i], origin),
        0 <= j < t.len(),
    ensures
        confined(t[j], origin),
    decreases j,
{
    if j > 0 {
        lemma_origin_confinement(t, origin, j - 1);
        assert(confined_step(t[j - 1], t[j], origin));
        lemma_origin_confinement_step(t[j - 1], t[j], origin);
    }
}

/// The state a run of the engine ends in: the given events applied in order,
/// starting from `init`.
pub open spec fn run_end(init: CrawlerView, evs: Seq<EngineEvent>) -> CrawlerView
    decreases evs.len(),
{
    if evs.len() == 0 {
        init
    } else {
        let pre = run_end(init, evs.drop_last());
        match evs.last() {
            EngineEvent::Dispatch(u) => dispatch_transition(pre, u),
            EngineEvent::Deliver(source, links) => submit_transition(pre, source, links),
            EngineEvent::DeliverNone => release_transition(pre),
            EngineEvent::Idle => pre,
        }
    }
}

/// The number of dispatched tasks whose outcome has not been submitted back:
/// dispatches minus deliveries.
pub open spec fn outstanding(evs: Seq<EngineEvent>) -> int
    decreases evs.len(),
{
    if evs.len() == 0 {
        0
    } else {
        outstanding(evs.drop_last()) + (match evs.last() {
            EngineEvent::Dispatch(_) => 1int,
            EngineEvent::Deliver(_, _) => -1int,
            EngineEvent::DeliverNone => -1int,
            EngineEvent::Idle => 0int,
        })
    }
}

/// Every prefix of the run delivers no more outcomes than it has dispatched
/// tasks — what driving the engine one task outcome at a time guarantees.
pub open spec fn deliveries_follow_dispatches(evs: Seq<EngineEvent>) -> bool {
    forall |n: int| 0 <= n <= evs.len() ==> outstanding(#[trigger] evs.take(n)) >= 0
}

/// Law: the token count is exactly one more than the number of outstanding
/// dispatched tasks, along any run of the engine from a fresh seed.
pub proof fn lemma_token_counts_outstanding(seed: Seq<char>, evs: Seq<EngineEvent>)
    requires
        deliveries_follow_dispatches(evs),
    ensures
        run_end(init_view(seed), evs).token == 1 + outstanding(evs),
    decreases evs.len(),
{
    if evs.len() > 0 {
        let rest = evs.drop_last();
        assert forall |n: int| 0 <= n <= rest.len()
            implies outstanding(#[trigger] rest.take(n)) >= 0
        by {
            assert(rest.take(n) =~= evs.take(n));
            assert(outstanding(evs.take(n)) >= 0);
        }
        lemma_token_counts_outstanding(seed, rest);
        assert(evs.take(evs.len() as int) =~= evs);
        assert(evs.take(evs.len() - 1) =~= rest);
        assert(outstanding(evs) >= 0);
    }
}

/// Law: the engine never reports quiescence while a dispatched task's
/// outcome has not been submitted back. With work outstanding the token
/// count exceeds 1, and `next_task` reports `Done` only at count 1.
pub proof fn lemma_no_done_while_outstanding(seed: Seq<char>, evs: Seq<EngineEvent>)
    requires
        deliveries_follow_dispatches(evs),
        outstanding(evs) > 0,
    ensures
        run_end(init_view(seed), evs).token > 1,
{
    lemma_token_counts_outstanding(seed, evs);
}

/// Law: redirects collapse. When the task dispatched for `a` comes back
/// with effective URL `b`, delivering it makes `b` reachable and not `a`:
/// dispatching never touches the reachable set, and delivery adds only the
/// effective source URL.
pub proof fn lemma_redirect_collapsing(
    pre: CrawlerView,
    a: Seq<char>,
    b: Seq<char>,
    links: Set<Seq<char>>,
)
    requires
        !pre.effective.contains(a),
        a != b,
    ensures
        dispatch_transition(pre, a).effective == pre.effective,
        submit_transition(dispatch_transition(pre, a), b, links).effective.contains(b),
        !submit_transition(dispatch_transition(pre, a), b, links).effective.contains(a),
{
}

} // verus!
