use crawler::ty::{AsStr, Token, Urls};
use crawler::util::find_query_param;
use crawler::{CrawlStep, Crawler, CrawlerPayload};

fn urls_from(items: &[&str]) -> Urls {
    let mut set = Urls::new();
    for item in items {
        set.insert(item.to_string());
    }
    set
}

fn take_task(engine: &mut Crawler) -> String {
    match engine.next_task() {
        CrawlStep::Task(url) => url,
        other => panic!("expected a task, engine reported {:?}", kind(&other)),
    }
}

fn kind(step: &CrawlStep) -> &'static str {
    match step {
        CrawlStep::Task(_) => "a task",
        CrawlStep::Awaiting => "awaiting",
        CrawlStep::Done => "done",
    }
}

#[test]
fn seed_is_normalized() {
    let mut engine = Crawler::new("HTTP://EXAMPLE.com").unwrap();
    let url = take_task(&mut engine);
    assert_eq!(url, "http://example.com/");
}

#[test]
fn bad_seed_fails_construction() {
    assert!(Crawler::new("not a url at all").is_err());
}

#[test]
fn quiescence_waits_for_outstanding_work() {
    let mut engine = Crawler::new("http://example.com/").unwrap();
    let url = take_task(&mut engine);

    // the queue is empty but the task's outcome is outstanding
    assert!(matches!(engine.next_task(), CrawlStep::Awaiting));

    engine.submit_result(Some(CrawlerPayload::new(url, Urls::new())));

    // nothing queued and nothing outstanding: done
    assert!(matches!(engine.next_task(), CrawlStep::Done));
    assert_eq!(engine.into_result(), urls_from(&["http://example.com/"]));
}

#[test]
fn failed_fetch_is_absorbed() {
    let mut engine = Crawler::new("http://example.com/").unwrap();
    let _url = take_task(&mut engine);
    engine.submit_result(None);
    assert!(matches!(engine.next_task(), CrawlStep::Done));
    assert!(engine.into_result().is_empty());
}

#[test]
fn rediscovered_url_is_not_redispatched() {
    let a = "http://example.com/".to_string();
    let b = "http://example.com/b.html".to_string();

    let mut engine = Crawler::new(&a).unwrap();
    let mut dispatched = Vec::new();

    loop {
        match engine.next_task() {
            CrawlStep::Task(url) => {
                dispatched.push(url.clone());
                // every page links to both a and b, so both are rediscovered
                let links = urls_from(&[&a, &b]);
                engine.submit_result(Some(CrawlerPayload::new(url, links)));
            }
            CrawlStep::Awaiting => panic!("sequential drive left work outstanding"),
            CrawlStep::Done => break,
        }
    }

    dispatched.sort();
    assert_eq!(dispatched, vec![a.clone(), b.clone()]);
    assert_eq!(engine.into_result(), urls_from(&[&a, &b]));
}

#[test]
fn redirect_source_never_reachable() {
    let a = "http://example.com/a.html".to_string();
    let b = "http://example.com/b.html".to_string();

    let mut engine = Crawler::new(&a).unwrap();
    let url = take_task(&mut engine);
    assert_eq!(url, a);

    // the fetch of a was redirected: its effective URL is b
    engine.submit_result(Some(CrawlerPayload::new(b.clone(), Urls::new())));

    assert!(matches!(engine.next_task(), CrawlStep::Done));
    let result = engine.into_result();
    assert_eq!(result, urls_from(&[&b]));
    assert!(!result.contains(&a));
}

#[test]
fn results_may_arrive_out_of_order() {
    let mut engine = Crawler::new("http://example.com/").unwrap();
    let seed = take_task(&mut engine);
    let links = urls_from(&["http://example.com/b.html", "http://example.com/c.html"]);
    engine.submit_result(Some(CrawlerPayload::new(seed, links)));

    // two tasks in flight at once; deliver them in reverse order
    let first = take_task(&mut engine);
    let second = take_task(&mut engine);
    assert_ne!(first, second);
    assert!(matches!(engine.next_task(), CrawlStep::Awaiting));

    engine.submit_result(Some(CrawlerPayload::new(second, Urls::new())));
    assert!(matches!(engine.next_task(), CrawlStep::Awaiting));
    engine.submit_result(Some(CrawlerPayload::new(first, Urls::new())));
    assert!(matches!(engine.next_task(), CrawlStep::Done));

    assert_eq!(engine.into_result().len(), 3);
}

#[test]
fn token_counting() {
    let mut token = Token::new();
    assert_eq!(token.count(), 1);
    token.acquire();
    token.acquire();
    assert_eq!(token.count(), 3);
    token.release();
    assert_eq!(token.count(), 2);
    token.release();
    assert_eq!(token.count(), 1);
}

#[test]
fn as_str_for_string() {
    let buffer = "<a href=\"x.html\">x</a>".to_string();
    assert_eq!(AsStr::as_str(&buffer), "<a href=\"x.html\">x</a>");
}

#[test]
fn query_param_lookup() {
    assert_eq!(
        find_query_param("http://localhost:8000/api/results?id=http://example.com", "id"),
        Some("http://example.com".to_string())
    );
    assert_eq!(
        find_query_param("http://localhost:8000/api/results?a=1&id=x&id=y", "id"),
        Some("x".to_string())
    );
    assert_eq!(find_query_param("http://localhost:8000/api/results?a=1", "id"), None);
    assert_eq!(find_query_param("not a url", "id"), None);
}

#[test]
fn query_param_is_decoded() {
    assert_eq!(
        find_query_param("http://localhost/r?id=a%20b", "id"),
        Some("a b".to_string())
    );
}
