use crawler::parser::parse;
use crawler::ty::Urls;
use crawler::{CrawlStep, Crawler, CrawlerPayload};

const PAGE0: &str = r#""<!doctype html>
<html>
    <head>
        <title>Parse test - index</title>
    </head>
    <body>
        <a href="weird/path/first.html">first</a>
    </body>
</html>
"#;

const PAGE1: &str = r#""<!doctype html>
<html>
    <head>
        <title>Parse test - page1</title>
    </head>
    <body>
        Absolute page: <a href="/three.html">three</a>
        Url with different base <a href="http://google.com/search?q=google">google</a>.
        Url with full domain <a href="https://example.com/some/path/second.html">test</a>.
    </body>
</html>
"#;

const PAGE2: &str = r#""<!doctype html>
<html>
    <head>
        <title>Parse test - page2</title>
    </head>
    <body>
        Absolute page: <a href="/three.html">three</a>
        Relative <a href="some/path/fourth.html">test</a>.
    </body>
</html>
"#;

const PAGE3: &str = r#""<!doctype html>
<html>
    <head>
        <title>Parse test - page3</title>
    </head>
    <body>
        This is an alias: <a href="/redirect.html">redirect -> index.html</a>
        This doesn't exist: <a href="/missing.html">missing</a>
    </body>
</html>
"#;

const PAGE4: &str = r#""<!doctype html>
<html>
    <head>
        <title>Parse test - page4</title>
    </head>
    <body>
        Nothing interesting here.
        http://example.com/foobar.html
    </body>
</html>
"#;

/// A canned fetch: a page table plus one redirect, standing in for the
/// network. Returns the effective URL and the document, or None for a
/// missing page.
fn fetch(url: &str) -> Option<(String, &'static str)> {
    let effective = if url == "https://example.com/redirect.html" {
        "https://example.com/index.html"
    } else {
        url
    };
    let page = match effective {
        "https://example.com/index.html" => PAGE0,
        "https://example.com/weird/path/first.html" => PAGE1,
        "https://example.com/some/path/second.html" => PAGE2,
        "https://example.com/three.html" => PAGE3,
        "https://example.com/some/path/some/path/fourth.html" => PAGE4,
        _ => {
            return None;
        }
    };
    Some((effective.to_string(), page))
}

/// A sequential driving loop: pull a task, run the canned fetch, parse,
/// submit, until the engine reports quiescence.
fn drive(seed: &str) -> Urls {
    let mut engine = Crawler::new(seed).unwrap();
    loop {
        match engine.next_task() {
            CrawlStep::Task(url) => match fetch(&url) {
                Some((effective, html)) => {
                    let links = parse(&effective, html).unwrap();
                    engine.submit_result(Some(CrawlerPayload::new(effective, links)));
                }
                None => {
                    engine.submit_result(None);
                }
            },
            CrawlStep::Awaiting => {
                panic!("a sequential drive never leaves work outstanding");
            }
            CrawlStep::Done => {
                break;
            }
        }
    }
    engine.into_result()
}

fn urls_from(items: &[&str]) -> Urls {
    let mut set = Urls::new();
    for item in items {
        set.insert(item.to_string());
    }
    set
}

#[test]
fn smoke() {
    let result = drive("https://example.com/index.html");

    let expected = urls_from(&[
        "https://example.com/some/path/some/path/fourth.html",
        "https://example.com/index.html",
        "https://example.com/weird/path/first.html",
        "https://example.com/three.html",
        "https://example.com/some/path/second.html",
    ]);

    assert_eq!(result, expected);
}

#[test]
fn smoke_count() {
    let result = drive("https://example.com/index.html");
    assert_eq!(result.len(), 5);
    assert!(!result.contains("https://example.com/redirect.html"));
    assert!(!result.contains("https://example.com/missing.html"));
}
