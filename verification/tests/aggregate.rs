use mdbook_linkcheck::text::append_decimal;
use mdbook_linkcheck::{
    book_links, check_link, check_links, fetch_request, Book, BrokenLinks, Chapter, Config,
    FailureReason, FetchOutcome, LinkFailure, UnsuccessfulStatus,
};

const FOLLOW: Config = Config { follow_web_links: true };
const OFFLINE: Config = Config { follow_web_links: false };

fn sample_book() -> Book {
    let first = Chapter::new(
        "First",
        "[ok](second.md)\n[gone](missing.md)\n\n[web](https://example.com/page)\n".to_string(),
        "first.md",
    );
    let quiet = Chapter::new("Quiet", "No links at all.\n".to_string(), "quiet.md");
    let second = Chapter::new(
        "Second",
        "# Top\n\n![img](https://example.com/cat.png) [up](#top) [bad](#bottom)\n".to_string(),
        "second.md",
    );
    Book::new(vec![first, quiet, second])
}

fn failure(url: &str, path: &str, line: usize, reason: FailureReason) -> LinkFailure {
    LinkFailure { url: String::from(url), chapter_path: String::from(path), line, reason }
}

#[test]
fn all_links_of_the_book_are_gathered_in_order() {
    let book = sample_book();
    let links = book_links(&book);
    let urls: Vec<&str> = links.iter().map(|link| link.url.as_str()).collect();
    assert_eq!(
        urls,
        vec![
            "second.md",
            "missing.md",
            "https://example.com/page",
            "https://example.com/cat.png",
            "#top",
            "#bottom"
        ]
    );
    let paths: Vec<&str> = links.iter().map(|link| link.chapter.path.as_str()).collect();
    assert_eq!(
        paths,
        vec!["first.md", "first.md", "first.md", "second.md", "second.md", "second.md"]
    );
}

#[test]
fn only_followed_web_links_are_to_be_fetched() {
    let book = sample_book();
    let links = book_links(&book);
    let wanted: Vec<Option<String>> =
        links.iter().map(|link| fetch_request(link, &FOLLOW)).collect();
    assert_eq!(
        wanted,
        vec![
            None,
            None,
            Some(String::from("https://example.com/page")),
            Some(String::from("https://example.com/cat.png")),
            None,
            None
        ]
    );
    for link in &links {
        assert_eq!(fetch_request(link, &OFFLINE), None);
    }
}

#[test]
fn every_broken_link_is_reported() {
    let book = sample_book();
    let responses = vec![
        None,
        None,
        Some(FetchOutcome::Status(404)),
        Some(FetchOutcome::Failed(String::from("dns failure"))),
        None,
        None,
    ];
    let expected = BrokenLinks(vec![
        failure("missing.md", "first.md", 2, FailureReason::NotFound),
        failure(
            "https://example.com/page",
            "first.md",
            4,
            FailureReason::Status(UnsuccessfulStatus(404)),
        ),
        failure(
            "https://example.com/cat.png",
            "second.md",
            3,
            FailureReason::Network(String::from("dns failure")),
        ),
        failure("#bottom", "second.md", 3, FailureReason::NotFound),
    ]);
    assert_eq!(check_links(&book, &FOLLOW, &responses), Err(expected));
}

#[test]
fn failure_count_is_the_number_of_broken_links() {
    let book = sample_book();
    let links = book_links(&book);
    let answers = [
        FetchOutcome::Status(200),
        FetchOutcome::Status(500),
        FetchOutcome::Failed(String::from("timeout")),
    ];
    for first in &answers {
        for second in &answers {
            let responses = vec![None, None, Some(first.clone()), Some(second.clone()), None, None];
            let broken = links
                .iter()
                .zip(responses.iter())
                .filter(|(link, response)| {
                    check_link(link, &book, &FOLLOW, response.as_ref()).is_err()
                })
                .count();
            let reported = match check_links(&book, &FOLLOW, &responses) {
                Ok(()) => 0,
                Err(BrokenLinks(failures)) => failures.len(),
            };
            assert_eq!(reported, broken);
            assert!(broken >= 2);
        }
    }
}

#[test]
fn missing_chapter_does_not_stop_the_run() {
    let ch = Chapter::new(
        "Only",
        "[a](nowhere.md) then [b](only.md) then [c](also-nowhere.md)".to_string(),
        "only.md",
    );
    let book = Book::new(vec![ch]);
    let expected = BrokenLinks(vec![
        failure("nowhere.md", "only.md", 1, FailureReason::NotFound),
        failure("also-nowhere.md", "only.md", 1, FailureReason::NotFound),
    ]);
    assert_eq!(check_links(&book, &OFFLINE, &Vec::new()), Err(expected));
}

#[test]
fn not_found_status_fails_only_when_followed() {
    let ch = Chapter::new("Web", "[gone](https://example.com/gone)".to_string(), "web.md");
    let book = Book::new(vec![ch]);
    let responses = vec![Some(FetchOutcome::Status(404))];
    let expected = BrokenLinks(vec![failure(
        "https://example.com/gone",
        "web.md",
        1,
        FailureReason::Status(UnsuccessfulStatus(404)),
    )]);
    assert_eq!(check_links(&book, &FOLLOW, &responses), Err(expected));
    assert_eq!(check_links(&book, &OFFLINE, &responses), Ok(()));
    assert_eq!(check_links(&book, &OFFLINE, &Vec::new()), Ok(()));
}

#[test]
fn followed_link_without_an_answer_is_broken() {
    let ch = Chapter::new("Web", "[site](https://example.com/)".to_string(), "web.md");
    let book = Book::new(vec![ch]);
    let expected = BrokenLinks(vec![failure(
        "https://example.com/",
        "web.md",
        1,
        FailureReason::Network(String::from("no response")),
    )]);
    assert_eq!(check_links(&book, &FOLLOW, &Vec::new()), Err(expected.clone()));
    assert_eq!(check_links(&book, &FOLLOW, &vec![None]), Err(expected));
    assert_eq!(check_links(&book, &FOLLOW, &vec![Some(FetchOutcome::Status(200))]), Ok(()));
}

#[test]
fn chapter_without_links_adds_nothing() {
    let quiet = Chapter::new("Quiet", "No links at all.\n".to_string(), "quiet.md");
    let empty = Chapter::new("Empty", String::new(), "empty.md");
    let book = Book::new(vec![quiet, empty]);
    assert!(book_links(&book).is_empty());
    assert_eq!(check_links(&book, &FOLLOW, &Vec::new()), Ok(()));
    assert_eq!(check_links(&Book::new(Vec::new()), &FOLLOW, &Vec::new()), Ok(()));
}

#[test]
fn offline_answers_do_not_matter() {
    let book = sample_book();
    let quiet = check_links(&book, &OFFLINE, &Vec::new());
    let loud = check_links(
        &book,
        &OFFLINE,
        &vec![
            Some(FetchOutcome::Status(500)),
            Some(FetchOutcome::Failed(String::from("x"))),
            Some(FetchOutcome::Status(404)),
            Some(FetchOutcome::Status(404)),
            Some(FetchOutcome::Status(404)),
            Some(FetchOutcome::Status(404)),
        ],
    );
    assert_eq!(quiet, loud);
    let expected = BrokenLinks(vec![
        failure("missing.md", "first.md", 2, FailureReason::NotFound),
        failure("#bottom", "second.md", 3, FailureReason::NotFound),
    ]);
    assert_eq!(quiet, Err(expected));
}

#[test]
fn failures_render_as_messages() {
    assert_eq!(
        failure("missing.md", "first.md", 2, FailureReason::NotFound).render(),
        "\"missing.md\" in first.md#2: reference not found"
    );
    assert_eq!(
        failure("https://a.b/", "x/y.md", 120, FailureReason::Status(UnsuccessfulStatus(404)))
            .render(),
        "\"https://a.b/\" in x/y.md#120: 404"
    );
    assert_eq!(
        failure("https://a.b/", "y.md", 7, FailureReason::Network(String::from("timed out")))
            .render(),
        "\"https://a.b/\" in y.md#7: timed out"
    );
    assert_eq!(FailureReason::NotFound.render(), "reference not found");
    assert_eq!(FailureReason::Status(UnsuccessfulStatus(0)).render(), "0");
}

#[test]
fn numbers_are_written_in_decimal() {
    for n in [0usize, 1, 9, 10, 11, 99, 100, 101, 12345, 1000000, usize::MAX] {
        let mut out = String::from("n=");
        append_decimal(&mut out, n);
        assert_eq!(out, format!("n={}", n));
    }
}

#[test]
fn repeated_address_is_asked_for_and_judged_per_link() {
    let ch = Chapter::new(
        "Twice",
        "[one](https://example.com/)\n[two](https://example.com/)\n".to_string(),
        "twice.md",
    );
    let book = Book::new(vec![ch]);
    let links = book_links(&book);
    let wanted: Vec<Option<String>> =
        links.iter().map(|link| fetch_request(link, &FOLLOW)).collect();
    assert_eq!(
        wanted,
        vec![Some(String::from("https://example.com/")), Some(String::from("https://example.com/"))]
    );
    let responses = vec![Some(FetchOutcome::Status(200)), Some(FetchOutcome::Status(503))];
    let expected = BrokenLinks(vec![failure(
        "https://example.com/",
        "twice.md",
        2,
        FailureReason::Status(UnsuccessfulStatus(503)),
    )]);
    assert_eq!(check_links(&book, &FOLLOW, &responses), Err(expected));
}
