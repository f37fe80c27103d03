use mdbook_linkcheck::anchors::{anchors, has_anchor, make_slug, HeadingScan};
use mdbook_linkcheck::markup::MarkupEvent;
use mdbook_linkcheck::paths::{locate, resolve_target, same_bytes, same_place, split_bytes, walk_from};
use mdbook_linkcheck::resolve::{find_path_end, reference_resolves};
use mdbook_linkcheck::{check_link_in_book, Book, Chapter, FailureReason, Link};

fn names(parts: &[&str]) -> Vec<Vec<u8>> {
    parts.iter().map(|part| part.as_bytes().to_vec()).collect()
}

fn sample_book() -> Book {
    let deep = Chapter::new(
        "Deep",
        "# Deep Dive\n\nBack to [intro](../intro.md).\n".to_string(),
        "guide/advanced/deep.md",
    );
    let intro = Chapter {
        name: String::from("Intro"),
        content: "# Getting Started\n\n## Step 1: Install `tools`\n\nSee [deep](advanced/deep.html).\n"
            .to_string(),
        path: String::from("guide/intro.md"),
        sub_items: vec![deep],
    };
    let index = Chapter::new("Index", "# Welcome\n".to_string(), "index.md");
    let listing = Chapter::new("Listing", "Nothing here.".to_string(), "appendix/index.md");
    Book::new(vec![index, intro, listing])
}

#[test]
fn split_cuts_at_every_separator() {
    assert_eq!(split_bytes(b"a/b/c", b'/'), names(&["a", "b", "c"]));
    assert_eq!(split_bytes(b"", b'/'), names(&[""]));
    assert_eq!(split_bytes(b"/", b'/'), names(&["", ""]));
    assert_eq!(split_bytes(b"/a//b/", b'/'), names(&["", "a", "", "b", ""]));
    assert_eq!(split_bytes(b"abc", b'/'), names(&["abc"]));
}

#[test]
fn walk_follows_dots_and_names() {
    assert_eq!(walk_from(names(&["a"]), &names(&["b", ".", "", "c"])), Some(names(&["a", "b", "c"])));
    assert_eq!(walk_from(names(&["a", "b"]), &names(&["..", "c"])), Some(names(&["a", "c"])));
    assert_eq!(walk_from(names(&["a"]), &names(&["..", ".."])), None);
    assert_eq!(walk_from(names(&[]), &names(&["..", "a", "b"])), None);
    assert_eq!(walk_from(names(&["a"]), &names(&["..."])), Some(names(&["a", "..."])));
    assert_eq!(walk_from(names(&["a"]), &names(&[])), Some(names(&["a"])));
}

#[test]
fn locate_names_the_source() {
    assert_eq!(locate(b"index.md"), Some(names(&["index.md"])));
    assert_eq!(locate(b"./guide//intro.html"), Some(names(&["guide", "intro.md"])));
    assert_eq!(locate(b"a/../b.md"), Some(names(&["b.md"])));
    assert_eq!(locate(b"../b.md"), None);
    assert_eq!(locate(b""), Some(names(&[])));
    assert_eq!(locate(b".html"), Some(names(&[".md"])));
    assert_eq!(locate(b"x.htm"), Some(names(&["x.htm"])));
    assert_eq!(locate(b"x.HTML"), Some(names(&["x.HTML"])));
}

#[test]
fn targets_are_resolved_from_the_chapter() {
    let from = b"guide/intro.md";
    assert_eq!(resolve_target(from, b""), Some(names(&["guide", "intro.md"])));
    assert_eq!(resolve_target(from, b"other.html"), Some(names(&["guide", "other.md"])));
    assert_eq!(resolve_target(from, b"./other.md"), Some(names(&["guide", "other.md"])));
    assert_eq!(resolve_target(from, b"../index.html"), Some(names(&["index.md"])));
    assert_eq!(resolve_target(from, b"../../index.html"), None);
    assert_eq!(resolve_target(from, b"/index.html"), Some(names(&["index.md"])));
    assert_eq!(resolve_target(from, b"/"), Some(names(&["index.md"])));
    assert_eq!(resolve_target(from, b"advanced/"), Some(names(&["guide", "advanced", "index.md"])));
    assert_eq!(resolve_target(from, b"advanced/deep.md"), Some(names(&["guide", "advanced", "deep.md"])));
    assert_eq!(resolve_target(b"index.md", b"guide/intro.md"), Some(names(&["guide", "intro.md"])));
    assert_eq!(resolve_target(b"../outside.md", b"x.md"), None);
    assert_eq!(resolve_target(b"../outside.md", b"/x.md"), Some(names(&["x.md"])));
}

#[test]
fn bytes_and_places_compare_exactly() {
    assert!(same_bytes(b"abc", b"abc"));
    assert!(same_bytes(b"", b""));
    assert!(!same_bytes(b"abc", b"abd"));
    assert!(!same_bytes(b"abc", b"ab"));
    assert!(!same_bytes(b"abc", b"ABC"));
    assert!(same_place(&names(&["a", "b"]), &names(&["a", "b"])));
    assert!(!same_place(&names(&["a", "b"]), &names(&["a"])));
    assert!(!same_place(&names(&["a", "b"]), &names(&["a", "c"])));
    assert!(same_place(&names(&[]), &names(&[])));
}

#[test]
fn slugs_are_made_byte_by_byte() {
    assert_eq!(make_slug(b"Hello World"), b"hello-world".to_vec());
    assert_eq!(make_slug(b"Step 1: Install tools"), b"step-1-install-tools".to_vec());
    assert_eq!(make_slug(b"snake_case-and-dash"), b"snake_case-and-dash".to_vec());
    assert_eq!(make_slug(b"What?! (really)"), b"what-really".to_vec());
    assert_eq!(make_slug(b"tab\there"), b"tab-here".to_vec());
    assert_eq!(make_slug("Caf\u{e9} Au Lait".as_bytes()), "caf\u{e9}-au-lait".as_bytes().to_vec());
    assert_eq!(make_slug(b""), Vec::<u8>::new());
    assert_eq!(make_slug(b"AZaz09"), b"azaz09".to_vec());
    assert_eq!(make_slug(b"@[`{"), Vec::<u8>::new());
}

#[test]
fn heading_scan_joins_the_text_of_a_heading() {
    let mut scan = HeadingScan::new();
    scan.advance(&MarkupEvent::Text(String::from("before")));
    scan.advance(&MarkupEvent::HeadingEnd);
    scan.advance(&MarkupEvent::HeadingStart);
    scan.advance(&MarkupEvent::Text(String::from("Two ")));
    scan.advance(&MarkupEvent::Other);
    scan.advance(&MarkupEvent::LinkStart(String::from("x.md")));
    scan.advance(&MarkupEvent::Text(String::from("Parts")));
    scan.advance(&MarkupEvent::HeadingEnd);
    scan.advance(&MarkupEvent::Text(String::from("between")));
    scan.advance(&MarkupEvent::HeadingStart);
    scan.advance(&MarkupEvent::Text(String::from("dropped")));
    scan.advance(&MarkupEvent::HeadingStart);
    scan.advance(&MarkupEvent::Text(String::from("Kept")));
    scan.advance(&MarkupEvent::HeadingEnd);
    scan.advance(&MarkupEvent::HeadingStart);
    scan.advance(&MarkupEvent::Text(String::from("Never closed")));
    assert_eq!(scan.finish(), names(&["two-parts", "kept"]));
}

#[test]
fn anchors_come_from_the_headings() {
    let book = sample_book();
    let chapters = book.iter();
    assert_eq!(anchors(chapters[0]), names(&["welcome"]));
    assert_eq!(anchors(chapters[1]), names(&["getting-started", "step-1-install-tools"]));
    assert_eq!(anchors(chapters[3]), names(&[]));
    let empty = Chapter::new("Empty", String::new(), "empty.md");
    assert_eq!(anchors(&empty), names(&[]));
    assert!(has_anchor(&names(&["a", "b"]), b"b"));
    assert!(!has_anchor(&names(&["a", "b"]), b"c"));
    assert!(!has_anchor(&names(&[]), b""));
}

#[test]
fn book_is_walked_in_document_order() {
    let book = sample_book();
    let paths: Vec<&str> = book.iter().iter().map(|ch| ch.path.as_str()).collect();
    assert_eq!(
        paths,
        vec!["index.md", "guide/intro.md", "guide/advanced/deep.md", "appendix/index.md"]
    );
    assert!(Book::new(Vec::new()).iter().is_empty());
}

#[test]
fn path_ends_at_the_first_hash() {
    assert_eq!(find_path_end(b"a.md#b#c"), 4);
    assert_eq!(find_path_end(b"#b"), 0);
    assert_eq!(find_path_end(b"a.md"), 4);
    assert_eq!(find_path_end(b""), 0);
    assert_eq!(find_path_end(b"a.md#"), 4);
}

#[test]
fn references_resolve_against_the_book() {
    let book = sample_book();
    let chapters = book.iter();
    let intro = chapters[1];
    let deep = chapters[2];
    let index = chapters[0];
    for reference in [
        "", "#", "#getting-started", "#step-1-install-tools", "intro.md", "intro.html",
        "./intro.md#getting-started", "advanced/deep.md", "advanced/deep.html#deep-dive",
        "../index.md", "../index.html#welcome", "/index.md", "/", "/guide/intro.md",
        "../appendix/", "/appendix/index.html", "advanced/../intro.md", "../guide/intro.md#",
    ] {
        assert!(reference_resolves(&book, intro, reference.as_bytes()), "{:?}", reference);
    }
    for reference in [
        "#missing", "#Getting-Started", "missing.md", "Intro.md", "intro.MD", "intro",
        "advanced/deep.md#welcome", "../../index.md", "index.md", "/intro.md", "advanced/",
        "advanced", "../appendix", "intro.md/", "intro.md#getting started", "guide/intro.md",
    ] {
        assert!(!reference_resolves(&book, intro, reference.as_bytes()), "{:?}", reference);
    }
    assert!(reference_resolves(&book, deep, b"../intro.md"));
    assert!(reference_resolves(&book, deep, b"../../index.md#welcome"));
    assert!(!reference_resolves(&book, deep, b"intro.md"));
    assert!(reference_resolves(&book, index, b"guide/intro.md#getting-started"));
    assert!(reference_resolves(&book, index, b"guide/advanced/deep.md"));
    assert!(reference_resolves(&book, index, b"appendix/"));
    assert!(!reference_resolves(&book, index, b"guide/"));
}

#[test]
fn chapter_without_a_file_answers_nothing() {
    let draft = Chapter::new("Draft", String::new(), "");
    let real = Chapter::new("Real", "text".to_string(), "real.md");
    let book = Book::new(vec![draft, real]);
    let chapters = book.iter();
    assert!(!reference_resolves(&book, chapters[1], b"."));
    assert!(!reference_resolves(&book, chapters[1], b"./#"));
    assert!(!reference_resolves(&book, chapters[0], b""));
    assert!(reference_resolves(&book, chapters[0], b"real.md"));
    assert!(reference_resolves(&book, chapters[1], b""));
}

#[test]
fn unresolved_reference_is_reported_as_not_found() {
    let book = sample_book();
    let chapters = book.iter();
    let missing = Link { url: String::from("nowhere.md"), offset: 0, chapter: chapters[0] };
    let present = Link { url: String::from("guide/intro.html"), offset: 0, chapter: chapters[0] };
    assert_eq!(check_link_in_book(&missing, &book), Err(FailureReason::NotFound));
    assert_eq!(check_link_in_book(&present, &book), Ok(()));
}
