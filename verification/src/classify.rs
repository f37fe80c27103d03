//! Tells a web address from a reference into the book.

use vstd::prelude::*;

verus! {

/// What a destination points at.
#[derive(Debug, Clone, PartialEq, Eq)]
pub enum LinkKind {
    /// An absolute URL; the field is the URL as the parser writes it out.
    External(String),
    /// A reference into the book; the field is the destination as written.
    Internal(String),
}

/// The mathematical value of a [`LinkKind`].
pub enum LinkKindView {
    External(Seq<char>),
    Internal(Seq<char>),
}

impl View for LinkKind {
    type V = LinkKindView;

    open spec fn view(&self) -> LinkKindView {
        match self {
            LinkKind::External(url) => LinkKindView::External(url@),
            LinkKind::Internal(reference) => LinkKindView::Internal(reference@),
        }
    }
}

/// What `url::Url::parse` makes of `input`: the URL written out again where
/// it parses as an absolute URL, `None` where it does not.
pub uninterp spec fn parsed_url(input: Seq<char>) -> Option<Seq<char>>;

/// The kind of a destination, given what the URL parser made of it: a
/// destination that parsed is external, any other is internal.
pub open spec fn kind_given(raw: Seq<char>, parsed: Option<Seq<char>>) -> LinkKindView {
    match parsed {
        Some(url) => LinkKindView::External(url),
        None => LinkKindView::Internal(raw),
    }
}

/// The kind of a destination.
pub open spec fn kind_of(raw: Seq<char>) -> LinkKindView {
    kind_given(raw, parsed_url(raw))
}

/// Calls `url::Url::parse`, which reads `input` and nothing else. On success
/// the result is the URL's serialization, on any parse error `None`.
#[verifier::external_body]
fn parse_url(input: &str) -> (parsed: Option<String>)
    ensures
        match parsed {
            Some(url) => parsed_url(input@) == Some(url@),
            None => parsed_url(input@) is None,
        },
{
    match url::Url::parse(input) {
        Ok(url) => Some(String::from(url)),
        Err(_) => None,
    }
}

/// Classifies a destination from what the URL parser made of it.
pub fn classify_parsed(raw: &str, parsed: Option<String>) -> (kind: LinkKind)
    ensures
        kind@ == kind_given(
            raw@,
            match parsed {
                Some(url) => Some(url@),
                None => None,
            },
        ),
{
    match parsed {
        Some(url) => LinkKind::External(url),
        None => LinkKind::Internal(raw.to_owned()),
    }
}

/// Classifies a destination: external where it parses as an absolute URL,
/// internal otherwise. Every string has exactly one kind.
pub fn classify(raw: &str) -> (kind: LinkKind)
    ensures
        kind@ == kind_of(raw@),
{
    let parsed = parse_url(raw);
    classify_parsed(raw, parsed)
}

/// Classifying is a function of the destination alone: the same string has
/// the same kind on every run, and that kind is one of the two.
pub proof fn lemma_classify_deterministic(first: Seq<char>, second: Seq<char>)
    requires
        first == second,
    ensures
        kind_of(first) == kind_of(second),
        kind_of(first) is External <==> !(kind_of(first) is Internal),
        kind_of(first) is Internal ==> kind_of(first) == LinkKindView::Internal(first),
{
}

} // verus!
