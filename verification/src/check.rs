//! Checks every link of a book and gathers the broken ones.
//!
//! The library asks nothing of the network itself. For each link,
//! [`fetch_request`] says which address, if any, is to be fetched; the caller
//! fetches it once and hands the answers to [`check_links`], one slot for
//! each link of [`book_links`], in that order. An address that stands in two
//! links is asked for twice, once for each, and each link is judged by its
//! own answer.

use crate::book::{Book, Chapter};
use crate::classify::{classify, kind_of, LinkKind, LinkKindView};
use crate::config::Config;
use crate::links::{collect_links, link_views, links_in, Link, LinkView};
use crate::report::{
    failure_of, failure_views, BrokenLinks, FailureView, LinkFailure, ReasonView,
};
use crate::resolve::{check_link_in_book, resolves};
use crate::validate::{
    external_fault, response_view, validate_external_link, FetchOutcome, OutcomeView,
};
use vstd::prelude::*;
use vstd::utf8::encode_utf8;

verus! {

/// The links of `chapters`, chapter after chapter, each chapter's links in
/// the order of its text.
pub open spec fn links_of(chapters: Seq<Chapter>) -> Seq<LinkView>
    decreases chapters.len(),
{
    if chapters.len() == 0 {
        Seq::<LinkView>::empty()
    } else {
        links_of(chapters.drop_last()) + links_in(chapters.last())
    }
}

/// The address that is to be fetched for a link with the destination `url`:
/// the parsed URL of an external link where `follow` is on, nothing
/// otherwise.
pub open spec fn wanted_fetch(follow: bool, url: Seq<char>) -> Option<Seq<char>> {
    match kind_of(url) {
        LinkKindView::External(address) => if follow {
            Some(address)
        } else {
            None
        },
        LinkKindView::Internal(_) => None,
    }
}

/// What is wrong with `link`, if anything, given the answer to its fetch:
/// an external link is judged by the answer, an internal one by whether it
/// resolves against `chapters`.
pub open spec fn link_fault(
    chapters: Seq<Chapter>,
    follow: bool,
    link: LinkView,
    response: Option<OutcomeView>,
) -> Option<ReasonView> {
    match kind_of(link.url) {
        LinkKindView::External(_) => external_fault(follow, response),
        LinkKindView::Internal(reference) => if resolves(
            chapters,
            link.chapter,
            encode_utf8(reference),
        ) {
            None
        } else {
            Some(ReasonView::NotFound)
        },
    }
}

/// The answer for the link at `index`: the slot at that index, or none
/// where the slots end before it.
pub open spec fn response_at(responses: Seq<Option<OutcomeView>>, index: int) -> Option<
    OutcomeView,
> {
    if 0 <= index < responses.len() {
        responses[index]
    } else {
        None
    }
}

/// The failures of `links`, one for each broken link, in the order of the
/// links.
pub open spec fn failures(
    chapters: Seq<Chapter>,
    follow: bool,
    links: Seq<LinkView>,
    responses: Seq<Option<OutcomeView>>,
) -> Seq<FailureView>
    decreases links.len(),
{
    if links.len() == 0 {
        Seq::<FailureView>::empty()
    } else {
        let earlier = failures(chapters, follow, links.drop_last(), responses);
        let last = links.len() - 1;
        match link_fault(chapters, follow, links[last], response_at(responses, last)) {
            Some(reason) => earlier.push(failure_of(links[last], reason)),
            None => earlier,
        }
    }
}

/// The values of a sequence of answers.
pub open spec fn response_views(responses: Seq<Option<FetchOutcome>>) -> Seq<Option<OutcomeView>> {
    responses.map_values(
        |slot: Option<FetchOutcome>|
            match slot {
                Some(outcome) => Some(outcome@),
                None => None,
            },
    )
}

/// The positions of the broken links among `links`.
pub open spec fn broken_positions(
    chapters: Seq<Chapter>,
    follow: bool,
    links: Seq<LinkView>,
    responses: Seq<Option<OutcomeView>>,
) -> Set<int> {
    Set::new(
        |i: int|
            0 <= i < links.len() && link_fault(
                chapters,
                follow,
                links[i],
                response_at(responses, i),
            ) is Some,
    )
}

/// Every broken link is reported: there are exactly as many failures as
/// there are broken links.
pub proof fn lemma_every_failure_counted(
    chapters: Seq<Chapter>,
    follow: bool,
    links: Seq<LinkView>,
    responses: Seq<Option<OutcomeView>>,
)
    ensures
        broken_positions(chapters, follow, links, responses).finite(),
        failures(chapters, follow, links, responses).len() == broken_positions(
            chapters,
            follow,
            links,
            responses,
        ).len(),
    decreases links.len(),
{
    let all = broken_positions(chapters, follow, links, responses);
    if links.len() == 0 {
        assert(all =~= Set::<int>::empty());
    } else {
        let last = links.len() - 1;
        let earlier = broken_positions(chapters, follow, links.drop_last(), responses);
        lemma_every_failure_counted(chapters, follow, links.drop_last(), responses);
        if link_fault(chapters, follow, links[last], response_at(responses, last)) is Some {
            assert(all =~= earlier.insert(last));
        } else {
            assert(all =~= earlier);
        }
    }
}

/// With `follow` off the answers of the network do not matter: the failures
/// are the same whatever they are, and no failure is one of the network.
pub proof fn lemma_unfollowed_ignores_network(
    chapters: Seq<Chapter>,
    links: Seq<LinkView>,
    first: Seq<Option<OutcomeView>>,
    second: Seq<Option<OutcomeView>>,
)
    ensures
        failures(chapters, false, links, first) == failures(chapters, false, links, second),
        forall|i: int|
            0 <= i < failures(chapters, false, links, first).len() ==> (#[trigger] failures(
                chapters,
                false,
                links,
                first,
            )[i]).reason == ReasonView::NotFound,
    decreases links.len(),
{
    if links.len() > 0 {
        lemma_unfollowed_ignores_network(chapters, links.drop_last(), first, second);
    }
}

/// The address to fetch for `link`, if the network is to be asked about it.
/// With `follow_web_links` off there is never one.
pub fn fetch_request(link: &Link, cfg: &Config) -> (request: Option<String>)
    ensures
        match request {
            Some(address) => wanted_fetch(cfg.follow_web_links, link.url@) == Some(address@),
            None => wanted_fetch(cfg.follow_web_links, link.url@) is None,
        },
{
    if !cfg.follow_web_links {
        return None;
    }
    match classify(link.url.as_str()) {
        LinkKind::External(address) => Some(address),
        LinkKind::Internal(_) => None,
    }
}

/// Checks one link, given the answer to its fetch where one was made.
pub fn check_link(link: &Link, book: &Book, cfg: &Config, response: Option<&FetchOutcome>) -> (verdict:
    Result<(), LinkFailure>)
    requires
        link.wf(),
    ensures
        match verdict {
            Ok(_) => link_fault(
                book.chapters(),
                cfg.follow_web_links,
                link@,
                response_view(response),
            ) is None,
            Err(failure) => link_fault(
                book.chapters(),
                cfg.follow_web_links,
                link@,
                response_view(response),
            ) == Some(failure@.reason) && failure@ == failure_of(link@, failure@.reason),
        },
{
    let found = match classify(link.url.as_str()) {
        LinkKind::External(_) => validate_external_link(cfg, response),
        LinkKind::Internal(_) => check_link_in_book(link, book),
    };
    match found {
        Ok(_) => Ok(()),
        Err(reason) => Err(link.broken(reason)),
    }
}

/// Every link of the book: chapter after chapter in document order, each
/// chapter's links in the order of its text.
pub fn book_links<'a>(book: &'a Book) -> (links: Vec<Link<'a>>)
    ensures
        link_views(links@) == links_of(book.chapters()),
        forall|i: int| 0 <= i < links@.len() ==> (#[trigger] links@[i]).wf(),
{
    let chapters = book.iter();
    let ghost all = book.chapters();
    let mut links: Vec<Link<'a>> = Vec::new();
    let mut i: usize = 0;
    assert(link_views(links@) =~= links_of(all.take(0)));
    while i < chapters.len()
        invariant
            i <= chapters.len(),
            chapters@.map_values(|ch: &Chapter| *ch) == all,
            link_views(links@) == links_of(all.take(i as int)),
            forall|j: int| 0 <= j < links@.len() ==> (#[trigger] links@[j]).wf(),
        decreases chapters.len() - i,
    {
        let ghost earlier = link_views(links@);
        let mut found = collect_links(chapters[i]);
        let ghost added = link_views(found@);
        links.append(&mut found);
        proof {
            assert(all[i as int] == *chapters@[i as int]);
            assert(all.take(i + 1).drop_last() =~= all.take(i as int));
            assert(all.take(i + 1).last() == all[i as int]);
            assert(link_views(links@) =~= earlier + added);
        }
        i = i + 1;
    }
    assert(all.take(chapters.len() as int) =~= all);
    links
}

/// Checks every link of the book. `responses` holds, for each link of
/// [`book_links`] in order, the answer to its fetch where one was made; a
/// missing slot is an empty one.
///
/// No failure stops the run: the result holds one entry for each broken
/// link, in the order in which the links were found, and is `Ok` only where
/// no link is broken.
pub fn check_links(book: &Book, cfg: &Config, responses: &Vec<Option<FetchOutcome>>) -> (outcome:
    Result<(), BrokenLinks>)
    ensures
        match outcome {
            Ok(_) => failures(
                book.chapters(),
                cfg.follow_web_links,
                links_of(book.chapters()),
                response_views(responses@),
            ).len() == 0,
            Err(broken) => broken@.len() > 0 && broken@ == failures(
                book.chapters(),
                cfg.follow_web_links,
                links_of(book.chapters()),
                response_views(responses@),
            ),
        },
{
    let links = book_links(book);
    let ghost all = link_views(links@);
    let ghost answers = response_views(responses@);
    let mut broken: Vec<LinkFailure> = Vec::new();
    let mut i: usize = 0;
    assert(failure_views(broken@) =~= failures(
        book.chapters(),
        cfg.follow_web_links,
        all.take(0),
        answers,
    ));
    while i < links.len()
        invariant
            i <= links.len(),
            all == link_views(links@),
            answers == response_views(responses@),
            forall|j: int| 0 <= j < links@.len() ==> (#[trigger] links@[j]).wf(),
            failure_views(broken@) == failures(
                book.chapters(),
                cfg.follow_web_links,
                all.take(i as int),
                answers,
            ),
        decreases links.len() - i,
    {
        let ghost earlier = failure_views(broken@);
        let response: Option<&FetchOutcome> = if i < responses.len() {
            match &responses[i] {
                Some(outcome) => Some(outcome),
                None => None,
            }
        } else {
            None
        };
        proof {
            assert(response_view(response) == response_at(answers, i as int));
            assert(all.take(i + 1).drop_last() =~= all.take(i as int));
            assert(all.take(i + 1)[i as int] == links@[i as int]@);
        }
        match check_link(&links[i], book, cfg, response) {
            Ok(_) => {},
            Err(failure) => {
                broken.push(failure);
                assert(failure_views(broken@) =~= earlier.push(failure@));
            },
        }
        i = i + 1;
    }
    assert(all.take(links.len() as int) =~= all);
    if broken.len() == 0 {
        Ok(())
    } else {
        Err(BrokenLinks(broken))
    }
}

} // verus!
