//! The links and images of a chapter, each with its place in the text.

use crate::book::Chapter;
use crate::lines::{line_number, line_of};
use crate::markup::{
    markup_events, next_event, open_parser, parser_offset, pending_events, MarkupEvent,
    MarkupToken,
};
use vstd::prelude::*;
use vstd::string::StringSliceAdditionalSpecFns;
use vstd::utf8::encode_utf8;

verus! {

/// A destination found in a chapter.
#[derive(Debug, Clone, PartialEq)]
pub struct Link<'a> {
    /// The destination as it is written in the text.
    pub url: String,
    /// The byte position in the chapter's content at which it was found.
    pub offset: usize,
    /// The chapter that holds it.
    pub chapter: &'a Chapter,
}

/// The mathematical value of a [`Link`].
pub struct LinkView {
    pub url: Seq<char>,
    pub offset: nat,
    pub chapter: Chapter,
}

impl<'a> View for Link<'a> {
    type V = LinkView;

    open spec fn view(&self) -> LinkView {
        LinkView { url: self.url@, offset: self.offset as nat, chapter: *self.chapter }
    }
}

impl LinkView {
    /// The offset lies within the chapter's content.
    pub open spec fn wf(self) -> bool {
        self.offset <= encode_utf8(self.chapter.content@).len()
    }

    /// The 1-based line of the chapter on which the link stands.
    pub open spec fn line(self) -> nat {
        line_of(encode_utf8(self.chapter.content@), self.offset as int)
    }
}

/// The values of a sequence of links.
pub open spec fn link_views(links: Seq<Link>) -> Seq<LinkView> {
    links.map_values(|link: Link| link@)
}

/// The link that an event stands for, if it opens a link or an image. An
/// offset beyond the content is taken back to the content's end.
pub open spec fn link_of(token: MarkupToken, offset: int, chapter: Chapter) -> Option<LinkView> {
    let limit = encode_utf8(chapter.content@).len();
    let within = if offset <= limit {
        offset as nat
    } else {
        limit
    };
    match token {
        MarkupToken::LinkStart(dest) => Some(LinkView { url: dest, offset: within, chapter }),
        MarkupToken::ImageStart(dest) => Some(LinkView { url: dest, offset: within, chapter }),
        _ => None,
    }
}

/// The links among `events`, in the order of the events.
pub open spec fn links_among(events: Seq<(MarkupToken, int)>, chapter: Chapter) -> Seq<LinkView>
    decreases events.len(),
{
    if events.len() == 0 {
        Seq::<LinkView>::empty()
    } else {
        let earlier = links_among(events.drop_last(), chapter);
        match link_of(events.last().0, events.last().1, chapter) {
            Some(link) => earlier.push(link),
            None => earlier,
        }
    }
}

/// The links of a chapter, in the order in which its text holds them. A
/// chapter without content has none.
pub open spec fn links_in(chapter: Chapter) -> Seq<LinkView> {
    if chapter.content@.len() == 0 {
        Seq::<LinkView>::empty()
    } else {
        links_among(markup_events(chapter.content@), chapter)
    }
}

/// The positions among `events` of those that open a link or an image.
pub open spec fn link_positions(events: Seq<(MarkupToken, int)>, chapter: Chapter) -> Seq<int>
    decreases events.len(),
{
    if events.len() == 0 {
        Seq::<int>::empty()
    } else {
        let earlier = link_positions(events.drop_last(), chapter);
        if link_of(events.last().0, events.last().1, chapter) is Some {
            earlier.push(events.len() - 1)
        } else {
            earlier
        }
    }
}

/// The links come in the order of the events: each link stands for one
/// event, and a later link stands for a later event.
pub proof fn lemma_links_keep_event_order(events: Seq<(MarkupToken, int)>, chapter: Chapter)
    ensures
        link_positions(events, chapter).len() == links_among(events, chapter).len(),
        forall|a: int|
            0 <= a < link_positions(events, chapter).len() ==> {
                let at = #[trigger] link_positions(events, chapter)[a];
                0 <= at < events.len() && link_of(events[at].0, events[at].1, chapter) == Some(
                    links_among(events, chapter)[a],
                )
            },
        forall|a: int, b: int|
            0 <= a < b < link_positions(events, chapter).len() ==> link_positions(
                events,
                chapter,
            )[a] < link_positions(events, chapter)[b],
    decreases events.len(),
{
    if events.len() > 0 {
        lemma_links_keep_event_order(events.drop_last(), chapter);
    }
}

/// Where the offsets of the events increase strictly and lie within the
/// content, the offsets of the links increase strictly.
pub proof fn lemma_links_keep_offset_order(events: Seq<(MarkupToken, int)>, chapter: Chapter)
    requires
        forall|i: int, j: int| 0 <= i < j < events.len() ==> events[i].1 < events[j].1,
        forall|i: int|
            0 <= i < events.len() ==> 0 <= (#[trigger] events[i]).1 <= encode_utf8(
                chapter.content@,
            ).len(),
    ensures
        forall|a: int, b: int|
            0 <= a < b < links_among(events, chapter).len() ==> links_among(
                events,
                chapter,
            )[a].offset < links_among(events, chapter)[b].offset,
{
    lemma_links_keep_event_order(events, chapter);
    let links = links_among(events, chapter);
    let positions = link_positions(events, chapter);
    assert forall|a: int, b: int| 0 <= a < b < links.len() implies links[a].offset
        < links[b].offset by {
        let first = positions[a];
        let second = positions[b];
        assert(first < second);
        assert(link_of(events[first].0, events[first].1, chapter) == Some(links[a]));
        assert(link_of(events[second].0, events[second].1, chapter) == Some(links[b]));
        assert(events[first].1 < events[second].1);
    }
}

impl<'a> Link<'a> {
    /// The offset lies within the chapter's content.
    pub open spec fn wf(&self) -> bool {
        self@.wf()
    }

    /// The 1-based number of the line on which the link stands.
    ///
    /// A line number that does not fit the machine word is reported as the
    /// largest one that does.
    pub fn line_number(&self) -> (line: usize)
        requires
            self.wf(),
        ensures
            self@.line() <= usize::MAX ==> line == self@.line(),
            self@.line() > usize::MAX ==> line == usize::MAX,
    {
        line_number(self.chapter.content.as_str(), self.offset)
    }
}

/// The link that `event` stands for, found at `offset` of `chapter`.
pub fn link_from_event<'a>(event: MarkupEvent, offset: usize, chapter: &'a Chapter) -> (link:
    Option<Link<'a>>)
    ensures
        match link {
            Some(found) => link_of(event@, offset as int, *chapter) == Some(found@) && found.wf()
                && found.chapter == chapter,
            None => link_of(event@, offset as int, *chapter) is None,
        },
{
    let limit: usize = chapter.content.as_str().as_bytes().len();
    let within: usize = if offset <= limit {
        offset
    } else {
        limit
    };
    match event {
        MarkupEvent::LinkStart(dest) => Some(Link { url: dest, offset: within, chapter }),
        MarkupEvent::ImageStart(dest) => Some(Link { url: dest, offset: within, chapter }),
        _ => None,
    }
}

/// Finds all the links and images of a chapter, in the order of the text.
pub fn collect_links<'a>(chapter: &'a Chapter) -> (links: Vec<Link<'a>>)
    ensures
        link_views(links@) == links_in(*chapter),
        forall|i: int| 0 <= i < links@.len() ==> (#[trigger] links@[i]).wf() && links@[i].chapter == chapter,
{
    let mut links: Vec<Link<'a>> = Vec::new();
    let content = chapter.content.as_str();
    if content.is_empty() {
        assert(link_views(links@) =~= links_in(*chapter));
        return links;
    }
    let ghost events = markup_events(chapter.content@);
    let ghost seen: int = 0;
    let mut parser = open_parser(content);
    assert(link_views(links@) =~= links_among(events.take(0), *chapter));
    loop
        invariant_except_break
            0 <= seen <= events.len(),
            pending_events(parser) == events.skip(seen),
            link_views(links@) == links_among(events.take(seen), *chapter),
        invariant
            events == markup_events(chapter.content@),
            chapter.content@.len() != 0,
            forall|i: int| 0 <= i < links@.len() ==> (#[trigger] links@[i]).wf() && links@[i].chapter == chapter,
        ensures
            link_views(links@) == links_among(events, *chapter),
        decreases pending_events(parser).len(),
    {
        let ghost before = link_views(links@);
        match next_event(&mut parser) {
            None => {
                assert(events.take(seen) =~= events);
                break ;
            },
            Some(event) => {
                let offset: usize = parser_offset(&parser);
                proof {
                    assert(events.skip(seen)[0] == events[seen]);
                    assert(events.skip(seen).skip(1) =~= events.skip(seen + 1));
                    assert(events.take(seen + 1).drop_last() =~= events.take(seen));
                    assert(events.take(seen + 1).last() == events[seen]);
                }
                match link_from_event(event, offset, chapter) {
                    Some(link) => {
                        links.push(link);
                        assert(link_views(links@) =~= before.push(link@));
                    },
                    None => {},
                }
                proof {
                    seen = seen + 1;
                }
            },
        }
    }
    links
}

} // verus!
