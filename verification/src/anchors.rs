//! The anchors of a chapter: one for each heading, made from its text.
//!
//! The text of a heading is what its text events hold, one after the other.
//! Its anchor is that text byte by byte: ASCII letters in lower case, digits,
//! `_`, `-` and bytes outside ASCII as they are, a space, tab or line break
//! as `-`, and nothing for any other byte. Two headings with the same text
//! have the same anchor.

use crate::book::Chapter;
use crate::markup::{
    markup_events, next_event, open_parser, pending_events, MarkupEvent, MarkupToken,
};
use crate::paths::{names, same_bytes, Place};
use vstd::prelude::*;
use vstd::string::StringSliceAdditionalSpecFns;
use vstd::utf8::encode_utf8;

verus! {

/// The byte that stands in an anchor for `byte` of a heading, if any does.
pub open spec fn slug_byte(byte: u8) -> Option<u8> {
    if 65 <= byte <= 90 {
        Some((byte + 32) as u8)
    } else if 97 <= byte <= 122 || 48 <= byte <= 57 || byte == 95 || byte == 45 || byte >= 128 {
        Some(byte)
    } else if byte == 32 || byte == 9 || byte == 10 || byte == 13 {
        Some(45u8)
    } else {
        None
    }
}

/// The anchor of a heading with the text `text`.
pub open spec fn slug(text: Seq<u8>) -> Seq<u8>
    decreases text.len(),
{
    if text.len() == 0 {
        Seq::<u8>::empty()
    } else {
        let earlier = slug(text.drop_last());
        match slug_byte(text.last()) {
            Some(byte) => earlier.push(byte),
            None => earlier,
        }
    }
}

/// Where a scan for headings stands: the text of the heading that is open,
/// if one is, and the anchors of the headings that are closed.
pub struct Headings {
    pub open: Option<Seq<u8>>,
    pub done: Place,
}

/// The state before any event.
pub open spec fn no_headings() -> Headings {
    Headings { open: None, done: Seq::<Seq<u8>>::empty() }
}

/// The state after one more event.
pub open spec fn heading_step(state: Headings, token: MarkupToken) -> Headings {
    match token {
        MarkupToken::HeadingStart => Headings { open: Some(Seq::<u8>::empty()), done: state.done },
        MarkupToken::Text(text) => match state.open {
            Some(so_far) => Headings { open: Some(so_far + encode_utf8(text)), done: state.done },
            None => state,
        },
        MarkupToken::HeadingEnd => match state.open {
            Some(text) => Headings { open: None, done: state.done.push(slug(text)) },
            None => state,
        },
        _ => state,
    }
}

/// The state after `events`.
pub open spec fn headings_after(events: Seq<(MarkupToken, int)>) -> Headings
    decreases events.len(),
{
    if events.len() == 0 {
        no_headings()
    } else {
        heading_step(headings_after(events.drop_last()), events.last().0)
    }
}

/// The anchors of a text, in the order of its headings. A text without
/// content has none.
pub open spec fn anchors_in(content: Seq<char>) -> Place {
    if content.len() == 0 {
        Seq::<Seq<u8>>::empty()
    } else {
        headings_after(markup_events(content)).done
    }
}

/// Appends `bytes` to `out`.
fn append_bytes(out: &mut Vec<u8>, bytes: &[u8])
    ensures
        final(out)@ == old(out)@ + bytes@,
{
    let ghost start = out@;
    let mut i: usize = 0;
    while i < bytes.len()
        invariant
            i <= bytes.len(),
            out@ == start + bytes@.take(i as int),
        decreases bytes.len() - i,
    {
        out.push(bytes[i]);
        assert(out@ =~= start + bytes@.take(i + 1));
        i = i + 1;
    }
    assert(bytes@.take(bytes.len() as int) =~= bytes@);
}

/// The anchor of a heading with the text `text`.
pub fn make_slug(text: &[u8]) -> (anchor: Vec<u8>)
    ensures
        anchor@ == slug(text@),
{
    let mut anchor: Vec<u8> = Vec::new();
    let mut i: usize = 0;
    assert(text@.take(0) =~= Seq::<u8>::empty());
    while i < text.len()
        invariant
            i <= text.len(),
            anchor@ == slug(text@.take(i as int)),
        decreases text.len() - i,
    {
        let byte: u8 = text[i];
        proof {
            assert(text@.take(i + 1).drop_last() =~= text@.take(i as int));
            assert(text@.take(i + 1).last() == byte);
        }
        if 65 <= byte && byte <= 90 {
            anchor.push(byte + 32);
        } else if (97 <= byte && byte <= 122) || (48 <= byte && byte <= 57) || byte == 95 || byte
            == 45 || byte >= 128 {
            anchor.push(byte);
        } else if byte == 32 || byte == 9 || byte == 10 || byte == 13 {
            anchor.push(45);
        }
        i = i + 1;
    }
    assert(text@.take(text.len() as int) =~= text@);
    anchor
}

/// A scan for the headings of a token stream.
pub struct HeadingScan {
    in_heading: bool,
    text: Vec<u8>,
    done: Vec<Vec<u8>>,
}

impl View for HeadingScan {
    type V = Headings;

    closed spec fn view(&self) -> Headings {
        Headings {
            open: if self.in_heading {
                Some(self.text@)
            } else {
                None
            },
            done: names(self.done@),
        }
    }
}

impl HeadingScan {
    /// A scan that has seen no event.
    pub fn new() -> (scan: HeadingScan)
        ensures
            scan@ == no_headings(),
    {
        let scan = HeadingScan { in_heading: false, text: Vec::new(), done: Vec::new() };
        assert(names(scan.done@) =~= Seq::<Seq<u8>>::empty());
        scan
    }

    /// Takes one more event into account.
    pub fn advance(&mut self, event: &MarkupEvent)
        ensures
            final(self)@ == heading_step(old(self)@, event@),
    {
        match event {
            MarkupEvent::HeadingStart => {
                self.in_heading = true;
                self.text = Vec::new();
            },
            MarkupEvent::Text(text) => {
                if self.in_heading {
                    append_bytes(&mut self.text, text.as_str().as_bytes());
                }
            },
            MarkupEvent::HeadingEnd => {
                if self.in_heading {
                    let ghost earlier = names(self.done@);
                    let anchor = make_slug(self.text.as_slice());
                    self.done.push(anchor);
                    self.in_heading = false;
                    assert(names(self.done@) =~= earlier.push(anchor@));
                }
            },
            _ => {},
        }
    }

    /// The anchors of the headings that were closed, in order.
    pub fn finish(self) -> (anchors: Vec<Vec<u8>>)
        ensures
            names(anchors@) == self@.done,
    {
        self.done
    }
}

/// The anchors of a chapter, in the order of its headings.
pub fn anchors(chapter: &Chapter) -> (found: Vec<Vec<u8>>)
    ensures
        names(found@) == anchors_in(chapter.content@),
{
    let mut scan = HeadingScan::new();
    let content = chapter.content.as_str();
    if content.is_empty() {
        return scan.finish();
    }
    let ghost events = markup_events(chapter.content@);
    let ghost seen: int = 0;
    let mut parser = open_parser(content);
    assert(events.take(0) =~= Seq::<(MarkupToken, int)>::empty());
    loop
        invariant_except_break
            0 <= seen <= events.len(),
            pending_events(parser) == events.skip(seen),
            scan@ == headings_after(events.take(seen)),
        invariant
            events == markup_events(chapter.content@),
            chapter.content@.len() != 0,
        ensures
            scan@ == headings_after(events),
        decreases pending_events(parser).len(),
    {
        match next_event(&mut parser) {
            None => {
                assert(events.take(seen) =~= events);
                break ;
            },
            Some(event) => {
                proof {
                    assert(events.skip(seen)[0] == events[seen]);
                    assert(events.skip(seen).skip(1) =~= events.skip(seen + 1));
                    assert(events.take(seen + 1).drop_last() =~= events.take(seen));
                    assert(events.take(seen + 1).last() == events[seen]);
                }
                scan.advance(&event);
                proof {
                    seen = seen + 1;
                }
            },
        }
    }
    scan.finish()
}

/// Whether `fragment` is one of `anchors`.
pub fn has_anchor(anchors: &Vec<Vec<u8>>, fragment: &[u8]) -> (found: bool)
    ensures
        found == names(anchors@).contains(fragment@),
{
    let mut i: usize = 0;
    while i < anchors.len()
        invariant
            i <= anchors.len(),
            forall|j: int| 0 <= j < i ==> names(anchors@)[j] != fragment@,
        decreases anchors.len() - i,
    {
        if same_bytes(anchors[i].as_slice(), fragment) {
            assert(names(anchors@)[i as int] == fragment@);
            return true;
        }
        i = i + 1;
    }
    false
}

} // verus!
