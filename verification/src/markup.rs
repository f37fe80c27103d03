//! The structural events of a marked-up text, as `pulldown_cmark` reads them.

use pulldown_cmark::{Event, Parser, Tag};
use vstd::prelude::*;

verus! {

/// What the library reads of one event of the token stream.
#[derive(Debug, Clone, PartialEq, Eq)]
pub enum MarkupEvent {
    /// A link starts; the field is its destination.
    LinkStart(String),
    /// An image starts; the field is its destination.
    ImageStart(String),
    /// A heading starts.
    HeadingStart,
    /// A heading ends.
    HeadingEnd,
    /// A run of text.
    Text(String),
    /// Any other event.
    Other,
}

/// The mathematical value of a [`MarkupEvent`].
pub enum MarkupToken {
    LinkStart(Seq<char>),
    ImageStart(Seq<char>),
    HeadingStart,
    HeadingEnd,
    Text(Seq<char>),
    Other,
}

impl View for MarkupEvent {
    type V = MarkupToken;

    open spec fn view(&self) -> MarkupToken {
        match self {
            MarkupEvent::LinkStart(dest) => MarkupToken::LinkStart(dest@),
            MarkupEvent::ImageStart(dest) => MarkupToken::ImageStart(dest@),
            MarkupEvent::HeadingStart => MarkupToken::HeadingStart,
            MarkupEvent::HeadingEnd => MarkupToken::HeadingEnd,
            MarkupEvent::Text(text) => MarkupToken::Text(text@),
            MarkupEvent::Other => MarkupToken::Other,
        }
    }
}

/// `pulldown_cmark::Parser`, the pull parser that the events come from.
#[verifier::external_type_specification]
#[verifier::external_body]
pub struct ExParser<'a>(Parser<'a>);

/// The events that a parser made for `text` yields from first to last, each
/// with the byte offset that the parser reports once it has yielded it.
pub uninterp spec fn markup_events(text: Seq<char>) -> Seq<(MarkupToken, int)>;

/// The events that `parser` has yet to yield, each with the byte offset that
/// it reports once it has yielded it.
pub uninterp spec fn pending_events(parser: Parser) -> Seq<(MarkupToken, int)>;

/// The byte offset that `parser` reports now.
pub uninterp spec fn reported_offset(parser: Parser) -> int;

/// Calls `pulldown_cmark::Parser::new`. The parser reads `text` and nothing
/// else, so what it will yield is what any parser made for the same text
/// yields.
#[verifier::external_body]
pub(crate) fn open_parser<'a>(text: &'a str) -> (parser: Parser<'a>)
    ensures
        pending_events(parser) == markup_events(text@),
{
    Parser::new(text)
}

/// Calls `next` of `pulldown_cmark::Parser`. It hands out the first event that
/// was pending and leaves the rest; it returns `None` when nothing was
/// pending. After an event the parser reports that event's offset. Of an
/// event only what [`MarkupEvent`] holds is kept.
#[verifier::external_body]
pub(crate) fn next_event(parser: &mut Parser) -> (event: Option<MarkupEvent>)
    ensures
        event matches Some(e) ==> pending_events(*old(parser)).len() > 0 && e@ == pending_events(
            *old(parser),
        )[0].0 && pending_events(*final(parser)) == pending_events(*old(parser)).skip(1)
            && reported_offset(*final(parser)) == pending_events(*old(parser))[0].1,
        event is None ==> pending_events(*old(parser)).len() == 0,
{
    match parser.next() {
        None => None,
        Some(Event::Start(Tag::Link(dest, _))) => Some(MarkupEvent::LinkStart(dest.into_owned())),
        Some(Event::Start(Tag::Image(dest, _))) => Some(MarkupEvent::ImageStart(dest.into_owned())),
        Some(Event::Start(Tag::Header(_))) => Some(MarkupEvent::HeadingStart),
        Some(Event::End(Tag::Header(_))) => Some(MarkupEvent::HeadingEnd),
        Some(Event::Text(text)) => Some(MarkupEvent::Text(text.into_owned())),
        Some(_) => Some(MarkupEvent::Other),
    }
}

/// Calls `pulldown_cmark::Parser::get_offset`: the parser's current position
/// in the text.
#[verifier::external_body]
pub(crate) fn parser_offset(parser: &Parser) -> (offset: usize)
    ensures
        offset == reported_offset(*parser),
{
    parser.get_offset()
}

} // verus!
