//! What is reported of a broken link.

use crate::links::{Link, LinkView};
use crate::text::{append_decimal, decimal};
use vstd::prelude::*;
use vstd::string::StringExecFns;

verus! {

/// A status that the network answered with and that is no success.
#[derive(Debug, Clone, Copy, PartialEq, Eq, Structural)]
pub struct UnsuccessfulStatus(pub u16);

/// Why a link is broken.
#[derive(Debug, Clone, PartialEq, Eq)]
pub enum FailureReason {
    /// The reference points at no chapter or anchor of the book.
    NotFound,
    /// The address was fetched and answered with this status.
    Status(UnsuccessfulStatus),
    /// The address could not be fetched; the field says why.
    Network(String),
}

/// The mathematical value of a [`FailureReason`].
pub enum ReasonView {
    NotFound,
    Status(u16),
    Network(Seq<char>),
}

impl View for FailureReason {
    type V = ReasonView;

    open spec fn view(&self) -> ReasonView {
        match self {
            FailureReason::NotFound => ReasonView::NotFound,
            FailureReason::Status(status) => ReasonView::Status(status.0),
            FailureReason::Network(description) => ReasonView::Network(description@),
        }
    }
}

/// One broken link.
#[derive(Debug, Clone, PartialEq, Eq)]
pub struct LinkFailure {
    /// The destination as it is written in the text.
    pub url: String,
    /// The path of the chapter that holds the link.
    pub chapter_path: String,
    /// The 1-based line of the chapter on which the link stands.
    pub line: usize,
    /// What is wrong with it.
    pub reason: FailureReason,
}

/// The mathematical value of a [`LinkFailure`].
pub struct FailureView {
    pub url: Seq<char>,
    pub chapter_path: Seq<char>,
    pub line: nat,
    pub reason: ReasonView,
}

impl View for LinkFailure {
    type V = FailureView;

    open spec fn view(&self) -> FailureView {
        FailureView {
            url: self.url@,
            chapter_path: self.chapter_path@,
            line: self.line as nat,
            reason: self.reason@,
        }
    }
}

/// The broken links of a run, in the order in which the links were found.
#[derive(Debug, Clone, PartialEq, Eq)]
pub struct BrokenLinks(pub Vec<LinkFailure>);

/// The values of a sequence of failures.
pub open spec fn failure_views(failures: Seq<LinkFailure>) -> Seq<FailureView> {
    failures.map_values(|failure: LinkFailure| failure@)
}

impl View for BrokenLinks {
    type V = Seq<FailureView>;

    open spec fn view(&self) -> Seq<FailureView> {
        failure_views(self.0@)
    }
}

/// The line that is reported for a link: its line, or the largest machine
/// word where the line does not fit one.
pub open spec fn reported_line(link: LinkView) -> nat {
    if link.line() <= usize::MAX {
        link.line()
    } else {
        usize::MAX as nat
    }
}

/// The failure that is reported for `link` when it is broken for `reason`.
pub open spec fn failure_of(link: LinkView, reason: ReasonView) -> FailureView {
    FailureView {
        url: link.url,
        chapter_path: link.chapter.path@,
        line: reported_line(link),
        reason,
    }
}

/// Where a link stands, as text: the destination in quotes, the chapter's
/// path and the line.
pub open spec fn place_text(url: Seq<char>, chapter_path: Seq<char>, line: nat) -> Seq<char> {
    "\""@ + url + "\" in "@ + chapter_path + "#"@ + decimal(line)
}

/// A reason as text.
pub open spec fn reason_text(reason: ReasonView) -> Seq<char> {
    match reason {
        ReasonView::NotFound => "reference not found"@,
        ReasonView::Status(status) => decimal(status as nat),
        ReasonView::Network(description) => description,
    }
}

impl FailureView {
    /// The message for this failure: the place, a colon and the reason.
    pub open spec fn message(self) -> Seq<char> {
        place_text(self.url, self.chapter_path, self.line) + ": "@ + reason_text(self.reason)
    }
}

/// Appends the place of a link to `out`.
fn append_place(out: &mut String, url: &str, chapter_path: &str, line: usize)
    ensures
        final(out)@ == old(out)@ + place_text(url@, chapter_path@, line as nat),
{
    let ghost start = out@;
    out.append("\"");
    out.append(url);
    out.append("\" in ");
    out.append(chapter_path);
    out.append("#");
    append_decimal(out, line);
    assert(out@ =~= start + place_text(url@, chapter_path@, line as nat));
}

impl<'a> Link<'a> {
    /// The failure to report when this link is broken for `reason`.
    pub fn broken(&self, reason: FailureReason) -> (failure: LinkFailure)
        requires
            self.wf(),
        ensures
            failure@ == failure_of(self@, reason@),
    {
        LinkFailure {
            url: self.url.clone(),
            chapter_path: self.chapter.path.clone(),
            line: self.line_number(),
            reason,
        }
    }

    /// The link as text: `"<url>" in <chapter-path>#<line-number>`.
    pub fn render(&self) -> (text: String)
        requires
            self.wf(),
        ensures
            text@ == place_text(self.url@, self.chapter.path@, reported_line(self@)),
    {
        let mut text = String::new();
        append_place(&mut text, self.url.as_str(), self.chapter.path.as_str(), self.line_number());
        assert(text@ =~= place_text(self.url@, self.chapter.path@, reported_line(self@)));
        text
    }
}

impl FailureReason {
    /// The reason as text: `reference not found`, the status code in
    /// decimal, or the description of the network error.
    pub fn render(&self) -> (text: String)
        ensures
            text@ == reason_text(self@),
    {
        match self {
            FailureReason::NotFound => String::from_str("reference not found"),
            FailureReason::Status(status) => {
                let mut text = String::new();
                append_decimal(&mut text, status.0 as usize);
                assert(text@ =~= decimal(status.0 as nat));
                text
            },
            FailureReason::Network(description) => description.clone(),
        }
    }
}

impl LinkFailure {
    /// The message for this failure:
    /// `"<url>" in <chapter-path>#<line-number>: <reason>`.
    pub fn render(&self) -> (text: String)
        ensures
            text@ == self@.message(),
    {
        let mut text = String::new();
        append_place(&mut text, self.url.as_str(), self.chapter_path.as_str(), self.line);
        text.append(": ");
        let reason = self.reason.render();
        text.append(reason.as_str());
        assert(text@ =~= self@.message());
        text
    }
}

} // verus!
