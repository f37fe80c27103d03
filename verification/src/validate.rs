//! Judges what the network answered for a web address.

use crate::config::Config;
use crate::report::{FailureReason, ReasonView, UnsuccessfulStatus};
use vstd::prelude::*;
use vstd::string::StringExecFns;

verus! {

/// What one fetch of a web address came to.
#[derive(Debug, Clone, PartialEq, Eq)]
pub enum FetchOutcome {
    /// The server answered with this status code.
    Status(u16),
    /// No answer came; the field describes the network error.
    Failed(String),
}

/// The mathematical value of a [`FetchOutcome`].
pub enum OutcomeView {
    Status(u16),
    Failed(Seq<char>),
}

impl View for FetchOutcome {
    type V = OutcomeView;

    open spec fn view(&self) -> OutcomeView {
        match self {
            FetchOutcome::Status(code) => OutcomeView::Status(*code),
            FetchOutcome::Failed(description) => OutcomeView::Failed(description@),
        }
    }
}

/// The value of an answer that may be missing.
pub open spec fn response_view(response: Option<&FetchOutcome>) -> Option<OutcomeView> {
    match response {
        Some(outcome) => Some(outcome@),
        None => None,
    }
}

/// The successful statuses: 200 to 299.
pub open spec fn is_success(status: u16) -> bool {
    200 <= status <= 299
}

/// What is wrong with a web address, if anything, given the answer to its
/// one fetch.
///
/// With `follow` off nothing is wrong, whatever the answer. With it on, a
/// successful status is fine, any other status is reported with its code, a
/// network error is reported with its description, and a missing answer is
/// reported as a network error.
pub open spec fn external_fault(follow: bool, response: Option<OutcomeView>) -> Option<
    ReasonView,
> {
    if !follow {
        None
    } else {
        match response {
            Some(OutcomeView::Status(status)) => if is_success(status) {
                None
            } else {
                Some(ReasonView::Status(status))
            },
            Some(OutcomeView::Failed(description)) => Some(ReasonView::Network(description)),
            None => Some(ReasonView::Network("no response"@)),
        }
    }
}

/// Whether `status` is a success.
pub fn status_is_success(status: u16) -> (success: bool)
    ensures
        success == is_success(status),
{
    200 <= status && status <= 299
}

/// Validates a web address from the answer to its fetch.
pub fn validate_external_link(cfg: &Config, response: Option<&FetchOutcome>) -> (verdict: Result<
    (),
    FailureReason,
>)
    ensures
        match verdict {
            Ok(_) => external_fault(cfg.follow_web_links, response_view(response)) is None,
            Err(reason) => external_fault(cfg.follow_web_links, response_view(response)) == Some(
                reason@,
            ),
        },
{
    if !cfg.follow_web_links {
        return Ok(());
    }
    match response {
        Some(FetchOutcome::Status(status)) => {
            if status_is_success(*status) {
                Ok(())
            } else {
                Err(FailureReason::Status(UnsuccessfulStatus(*status)))
            }
        },
        Some(FetchOutcome::Failed(description)) => Err(
            FailureReason::Network(description.clone()),
        ),
        None => Err(FailureReason::Network(String::from_str("no response"))),
    }
}

/// With `follow_web_links` off a web address is valid whatever the network
/// would answer.
pub proof fn lemma_unfollowed_is_valid(response: Option<OutcomeView>)
    ensures
        external_fault(false, response) is None,
{
}

} // verus!
