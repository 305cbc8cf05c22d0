//! The poll cycle's decision.
//!
//! On a fixed interval the surrounding process fetches the due-executions
//! endpoint and hands whatever came back — or a transport failure — to
//! [`poll_decision`], which decides between dispatching the decoded
//! executions and failing the cycle. A fetch failure is fatal to the agent
//! in the minimal contract, so the caller treats [`PollDecision::Fail`] as
//! a reason to stop; dispatching never waits for the lifecycles it starts,
//! so a slow execution cannot delay the next tick.

use vstd::prelude::*;
use crate::api::HttpResponse;
use crate::api::is_success_status;
use crate::fetch::models_of;
use crate::fetch::parse_executions;
use crate::fetch::parse_executions_spec;
use crate::lifecycle::Execution;

verus! {

/// Seconds between two poll ticks.
pub const POLL_INTERVAL_SECS: u64 = 10;

/// Why a poll cycle failed.
#[derive(PartialEq, Eq, Structural, Debug)]
pub enum FetchError {
    /// The request never completed.
    Transport,
    /// The server answered outside the 2xx range; the code is kept for
    /// the log line.
    Http(u16),
    /// The response body was not a well-formed due-executions array.
    Undecodable,
}

/// What one poll cycle does next.
pub enum PollDecision {
    /// Run one lifecycle per execution, in this order.
    Dispatch(Vec<Execution>),
    /// The cycle failed; the minimal contract stops the agent here.
    Fail(FetchError),
}

/// The decision prescribed for each fetch outcome.
pub open spec fn poll_decision_spec(response: Option<HttpResponse>, d: PollDecision) -> bool {
    match response {
        Option::None => d == PollDecision::Fail(FetchError::Transport),
        Option::Some(resp) => {
            if !is_success_status(resp.status) {
                d == PollDecision::Fail(FetchError::Http(resp.status))
            } else {
                match parse_executions_spec(resp.body@) {
                    Option::Some(models) => d matches PollDecision::Dispatch(v) && models_of(v@)
                        == models,
                    Option::None => d == PollDecision::Fail(FetchError::Undecodable),
                }
            }
        },
    }
}

/// Turn one fetch outcome into the cycle's decision: dispatch the decoded
/// executions of a 2xx response, and fail the cycle on a transport error,
/// a non-2xx response, or a body outside the wire contract.
pub fn poll_decision(response: Option<HttpResponse>) -> (d: PollDecision)
    ensures
        poll_decision_spec(response, d),
{
    match response {
        Option::None => PollDecision::Fail(FetchError::Transport),
        Option::Some(resp) => {
            if !(200 <= resp.status && resp.status <= 299) {
                PollDecision::Fail(FetchError::Http(resp.status))
            } else {
                match parse_executions(resp.body.as_str()) {
                    Option::Some(v) => PollDecision::Dispatch(v),
                    Option::None => PollDecision::Fail(FetchError::Undecodable),
                }
            }
        },
    }
}

} // verus!
