//! The agent's view of the scheduler server's HTTP interface.
//!
//! The transport itself runs outside this crate; what is verified here is
//! everything the agent decides about it: the request URLs, and how a
//! response (or its absence) is turned into a go/no-go answer for a
//! status update.

use vstd::prelude::*;
use crate::fetch::parse_update_result;
use crate::fetch::parse_update_result_spec;

verus! {

/// What the agent sees of a completed HTTP exchange: the response status
/// code and the response body as text. A transport failure is represented
/// by the absence of a response.
pub struct HttpResponse {
    pub status: u16,
    pub body: String,
}

/// The 2xx range.
pub open spec fn is_success_status(code: u16) -> bool {
    200 <= code <= 299
}

/// The URL that lists due executions.
pub open spec fn exec_list_url_spec(server: Seq<char>) -> Seq<char> {
    server + "/api/v1/execs"@
}

/// Build the URL that lists due executions.
pub fn exec_list_url(server: &str) -> (r: String)
    ensures
        r@ == exec_list_url_spec(server@),
{
    let mut r: String = server.to_owned();
    r.append("/api/v1/execs");
    r
}

/// The URL that accepts a status update for one execution.
pub open spec fn exec_status_url_spec(server: Seq<char>, exec_id: Seq<char>) -> Seq<char> {
    server + "/api/v1/execs/"@ + exec_id
}

/// Build the URL that accepts a status update for one execution.
pub fn exec_status_url(server: &str, exec_id: &str) -> (r: String)
    ensures
        r@ == exec_status_url_spec(server@, exec_id@),
{
    let mut r: String = server.to_owned();
    r.append("/api/v1/execs/");
    r.append(exec_id);
    proof {
        assert(r@ =~= exec_status_url_spec(server@, exec_id@));
    }
    r
}

/// A status update counts as accepted exactly when a response arrived,
/// its status code is in the 2xx range, and its body is the JSON object
/// `{"result": true}`.
pub open spec fn update_success_spec(response: Option<HttpResponse>) -> bool {
    &&& response is Some
    &&& is_success_status(response->Some_0.status)
    &&& parse_update_result_spec(response->Some_0.body@) == Option::<bool>::Some(true)
}

/// Decide whether a status update was accepted by the server.
///
/// Any transport failure (`None`), any status code outside the 2xx
/// range, and any malformed response body all yield `false`; this
/// function never fails.
pub fn update_success(response: &Option<HttpResponse>) -> (r: bool)
    ensures
        r == update_success_spec(*response),
{
    match response {
        Option::None => false,
        Option::Some(resp) => {
            if 200 <= resp.status && resp.status <= 299 {
                match parse_update_result(resp.body.as_str()) {
                    Option::Some(v) => v,
                    Option::None => false,
                }
            } else {
                false
            }
        },
    }
}

} // verus!
