//! The forwarder's decisions: which upstream gets the next attempt, what an
//! attempt's outcome leads to, and what the client is answered. Sending the
//! request and waiting for the deadline are the caller's part.

use crate::algo::{pick, pick_at, selected, selected_sometime};
use crate::rpc::{pool_view, Rpc};
use vstd::prelude::*;
use vstd::string::StringExecFns;

verus! {

/// The per-request limits taken from the settings.
#[derive(Debug)]
pub struct RequestParams {
    /// Deadline of one attempt, in milliseconds.
    pub ttl: u128,
    /// How many failed attempts end the request.
    pub max_retries: u32,
}

/// One header of a response.
#[derive(Debug)]
pub struct Header {
    pub name: String,
    pub value: String,
}

/// The answer handed back to the client.
#[derive(Debug)]
pub struct Response {
    pub status: u16,
    pub headers: Vec<Header>,
    pub body: String,
}

pub struct ResponseView {
    pub status: u16,
    pub headers: Seq<(Seq<char>, Seq<char>)>,
    pub body: Seq<char>,
}

impl View for Header {
    type V = (Seq<char>, Seq<char>);

    open spec fn view(&self) -> (Seq<char>, Seq<char>) {
        (self.name@, self.value@)
    }
}

impl View for Response {
    type V = ResponseView;

    open spec fn view(&self) -> ResponseView {
        ResponseView {
            status: self.status,
            headers: self.headers@.map_values(|h: Header| h@),
            body: self.body@,
        }
    }
}

/// What one attempt on an upstream came to.
#[derive(Debug)]
pub enum Attempt {
    /// The upstream answered in time, with whatever status.
    Answered { body: String, status: u16 },
    /// The deadline passed first.
    TimedOut,
    /// The request failed in transport, or the body was not text.
    Failed,
}

/// What the forwarder does first for an attempt.
#[derive(Debug)]
pub enum Dispatch {
    /// Send the request to `rpc`, the copy of the upstream at `position`.
    Send { rpc: Rpc, position: usize },
    /// Answer at once: no upstream is there to take the request.
    Refuse { response: Response },
}

/// What the forwarder does after an attempt.
#[derive(Debug)]
pub enum Verdict {
    /// Answer the client; `position` is the upstream last tried.
    Respond { response: Response, position: Option<usize> },
    /// Select again, with this many failed attempts so far.
    Retry { retries: u32 },
}

/// The answer that carries an upstream's body and status, with the name of
/// the upstream that gave it.
pub open spec fn enveloped(body: Seq<char>, status: u16, name: Seq<char>) -> ResponseView {
    ResponseView {
        status,
        headers: seq![
            ("Content-Type"@, "application/json"@),
            ("Access-Control-Allow-Origin"@, "*"@),
            ("rpc-used"@, name),
        ],
        body,
    }
}

/// The answer given when the active list is empty.
pub open spec fn no_rpc_available_view() -> ResponseView {
    ResponseView { status: 503, headers: Seq::empty(), body: "no RPC available"@ }
}

/// The answer given when the retries are spent.
pub open spec fn timed_out_view() -> ResponseView {
    ResponseView { status: 408, headers: Seq::empty(), body: "timed out"@ }
}

/// The latency booked on an upstream for an attempt that did not answer
/// within `ttl` milliseconds: the deadline in nanoseconds, capped at the
/// largest sample.
pub open spec fn penalty(ttl: u128) -> u64 {
    if ttl * 1_000_000 > u64::MAX {
        u64::MAX
    } else {
        (ttl * 1_000_000) as u64
    }
}

/// Whether a failed attempt, after `retries` earlier ones, ends the request.
pub open spec fn gives_up(retries: u32, max_retries: u32) -> bool {
    retries + 1 >= max_retries
}

/// How many attempts a request gets before it is answered "timed out".
pub open spec fn attempts_allowed(max_retries: u32) -> nat {
    if max_retries == 0 {
        1
    } else {
        max_retries as nat
    }
}

/// The count of failed attempts once `failures` attempts have failed in a
/// row, or `None` where the request was given up by then.
pub open spec fn retries_after(failures: nat, max_retries: u32) -> Option<u32>
    decreases failures,
{
    if failures == 0 {
        Some(0)
    } else {
        match retries_after((failures - 1) as nat, max_retries) {
            Some(retries) => if gives_up(retries, max_retries) {
                None
            } else {
                Some((retries + 1) as u32)
            },
            None => None,
        }
    }
}

/// A request goes on exactly while fewer attempts have failed than it is
/// allowed; without retries the first failure ends it.
pub proof fn lemma_attempts_allowed(failures: nat, max_retries: u32)
    ensures
        retries_after(failures, max_retries) is Some <==> failures < attempts_allowed(max_retries),
        retries_after(failures, max_retries) matches Some(retries) ==> retries == failures,
        retries_after(1, 0) is None,
    decreases failures,
{
    if failures > 0 {
        lemma_attempts_allowed((failures - 1) as nat, max_retries);
    }
    assert(retries_after(1, 0) is None) by {
        assert(retries_after(0, 0) == Some(0u32));
        assert(gives_up(0, 0));
    }
}

/// Builds the answer that carries an upstream's body and status.
pub fn upstream_response(body: String, status: u16, rpc_name: &str) -> (response: Response)
    ensures
        response@ == enveloped(body@, status, rpc_name@),
{
    let mut headers: Vec<Header> = Vec::new();
    headers.push(
        Header {
            name: String::from_str("Content-Type"),
            value: String::from_str("application/json"),
        },
    );
    headers.push(
        Header {
            name: String::from_str("Access-Control-Allow-Origin"),
            value: String::from_str("*"),
        },
    );
    headers.push(Header { name: String::from_str("rpc-used"), value: String::from_str(rpc_name) });
    let response = Response { status, headers, body };
    assert(response@.headers =~= enveloped(body@, status, rpc_name@).headers);
    response
}

/// Builds the answer for an empty active list.
pub fn no_rpc_available() -> (response: Response)
    ensures
        response@ == no_rpc_available_view(),
{
    let response = Response {
        status: 503,
        headers: Vec::new(),
        body: String::from_str("no RPC available"),
    };
    assert(response@.headers =~= Seq::empty());
    response
}

/// Builds the answer for a request whose retries are spent.
pub fn timed_out() -> (response: Response)
    ensures
        response@ == timed_out_view(),
{
    let response = Response {
        status: 408,
        headers: Vec::new(),
        body: String::from_str("timed out"),
    };
    assert(response@.headers =~= Seq::empty());
    response
}

/// Starts an attempt at time `now`: selects an upstream from the active
/// list and hands out its copy, or refuses with 503 where the list is empty.
pub fn dispatch_at(list: &mut [Rpc], now: u128) -> (dispatch: Dispatch)
    ensures
        final(list).len() == old(list).len(),
        match dispatch {
            Dispatch::Send { rpc, position } => selected(
                pool_view(old(list)@),
                now,
                pool_view(final(list)@),
                rpc@,
                Some(position),
            ),
            Dispatch::Refuse { response } => {
                &&& old(list).len() == 0
                &&& response@ == no_rpc_available_view()
                &&& pool_view(final(list)@) == pool_view(old(list)@)
            },
        },
{
    let (rpc, index) = pick_at(list, now);
    match index {
        Some(position) => Dispatch::Send { rpc, position },
        None => Dispatch::Refuse { response: no_rpc_available() },
    }
}

/// Starts an attempt at the current time. See `dispatch_at`; the time is
/// whatever the clock gives.
pub fn dispatch(list: &mut [Rpc]) -> (dispatch: Dispatch)
    ensures
        final(list).len() == old(list).len(),
        match dispatch {
            Dispatch::Send { rpc, position } => selected_sometime(
                pool_view(old(list)@),
                pool_view(final(list)@),
                rpc@,
                Some(position),
            ),
            Dispatch::Refuse { response } => {
                &&& old(list).len() == 0
                &&& response@ == no_rpc_available_view()
                &&& pool_view(final(list)@) == pool_view(old(list)@)
            },
        },
{
    let (rpc, index) = pick(list);
    match index {
        Some(position) => Dispatch::Send { rpc, position },
        None => Dispatch::Refuse { response: no_rpc_available() },
    }
}

/// Decides what follows an attempt on `rpc`, the copy of the upstream at
/// `position`, after `retries` failed attempts.
///
/// An answer of any status goes to the client as it is. A timeout or a
/// transport failure books the deadline on the copy as a latency sample and
/// counts as one more failed attempt; the request is retried unless that
/// attempt was its last.
pub fn settle(
    rpc: &mut Rpc,
    position: usize,
    outcome: Attempt,
    retries: u32,
    params: &RequestParams,
) -> (verdict: Verdict)
    ensures
        match outcome {
            Attempt::Answered { body, status } => {
                &&& final(rpc)@ == old(rpc)@
                &&& verdict matches Verdict::Respond { response, position: served }
                &&& response@ == enveloped(body@, status, old(rpc)@.name)
                &&& served == Some(position)
            },
            _ => {
                &&& final(rpc)@ == old(rpc)@.record(penalty(params.ttl))
                &&& if gives_up(retries, params.max_retries) {
                    &&& verdict matches Verdict::Respond { response, position: served }
                    &&& response@ == timed_out_view()
                    &&& served == Some(position)
                } else {
                    verdict == (Verdict::Retry { retries: (retries + 1) as u32 })
                }
            },
        },
{
    match outcome {
        Attempt::Answered { body, status } => Verdict::Respond {
            response: upstream_response(body, status, rpc.name.as_str()),
            position: Some(position),
        },
        _ => {
            let sample: u64 = if params.ttl > (u64::MAX / 1_000_000) as u128 {
                u64::MAX
            } else {
                (params.ttl * 1_000_000) as u64
            };
            rpc.update_latency(sample);
            let spent: u64 = retries as u64 + 1;
            if spent >= params.max_retries as u64 {
                Verdict::Respond { response: timed_out(), position: Some(position) }
            } else {
                Verdict::Retry { retries: spent as u32 }
            }
        },
    }
}

} // verus!
