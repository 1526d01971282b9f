use trident::forward::{
    dispatch, dispatch_at, no_rpc_available, settle, timed_out, upstream_response, Attempt,
    Dispatch, RequestParams, Response, Verdict,
};
use trident::processing::update_rpc_latency;
use trident::rpc::Rpc;

fn upstream(url: &str, latency: u64, max_consecutive: u32) -> Rpc {
    let mut rpc = Rpc::new(url.to_string(), None, max_consecutive, 0, 15);
    rpc.update_latency(latency);
    rpc
}

fn header<'a>(response: &'a Response, name: &str) -> Option<&'a str> {
    response
        .headers
        .iter()
        .find(|h| h.name == name)
        .map(|h| h.value.as_str())
}

/// Runs one request against upstreams that answer as `answer` says, the way
/// the serving loop drives the forwarder. Gives the response, the position
/// served, the copies that were penalized and the number of attempts.
fn run(
    active: &mut Vec<Rpc>,
    params: &RequestParams,
    answer: &dyn Fn(&Rpc) -> Attempt,
) -> (Response, Option<usize>, Vec<Rpc>, u32) {
    let mut retries = 0;
    let mut attempts = 0;
    let mut penalized = Vec::new();
    let mut now = 1_000u128;
    loop {
        now += 1;
        match dispatch_at(active, now) {
            Dispatch::Refuse { response } => return (response, None, penalized, attempts),
            Dispatch::Send { mut rpc, position } => {
                attempts += 1;
                let outcome = answer(&rpc);
                let failed = !matches!(outcome, Attempt::Answered { .. });
                match settle(&mut rpc, position, outcome, retries, params) {
                    Verdict::Respond { response, position } => {
                        if failed {
                            penalized.push(rpc);
                        }
                        return (response, position, penalized, attempts);
                    }
                    Verdict::Retry { retries: spent } => {
                        penalized.push(rpc);
                        retries = spent;
                    }
                }
            }
        }
    }
}

#[test]
fn two_upstreams_one_timing_out() {
    let mut active = vec![
        upstream("http://a.example", 10, 1),
        upstream("http://b.example", 100, 1),
    ];
    let params = RequestParams { ttl: 100, max_retries: 2 };
    let (response, position, penalized, attempts) = run(&mut active, &params, &|rpc| {
        if rpc.url == "http://a.example" {
            Attempt::TimedOut
        } else {
            Attempt::Answered { body: "{\"ok\":1}".to_string(), status: 200 }
        }
    });
    assert_eq!(attempts, 2);
    assert_eq!(response.status, 200);
    assert_eq!(response.body, "{\"ok\":1}");
    assert_eq!(header(&response, "rpc-used"), Some(active[1].name.as_str()));
    assert_eq!(position, Some(1));
    // The deadline is booked on the copy that timed out, not on the pool.
    assert_eq!(penalized.len(), 1);
    assert_eq!(penalized[0].url, "http://a.example");
    assert_eq!(penalized[0].status.latency_data, vec![10, 100_000_000]);
    assert_eq!(active[0].status.latency_data, vec![10]);
    // The accountant then books the request's time on the upstream served.
    update_rpc_latency(&mut active, position.unwrap(), 5_000_000);
    assert_eq!(active[1].status.latency_data, vec![100, 5_000_000]);
}

#[test]
fn upstream_error_status_is_returned_verbatim() {
    let mut active = vec![upstream("http://a.example", 10, 3)];
    let params = RequestParams { ttl: 50, max_retries: 3 };
    let (response, position, penalized, attempts) = run(&mut active, &params, &|_| {
        Attempt::Answered { body: "upstream broke".to_string(), status: 500 }
    });
    assert_eq!(attempts, 1);
    assert_eq!(response.status, 500);
    assert_eq!(response.body, "upstream broke");
    assert_eq!(header(&response, "rpc-used"), Some(active[0].name.as_str()));
    assert_eq!(position, Some(0));
    assert!(penalized.is_empty());
}

#[test]
fn empty_pool_is_refused() {
    let mut active: Vec<Rpc> = Vec::new();
    let params = RequestParams { ttl: 50, max_retries: 3 };
    let (response, position, _, attempts) =
        run(&mut active, &params, &|_| Attempt::TimedOut);
    assert_eq!(attempts, 0);
    assert_eq!(response.status, 503);
    assert_eq!(response.body, "no RPC available");
    assert_eq!(header(&response, "rpc-used"), None);
    assert_eq!(position, None);
    assert!(matches!(dispatch(&mut active), Dispatch::Refuse { .. }));
}

#[test]
fn zero_retries_permit_exactly_one_attempt() {
    let mut active = vec![
        upstream("http://a.example", 10, 5),
        upstream("http://b.example", 100, 5),
    ];
    let params = RequestParams { ttl: 50, max_retries: 0 };
    let (response, position, _, attempts) = run(&mut active, &params, &|_| Attempt::Failed);
    assert_eq!(attempts, 1);
    assert_eq!(response.status, 408);
    assert_eq!(response.body, "timed out");
    assert_eq!(position, Some(0));
}

#[test]
fn retries_end_with_timed_out() {
    let mut active = vec![
        upstream("http://a.example", 10, 1),
        upstream("http://b.example", 100, 1),
    ];
    let params = RequestParams { ttl: 50, max_retries: 3 };
    let (response, position, penalized, attempts) =
        run(&mut active, &params, &|_| Attempt::TimedOut);
    assert_eq!(attempts, 3);
    assert_eq!(response.status, 408);
    assert_eq!(response.body, "timed out");
    assert!(response.headers.is_empty());
    // Picks went A, B, A; the last upstream tried is reported.
    assert_eq!(position, Some(0));
    assert_eq!(penalized.len(), 3);
    assert_eq!(penalized[1].url, "http://b.example");
}

#[test]
fn settle_counts_failed_attempts() {
    let params = RequestParams { ttl: 300, max_retries: 32 };
    let mut rpc = upstream("http://a.example", 10, 1);
    match settle(&mut rpc, 4, Attempt::Failed, 0, &params) {
        Verdict::Retry { retries } => assert_eq!(retries, 1),
        Verdict::Respond { .. } => panic!("gave up too early"),
    }
    assert_eq!(rpc.status.latency_data, vec![10, 300_000_000]);
    match settle(&mut rpc, 4, Attempt::TimedOut, 30, &params) {
        Verdict::Retry { retries } => assert_eq!(retries, 31),
        Verdict::Respond { .. } => panic!("gave up too early"),
    }
    match settle(&mut rpc, 4, Attempt::TimedOut, 31, &params) {
        Verdict::Respond { response, position } => {
            assert_eq!(response.status, 408);
            assert_eq!(position, Some(4));
        }
        Verdict::Retry { .. } => panic!("retried beyond the limit"),
    }
    match settle(&mut rpc, 4, Attempt::TimedOut, u32::MAX, &params) {
        Verdict::Respond { response, .. } => assert_eq!(response.status, 408),
        Verdict::Retry { .. } => panic!("retried beyond the limit"),
    }
}

#[test]
fn penalty_is_capped_at_the_largest_sample() {
    let mut rpc = upstream("http://a.example", 10, 1);
    let params = RequestParams { ttl: u128::MAX, max_retries: 5 };
    settle(&mut rpc, 0, Attempt::TimedOut, 0, &params);
    assert_eq!(rpc.status.latency_data, vec![10, u64::MAX]);
    let edge = RequestParams { ttl: 18_446_744_073_709, max_retries: 5 };
    settle(&mut rpc, 0, Attempt::TimedOut, 0, &edge);
    assert_eq!(rpc.status.latency_data[2], 18_446_744_073_709_000_000);
    let over = RequestParams { ttl: 18_446_744_073_710, max_retries: 5 };
    settle(&mut rpc, 0, Attempt::TimedOut, 0, &over);
    assert_eq!(rpc.status.latency_data[3], u64::MAX);
}

#[test]
fn answered_attempt_leaves_the_copy_alone() {
    let mut rpc = upstream("http://a.example", 10, 1);
    let params = RequestParams { ttl: 300, max_retries: 1 };
    let outcome = Attempt::Answered { body: "{}".to_string(), status: 204 };
    match settle(&mut rpc, 2, outcome, 0, &params) {
        Verdict::Respond { response, position } => {
            assert_eq!(response.status, 204);
            assert_eq!(response.body, "{}");
            assert_eq!(position, Some(2));
        }
        Verdict::Retry { .. } => panic!("an answer is never retried"),
    }
    assert_eq!(rpc.status.latency_data, vec![10]);
}

#[test]
fn envelope_carries_the_three_headers() {
    let response = upstream_response("{\"a\":1}".to_string(), 200, "http://a.example/");
    assert_eq!(response.status, 200);
    assert_eq!(response.body, "{\"a\":1}");
    assert_eq!(response.headers.len(), 3);
    assert_eq!(response.headers[0].name, "Content-Type");
    assert_eq!(response.headers[0].value, "application/json");
    assert_eq!(response.headers[1].name, "Access-Control-Allow-Origin");
    assert_eq!(response.headers[1].value, "*");
    assert_eq!(response.headers[2].name, "rpc-used");
    assert_eq!(response.headers[2].value, "http://a.example/");
}

#[test]
fn synthesized_responses() {
    let refused = no_rpc_available();
    assert_eq!(refused.status, 503);
    assert_eq!(refused.body, "no RPC available");
    assert!(refused.headers.is_empty());
    let late = timed_out();
    assert_eq!(late.status, 408);
    assert_eq!(late.body, "timed out");
    assert!(late.headers.is_empty());
}

#[test]
fn dispatch_hands_out_the_selected_copy() {
    let mut active = vec![
        upstream("http://a.example", 10, 2),
        upstream("http://b.example", 100, 2),
    ];
    match dispatch_at(&mut active, 50) {
        Dispatch::Send { rpc, position } => {
            assert_eq!(position, 0);
            assert_eq!(rpc.url, "http://a.example");
            assert_eq!(rpc.consecutive, 1);
            assert_eq!(rpc.last_used, 50);
        }
        Dispatch::Refuse { .. } => panic!("the pool is not empty"),
    }
    match dispatch(&mut active) {
        Dispatch::Send { position, .. } => assert_eq!(position, 0),
        Dispatch::Refuse { .. } => panic!("the pool is not empty"),
    }
}
