use trident::error::{ConfigError, RpcError};
use trident::rpc::Rpc;
use trident::setup::{
    set_starting_latency, sort_by_latency, StartingLatencyResp, SyncProbe, Warmup, WarmupStep,
};

fn upstream(url: &str, ma_length: u64) -> Rpc {
    Rpc::new(url.to_string(), None, 1, 0, ma_length)
}

fn measured(url: &str, latency: u64) -> StartingLatencyResp {
    let mut rpc = upstream(url, 15);
    rpc.update_latency(latency);
    StartingLatencyResp::Measured(rpc)
}

fn failed(url: &str) -> StartingLatencyResp {
    StartingLatencyResp::Error(upstream(url, 15), ConfigError::Syncing)
}

fn urls(list: &Vec<Rpc>) -> Vec<String> {
    list.iter().map(|r| r.url.clone()).collect()
}

fn probing(step: WarmupStep) -> Warmup {
    match step {
        WarmupStep::Probe(warmup) => warmup,
        WarmupStep::Done(outcome) => panic!("measurement ended early with {:?}", outcome),
    }
}

#[test]
fn measurement_takes_as_many_probes_as_the_window_is_long() {
    let mut warmup = probing(set_starting_latency(upstream("http://a.example", 3), 3));
    assert_eq!(warmup.wanted, 3);
    assert!(warmup.samples.is_empty());
    warmup = probing(warmup.record(SyncProbe::Synced { nanos: 100 }));
    assert_eq!(warmup.samples, vec![100]);
    warmup = probing(warmup.record(SyncProbe::Synced { nanos: 200 }));
    assert_eq!(warmup.samples, vec![100, 200]);
    match warmup.record(SyncProbe::Synced { nanos: 601 }) {
        WarmupStep::Done(StartingLatencyResp::Measured(rpc)) => {
            assert_eq!(rpc.url, "http://a.example");
            // The mean of the three samples, rounded down, is the first sample
            // of the window.
            assert_eq!(rpc.status.latency_data, vec![300]);
            assert_eq!(rpc.status.latency, 300);
            assert!(!rpc.status.is_erroring);
        }
        other => panic!("unexpected {:?}", other),
    }
}

#[test]
fn syncing_node_ends_the_measurement() {
    let warmup = probing(set_starting_latency(upstream("http://a.example", 5), 5));
    let warmup = probing(warmup.record(SyncProbe::Synced { nanos: 100 }));
    match warmup.record(SyncProbe::Syncing) {
        WarmupStep::Done(StartingLatencyResp::Error(rpc, ConfigError::Syncing)) => {
            assert_eq!(rpc.url, "http://a.example");
            assert!(rpc.status.latency_data.is_empty());
        }
        other => panic!("unexpected {:?}", other),
    }
}

#[test]
fn failed_probe_ends_the_measurement() {
    let warmup = probing(set_starting_latency(upstream("http://a.example", 5), 5));
    let probe = SyncProbe::Failed(RpcError::InvalidResponse("connection refused".to_string()));
    match warmup.record(probe) {
        WarmupStep::Done(StartingLatencyResp::Error(rpc, ConfigError::RpcError(reason))) => {
            assert_eq!(rpc.url, "http://a.example");
            assert_eq!(reason, "Invalid RPC response: connection refused");
        }
        other => panic!("unexpected {:?}", other),
    }
}

#[test]
fn window_of_length_zero_needs_no_probe() {
    match set_starting_latency(upstream("http://a.example", 0), 0) {
        WarmupStep::Done(StartingLatencyResp::Measured(rpc)) => {
            assert_eq!(rpc.status.latency, 0);
            assert_eq!(rpc.status.latency_data, vec![0]);
        }
        other => panic!("unexpected {:?}", other),
    }
}

#[test]
fn probe_count_is_capped() {
    let warmup = probing(set_starting_latency(upstream("http://a.example", 1), u64::MAX));
    assert_eq!(warmup.wanted, u32::MAX);
    let one = probing(set_starting_latency(upstream("http://a.example", 1), 1));
    assert_eq!(one.wanted, 1);
    match one.record(SyncProbe::Synced { nanos: u128::MAX }) {
        WarmupStep::Done(StartingLatencyResp::Measured(rpc)) => {
            assert_eq!(rpc.status.latency, u64::MAX)
        }
        other => panic!("unexpected {:?}", other),
    }
}

#[test]
fn startup_sorts_the_measured_and_quarantines_the_rest() {
    let responses = vec![
        measured("http://c.example", 300),
        failed("http://x.example"),
        measured("http://a.example", 100),
        measured("http://b.example", 200),
        failed("http://y.example"),
    ];
    let given = vec![upstream("http://old.example", 15)];
    let (active, poverty) = sort_by_latency(responses, given);
    assert_eq!(
        urls(&active),
        vec!["http://a.example", "http://b.example", "http://c.example"]
    );
    assert_eq!(
        urls(&poverty),
        vec!["http://old.example", "http://x.example", "http://y.example"]
    );
    assert!(!poverty[0].status.is_erroring);
    assert!(poverty[1].status.is_erroring);
    assert!(poverty[2].status.is_erroring);
    for rpc in &active {
        assert!(!rpc.status.is_erroring);
    }
    assert_eq!(active[0].status.latency, 100);
}

#[test]
fn startup_without_measurements_gives_empty_lists() {
    let (active, poverty) = sort_by_latency(Vec::new(), vec![upstream("http://old.example", 15)]);
    assert!(active.is_empty());
    assert!(poverty.is_empty());
}

#[test]
fn startup_with_failures_only() {
    let (active, poverty) = sort_by_latency(vec![failed("http://x.example")], Vec::new());
    assert!(active.is_empty());
    assert_eq!(urls(&poverty), vec!["http://x.example"]);
    assert!(poverty[0].status.is_erroring);
}

#[test]
fn startup_puts_every_upstream_in_one_list() {
    let responses = vec![
        measured("http://a.example", 5),
        failed("http://b.example"),
        measured("http://c.example", 5),
    ];
    let (active, poverty) = sort_by_latency(responses, Vec::new());
    let mut all = urls(&active);
    all.extend(urls(&poverty));
    all.sort();
    assert_eq!(all, vec!["http://a.example", "http://b.example", "http://c.example"]);
    for url in urls(&active) {
        assert!(!urls(&poverty).contains(&url));
    }
}
