use trident::processing::{resolve, update_rpc_latency};
use trident::rpc::{mean_of, Rpc};

fn upstream(ma_length: u64) -> Rpc {
    Rpc::new("http://a.example".to_string(), None, 1, 0, ma_length)
}

#[test]
fn new_upstream_has_nothing_recorded() {
    let rpc = Rpc::new(
        "http://a.example/path".to_string(),
        Some("ws://a.example".to_string()),
        4,
        250,
        15,
    );
    assert_eq!(rpc.url, "http://a.example/path");
    assert_eq!(rpc.ws_url, Some("ws://a.example".to_string()));
    assert_eq!(rpc.max_consecutive, 4);
    assert_eq!(rpc.min_time_delta, 250);
    assert_eq!(rpc.consecutive, 0);
    assert_eq!(rpc.last_used, 0);
    assert_eq!(rpc.status.ma_length, 15);
    assert_eq!(rpc.status.latency, 0);
    assert!(rpc.status.latency_data.is_empty());
    assert!(!rpc.status.is_erroring);
    assert_eq!(rpc.status.last_error, 0);
}

#[test]
fn latency_is_the_mean_of_the_window() {
    let mut rpc = upstream(3);
    rpc.update_latency(10);
    assert_eq!(rpc.status.latency_data, vec![10]);
    assert_eq!(rpc.status.latency, 10);
    rpc.update_latency(20);
    assert_eq!(rpc.status.latency_data, vec![10, 20]);
    assert_eq!(rpc.status.latency, 15);
    rpc.update_latency(45);
    assert_eq!(rpc.status.latency_data, vec![10, 20, 45]);
    assert_eq!(rpc.status.latency, 25);
}

#[test]
fn full_window_drops_its_oldest_sample() {
    let mut rpc = upstream(3);
    for sample in [10, 20, 45, 100] {
        rpc.update_latency(sample);
    }
    assert_eq!(rpc.status.latency_data, vec![20, 45, 100]);
    assert_eq!(rpc.status.latency, 55);
    rpc.update_latency(2);
    assert_eq!(rpc.status.latency_data, vec![45, 100, 2]);
    assert_eq!(rpc.status.latency, 49);
    assert!(rpc.status.latency_data.len() as u64 <= rpc.status.ma_length);
}

#[test]
fn mean_is_rounded_down() {
    let mut rpc = upstream(2);
    rpc.update_latency(1);
    rpc.update_latency(2);
    assert_eq!(rpc.status.latency, 1);
    assert_eq!(mean_of(&vec![3, 4, 4]), 3);
    assert_eq!(mean_of(&Vec::new()), 0);
}

#[test]
fn mean_of_the_largest_samples_does_not_overflow() {
    let mut rpc = upstream(3);
    for _ in 0..3 {
        rpc.update_latency(u64::MAX);
    }
    assert_eq!(rpc.status.latency, u64::MAX);
}

#[test]
fn window_of_length_one_keeps_the_latest_sample() {
    let mut rpc = upstream(1);
    rpc.update_latency(8);
    rpc.update_latency(12);
    assert_eq!(rpc.status.latency_data, vec![12]);
    assert_eq!(rpc.status.latency, 12);
}

#[test]
fn update_latency_with_window_length_zero_terminates() {
    let mut rpc = upstream(0);
    rpc.update_latency(5);
    assert_eq!(rpc.status.latency_data, vec![5]);
    assert_eq!(rpc.status.latency, 5);
    rpc.update_latency(9);
    assert_eq!(rpc.status.latency_data, vec![9]);
    assert_eq!(rpc.status.latency, 9);
    let mut nobody = Rpc::default();
    nobody.update_latency(3);
    assert_eq!(nobody.status.latency, 3);
}

#[test]
fn clone_keeps_every_field() {
    let mut rpc = Rpc::new(
        "http://a.example".to_string(),
        Some("ws://a.example".to_string()),
        4,
        250,
        15,
    );
    rpc.update_latency(10);
    rpc.update_latency(30);
    rpc.consecutive = 2;
    rpc.last_used = 77;
    rpc.status.is_erroring = true;
    rpc.status.last_error = 5;
    let copy = rpc.clone();
    assert_eq!(copy.name, rpc.name);
    assert_eq!(copy.url, rpc.url);
    assert_eq!(copy.ws_url, rpc.ws_url);
    assert_eq!(copy.max_consecutive, 4);
    assert_eq!(copy.consecutive, 2);
    assert_eq!(copy.last_used, 77);
    assert_eq!(copy.min_time_delta, 250);
    assert_eq!(copy.status.latency, 20);
    assert_eq!(copy.status.latency_data, vec![10, 30]);
    assert_eq!(copy.status.ma_length, 15);
    assert!(copy.status.is_erroring);
    assert_eq!(copy.status.last_error, 5);
}

#[test]
fn accountant_books_the_elapsed_time() {
    let mut active = vec![upstream(15), upstream(15)];
    update_rpc_latency(&mut active, 1, 5_000_000);
    assert_eq!(active[1].status.latency_data, vec![5_000_000]);
    assert_eq!(active[1].status.latency, 5_000_000);
    assert_eq!(active[1].last_used, 5_000);
    assert!(active[0].status.latency_data.is_empty());
    assert_eq!(active[0].last_used, 0);
}

#[test]
fn accountant_takes_a_stale_position_as_the_last_entry() {
    let mut active = vec![upstream(15), upstream(15)];
    update_rpc_latency(&mut active, 7, 2_999);
    assert_eq!(active[1].status.latency_data, vec![2_999]);
    assert_eq!(active[1].last_used, 2);
    assert!(active[0].status.latency_data.is_empty());
    update_rpc_latency(&mut active, 2, 1_000);
    assert_eq!(active[1].status.latency_data, vec![2_999, 1_000]);
}

#[test]
fn accountant_leaves_an_empty_list_alone() {
    let mut active: Vec<Rpc> = Vec::new();
    update_rpc_latency(&mut active, 0, 1_000);
    assert!(active.is_empty());
}

#[test]
fn accountant_caps_the_sample() {
    let mut active = vec![upstream(15)];
    let elapsed = u64::MAX as u128 + 5_000;
    update_rpc_latency(&mut active, 0, elapsed);
    assert_eq!(active[0].status.latency_data, vec![u64::MAX]);
    assert_eq!(active[0].last_used, elapsed / 1000);
}

#[test]
fn accountant_can_lower_last_used() {
    let mut active = vec![upstream(15)];
    active[0].last_used = 1_700_000_000_000_000;
    update_rpc_latency(&mut active, 0, 3_000_000);
    assert_eq!(active[0].last_used, 3_000);
}

#[test]
fn positions_resolve_within_the_list() {
    assert_eq!(resolve(0, 0), None);
    assert_eq!(resolve(0, 3), None);
    assert_eq!(resolve(3, 0), Some(0));
    assert_eq!(resolve(3, 2), Some(2));
    assert_eq!(resolve(3, 3), Some(2));
    assert_eq!(resolve(3, usize::MAX), Some(2));
}
