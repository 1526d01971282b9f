use trident::algo::{argsort, pick, pick_at};
use trident::rpc::Rpc;

fn upstream(url: &str, latency: u64, max_consecutive: u32, min_time_delta: u128) -> Rpc {
    let mut rpc = Rpc::new(url.to_string(), None, max_consecutive, min_time_delta, 15);
    rpc.update_latency(latency);
    rpc
}

#[test]
fn empty_list_gives_default_and_no_index() {
    let mut active: Vec<Rpc> = Vec::new();
    let (rpc, index) = pick_at(&mut active, 1_000);
    assert_eq!(index, None);
    assert_eq!(rpc.name, "");
    assert_eq!(rpc.url, "");
    assert_eq!(rpc.ws_url, None);
    assert_eq!(rpc.max_consecutive, 0);
    assert_eq!(rpc.consecutive, 0);
    assert_eq!(rpc.last_used, 0);
    assert_eq!(rpc.min_time_delta, 0);
    assert_eq!(rpc.status.latency, 0);
    assert!(rpc.status.latency_data.is_empty());
    assert!(active.is_empty());
}

#[test]
fn single_upstream_is_returned_untouched() {
    let mut active = vec![upstream("http://a.example", 10, 0, 1_000_000)];
    active[0].consecutive = 7;
    active[0].last_used = 999;
    let (rpc, index) = pick_at(&mut active, 1_000);
    assert_eq!(index, Some(0));
    assert_eq!(rpc.url, "http://a.example");
    assert_eq!(rpc.consecutive, 7);
    assert_eq!(rpc.last_used, 999);
    assert_eq!(active[0].consecutive, 7);
    assert_eq!(active[0].last_used, 999);
}

#[test]
fn weighted_selection_under_consecutive_cap() {
    let mut active = vec![
        upstream("http://a.example", 10, 2, 0),
        upstream("http://b.example", 100, 5, 0),
    ];
    let mut order = Vec::new();
    for now in 1..=4u128 {
        let (_, index) = pick_at(&mut active, now);
        order.push(index);
    }
    assert_eq!(order, vec![Some(0), Some(0), Some(1), Some(0)]);
}

#[test]
fn rate_limited_single_upstream_is_still_picked() {
    let mut active = vec![upstream("http://a.example", 10, 3, 1_000_000)];
    let (first, first_index) = pick_at(&mut active, 5_000_000);
    let (second, second_index) = pick_at(&mut active, 5_000_100);
    assert_eq!(first_index, Some(0));
    assert_eq!(second_index, Some(0));
    assert_eq!(first.url, "http://a.example");
    assert_eq!(second.url, "http://a.example");
}

#[test]
fn rate_delta_passes_the_pick_to_the_slower_upstream() {
    let mut active = vec![
        upstream("http://a.example", 10, 10, 1_000_000),
        upstream("http://b.example", 100, 10, 0),
    ];
    let (_, first) = pick_at(&mut active, 5_000_000);
    assert_eq!(first, Some(0));
    assert_eq!(active[0].last_used, 5_000_000);
    // Half a second later the fast upstream is still within its rate delta.
    let (_, second) = pick_at(&mut active, 5_500_000);
    assert_eq!(second, Some(1));
    // Exactly one delta later is not yet more than the delta.
    let (_, third) = pick_at(&mut active, 6_000_000);
    assert_eq!(third, Some(1));
    let (_, fourth) = pick_at(&mut active, 6_000_001);
    assert_eq!(fourth, Some(0));
}

#[test]
fn fallback_is_the_fastest_when_nothing_is_eligible() {
    let mut active = vec![
        upstream("http://slow.example", 300, 0, 0),
        upstream("http://fast.example", 20, 0, 0),
        upstream("http://mid.example", 100, 0, 0),
    ];
    active[0].consecutive = 4;
    let (rpc, index) = pick_at(&mut active, 10);
    assert_eq!(index, Some(1));
    assert_eq!(rpc.url, "http://fast.example");
    // Taken as the fallback, its streak starts over at one.
    assert_eq!(rpc.consecutive, 1);
    assert_eq!(active[1].consecutive, 1);
    assert_eq!(active[1].last_used, 10);
    assert_eq!(active[0].consecutive, 0);
    assert_eq!(active[2].consecutive, 0);
}

#[test]
fn pick_resets_every_other_streak_and_stamps_the_choice() {
    let mut active = vec![
        upstream("http://a.example", 50, 3, 0),
        upstream("http://b.example", 10, 3, 0),
        upstream("http://c.example", 70, 3, 0),
    ];
    active[0].consecutive = 2;
    active[1].consecutive = 1;
    active[2].consecutive = 3;
    active[2].last_used = 40;
    let (rpc, index) = pick_at(&mut active, 77);
    assert_eq!(index, Some(1));
    assert_eq!(rpc.consecutive, 2);
    assert_eq!(rpc.last_used, 77);
    assert_eq!(active[1].consecutive, 2);
    assert!(active[1].consecutive <= active[1].max_consecutive);
    assert_eq!(active[1].last_used, 77);
    assert_eq!(active[0].consecutive, 0);
    assert_eq!(active[2].consecutive, 0);
    assert_eq!(active[0].last_used, 0);
    assert_eq!(active[2].last_used, 40);
    assert_eq!(active[0].url, "http://a.example");
    assert_eq!(active[2].url, "http://c.example");
}

#[test]
fn clock_running_behind_makes_an_upstream_ineligible() {
    let mut active = vec![
        upstream("http://a.example", 10, 5, 0),
        upstream("http://b.example", 100, 5, 0),
    ];
    active[0].last_used = 2_000;
    let (_, index) = pick_at(&mut active, 1_000);
    assert_eq!(index, Some(1));
}

#[test]
fn last_used_does_not_decrease_while_the_clock_advances() {
    let mut active = vec![
        upstream("http://a.example", 10, 1, 0),
        upstream("http://b.example", 100, 1, 0),
    ];
    let mut seen = vec![0u128, 0u128];
    for now in [5u128, 9, 9, 14, 30] {
        pick_at(&mut active, now);
        for i in 0..2 {
            assert!(active[i].last_used >= seen[i]);
            seen[i] = active[i].last_used;
        }
    }
}

#[test]
fn pick_reads_the_clock() {
    let mut active = vec![
        upstream("http://a.example", 10, 2, 0),
        upstream("http://b.example", 100, 2, 0),
    ];
    let (rpc, index) = pick(&mut active);
    assert_eq!(index, Some(0));
    assert_eq!(rpc.consecutive, 1);
    // The pick is stamped with a time of this century, in microseconds.
    assert!(active[0].last_used > 1_600_000_000_000_000);
    assert_eq!(active[1].last_used, 0);
    let mut none: Vec<Rpc> = Vec::new();
    assert_eq!(pick(&mut none).1, None);
}

#[test]
fn argsort_orders_by_latency() {
    let list = vec![
        upstream("http://a.example", 30, 1, 0),
        upstream("http://b.example", 10, 1, 0),
        upstream("http://c.example", 20, 1, 0),
        upstream("http://d.example", 5, 1, 0),
    ];
    assert_eq!(argsort(&list), vec![3, 1, 2, 0]);
    let nothing: Vec<Rpc> = Vec::new();
    assert_eq!(argsort(&nothing), Vec::<usize>::new());
}

#[test]
fn argsort_lists_every_index_once() {
    let list = vec![
        upstream("http://a.example", 7, 1, 0),
        upstream("http://b.example", 7, 1, 0),
        upstream("http://c.example", 3, 1, 0),
    ];
    let mut order = argsort(&list);
    assert_eq!(order[0], 2);
    order.sort();
    assert_eq!(order, vec![0, 1, 2]);
}
