//! The selector: weighted round robin over the active list, by latency,
//! under each upstream's consecutive cap and rate delta.

use crate::clock::now_micros;
use crate::rpc::{pool_view, pool_wf, Rpc, RpcView};
use vstd::prelude::*;

verus! {

/// The two lists hold upstreams of the same URLs, place by place.
pub open spec fn same_urls(before: Seq<RpcView>, after: Seq<RpcView>) -> bool {
    &&& after.len() == before.len()
    &&& forall|i: int| 0 <= i < before.len() ==> (#[trigger] after[i]).url == before[i].url
}

/// Whether the selector may pick `r` at time `now` (microseconds since the
/// epoch): its streak is under the cap and more than `min_time_delta` has
/// passed since it was last picked.
pub open spec fn eligible(r: RpcView, now: u128) -> bool {
    r.max_consecutive > r.consecutive && now - r.last_used > r.min_time_delta
}

/// Whether index `i` stands somewhere in `order`.
pub open spec fn occurs(order: Seq<usize>, i: int) -> bool {
    exists|k: int| 0 <= k < order.len() && (#[trigger] order[k]) == i
}

/// The latency of the upstream at index `i` of `pool`.
pub open spec fn latency_at(pool: Seq<RpcView>, i: usize) -> u64 {
    pool[i as int].status.latency
}

/// `order` lists every index of `pool` once, by ascending latency. Entries
/// of equal latency may come in any order.
pub open spec fn is_argsort(order: Seq<usize>, pool: Seq<RpcView>) -> bool {
    &&& order.len() == pool.len()
    &&& forall|k: int| 0 <= k < order.len() ==> (#[trigger] order[k]) < pool.len()
    &&& forall|k: int, l: int|
        #![trigger order[k], order[l]]
        0 <= k < l < order.len() ==> order[k] != order[l]
    &&& forall|i: int| 0 <= i < pool.len() ==> #[trigger] occurs(order, i)
    &&& forall|k: int, l: int|
        #![trigger order[k], order[l]]
        0 <= k <= l < order.len() ==> latency_at(pool, order[k]) <= latency_at(pool, order[l])
}

/// Indices of `data` by ascending latency.
pub fn argsort(data: &[Rpc]) -> (order: Vec<usize>)
    ensures
        is_argsort(order@, pool_view(data@)),
{
    let n = data.len();
    let ghost pool = pool_view(data@);
    let mut order: Vec<usize> = Vec::new();
    let mut i: usize = 0;
    while i < n
        invariant
            i <= n,
            order.len() == i,
            forall|k: int| 0 <= k < i ==> order[k] == k,
        decreases n - i,
    {
        order.push(i);
        i = i + 1;
    }
    // `place[v]` is where index `v` stands in `order`.
    let ghost mut place: Seq<int> = Seq::new(n as nat, |v: int| v);
    if n == 0 {
        return order;
    }
    i = 1;
    while i < n
        invariant
            1 <= i <= n,
            n == data.len(),
            pool == pool_view(data@),
            order.len() == n,
            place.len() == n,
            forall|k: int|
                0 <= k < n ==> 0 <= (#[trigger] order[k]) < n && place[order[k] as int] == k,
            forall|v: int| 0 <= v < n ==> 0 <= (#[trigger] place[v]) < n && order[place[v]] == v,
            forall|a: int, b: int|
                #![trigger order[a], order[b]]
                0 <= a <= b < i ==> latency_at(pool, order[a]) <= latency_at(pool, order[b]),
        decreases n - i,
    {
        let mut j: usize = i;
        while j > 0 && data[order[j - 1]].status.latency > data[order[j]].status.latency
            invariant
                0 <= j <= i < n,
                n == data.len(),
                pool == pool_view(data@),
                order.len() == n,
                place.len() == n,
                forall|k: int|
                    0 <= k < n ==> 0 <= (#[trigger] order[k]) < n && place[order[k] as int] == k,
                forall|v: int|
                    0 <= v < n ==> 0 <= (#[trigger] place[v]) < n && order[place[v]] == v,
                forall|a: int, b: int|
                    #![trigger order[a], order[b]]
                    0 <= a <= b <= i && a != j && b != j ==> latency_at(pool, order[a])
                        <= latency_at(pool, order[b]),
                forall|b: int|
                    j < b <= i ==> latency_at(pool, order[j as int]) <= latency_at(
                        pool,
                        #[trigger] order[b],
                    ),
            decreases j,
        {
            let lower = order[j - 1];
            let upper = order[j];
            order.set(j - 1, upper);
            order.set(j, lower);
            proof {
                place = place.update(upper as int, j - 1).update(lower as int, j as int);
            }
            j = j - 1;
        }
        i = i + 1;
    }
    proof {
        assert forall|v: int| 0 <= v < pool.len() implies #[trigger] occurs(order@, v) by {
            assert(order@[place[v]] == v);
        }
        assert forall|k: int, l: int|
            #![trigger order@[k], order@[l]]
            0 <= k < l < order@.len() implies order@[k] != order@[l] by {
            assert(place[order@[k] as int] == k);
            assert(place[order@[l] as int] == l);
        }
    }
    order
}

/// Whether any upstream of `pool` is eligible at `now`.
pub open spec fn some_eligible(pool: Seq<RpcView>, now: u128) -> bool {
    exists|j: int| 0 <= j < pool.len() && #[trigger] eligible(pool[j], now)
}

/// Whether the selector may settle on index `idx`: the fastest eligible
/// upstream or, where none is eligible, the fastest of all. Among upstreams
/// of equal latency any one may be taken.
pub open spec fn is_choice(pool: Seq<RpcView>, now: u128, idx: int) -> bool {
    &&& 0 <= idx < pool.len()
    &&& if some_eligible(pool, now) {
        &&& eligible(pool[idx], now)
        &&& forall|j: int|
            0 <= j < pool.len() && #[trigger] eligible(pool[j], now) ==> pool[idx].status.latency
                <= pool[j].status.latency
    } else {
        forall|j: int|
            0 <= j < pool.len() ==> pool[idx].status.latency <= (#[trigger] pool[j]).status.latency
    }
}

/// The streak of the chosen upstream after the pick: one more than before
/// where it was eligible, one where it was taken as the fallback.
pub open spec fn streak(r: RpcView, now: u128) -> u32 {
    if eligible(r, now) {
        (r.consecutive + 1) as u32
    } else {
        1
    }
}

/// The pool after the selector settled on `idx` at `now`: the chosen
/// upstream has its streak and `last_used` set, every other streak is zero.
pub open spec fn after_pick(pool: Seq<RpcView>, now: u128, idx: int) -> Seq<RpcView> {
    Seq::new(
        pool.len(),
        |j: int|
            if j == idx {
                RpcView { consecutive: streak(pool[j], now), last_used: now, ..pool[j] }
            } else {
                RpcView { consecutive: 0, ..pool[j] }
            },
    )
}

/// What one selection at `now` may do: `before` and `after` are the pool
/// around the call, `chosen` the descriptor handed out and `index` its place.
pub open spec fn selected(
    before: Seq<RpcView>,
    now: u128,
    after: Seq<RpcView>,
    chosen: RpcView,
    index: Option<usize>,
) -> bool {
    if before.len() == 0 {
        index is None && chosen == Rpc::spec_default() && after == before
    } else if before.len() == 1 {
        index == Some(0usize) && chosen == before[0] && after == before
    } else {
        &&& index matches Some(idx)
        &&& is_choice(before, now, idx as int)
        &&& after == after_pick(before, now, idx as int)
        &&& chosen == after[idx as int]
    }
}

/// What one selection may do, at whatever time it is made.
pub open spec fn selected_sometime(
    before: Seq<RpcView>,
    after: Seq<RpcView>,
    chosen: RpcView,
    index: Option<usize>,
) -> bool {
    exists|now: u128| selected(before, now, after, chosen, index)
}

/// The pools on which a selection of `idx` leaves the chosen upstream's
/// streak within its cap: a list of one whose upstream was within its cap
/// before, or a longer list whose chosen upstream either was eligible or,
/// taken as the fallback, has a cap of at least one.
pub open spec fn within_cap(before: Seq<RpcView>, now: u128, idx: int) -> bool {
    &&& before.len() == 1 ==> before[0].consecutive <= before[0].max_consecutive
    &&& before.len() >= 2 && !eligible(before[idx], now) ==> before[idx].max_consecutive >= 1
}

/// After a selection the index is in range, and the chosen upstream's
/// streak is within its cap. The cap can only be exceeded by an upstream
/// taken as the fallback with a cap of zero, or by the only upstream of a
/// list of one whose streak was over its cap before.
pub proof fn lemma_selected_within_cap(
    before: Seq<RpcView>,
    now: u128,
    after: Seq<RpcView>,
    chosen: RpcView,
    idx: usize,
)
    requires
        selected(before, now, after, chosen, Some(idx)),
        within_cap(before, now, idx as int),
    ensures
        idx < after.len(),
        after.len() == before.len(),
        after[idx as int].consecutive <= after[idx as int].max_consecutive,
        chosen.consecutive <= chosen.max_consecutive,
{
}

/// After a selection on two upstreams or more, every upstream but the
/// chosen one has a streak of zero.
pub proof fn lemma_selected_resets_others(
    before: Seq<RpcView>,
    now: u128,
    after: Seq<RpcView>,
    chosen: RpcView,
    idx: usize,
)
    requires
        selected(before, now, after, chosen, Some(idx)),
        before.len() >= 2,
    ensures
        forall|i: int| 0 <= i < after.len() && i != idx ==> (#[trigger] after[i]).consecutive == 0,
{
}

/// While the clock does not run behind the chosen upstream's last pick, a
/// selection lowers no upstream's `last_used`.
pub proof fn lemma_selected_last_used_monotonic(
    before: Seq<RpcView>,
    now: u128,
    after: Seq<RpcView>,
    chosen: RpcView,
    index: Option<usize>,
)
    requires
        selected(before, now, after, chosen, index),
        index matches Some(idx) ==> before.len() >= 2 ==> now >= before[idx as int].last_used,
    ensures
        after.len() == before.len(),
        forall|i: int|
            0 <= i < after.len() ==> (#[trigger] after[i]).last_used >= before[i].last_used,
{
}

/// A selection leaves every upstream's window and latency as they are.
pub proof fn lemma_selected_keeps_windows(
    before: Seq<RpcView>,
    now: u128,
    after: Seq<RpcView>,
    chosen: RpcView,
    index: Option<usize>,
)
    requires
        selected(before, now, after, chosen, index),
    ensures
        after.len() == before.len(),
        forall|i: int| 0 <= i < after.len() ==> (#[trigger] after[i]).status == before[i].status,
        pool_wf(before) ==> pool_wf(after),
{
    assert forall|i: int| 0 <= i < after.len() implies (#[trigger] after[i]).status
        == before[i].status by {}
}

/// A selection moves no upstream: the list keeps its length, and every
/// upstream keeps its URL and its place.
pub proof fn lemma_selected_keeps_urls(
    before: Seq<RpcView>,
    now: u128,
    after: Seq<RpcView>,
    chosen: RpcView,
    index: Option<usize>,
)
    requires
        selected(before, now, after, chosen, index),
    ensures
        same_urls(before, after),
{
}

/// Selects an upstream at time `now`, in microseconds since the epoch.
///
/// An empty list gives the default descriptor and no index; a list of one
/// gives its only entry, untouched. Otherwise the upstreams are walked from
/// the slowest to the fastest, the last eligible one seen wins, and the
/// fastest is the fallback; all streaks are reset on the way.
pub fn pick_at(list: &mut [Rpc], now: u128) -> (picked: (Rpc, Option<usize>))
    ensures
        final(list).len() == old(list).len(),
        selected(pool_view(old(list)@), now, pool_view(final(list)@), picked.0@, picked.1),
        picked.1 is None <==> old(list).len() == 0,
        picked.1 matches Some(idx) ==> idx < final(list).len(),
        picked.1 matches Some(idx) ==> within_cap(pool_view(old(list)@), now, idx as int)
            ==> final(list)[idx as int].consecutive <= final(list)[idx as int].max_consecutive,
        forall|i: int|
            0 <= i < final(list).len() && picked.1 != Some(i as usize)
                ==> (#[trigger] final(list)[i]).consecutive == 0,
        forall|i: int|
            0 <= i < final(list).len() && now >= old(list)[i].last_used
                ==> (#[trigger] final(list)[i]).last_used >= old(list)[i].last_used,
{
    let n = list.len();
    if n == 1 {
        return (list[0].clone(), Some(0));
    } else if n == 0 {
        return (Rpc::default(), None);
    }
    let ghost before = pool_view(list@);
    let order = argsort(list);

    let mut choice = order[0];
    let mut choice_consecutive: u32 = 0;
    let ghost mut found = false;
    let ghost mut at: int = 0;
    let mut k = n;
    while k > 0
        invariant
            0 <= k <= n,
            n >= 2,
            list.len() == n,
            before.len() == n,
            is_argsort(order@, before),
            choice < n,
            // The upstreams that were walked are reset, the others untouched.
            forall|p: int|
                #![trigger order[p]]
                k <= p < n ==> pool_view(list@)[order[p] as int] == (RpcView {
                    consecutive: 0,
                    ..before[order[p] as int]
                }),
            forall|p: int|
                #![trigger order[p]]
                0 <= p < k ==> pool_view(list@)[order[p] as int] == before[order[p] as int],
            // The choice is the eligible upstream that stands first in
            // `order` among those walked, or the fastest of all.
            found ==> k <= at < n && choice == order[at] && eligible(before[choice as int], now)
                && choice_consecutive == before[choice as int].consecutive,
            found ==> forall|p: int|
                #![trigger order[p]]
                k <= p < at ==> !eligible(before[order[p] as int], now),
            !found ==> choice == order[0] && choice_consecutive == 0,
            !found ==> forall|p: int|
                #![trigger order[p]]
                k <= p < n ==> !eligible(before[order[p] as int], now),
        decreases k,
    {
        k = k - 1;
        let i = order[k];
        let ghost mid = pool_view(list@);
        assert(mid[order[k as int] as int] == before[i as int]);
        let rested = now > list[i].last_used && now - list[i].last_used > list[i].min_time_delta;
        if list[i].max_consecutive > list[i].consecutive && rested {
            choice = i;
            choice_consecutive = list[i].consecutive;
            proof {
                found = true;
                at = k as int;
            }
        }
        list[i].consecutive = 0;
        proof {
            let cur = pool_view(list@);
            assert forall|p: int|
                #![trigger order[p]]
                0 <= p < n && p != k implies cur[order[p] as int] == mid[order[p] as int] by {
                if p < k {
                    assert(order[p] != order[k as int]);
                } else {
                    assert(order[k as int] != order[p]);
                }
            }
        }
    }
    let ghost mid = pool_view(list@);
    list[choice].consecutive = choice_consecutive + 1;
    list[choice].last_used = now;
    let chosen = list[choice].clone();
    proof {
        let after = pool_view(list@);
        if found {
            assert(some_eligible(before, now));
            assert forall|j: int|
                0 <= j < n && #[trigger] eligible(before[j], now) implies latency_at(
                before,
                choice,
            ) <= before[j].status.latency by {
                assert(occurs(order@, j));
                let p = choose|p: int| 0 <= p < order@.len() && (#[trigger] order@[p]) == j;
                assert(at <= p);
            }
        } else {
            assert forall|j: int| 0 <= j < n implies !#[trigger] eligible(before[j], now) by {
                assert(occurs(order@, j));
                let p = choose|p: int| 0 <= p < order@.len() && (#[trigger] order@[p]) == j;
                assert(order@[p] == j);
            }
            assert forall|j: int| 0 <= j < n implies latency_at(before, choice) <= (
            #[trigger] before[j]).status.latency by {
                assert(occurs(order@, j));
                let p = choose|p: int| 0 <= p < order@.len() && (#[trigger] order@[p]) == j;
                assert(order@[0] == choice && order@[p] == j);
            }
        }
        assert(is_choice(before, now, choice as int));
        let wanted = after_pick(before, now, choice as int);
        assert forall|j: int| 0 <= j < n implies after[j] == wanted[j] by {
            assert(occurs(order@, j));
            let p = choose|p: int| 0 <= p < order@.len() && (#[trigger] order@[p]) == j;
            assert(mid[order@[p] as int] == (RpcView { consecutive: 0, ..before[j] }));
        }
        assert(after =~= wanted);
        assert forall|i: int| 0 <= i < n implies (#[trigger] list@[i])@ == after[i] by {}
        assert forall|i: int| 0 <= i < n implies (#[trigger] old(list)@[i])@ == before[i] by {}
    }
    (chosen, Some(choice))
}

/// Selects an upstream at the current time. See `pick_at` for the rules;
/// the time is whatever the clock gives.
pub fn pick(list: &mut [Rpc]) -> (picked: (Rpc, Option<usize>))
    ensures
        final(list).len() == old(list).len(),
        selected_sometime(pool_view(old(list)@), pool_view(final(list)@), picked.0@, picked.1),
        picked.1 is None <==> old(list).len() == 0,
        picked.1 matches Some(idx) ==> idx < final(list).len() && picked.0@ == pool_view(
            final(list)@,
        )[idx as int],
        old(list).len() == 1 ==> picked.1 == Some(0usize) && pool_view(final(list)@) == pool_view(
            old(list)@,
        ),
        forall|i: int|
            0 <= i < final(list).len() && picked.1 != Some(i as usize)
                ==> (#[trigger] final(list)[i]).consecutive == 0,
{
    let now = now_micros();
    pick_at(list, now)
}

} // verus!
