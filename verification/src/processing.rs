//! The latency accountant: books the time a request took on the upstream
//! that served it.

use crate::algo::same_urls;
use crate::rpc::{lemma_mean_bound, pool_view, pool_wf, slide, Rpc, RpcView};
use vstd::prelude::*;

verus! {

/// The sample recorded for a request that took `elapsed_nanos`: the time
/// itself, capped at the largest sample a window can hold.
pub open spec fn sample_of(elapsed_nanos: u128) -> u64 {
    if elapsed_nanos > u64::MAX {
        u64::MAX
    } else {
        elapsed_nanos as u64
    }
}

/// The index that a position resolves to in a list of `len > 0` entries:
/// the position itself, or the last index where it lies beyond the end.
pub open spec fn resolved(len: nat, position: usize) -> int {
    if position >= len {
        len - 1
    } else {
        position as int
    }
}

/// The pool after a request that took `elapsed_nanos` was booked at
/// `position`: the resolved entry records the sample and has `last_used` set
/// to the elapsed time in microseconds. An empty pool stays empty.
pub open spec fn accounted(pool: Seq<RpcView>, position: usize, elapsed_nanos: u128) -> Seq<
    RpcView,
> {
    if pool.len() == 0 {
        pool
    } else {
        let index = resolved(pool.len(), position);
        pool.update(
            index,
            RpcView {
                last_used: elapsed_nanos / 1000,
                ..pool[index].record(sample_of(elapsed_nanos))
            },
        )
    }
}

/// The index that `position` resolves to in a list of `len` entries, if
/// the list has any.
pub fn resolve(len: usize, position: usize) -> (index: Option<usize>)
    ensures
        len == 0 ==> index is None,
        len > 0 ==> index == Some(resolved(len as nat, position) as usize),
{
    if len == 0 {
        None
    } else if position >= len {
        Some(len - 1)
    } else {
        Some(position)
    }
}

/// Booking a latency moves no upstream: the list keeps its length, and
/// every upstream keeps its URL and its place.
pub proof fn lemma_accounted_keeps_urls(pool: Seq<RpcView>, position: usize, elapsed_nanos: u128)
    ensures
        same_urls(pool, accounted(pool, position, elapsed_nanos)),
{
}

/// Booking a latency keeps every window within its length, and every
/// latency the mean of its window.
pub proof fn lemma_accounted_keeps_windows(
    pool: Seq<RpcView>,
    position: usize,
    elapsed_nanos: u128,
)
    requires
        pool_wf(pool),
    ensures
        pool_wf(accounted(pool, position, elapsed_nanos)),
{
    let after = accounted(pool, position, elapsed_nanos);
    if pool.len() > 0 {
        let index = resolved(pool.len(), position);
        lemma_mean_bound(slide(
            pool[index].status.latency_data,
            pool[index].status.ma_length,
            sample_of(elapsed_nanos),
        ));
        assert forall|i: int| 0 <= i < after.len() implies (#[trigger] after[i]).status.wf()
            && after[i].status.ma_length >= 1 by {
            if i != index {
                assert(after[i] == pool[i]);
            }
        }
    }
}

/// Books the latency of a finished request on the upstream at
/// `rpc_position`. A position beyond the end of the list, as happens when
/// the list shrank in the meantime, is taken as the last entry.
pub fn update_rpc_latency(rpc_list: &mut [Rpc], rpc_position: usize, elapsed_nanos: u128)
    ensures
        final(rpc_list).len() == old(rpc_list).len(),
        pool_view(final(rpc_list)@) == accounted(
            pool_view(old(rpc_list)@),
            rpc_position,
            elapsed_nanos,
        ),
{
    if let Some(index) = resolve(rpc_list.len(), rpc_position) {
        let sample: u64 = if elapsed_nanos > u64::MAX as u128 {
            u64::MAX
        } else {
            elapsed_nanos as u64
        };
        rpc_list[index].update_latency(sample);
        rpc_list[index].last_used = elapsed_nanos / 1000;
        assert(pool_view(rpc_list@) =~= accounted(
            pool_view(old(rpc_list)@),
            rpc_position,
            elapsed_nanos,
        ));
    }
}

} // verus!
