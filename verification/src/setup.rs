//! Startup: measuring each upstream's latency before it serves, and seeding
//! the active and poverty lists from what the measurements gave. Probing is
//! the caller's part.

use crate::algo::{argsort, is_argsort};
use crate::error::{ConfigError, RpcError};
use crate::health::{disjoint, lemma_filter_members};
use crate::processing::sample_of;
use crate::rpc::{mean, mean_of, pool_view, Rpc, RpcView};
use vstd::prelude::*;

verus! {

/// What measuring one upstream came to.
#[derive(Debug)]
pub enum StartingLatencyResp {
    /// The upstream answered every probe; its latency is set.
    Measured(Rpc),
    /// A probe failed; the upstream goes to the poverty list.
    Error(Rpc, ConfigError),
}

/// What one probe of an upstream's sync status gave.
#[derive(Debug)]
pub enum SyncProbe {
    /// A valid answer, after this many nanoseconds.
    Synced { nanos: u128 },
    /// An answer that is not a synced node's.
    Syncing,
    /// No answer.
    Failed(RpcError),
}

/// An upstream under measurement: `wanted` probes are to be answered, and
/// `samples` holds the latencies of those answered so far.
#[derive(Debug)]
pub struct Warmup {
    pub rpc: Rpc,
    pub wanted: u32,
    pub samples: Vec<u64>,
}

/// What to do next for an upstream under measurement.
#[derive(Debug)]
pub enum WarmupStep {
    /// Probe it once more and report what came back.
    Probe(Warmup),
    /// The measurement is over.
    Done(StartingLatencyResp),
}

/// How many probes measure an upstream whose window has length `ma_length`.
pub open spec fn probes_wanted(ma_length: u64) -> u32 {
    if ma_length > u32::MAX {
        u32::MAX
    } else {
        ma_length as u32
    }
}

/// Starts measuring `rpc`. With a window of length zero there is nothing to
/// probe, and a latency of zero is recorded.
pub fn set_starting_latency(rpc: Rpc, ma_length: u64) -> (step: WarmupStep)
    ensures
        match step {
            WarmupStep::Probe(warmup) => {
                &&& ma_length > 0
                &&& warmup.rpc@ == rpc@
                &&& warmup.wanted == probes_wanted(ma_length)
                &&& warmup.samples@ == Seq::<u64>::empty()
            },
            WarmupStep::Done(outcome) => {
                &&& ma_length == 0
                &&& outcome matches StartingLatencyResp::Measured(measured)
                &&& measured@ == rpc@.record(0)
            },
        },
{
    let wanted: u32 = if ma_length > u32::MAX as u64 {
        u32::MAX
    } else {
        ma_length as u32
    };
    if wanted == 0 {
        let mut rpc = rpc;
        rpc.update_latency(0);
        WarmupStep::Done(StartingLatencyResp::Measured(rpc))
    } else {
        WarmupStep::Probe(Warmup { rpc, wanted, samples: Vec::new() })
    }
}

impl Warmup {
    /// Takes in what the latest probe gave.
    ///
    /// A valid answer adds its latency to the samples; once `wanted` answers
    /// are in, the mean of the samples is recorded as the upstream's first
    /// latency. Any other outcome ends the measurement with the upstream
    /// marked for the poverty list.
    pub fn record(self, probe: SyncProbe) -> (step: WarmupStep)
        ensures
            match probe {
                SyncProbe::Synced { nanos } => {
                    let samples = self.samples@.push(sample_of(nanos));
                    if samples.len() >= self.wanted {
                        &&& step matches WarmupStep::Done(StartingLatencyResp::Measured(measured))
                        &&& measured@ == self.rpc@.record(mean(samples) as u64)
                    } else {
                        &&& step matches WarmupStep::Probe(warmup)
                        &&& warmup.rpc@ == self.rpc@
                        &&& warmup.wanted == self.wanted
                        &&& warmup.samples@ == samples
                    }
                },
                SyncProbe::Syncing => {
                    &&& step matches WarmupStep::Done(StartingLatencyResp::Error(failed, cause))
                    &&& failed@ == self.rpc@
                    &&& cause is Syncing
                },
                SyncProbe::Failed(error) => {
                    &&& step matches WarmupStep::Done(StartingLatencyResp::Error(failed, cause))
                    &&& failed@ == self.rpc@
                    &&& cause matches ConfigError::RpcError(reason)
                    &&& reason@ == error.spec_message()
                },
            },
    {
        let Warmup { rpc, wanted, samples } = self;
        match probe {
            SyncProbe::Synced { nanos } => {
                let sample: u64 = if nanos > u64::MAX as u128 {
                    u64::MAX
                } else {
                    nanos as u64
                };
                let mut samples = samples;
                samples.push(sample);
                if samples.len() >= wanted as usize {
                    let average = mean_of(&samples);
                    let mut rpc = rpc;
                    rpc.update_latency(average);
                    WarmupStep::Done(StartingLatencyResp::Measured(rpc))
                } else {
                    WarmupStep::Probe(Warmup { rpc, wanted, samples })
                }
            },
            SyncProbe::Syncing => WarmupStep::Done(
                StartingLatencyResp::Error(rpc, ConfigError::Syncing),
            ),
            SyncProbe::Failed(error) => WarmupStep::Done(
                StartingLatencyResp::Error(rpc, ConfigError::from(error)),
            ),
        }
    }
}

/// The upstream that a measurement was about, marked as erroring where the
/// measurement failed.
pub open spec fn settled(outcome: StartingLatencyResp) -> RpcView {
    match outcome {
        StartingLatencyResp::Measured(rpc) => rpc@,
        StartingLatencyResp::Error(rpc, _) => RpcView {
            status: crate::rpc::StatusView { is_erroring: true, ..rpc@.status },
            ..rpc@
        },
    }
}

/// Picks the measurements that succeeded, or those that failed.
pub open spec fn with_outcome(ok: bool) -> spec_fn(StartingLatencyResp) -> bool {
    |o: StartingLatencyResp| (o is Measured) == ok
}

/// The upstreams whose measurement succeeded, or those whose measurement
/// failed, in the order of `outcomes`.
pub open spec fn outcomes_with(outcomes: Seq<StartingLatencyResp>, ok: bool) -> Seq<RpcView> {
    outcomes.filter(with_outcome(ok)).map_values(|o: StartingLatencyResp| settled(o))
}

/// `pool` laid out in the order `order`.
pub open spec fn arranged(pool: Seq<RpcView>, order: Seq<usize>) -> Seq<RpcView> {
    Seq::new(order.len(), |k: int| pool[order[k] as int])
}

/// Whether `sorted` holds the upstreams of `pool`, each once, by ascending
/// latency.
pub open spec fn sorted_from(sorted: Seq<RpcView>, pool: Seq<RpcView>) -> bool {
    exists|order: Seq<usize>| #[trigger] is_argsort(order, pool) && sorted == arranged(pool, order)
}

/// Seeds the two lists from the measurements.
///
/// The upstreams that were measured make up the active list, by ascending
/// latency; the others are marked as erroring and join the poverty list.
/// Without any measurement both lists come back empty.
pub fn sort_by_latency(responses: Vec<StartingLatencyResp>, poverty_list: Vec<Rpc>) -> (lists: (
    Vec<Rpc>,
    Vec<Rpc>,
))
    ensures
        responses.len() == 0 ==> lists.0@.len() == 0 && lists.1@.len() == 0,
        responses.len() > 0 ==> sorted_from(pool_view(lists.0@), outcomes_with(responses@, true))
            && pool_view(lists.1@) == pool_view(poverty_list@) + outcomes_with(responses@, false),
{
    if responses.len() == 0 {
        return (Vec::new(), Vec::new());
    }
    let ghost given = pool_view(poverty_list@);
    let mut ready: Vec<Rpc> = Vec::new();
    let mut poverty = poverty_list;
    let mut i: usize = 0;
    proof {
        reveal(Seq::filter);
        assert(responses@.take(0).filter(with_outcome(true)) =~= Seq::empty());
        assert(responses@.take(0).filter(with_outcome(false)) =~= Seq::empty());
        assert(pool_view(ready@) =~= outcomes_with(responses@.take(0), true));
        assert(pool_view(poverty@) =~= given + outcomes_with(responses@.take(0), false));
    }
    while i < responses.len()
        invariant
            i <= responses.len(),
            pool_view(ready@) == outcomes_with(responses@.take(i as int), true),
            pool_view(poverty@) == given + outcomes_with(responses@.take(i as int), false),
        decreases responses.len() - i,
    {
        let ghost ready_before = pool_view(ready@);
        let ghost poverty_before = pool_view(poverty@);
        proof {
            reveal(Seq::filter);
            let next = responses@.take(i + 1);
            assert(next.drop_last() =~= responses@.take(i as int));
            assert(next.last() == responses@[i as int]);
        }
        match &responses[i] {
            StartingLatencyResp::Measured(rpc) => {
                ready.push(rpc.clone());
                proof {
                    let next = responses@.take(i + 1);
                    assert(pool_view(ready@) =~= ready_before.push(rpc@));
                    assert(outcomes_with(next, true) =~= ready_before.push(rpc@));
                    assert(outcomes_with(next, false) =~= outcomes_with(
                        responses@.take(i as int),
                        false,
                    ));
                }
            },
            StartingLatencyResp::Error(rpc, _) => {
                let mut failed = rpc.clone();
                failed.status.is_erroring = true;
                poverty.push(failed);
                proof {
                    let next = responses@.take(i + 1);
                    let marked = settled(responses@[i as int]);
                    assert(pool_view(poverty@) =~= poverty_before.push(marked));
                    assert(outcomes_with(next, false) =~= outcomes_with(
                        responses@.take(i as int),
                        false,
                    ).push(marked));
                    assert(outcomes_with(next, true) =~= outcomes_with(
                        responses@.take(i as int),
                        true,
                    ));
                }
            },
        }
        i = i + 1;
    }
    assert(responses@.take(i as int) =~= responses@);
    let order = argsort(ready.as_slice());
    let ghost pool = pool_view(ready@);
    let mut sorted: Vec<Rpc> = Vec::new();
    let mut k: usize = 0;
    while k < order.len()
        invariant
            k <= order.len(),
            pool == pool_view(ready@),
            is_argsort(order@, pool),
            sorted.len() == k,
            forall|j: int| 0 <= j < k ==> (#[trigger] pool_view(sorted@)[j]) == pool[order[j] as int],
        decreases order.len() - k,
    {
        let ghost before = pool_view(sorted@);
        sorted.push(ready[order[k]].clone());
        assert(pool_view(sorted@) =~= before.push(pool[order[k as int] as int]));
        k = k + 1;
    }
    proof {
        assert(pool_view(sorted@) =~= arranged(pool, order@));
        assert(is_argsort(order@, pool) && pool_view(sorted@) == arranged(pool, order@));
    }
    (sorted, poverty)
}

/// The measurements are of upstreams of different URLs, none of which
/// stands in `given`.
pub open spec fn fresh(outcomes: Seq<StartingLatencyResp>, given: Seq<RpcView>) -> bool {
    &&& forall|i: int, j: int|
        #![trigger outcomes[i], outcomes[j]]
        0 <= i < j < outcomes.len() ==> settled(outcomes[i]).url != settled(outcomes[j]).url
    &&& forall|i: int, j: int|
        #![trigger outcomes[i], given[j]]
        0 <= i < outcomes.len() && 0 <= j < given.len() ==> settled(outcomes[i]).url
            != given[j].url
}

/// Startup puts every measured upstream in one list only: where the
/// upstreams differ by URL, no URL stands in both the active list and the
/// poverty list that `sort_by_latency` hands back.
pub proof fn lemma_startup_partition(
    outcomes: Seq<StartingLatencyResp>,
    given: Seq<RpcView>,
    sorted: Seq<RpcView>,
)
    requires
        fresh(outcomes, given),
        sorted_from(sorted, outcomes_with(outcomes, true)),
    ensures
        disjoint(sorted, given + outcomes_with(outcomes, false)),
{
    let ready = outcomes_with(outcomes, true);
    let failed = outcomes_with(outcomes, false);
    let poverty = given + failed;
    let order = choose|order: Seq<usize>| #[trigger]
        is_argsort(order, ready) && sorted == arranged(ready, order);
    let kept = outcomes.filter(with_outcome(true));
    let lost = outcomes.filter(with_outcome(false));
    lemma_filter_members(outcomes, with_outcome(true));
    lemma_filter_members(outcomes, with_outcome(false));
    assert forall|i: int, j: int|
        #![trigger sorted[i], poverty[j]]
        0 <= i < sorted.len() && 0 <= j < poverty.len() implies sorted[i].url != poverty[j].url by {
        let k = order[i] as int;
        assert(sorted[i] == ready[k]);
        assert(ready[k] == settled(kept[k]));
        assert(kept.contains(kept[k]));
        let a = choose|a: int| 0 <= a < outcomes.len() && outcomes[a] == kept[k];
        if j < given.len() {
            assert(poverty[j] == given[j]);
            assert(settled(outcomes[a]).url != given[j].url);
        } else {
            let l = j - given.len();
            assert(poverty[j] == failed[l]);
            assert(failed[l] == settled(lost[l]));
            assert(lost.contains(lost[l]));
            let b = choose|b: int| 0 <= b < outcomes.len() && outcomes[b] == lost[l];
            if a < b {
                assert(settled(outcomes[a]).url != settled(outcomes[b]).url);
            } else if b < a {
                assert(settled(outcomes[b]).url != settled(outcomes[a]).url);
            }
        }
    }
}

} // verus!
