//! The health sweep: which upstreams a round of probes sends to the poverty
//! list, which it brings back, and what the two lists hold afterwards.
//! Probing itself is the caller's part.

use crate::algo::same_urls;
use crate::error::HealthError;
use crate::rpc::{pool_view, pool_wf, Rpc, RpcView};
use vstd::prelude::*;

verus! {

/// What a health probe of one upstream came to.
#[derive(Debug, Clone, Copy)]
pub enum Probe {
    /// The upstream answered with this status.
    Status(u16),
    /// No answer could be had.
    Unreachable,
}

impl Probe {
    /// An upstream is healthy exactly when its probe is answered with 200.
    pub open spec fn healthy(self) -> bool {
        self == Probe::Status(200)
    }

    /// Whether the probed upstream is healthy.
    pub fn is_healthy(&self) -> (up: bool)
        ensures
            up == self.healthy(),
    {
        match self {
            Probe::Status(code) => *code == 200,
            Probe::Unreachable => false,
        }
    }
}

/// An upstream as it stood when it was probed, with what the probe gave.
#[derive(Debug)]
pub struct Probed {
    pub rpc: Rpc,
    pub probe: Probe,
}

pub struct ProbedView {
    pub rpc: RpcView,
    pub probe: Probe,
}

impl View for Probed {
    type V = ProbedView;

    open spec fn view(&self) -> ProbedView {
        ProbedView { rpc: self.rpc@, probe: self.probe }
    }
}

/// The views of a list of probed upstreams, in order.
pub open spec fn probed_view(list: Seq<Probed>) -> Seq<ProbedView> {
    list.map_values(|p: Probed| p@)
}

/// The upstreams of a list of probed upstreams, in order.
pub open spec fn rpcs_of(list: Seq<ProbedView>) -> Seq<RpcView> {
    list.map_values(|p: ProbedView| p.rpc)
}

/// Picks the probed upstreams that are healthy, or those that are not.
pub open spec fn with_health(up: bool) -> spec_fn(ProbedView) -> bool {
    |p: ProbedView| p.probe.healthy() == up
}

/// The upstreams of a probed active list that are to be demoted.
pub open spec fn failing(snapshot: Seq<ProbedView>) -> Seq<RpcView> {
    rpcs_of(snapshot.filter(with_health(false)))
}

/// The upstreams of a probed poverty list that are to be promoted.
pub open spec fn recovered(snapshot: Seq<ProbedView>) -> Seq<RpcView> {
    rpcs_of(snapshot.filter(with_health(true)))
}

/// Whether every probe of the list found a healthy upstream.
pub open spec fn all_healthy(snapshot: Seq<ProbedView>) -> bool {
    forall|i: int| 0 <= i < snapshot.len() ==> (#[trigger] snapshot[i]).probe.healthy()
}

/// Whether some upstream of `pool` has the URL `url`.
pub open spec fn has_url(pool: Seq<RpcView>, url: Seq<char>) -> bool {
    exists|i: int| 0 <= i < pool.len() && (#[trigger] pool[i]).url == url
}

/// Picks the upstreams whose URL is not `url`.
pub open spec fn other_than(url: Seq<char>) -> spec_fn(RpcView) -> bool {
    |r: RpcView| r.url != url
}

/// Picks the upstreams whose URL no upstream of `moved` has.
pub open spec fn not_among(moved: Seq<RpcView>) -> spec_fn(RpcView) -> bool {
    |r: RpcView| !has_url(moved, r.url)
}

/// The two lists after a sweep. Each demoted upstream leaves the active
/// list, by URL, and joins the poverty list; then each promoted upstream
/// leaves the poverty list, by URL, and joins the active list.
pub open spec fn swept(
    active: Seq<RpcView>,
    poverty: Seq<RpcView>,
    demote: Seq<RpcView>,
    promote: Seq<RpcView>,
) -> (Seq<RpcView>, Seq<RpcView>) {
    (active.filter(not_among(demote)) + promote, (poverty + demote).filter(not_among(promote)))
}

/// The copies of the upstreams of `snapshot` whose health is `up`.
pub fn probed_with(snapshot: &Vec<Probed>, up: bool) -> (found: Vec<Rpc>)
    ensures
        pool_view(found@) == rpcs_of(probed_view(snapshot@).filter(with_health(up))),
{
    let ghost all = probed_view(snapshot@);
    let mut found: Vec<Rpc> = Vec::new();
    let mut i: usize = 0;
    proof {
        reveal(Seq::filter);
        assert(all.take(0).filter(with_health(up)) =~= Seq::empty());
        assert(pool_view(found@) =~= rpcs_of(all.take(0).filter(with_health(up))));
    }
    while i < snapshot.len()
        invariant
            i <= snapshot.len(),
            all == probed_view(snapshot@),
            pool_view(found@) == rpcs_of(all.take(i as int).filter(with_health(up))),
        decreases snapshot.len() - i,
    {
        let ghost before = pool_view(found@);
        if snapshot[i].probe.is_healthy() == up {
            found.push(snapshot[i].rpc.clone());
        }
        proof {
            reveal(Seq::filter);
            let next = all.take(i + 1);
            assert(next.drop_last() =~= all.take(i as int));
            assert(next.last() == all[i as int]);
            if all[i as int].probe.healthy() == up {
                assert(pool_view(found@) =~= before.push(all[i as int].rpc));
                assert(rpcs_of(next.filter(with_health(up))) =~= before.push(all[i as int].rpc));
            }
        }
        i = i + 1;
    }
    assert(all.take(i as int) =~= all);
    found
}

/// Removes every upstream with the URL `url` from `list`.
pub fn remove_url(list: &mut Vec<Rpc>, url: &String)
    ensures
        pool_view(final(list)@) == pool_view(old(list)@).filter(other_than(url@)),
{
    let ghost all = pool_view(list@);
    let ghost mut done: int = 0;
    let mut i: usize = 0;
    proof {
        reveal(Seq::filter);
        assert(all.take(0).filter(other_than(url@)) =~= Seq::empty());
        assert(pool_view(list@).take(0) =~= Seq::empty());
        assert(pool_view(list@).skip(0) =~= all.skip(0));
    }
    while i < list.len()
        invariant
            0 <= i <= list.len(),
            0 <= done <= all.len(),
            list.len() - i == all.len() - done,
            pool_view(list@).take(i as int) == all.take(done).filter(other_than(url@)),
            pool_view(list@).skip(i as int) == all.skip(done),
        decreases list.len() - i,
    {
        let ghost cur = pool_view(list@);
        proof {
            reveal(Seq::filter);
            assert(cur.skip(i as int)[0] == all.skip(done)[0]);
            assert(cur[i as int] == all[done]);
            let next = all.take(done + 1);
            assert(next.drop_last() =~= all.take(done));
            assert(next.last() == all[done]);
        }
        if list[i].url == *url {
            list.remove(i);
            proof {
                let now = pool_view(list@);
                assert(now =~= cur.remove(i as int));
                assert(now.take(i as int) =~= cur.take(i as int));
                assert(now.skip(i as int) =~= cur.skip(i as int).skip(1));
                assert(all.skip(done + 1) =~= all.skip(done).skip(1));
            }
        } else {
            proof {
                assert(cur.take(i + 1) =~= cur.take(i as int).push(cur[i as int]));
                assert(cur.skip(i + 1) =~= cur.skip(i as int).skip(1));
                assert(all.skip(done + 1) =~= all.skip(done).skip(1));
            }
            i = i + 1;
        }
        proof {
            done = done + 1;
        }
    }
    proof {
        assert(pool_view(list@).take(i as int) =~= pool_view(list@));
        assert(all.take(done) =~= all);
    }
}

/// Removing one more URL narrows what `not_among` lets through.
pub proof fn lemma_filter_one_more(pool: Seq<RpcView>, moved: Seq<RpcView>, next: RpcView)
    ensures
        pool.filter(not_among(moved)).filter(other_than(next.url)) == pool.filter(
            not_among(moved.push(next)),
        ),
    decreases pool.len(),
{
    reveal(Seq::filter);
    if pool.len() > 0 {
        lemma_filter_one_more(pool.drop_last(), moved, next);
        let last = pool.last();
        let more = moved.push(next);
        assert(has_url(more, last.url) <==> has_url(moved, last.url) || last.url == next.url) by {
            if has_url(moved, last.url) {
                let i = choose|i: int| 0 <= i < moved.len() && (#[trigger] moved[i]).url == last.url;
                assert(more[i].url == last.url);
            }
            if last.url == next.url {
                assert(more[moved.len() as int].url == last.url);
            }
            if has_url(more, last.url) {
                let i = choose|i: int| 0 <= i < more.len() && (#[trigger] more[i]).url == last.url;
                if i < moved.len() {
                    assert(moved[i].url == last.url);
                }
            }
        }
        if not_among(moved)(last) {
            let kept = pool.drop_last().filter(not_among(moved));
            assert(kept.push(last).drop_last() =~= kept);
        }
    } else {
        assert(pool.filter(not_among(moved)) =~= Seq::<RpcView>::empty());
    }
}

/// Nothing is held back where nothing was moved.
pub proof fn lemma_filter_none_moved(pool: Seq<RpcView>)
    ensures
        pool.filter(not_among(Seq::empty())) == pool,
    decreases pool.len(),
{
    reveal(Seq::filter);
    if pool.len() > 0 {
        lemma_filter_none_moved(pool.drop_last());
        assert(pool.drop_last().push(pool.last()) =~= pool);
    }
}

/// Moves the upstreams `moved` over: each leaves `from`, by URL, and its
/// copy joins `to` at the end.
pub fn move_all(from: &mut Vec<Rpc>, to: &mut Vec<Rpc>, moved: &Vec<Rpc>)
    ensures
        pool_view(final(from)@) == pool_view(old(from)@).filter(not_among(pool_view(moved@))),
        pool_view(final(to)@) == pool_view(old(to)@) + pool_view(moved@),
{
    let ghost source = pool_view(from@);
    let ghost target = pool_view(to@);
    let ghost all = pool_view(moved@);
    let mut i: usize = 0;
    proof {
        lemma_filter_none_moved(source);
        assert(all.take(0) =~= Seq::empty());
        assert(target + all.take(0) =~= target);
    }
    while i < moved.len()
        invariant
            i <= moved.len(),
            all == pool_view(moved@),
            pool_view(from@) == source.filter(not_among(all.take(i as int))),
            pool_view(to@) == target + all.take(i as int),
        decreases moved.len() - i,
    {
        remove_url(from, &moved[i].url);
        let copy = moved[i].clone();
        let ghost before = pool_view(to@);
        to.push(copy);
        proof {
            lemma_filter_one_more(source, all.take(i as int), all[i as int]);
            assert(all.take(i + 1) =~= all.take(i as int).push(all[i as int]));
            assert(pool_view(to@) =~= before.push(all[i as int]));
            assert(pool_view(to@) =~= target + all.take(i + 1));
        }
        i = i + 1;
    }
    assert(all.take(i as int) =~= all);
}

/// Whether every probe of `snapshot` found a healthy upstream.
pub fn every_probe_healthy(snapshot: &Vec<Probed>) -> (ok: bool)
    ensures
        ok == all_healthy(probed_view(snapshot@)),
{
    let mut i: usize = 0;
    while i < snapshot.len()
        invariant
            i <= snapshot.len(),
            forall|j: int| 0 <= j < i ==> (#[trigger] probed_view(snapshot@)[j]).probe.healthy(),
        decreases snapshot.len() - i,
    {
        if !snapshot[i].probe.is_healthy() {
            assert(!probed_view(snapshot@)[i as int].probe.healthy());
            return false;
        }
        i = i + 1;
    }
    true
}

/// Applies one round of probes to the two lists.
///
/// `active_probes` and `poverty_probes` hold the upstreams of either list as
/// they stood when they were probed. Every active upstream whose probe was
/// not answered with 200 is demoted, every poverty upstream whose probe was
/// is promoted. The sweep reports `Unresponsive` when any probe failed; the
/// lists are changed all the same.
pub fn check_aptos_rpc_status(
    rpc_list: &mut Vec<Rpc>,
    poverty_list: &mut Vec<Rpc>,
    active_probes: &Vec<Probed>,
    poverty_probes: &Vec<Probed>,
) -> (result: Result<(), HealthError>)
    ensures
        (pool_view(final(rpc_list)@), pool_view(final(poverty_list)@)) == swept(
            pool_view(old(rpc_list)@),
            pool_view(old(poverty_list)@),
            failing(probed_view(active_probes@)),
            recovered(probed_view(poverty_probes@)),
        ),
        result is Ok <==> all_healthy(probed_view(active_probes@)) && all_healthy(
            probed_view(poverty_probes@),
        ),
        result matches Err(e) ==> e is Unresponsive,
{
    let to_remove = probed_with(active_probes, false);
    let to_add = probed_with(poverty_probes, true);
    let active_ok = every_probe_healthy(active_probes);
    let poverty_ok = every_probe_healthy(poverty_probes);
    move_all(rpc_list, poverty_list, &to_remove);
    move_all(poverty_list, rpc_list, &to_add);
    if active_ok && poverty_ok {
        Ok(())
    } else {
        Err(HealthError::Unresponsive)
    }
}

/// One sweep of the health monitor. See `check_aptos_rpc_status`.
pub fn health_check(
    rpc_list: &mut Vec<Rpc>,
    poverty_list: &mut Vec<Rpc>,
    active_probes: &Vec<Probed>,
    poverty_probes: &Vec<Probed>,
) -> (result: Result<(), HealthError>)
    ensures
        (pool_view(final(rpc_list)@), pool_view(final(poverty_list)@)) == swept(
            pool_view(old(rpc_list)@),
            pool_view(old(poverty_list)@),
            failing(probed_view(active_probes@)),
            recovered(probed_view(poverty_probes@)),
        ),
        result is Ok <==> all_healthy(probed_view(active_probes@)) && all_healthy(
            probed_view(poverty_probes@),
        ),
        result matches Err(e) ==> e is Unresponsive,
{
    check_aptos_rpc_status(rpc_list, poverty_list, active_probes, poverty_probes)
}

/// What a filter keeps: the members that the predicate holds of.
pub proof fn lemma_filter_members<A>(s: Seq<A>, pred: spec_fn(A) -> bool)
    ensures
        forall|x: A| #[trigger] s.filter(pred).contains(x) <==> s.contains(x) && pred(x),
{
    assert forall|x: A| #[trigger] s.filter(pred).contains(x) <==> s.contains(x) && pred(x) by {
        if s.filter(pred).contains(x) {
            s.lemma_filter_contains_rev(pred, x);
            let i = choose|i: int| 0 <= i < s.filter(pred).len() && s.filter(pred)[i] == x;
            s.lemma_filter_pred(pred, i);
        }
        if s.contains(x) && pred(x) {
            let j = choose|j: int| 0 <= j < s.len() && s[j] == x;
            s.lemma_filter_contains(pred, j);
        }
    }
}

/// A filter keeps nothing when the predicate holds of no member.
pub proof fn lemma_filter_nothing<A>(s: Seq<A>, pred: spec_fn(A) -> bool)
    requires
        forall|i: int| 0 <= i < s.len() ==> !pred(#[trigger] s[i]),
    ensures
        s.filter(pred) == Seq::<A>::empty(),
    decreases s.len(),
{
    reveal(Seq::filter);
    if s.len() > 0 {
        lemma_filter_nothing(s.drop_last(), pred);
    }
}

/// No URL stands in both lists.
pub open spec fn disjoint(active: Seq<RpcView>, poverty: Seq<RpcView>) -> bool {
    forall|i: int, j: int|
        #![trigger active[i], poverty[j]]
        0 <= i < active.len() && 0 <= j < poverty.len() ==> active[i].url != poverty[j].url
}

/// Lists that are apart stay apart while every upstream keeps its URL.
pub proof fn lemma_partition_rests_on_urls(
    active: Seq<RpcView>,
    poverty: Seq<RpcView>,
    active_after: Seq<RpcView>,
    poverty_after: Seq<RpcView>,
)
    requires
        disjoint(active, poverty),
        same_urls(active, active_after),
        same_urls(poverty, poverty_after),
    ensures
        disjoint(active_after, poverty_after),
{
    assert forall|i: int, j: int|
        #![trigger active_after[i], poverty_after[j]]
        0 <= i < active_after.len() && 0 <= j < poverty_after.len() implies active_after[i].url
        != poverty_after[j].url by {
        assert(active[i].url != poverty[j].url);
    }
}

/// A sweep keeps the two lists apart and loses no upstream: where no URL
/// stood in both lists before, none does afterwards, and every URL that
/// stood in one of them still stands in one.
pub proof fn lemma_sweep_keeps_partition(
    active: Seq<RpcView>,
    poverty: Seq<RpcView>,
    demote: Seq<RpcView>,
    promote: Seq<RpcView>,
)
    requires
        disjoint(active, poverty),
    ensures
        disjoint(
            swept(active, poverty, demote, promote).0,
            swept(active, poverty, demote, promote).1,
        ),
        forall|u: Seq<char>|
            has_url(active, u) || has_url(poverty, u) ==> has_url(
                swept(active, poverty, demote, promote).0,
                u,
            ) || has_url(swept(active, poverty, demote, promote).1, u),
{
    let stay = active.filter(not_among(demote));
    let pool = poverty + demote;
    let held = pool.filter(not_among(promote));
    let up = stay + promote;
    lemma_filter_members(active, not_among(demote));
    lemma_filter_members(pool, not_among(promote));
    assert forall|i: int, j: int|
        #![trigger up[i], held[j]]
        0 <= i < up.len() && 0 <= j < held.len() implies up[i].url != held[j].url by {
        let x = up[i];
        let y = held[j];
        assert(held.contains(y));
        assert(pool.contains(y) && !has_url(promote, y.url));
        let k = choose|k: int| 0 <= k < pool.len() && pool[k] == y;
        if i < stay.len() {
            assert(stay[i] == x);
            assert(stay.contains(x));
            assert(active.contains(x) && !has_url(demote, x.url));
            let a = choose|a: int| 0 <= a < active.len() && active[a] == x;
            if k < poverty.len() {
                assert(active[a].url != poverty[k].url);
            } else {
                assert(demote[k - poverty.len()] == y);
            }
        } else {
            assert(promote[i - stay.len()] == x);
        }
    }
    assert forall|u: Seq<char>| has_url(active, u) || has_url(poverty, u) implies has_url(up, u)
        || has_url(held, u) by {
        if has_url(promote, u) {
            let t = choose|t: int| 0 <= t < promote.len() && (#[trigger] promote[t]).url == u;
            assert(up[stay.len() + t].url == u);
        } else if has_url(poverty, u) {
            let k = choose|k: int| 0 <= k < poverty.len() && (#[trigger] poverty[k]).url == u;
            assert(pool[k] == poverty[k]);
            assert(pool.contains(poverty[k]));
            assert(held.contains(poverty[k]));
            let h = choose|h: int| 0 <= h < held.len() && held[h] == poverty[k];
            assert(held[h].url == u);
        } else if has_url(demote, u) {
            let d = choose|d: int| 0 <= d < demote.len() && (#[trigger] demote[d]).url == u;
            assert(pool[poverty.len() + d] == demote[d]);
            assert(pool.contains(demote[d]));
            assert(held.contains(demote[d]));
            let h = choose|h: int| 0 <= h < held.len() && held[h] == demote[d];
            assert(held[h].url == u);
        } else {
            let a = choose|a: int| 0 <= a < active.len() && (#[trigger] active[a]).url == u;
            assert(active.contains(active[a]));
            assert(stay.contains(active[a]));
            let h = choose|h: int| 0 <= h < stay.len() && stay[h] == active[a];
            assert(up[h].url == u);
        }
    }
}

/// A sweep changes no upstream: every entry of either list afterwards is an
/// entry of one of the lists before, or one of the probed copies. So the
/// windows of sound upstreams stay sound.
pub proof fn lemma_sweep_keeps_windows(
    active: Seq<RpcView>,
    poverty: Seq<RpcView>,
    demote: Seq<RpcView>,
    promote: Seq<RpcView>,
)
    requires
        pool_wf(active),
        pool_wf(poverty),
        pool_wf(demote),
        pool_wf(promote),
    ensures
        pool_wf(swept(active, poverty, demote, promote).0),
        pool_wf(swept(active, poverty, demote, promote).1),
{
    let stay = active.filter(not_among(demote));
    let pool = poverty + demote;
    let held = pool.filter(not_among(promote));
    let live = stay + promote;
    lemma_filter_members(active, not_among(demote));
    lemma_filter_members(pool, not_among(promote));
    assert forall|i: int| 0 <= i < live.len() implies (#[trigger] live[i]).status.wf()
        && live[i].status.ma_length >= 1 by {
        if i < stay.len() {
            assert(stay[i] == live[i]);
            assert(stay.contains(live[i]));
            let a = choose|a: int| 0 <= a < active.len() && active[a] == live[i];
            assert(active[a].status.wf());
        } else {
            assert(promote[i - stay.len()] == live[i]);
        }
    }
    assert forall|j: int| 0 <= j < held.len() implies (#[trigger] held[j]).status.wf()
        && held[j].status.ma_length >= 1 by {
        assert(held.contains(held[j]));
        let k = choose|k: int| 0 <= k < pool.len() && pool[k] == held[j];
        if k < poverty.len() {
            assert(poverty[k] == held[j]);
        } else {
            assert(demote[k - poverty.len()] == held[j]);
        }
    }
}

/// Picks the upstreams that `up` holds to be healthy, or those it does not.
pub open spec fn health_under(up: spec_fn(Seq<char>) -> bool, wanted: bool) -> spec_fn(
    RpcView,
) -> bool {
    |r: RpcView| up(r.url) == wanted
}

/// The two lists after a sweep in which every upstream is probed as it
/// stands in its list, and a probe finds an upstream healthy exactly when
/// `up` holds of its URL.
pub open spec fn sweep_under(
    active: Seq<RpcView>,
    poverty: Seq<RpcView>,
    up: spec_fn(Seq<char>) -> bool,
) -> (Seq<RpcView>, Seq<RpcView>) {
    swept(
        active,
        poverty,
        active.filter(health_under(up, false)),
        poverty.filter(health_under(up, true)),
    )
}

/// Whether `snapshot` holds the upstreams of `pool` as they stand, each
/// probed healthy exactly when `up` holds of its URL.
pub open spec fn probes_of(
    snapshot: Seq<ProbedView>,
    pool: Seq<RpcView>,
    up: spec_fn(Seq<char>) -> bool,
) -> bool {
    &&& rpcs_of(snapshot) == pool
    &&& forall|i: int|
        0 <= i < snapshot.len() ==> (#[trigger] snapshot[i]).probe.healthy() == up(
            snapshot[i].rpc.url,
        )
}

/// Probes that find each upstream of `pool` as it stands, healthy exactly
/// when `up` holds of its URL, demote and promote what `sweep_under` does.
pub proof fn lemma_probes_under(
    pool: Seq<RpcView>,
    snapshot: Seq<ProbedView>,
    up: spec_fn(Seq<char>) -> bool,
    wanted: bool,
)
    requires
        probes_of(snapshot, pool, up),
    ensures
        rpcs_of(snapshot.filter(with_health(wanted))) == pool.filter(health_under(up, wanted)),
    decreases snapshot.len(),
{
    reveal(Seq::filter);
    assert(snapshot.len() == pool.len());
    if snapshot.len() > 0 {
        let rest = snapshot.drop_last();
        assert(rpcs_of(rest) =~= pool.drop_last());
        lemma_probes_under(pool.drop_last(), rest, up, wanted);
        assert(pool.last() == snapshot.last().rpc);
        let kept = rest.filter(with_health(wanted));
        if snapshot.last().probe.healthy() == wanted {
            assert(rpcs_of(kept.push(snapshot.last())) =~= rpcs_of(kept).push(pool.last()));
        }
    } else {
        assert(rpcs_of(snapshot.filter(with_health(wanted))) =~= Seq::<RpcView>::empty());
    }
}

/// A second sweep changes nothing while the upstreams' health stays as it
/// was at the first.
pub proof fn lemma_sweep_idempotent(
    active: Seq<RpcView>,
    poverty: Seq<RpcView>,
    up: spec_fn(Seq<char>) -> bool,
)
    ensures
        sweep_under(
            sweep_under(active, poverty, up).0,
            sweep_under(active, poverty, up).1,
            up,
        ) == sweep_under(active, poverty, up),
{
    let demote = active.filter(health_under(up, false));
    let promote = poverty.filter(health_under(up, true));
    let stay = active.filter(not_among(demote));
    let pool = poverty + demote;
    let held = pool.filter(not_among(promote));
    let live = stay + promote;
    lemma_filter_members(active, health_under(up, false));
    lemma_filter_members(poverty, health_under(up, true));
    lemma_filter_members(active, not_among(demote));
    lemma_filter_members(pool, not_among(promote));
    assert forall|i: int| 0 <= i < live.len() implies up((#[trigger] live[i]).url) by {
        let x = live[i];
        if i < stay.len() {
            assert(stay[i] == x);
            assert(stay.contains(x));
            if !up(x.url) {
                assert(demote.contains(x));
                let d = choose|d: int| 0 <= d < demote.len() && demote[d] == x;
                assert(demote[d].url == x.url);
                assert(has_url(demote, x.url));
            }
        } else {
            assert(promote[i - stay.len()] == x);
            assert(promote.contains(x));
        }
    }
    assert forall|j: int| 0 <= j < held.len() implies !up((#[trigger] held[j]).url) by {
        let y = held[j];
        assert(held.contains(y));
        let k = choose|k: int| 0 <= k < pool.len() && pool[k] == y;
        if k < poverty.len() {
            assert(poverty[k] == y);
            assert(poverty.contains(y));
            if up(y.url) {
                assert(promote.contains(y));
                let t = choose|t: int| 0 <= t < promote.len() && promote[t] == y;
                assert(promote[t].url == y.url);
                assert(has_url(promote, y.url));
            }
        } else {
            assert(demote[k - poverty.len()] == y);
            assert(demote.contains(y));
        }
    }
    lemma_filter_nothing(live, health_under(up, false));
    lemma_filter_nothing(held, health_under(up, true));
    lemma_filter_none_moved(live);
    assert(held + Seq::<RpcView>::empty() =~= held);
    lemma_filter_none_moved(held);
    assert(live + Seq::<RpcView>::empty() =~= live);
}

/// Two sweeps in a row, with no change upstream in between, leave the lists
/// as the first sweep left them: where each sweep probes the lists as they
/// stand and the probes of both find the same upstreams healthy, the second
/// sweep changes nothing.
pub proof fn lemma_second_sweep_changes_nothing(
    active: Seq<RpcView>,
    poverty: Seq<RpcView>,
    up: spec_fn(Seq<char>) -> bool,
    first_active: Seq<ProbedView>,
    first_poverty: Seq<ProbedView>,
    second_active: Seq<ProbedView>,
    second_poverty: Seq<ProbedView>,
)
    requires
        probes_of(first_active, active, up),
        probes_of(first_poverty, poverty, up),
        probes_of(
            second_active,
            swept(active, poverty, failing(first_active), recovered(first_poverty)).0,
            up,
        ),
        probes_of(
            second_poverty,
            swept(active, poverty, failing(first_active), recovered(first_poverty)).1,
            up,
        ),
    ensures
        ({
            let once = swept(active, poverty, failing(first_active), recovered(first_poverty));
            swept(once.0, once.1, failing(second_active), recovered(second_poverty)) == once
        }),
{
    let once = swept(active, poverty, failing(first_active), recovered(first_poverty));
    lemma_probes_under(active, first_active, up, false);
    lemma_probes_under(poverty, first_poverty, up, true);
    lemma_probes_under(once.0, second_active, up, false);
    lemma_probes_under(once.1, second_poverty, up, true);
    lemma_sweep_idempotent(active, poverty, up);
}

} // verus!
