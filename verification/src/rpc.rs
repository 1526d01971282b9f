//! The upstream descriptor: identity, latency window and the counters that
//! the selector reads and writes.

use crate::sanitize::{sanitize_url, sanitized};
use vstd::prelude::*;

verus! {

/// The sum of a window of latency samples.
pub open spec fn sum(samples: Seq<u64>) -> nat
    decreases samples.len(),
{
    if samples.len() == 0 {
        0
    } else {
        sum(samples.drop_last()) + samples.last() as nat
    }
}

/// The arithmetic mean of a window in whole nanoseconds, rounded down; zero
/// for an empty window.
pub open spec fn mean(samples: Seq<u64>) -> nat {
    if samples.len() == 0 {
        0
    } else {
        sum(samples) / samples.len()
    }
}

/// The window after one more sample: when it already holds `capacity`
/// samples or more, the oldest one leaves first.
pub open spec fn slide(window: Seq<u64>, capacity: u64, latest: u64) -> Seq<u64> {
    if window.len() > 0 && window.len() >= capacity {
        window.remove(0).push(latest)
    } else {
        window.push(latest)
    }
}

/// A window sums to at most its length times the largest sample.
pub proof fn lemma_sum_bound(samples: Seq<u64>)
    ensures
        sum(samples) <= samples.len() * u64::MAX,
    decreases samples.len(),
{
    if samples.len() > 0 {
        lemma_sum_bound(samples.drop_last());
        assert(sum(samples) <= (samples.len() - 1) * u64::MAX + u64::MAX);
        assert((samples.len() - 1) * u64::MAX + u64::MAX == samples.len() * u64::MAX)
            by (nonlinear_arith);
    }
}

/// The mean of a window is itself a sample's size.
pub proof fn lemma_mean_bound(samples: Seq<u64>)
    ensures
        mean(samples) <= u64::MAX,
{
    if samples.len() > 0 {
        lemma_sum_bound(samples);
        let n = samples.len() as int;
        let s = sum(samples) as int;
        assert(s / n <= u64::MAX) by (nonlinear_arith)
            requires
                n > 0,
                0 <= s <= n * u64::MAX,
        ;
    }
}

/// Health and latency figures of one upstream. Latencies are whole
/// nanoseconds.
#[derive(Debug)]
pub struct Status {
    /// Set on an upstream that failed its measurement at startup.
    pub is_erroring: bool,
    /// When the upstream last failed, in microseconds since the epoch.
    /// Carried along; nothing here writes it.
    pub last_error: u64,
    /// The moving average over `latency_data`.
    pub latency: u64,
    /// The most recent samples, oldest first.
    pub latency_data: Vec<u64>,
    /// How many samples the window keeps.
    pub ma_length: u64,
}

pub struct StatusView {
    pub is_erroring: bool,
    pub last_error: u64,
    pub latency: u64,
    pub latency_data: Seq<u64>,
    pub ma_length: u64,
}

impl StatusView {
    /// The window holds no more samples than it is long.
    pub open spec fn fits(self) -> bool {
        self.latency_data.len() <= self.ma_length
    }

    /// The window is within its length and `latency` is its mean.
    pub open spec fn wf(self) -> bool {
        &&& self.fits()
        &&& self.latency == mean(self.latency_data)
    }

    /// The status after `latest` was recorded.
    pub open spec fn record(self, latest: u64) -> StatusView {
        let window = slide(self.latency_data, self.ma_length, latest);
        StatusView { latency: mean(window) as u64, latency_data: window, ..self }
    }
}

impl View for Status {
    type V = StatusView;

    open spec fn view(&self) -> StatusView {
        StatusView {
            is_erroring: self.is_erroring,
            last_error: self.last_error,
            latency: self.latency,
            latency_data: self.latency_data@,
            ma_length: self.ma_length,
        }
    }
}

impl Clone for Status {
    fn clone(&self) -> (copy: Self)
        ensures
            copy@ == self@,
    {
        Status {
            is_erroring: self.is_erroring,
            last_error: self.last_error,
            latency: self.latency,
            latency_data: self.latency_data.clone(),
            ma_length: self.ma_length,
        }
    }
}

impl Default for Status {
    fn default() -> (status: Self)
        ensures
            status@ == Status::spec_default(),
    {
        Status {
            is_erroring: false,
            last_error: 0,
            latency: 0,
            latency_data: Vec::new(),
            ma_length: 0,
        }
    }
}

impl Status {
    /// A status with nothing recorded and a window of length zero.
    pub open spec fn spec_default() -> StatusView {
        StatusView {
            is_erroring: false,
            last_error: 0,
            latency: 0,
            latency_data: Seq::empty(),
            ma_length: 0,
        }
    }

    /// The mean of the window, rounded down to whole nanoseconds.
    pub fn window_mean(&self) -> (average: u64)
        ensures
            average == mean(self.latency_data@),
    {
        mean_of(&self.latency_data)
    }
}

/// The mean of `samples`, rounded down; zero where there are none.
pub fn mean_of(samples: &Vec<u64>) -> (average: u64)
    ensures
        average == mean(samples@),
{
    let n = samples.len();
    if n == 0 {
        return 0;
    }
    let mut total: u128 = 0;
    let mut i: usize = 0;
    while i < n
        invariant
            i <= n,
            n == samples.len(),
            total == sum(samples@.take(i as int)),
        decreases n - i,
    {
        proof {
            let next = samples@.take(i + 1);
            assert(next.drop_last() =~= samples@.take(i as int));
            lemma_sum_bound(next);
            assert((i + 1) * u64::MAX <= usize::MAX * u64::MAX) by (nonlinear_arith)
                requires
                    i + 1 <= usize::MAX,
            ;
            assert(usize::MAX * u64::MAX <= u64::MAX * u64::MAX) by (nonlinear_arith)
                requires
                    usize::MAX <= u64::MAX,
            ;
        }
        total = total + samples[i] as u128;
        i = i + 1;
    }
    proof {
        assert(samples@.take(n as int) =~= samples@);
        lemma_mean_bound(samples@);
    }
    (total / n as u128) as u64
}

/// One upstream endpoint of the pool.
#[derive(Debug)]
pub struct Rpc {
    /// Sanitized name, for logs and the `rpc-used` header.
    pub name: String,
    /// Base URL that requests are forwarded to.
    pub url: String,
    /// Websocket URL, carried through from the configuration.
    pub ws_url: Option<String>,
    pub status: Status,
    /// How many times in a row the selector may pick this upstream.
    pub max_consecutive: u32,
    /// How many times in a row it has been picked.
    pub consecutive: u32,
    /// When it was last picked, in microseconds since the epoch.
    pub last_used: u128,
    /// Microseconds that must pass between two picks.
    pub min_time_delta: u128,
}

pub struct RpcView {
    pub name: Seq<char>,
    pub url: Seq<char>,
    pub ws_url: Option<Seq<char>>,
    pub status: StatusView,
    pub max_consecutive: u32,
    pub consecutive: u32,
    pub last_used: u128,
    pub min_time_delta: u128,
}

impl RpcView {
    /// The descriptor after `latest` was recorded in its window.
    pub open spec fn record(self, latest: u64) -> RpcView {
        RpcView { status: self.status.record(latest), ..self }
    }
}

/// The view of an optional string.
pub open spec fn text_view(text: Option<String>) -> Option<Seq<char>> {
    match text {
        Some(t) => Some(t@),
        None => None,
    }
}

impl View for Rpc {
    type V = RpcView;

    open spec fn view(&self) -> RpcView {
        RpcView {
            name: self.name@,
            url: self.url@,
            ws_url: text_view(self.ws_url),
            status: self.status@,
            max_consecutive: self.max_consecutive,
            consecutive: self.consecutive,
            last_used: self.last_used,
            min_time_delta: self.min_time_delta,
        }
    }
}

/// Every upstream of `pool` has a window of length one or more that is
/// within its length, and a latency that is the mean of its window.
pub open spec fn pool_wf(pool: Seq<RpcView>) -> bool {
    forall|i: int|
        0 <= i < pool.len() ==> (#[trigger] pool[i]).status.wf() && pool[i].status.ma_length >= 1
}

/// The views of a list of descriptors, in order.
pub open spec fn pool_view(list: Seq<Rpc>) -> Seq<RpcView> {
    list.map_values(|r: Rpc| r@)
}

impl Clone for Rpc {
    fn clone(&self) -> (copy: Self)
        ensures
            copy@ == self@,
    {
        Rpc {
            name: self.name.clone(),
            url: self.url.clone(),
            ws_url: match &self.ws_url {
                Some(w) => Some(w.clone()),
                None => None,
            },
            status: self.status.clone(),
            max_consecutive: self.max_consecutive,
            consecutive: self.consecutive,
            last_used: self.last_used,
            min_time_delta: self.min_time_delta,
        }
    }
}

impl Default for Rpc {
    fn default() -> (rpc: Self)
        ensures
            rpc@ == Rpc::spec_default(),
    {
        Rpc {
            name: String::new(),
            url: String::new(),
            ws_url: None,
            status: Status::default(),
            max_consecutive: 0,
            consecutive: 0,
            last_used: 0,
            min_time_delta: 0,
        }
    }
}

impl Rpc {
    /// The descriptor that stands for "no upstream": empty name and URL,
    /// every counter zero.
    pub open spec fn spec_default() -> RpcView {
        RpcView {
            name: Seq::empty(),
            url: Seq::empty(),
            ws_url: None,
            status: Status::spec_default(),
            max_consecutive: 0,
            consecutive: 0,
            last_used: 0,
            min_time_delta: 0,
        }
    }

    /// The name shown for `url`: its sanitized form, or the URL itself where
    /// it cannot be sanitized.
    pub open spec fn spec_name(url: Seq<char>) -> Seq<char> {
        match sanitized(url) {
            Some(name) => name,
            None => url,
        }
    }

    /// The descriptor of a new upstream: named after its URL, never picked,
    /// nothing recorded.
    pub open spec fn spec_new(
        url: Seq<char>,
        ws_url: Option<Seq<char>>,
        max_consecutive: u32,
        min_time_delta: u128,
        ma_length: u64,
    ) -> RpcView {
        RpcView {
            name: Self::spec_name(url),
            url,
            ws_url,
            status: StatusView { ma_length, ..Status::spec_default() },
            max_consecutive,
            consecutive: 0,
            last_used: 0,
            min_time_delta,
        }
    }

    /// A descriptor that was never picked and has an empty window of length
    /// `ma_length`. `min_time_delta` is in microseconds.
    pub fn new(
        url: String,
        ws_url: Option<String>,
        max_consecutive: u32,
        min_time_delta: u128,
        ma_length: u64,
    ) -> (rpc: Self)
        ensures
            rpc@ == Self::spec_new(
                url@,
                text_view(ws_url),
                max_consecutive,
                min_time_delta,
                ma_length,
            ),
            rpc@.status.wf(),
    {
        let name = match sanitize_url(url.as_str()) {
            Some(name) => name,
            None => url.clone(),
        };
        Rpc {
            name,
            url,
            ws_url,
            status: Status {
                is_erroring: false,
                last_error: 0,
                latency: 0,
                latency_data: Vec::new(),
                ma_length,
            },
            max_consecutive,
            consecutive: 0,
            last_used: 0,
            min_time_delta,
        }
    }

    /// Records `latest`, a latency in nanoseconds: the sample joins the
    /// window, the oldest one leaving first where the window is full, and
    /// `latency` becomes the mean of the new window.
    ///
    /// The window stays within its length unless that length is zero, or
    /// the window was over its length before.
    pub fn update_latency(&mut self, latest: u64)
        ensures
            final(self)@ == old(self)@.record(latest),
            final(self)@.status.latency == mean(final(self)@.status.latency_data),
            old(self)@.status.ma_length >= 1 && old(self)@.status.fits()
                ==> final(self)@.status.wf(),
    {
        if self.status.latency_data.len() > 0 && self.status.latency_data.len() as u64
            >= self.status.ma_length {
            self.status.latency_data.remove(0);
        }
        self.status.latency_data.push(latest);
        self.status.latency = self.status.window_mean();
        proof {
            lemma_mean_bound(self.status.latency_data@);
        }
    }
}

} // verus!
