//! The numbers a run reports: latency percentiles and offered and achieved throughput.
use vstd::prelude::*;

use crate::loadgen::all_wf;
use crate::protocol::LatencyRecord;

verus! {

/// The latency of each record, in nanoseconds.
pub open spec fn latencies_of(lrs: Seq<LatencyRecord>) -> Seq<u64> {
    lrs.map_values(|r: LatencyRecord| (r.recv_time - r.send_time) as u64)
}

/// `s` is in ascending order.
pub open spec fn ascending(s: Seq<u64>) -> bool {
    forall|i: int, j: int| 0 <= i <= j < s.len() ==> s[i] <= s[j]
}

/// The index of the `pct`-th percentile in a sorted sequence of `len` values.
pub open spec fn rank(len: nat, pct: nat) -> nat {
    len * pct / 100
}

/// What a run reports: three latency percentiles in nanoseconds, and the requests sent
/// and the responses received per second.
#[derive(Clone, Copy, Debug, PartialEq, Eq, Structural)]
pub struct Summary {
    pub p50: u64,
    pub p95: u64,
    pub p99: u64,
    pub offered: u64,
    pub achieved: u64,
}

/// The summary of a run whose sorted latencies are `sorted`, which sent `sent` requests
/// over `runtime` seconds.
pub open spec fn summary_of(sorted: Seq<u64>, sent: nat, runtime: nat) -> Summary {
    Summary {
        p50: sorted[rank(sorted.len(), 50) as int],
        p95: sorted[rank(sorted.len(), 95) as int],
        p99: sorted[rank(sorted.len(), 99) as int],
        offered: (sent / runtime) as u64,
        achieved: (sorted.len() / runtime) as u64,
    }
}

/// Relies on slice::sort: afterwards the values are in ascending order, and they are the
/// same values.
#[verifier::external_body]
fn sort_ascending(v: &mut Vec<u64>)
    ensures
        ascending(final(v)@),
        final(v)@.to_multiset() == old(v)@.to_multiset(),
{
    v.sort()
}

/// The latency of each record, in nanoseconds, in the records' order.
pub fn latencies(lrs: &Vec<LatencyRecord>) -> (r: Vec<u64>)
    requires
        all_wf(lrs@),
    ensures
        r@ == latencies_of(lrs@),
{
    let mut out: Vec<u64> = Vec::new();
    let mut i: usize = 0;
    while i < lrs.len()
        invariant
            i <= lrs@.len(),
            all_wf(lrs@),
            out@ == latencies_of(lrs@.subrange(0, i as int)),
        decreases lrs@.len() - i,
    {
        assert(lrs@[i as int].wf());
        out.push(lrs[i].latency());
        i = i + 1;
        assert(out@ =~= latencies_of(lrs@.subrange(0, i as int)));
    }
    assert(lrs@.subrange(0, i as int) =~= lrs@);
    out
}

/// The latencies of the records in ascending order.
pub fn sorted_latencies(lrs: &Vec<LatencyRecord>) -> (r: Vec<u64>)
    requires
        all_wf(lrs@),
    ensures
        ascending(r@),
        r@.to_multiset() == latencies_of(lrs@).to_multiset(),
        r@.len() == lrs@.len(),
{
    let mut v = latencies(lrs);
    sort_ascending(&mut v);
    proof {
        v@.to_multiset_ensures();
        latencies_of(lrs@).to_multiset_ensures();
    }
    v
}

/// The index of the `pct`-th percentile among `len` sorted values: `len * pct / 100`,
/// rounded down.
pub fn percentile_index(len: usize, pct: usize) -> (r: usize)
    requires
        pct <= 100,
    ensures
        r == rank(len as nat, pct as nat),
        pct < 100 && len > 0 ==> r < len,
{
    let q = len / 100;
    let m = len % 100;
    proof {
        assert(q * pct <= q * 100) by (nonlinear_arith)
            requires
                pct <= 100,
        ;
        assert(len * pct / 100 == q * pct + m * pct / 100) by (nonlinear_arith)
            requires
                q == len / 100,
                m == len % 100,
                len >= 0,
        ;
        assert(m * pct / 100 <= m) by (nonlinear_arith)
            requires
                0 <= m,
                pct <= 100,
        ;
        assert(pct < 100 && len > 0 ==> len * pct / 100 < len) by (nonlinear_arith)
            requires
                len >= 0,
        ;
    }
    q * pct + m * pct / 100
}

/// Summarizes latencies that are already sorted, for a run that sent `sent` requests
/// over `runtime` seconds; nothing when there are no latencies or the runtime is zero.
pub fn summarize_sorted(sorted: &Vec<u64>, sent: usize, runtime: u64) -> (r: Option<Summary>)
    ensures
        r is None <==> (sorted@.len() == 0 || runtime == 0),
        r matches Some(s) ==> s == summary_of(sorted@, sent as nat, runtime as nat),
{
    let len = sorted.len();
    if len == 0 || runtime == 0 {
        return None;
    }
    let p50 = sorted[percentile_index(len, 50)];
    let p95 = sorted[percentile_index(len, 95)];
    let p99 = sorted[percentile_index(len, 99)];
    let offered = sent as u64 / runtime;
    let achieved = len as u64 / runtime;
    Some(Summary { p50, p95, p99, offered, achieved })
}

/// Summarizes a run's latency records, for a run that sent `sent` requests over
/// `runtime` seconds; nothing when there are no records or the runtime is zero.
pub fn summarize(lrs: &Vec<LatencyRecord>, sent: usize, runtime: u64) -> (r: Option<Summary>)
    requires
        all_wf(lrs@),
    ensures
        r is None <==> (lrs@.len() == 0 || runtime == 0),
        r matches Some(s) ==> exists|sorted: Seq<u64>|
            ascending(sorted) && sorted.to_multiset() == latencies_of(lrs@).to_multiset() && s
                == summary_of(sorted, sent as nat, runtime as nat),
{
    let sorted = sorted_latencies(lrs);
    summarize_sorted(&sorted, sent, runtime)
}

} // verus!
