//! Inter-request pacing with excess-time carry: each iteration has a budget of `delay`
//! nanoseconds; time an iteration spends beyond it is owed and paid back by shortening
//! later busy-waits, never by skipping a send.
use vstd::prelude::*;

verus! {

/// One pacing step: an iteration whose own work took `elapsed`, with `excess` owed from
/// before, busy-waits the first result and leaves the second owed. The debt saturates at
/// the largest `u64`.
pub open spec fn pace(excess: u64, elapsed: u64, delay: u64) -> (u64, u64) {
    let total: int = if excess + elapsed > u64::MAX {
        u64::MAX as int
    } else {
        excess + elapsed
    };
    let spent: int = if total < delay {
        total
    } else {
        delay as int
    };
    ((delay - spent) as u64, (total - spent) as u64)
}

/// Runs the pacing step over iterations whose work took `services`, starting with
/// `excess` owed: the whole time spent (work and busy-waits) and the debt at the end.
pub open spec fn pace_run(excess: u64, services: Seq<u64>, delay: u64) -> (int, u64)
    decreases services.len(),
{
    if services.len() == 0 {
        (0, excess)
    } else {
        let (busy, owed) = pace(excess, services[0], delay);
        let (rest, last) = pace_run(owed, services.drop_first(), delay);
        (services[0] + busy + rest, last)
    }
}

/// The sum of a sequence of durations.
pub open spec fn total(s: Seq<u64>) -> int
    decreases s.len(),
{
    if s.len() == 0 {
        0
    } else {
        s[0] + total(s.drop_first())
    }
}

/// The pacing state of one request loop.
pub struct Pacer {
    /// The budget of one iteration, in nanoseconds.
    pub delay: u64,
    /// The time owed by earlier iterations, in nanoseconds.
    pub excess: u64,
}

impl Pacer {
    /// A pacer that owes nothing.
    pub fn new(delay: u64) -> (p: Pacer)
        ensures
            p.delay == delay,
            p.excess == 0,
    {
        Pacer { delay, excess: 0 }
    }

    /// Charges an iteration whose work took `elapsed` and returns how long to busy-wait
    /// before the next one.
    pub fn next_wait(&mut self, elapsed: u64) -> (busy: u64)
        ensures
            final(self).delay == old(self).delay,
            (busy, final(self).excess) == pace(old(self).excess, elapsed, old(self).delay),
            busy <= old(self).delay,
    {
        let total = self.excess.saturating_add(elapsed);
        let spent = if total < self.delay {
            total
        } else {
            self.delay
        };
        self.excess = total - spent;
        self.delay - spent
    }
}

proof fn lemma_total_nonnegative(s: Seq<u64>)
    ensures
        total(s) >= 0,
    decreases s.len(),
{
    if s.len() > 0 {
        lemma_total_nonnegative(s.drop_first());
    }
}

/// Over any run of iterations, as long as the debt never saturates, the time spent in
/// work and busy-waits together is one budget per iteration plus the change in the debt:
/// a late iteration is paid back by later ones, and the offered rate holds on average.
pub proof fn lemma_pacing_carry(excess: u64, services: Seq<u64>, delay: u64)
    requires
        excess + total(services) <= u64::MAX,
    ensures
        pace_run(excess, services, delay).0 + excess == services.len() * delay + pace_run(
            excess,
            services,
            delay,
        ).1,
        pace_run(excess, services, delay).1 <= excess + total(services),
    decreases services.len(),
{
    if services.len() > 0 {
        let (busy, owed) = pace(excess, services[0], delay);
        let rest = services.drop_first();
        assert(total(services) == services[0] + total(rest));
        lemma_total_nonnegative(rest);
        assert(services[0] + busy + excess == delay + owed);
        lemma_pacing_carry(owed, rest, delay);
        assert(pace_run(excess, services, delay).0 == services[0] + busy + pace_run(
            owed,
            rest,
            delay,
        ).0);
        assert(services.len() * delay == rest.len() * delay + delay) by (nonlinear_arith)
            requires
                services.len() == rest.len() + 1,
        ;
    }
}

} // verus!
