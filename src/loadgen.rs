//! The decisions of the load generators: what each loop sends, what it records, when it
//! stops, and how long it waits. The loops themselves, which own sockets, clocks and
//! threads, call these between their reads and writes.
use vstd::prelude::*;

use crate::pacing::{pace, Pacer};
use crate::protocol::{record_of, ClockAnomaly, LatencyRecord, Request, Response, Work};

verus! {

/// Every record in `s` ends no earlier than it starts.
pub open spec fn all_wf(s: Seq<LatencyRecord>) -> bool {
    forall|i: int| 0 <= i < s.len() ==> (#[trigger] s[i]).wf()
}

/// One closed-loop client: it sends a request, waits for its response, records the
/// latency, then paces itself before the next.
pub struct ClosedLoopClient {
    work: Work,
    pacer: Pacer,
    requests_sent: usize,
    awaiting: bool,
    latency_records: Vec<LatencyRecord>,
}

impl ClosedLoopClient {
    /// The work every request asks for.
    pub closed spec fn work_spec(&self) -> Work {
        self.work
    }

    /// The pacing state.
    pub closed spec fn pacer_spec(&self) -> Pacer {
        self.pacer
    }

    /// The number of requests sent so far.
    pub closed spec fn sent(&self) -> nat {
        self.requests_sent as nat
    }

    /// Whether a request is waiting for its response.
    pub closed spec fn is_awaiting(&self) -> bool {
        self.awaiting
    }

    /// The records kept so far.
    pub closed spec fn records(&self) -> Seq<LatencyRecord> {
        self.latency_records@
    }

    pub open spec fn wf(&self) -> bool {
        &&& self.records().len() + (if self.is_awaiting() {
            1nat
        } else {
            0nat
        }) == self.sent()
        &&& all_wf(self.records())
    }

    /// A client that has sent nothing, asks for `work`, and has a budget of `delay`
    /// nanoseconds per iteration.
    pub fn new(work: Work, delay: u64) -> (c: ClosedLoopClient)
        ensures
            c.wf(),
            c.work_spec() == work,
            c.pacer_spec() == (Pacer { delay, excess: 0 }),
            c.sent() == 0,
            !c.is_awaiting(),
            c.records() == Seq::<LatencyRecord>::empty(),
    {
        ClosedLoopClient {
            work,
            pacer: Pacer::new(delay),
            requests_sent: 0,
            awaiting: false,
            latency_records: Vec::new(),
        }
    }

    /// Whether to start another iteration: the client runs while less than `runtime`
    /// has elapsed since it started.
    pub fn should_continue(&self, elapsed: u64, runtime: u64) -> (r: bool)
        ensures
            r == (elapsed < runtime),
    {
        elapsed < runtime
    }

    /// The next request, stamped `now`; the client then waits for its response.
    pub fn next_request(&mut self, now: u64) -> (req: Request)
        requires
            old(self).wf(),
            !old(self).is_awaiting(),
            old(self).sent() < usize::MAX,
        ensures
            final(self).wf(),
            req == (Request { send_time: now, work: old(self).work_spec() }),
            final(self).is_awaiting(),
            final(self).sent() == old(self).sent() + 1,
            final(self).records() == old(self).records(),
            final(self).work_spec() == old(self).work_spec(),
            final(self).pacer_spec() == old(self).pacer_spec(),
    {
        self.requests_sent = self.requests_sent + 1;
        self.awaiting = true;
        Request { send_time: now, work: self.work }
    }

    /// Records the response that came back at `recv_time`. A response stamped before
    /// its request was sent is a clock anomaly: it is returned and nothing changes.
    pub fn on_response(&mut self, resp: Response, recv_time: u64) -> (r: Result<(), ClockAnomaly>)
        requires
            old(self).wf(),
            old(self).is_awaiting(),
        ensures
            final(self).wf(),
            final(self).work_spec() == old(self).work_spec(),
            final(self).pacer_spec() == old(self).pacer_spec(),
            final(self).sent() == old(self).sent(),
            match record_of(resp.client_send_time, recv_time) {
                Ok(lr) => r is Ok && !final(self).is_awaiting() && final(self).records()
                    == old(self).records().push(lr),
                Err(e) => r == Err::<(), ClockAnomaly>(e) && final(self).is_awaiting()
                    && final(self).records() == old(self).records(),
            },
    {
        match resp.latency_record_at(recv_time) {
            Ok(lr) => {
                self.latency_records.push(lr);
                self.awaiting = false;
                assert(all_wf(self.latency_records@)) by {
                    assert forall|i: int| 0 <= i < self.latency_records@.len() implies (
                    #[trigger] self.latency_records@[i]).wf() by {
                        if i < old(self).latency_records@.len() {
                            assert(self.latency_records@[i] == old(self).latency_records@[i]);
                        }
                    }
                }
                Ok(())
            },
            Err(e) => Err(e),
        }
    }

    /// Charges the iteration's `elapsed` time to the pacer and returns how long to
    /// busy-wait before the next request.
    pub fn pause(&mut self, elapsed: u64) -> (busy: u64)
        requires
            old(self).wf(),
        ensures
            final(self).wf(),
            (busy, final(self).pacer_spec().excess) == pace(
                old(self).pacer_spec().excess,
                elapsed,
                old(self).pacer_spec().delay,
            ),
            final(self).pacer_spec().delay == old(self).pacer_spec().delay,
            final(self).work_spec() == old(self).work_spec(),
            final(self).sent() == old(self).sent(),
            final(self).is_awaiting() == old(self).is_awaiting(),
            final(self).records() == old(self).records(),
    {
        self.pacer.next_wait(elapsed)
    }

    /// The number of requests sent.
    pub fn requests_sent(&self) -> (r: usize)
        ensures
            r == self.sent(),
    {
        self.requests_sent
    }

    /// Ends the client and hands over its records.
    pub fn into_records(self) -> (r: Vec<LatencyRecord>)
        ensures
            r@ == self.records(),
    {
        self.latency_records
    }
}

/// Between iterations of a closed-loop client, it has one record per request sent, and
/// every record ends no earlier than it starts.
pub proof fn lemma_closed_loop_count(c: &ClosedLoopClient)
    requires
        c.wf(),
        !c.is_awaiting(),
    ensures
        c.records().len() == c.sent(),
        forall|i: int| 0 <= i < c.records().len() ==> (#[trigger] c.records()[i]).recv_time
            >= c.records()[i].send_time,
{
}

/// What the open-loop sender does on one iteration.
#[derive(Clone, Copy, Debug, PartialEq, Eq, Structural)]
pub struct SendStep {
    /// The request to send.
    pub request: Request,
    /// Whether this is the last request: `done` is set before it is sent, and the sender
    /// stops after it.
    pub last: bool,
}

/// The sending half of an open-loop client: it sends at a fixed rate, whatever comes
/// back.
pub struct OpenLoopSender {
    work: Work,
    pacer: Pacer,
    requests_sent: usize,
    done: bool,
    sent_times: Ghost<Seq<u64>>,
}

impl OpenLoopSender {
    /// The work every request asks for.
    pub closed spec fn work_spec(&self) -> Work {
        self.work
    }

    /// The pacing state.
    pub closed spec fn pacer_spec(&self) -> Pacer {
        self.pacer
    }

    /// The number of requests sent, the last one included.
    pub closed spec fn sent(&self) -> nat {
        self.requests_sent as nat
    }

    /// Whether the last request has been sent.
    pub closed spec fn is_done(&self) -> bool {
        self.done
    }

    /// The send times of the requests sent, in order.
    pub closed spec fn sent_log(&self) -> Seq<u64> {
        self.sent_times@
    }

    pub open spec fn wf(&self) -> bool {
        self.sent_log().len() == self.sent()
    }

    /// A sender that has sent nothing, asks for `work`, and sends one request every
    /// `delay` nanoseconds.
    pub fn new(work: Work, delay: u64) -> (s: OpenLoopSender)
        ensures
            s.wf(),
            s.work_spec() == work,
            s.pacer_spec() == (Pacer { delay, excess: 0 }),
            s.sent() == 0,
            !s.is_done(),
    {
        OpenLoopSender {
            work,
            pacer: Pacer::new(delay),
            requests_sent: 0,
            done: false,
            sent_times: Ghost(Seq::empty()),
        }
    }

    /// The request to send now, stamped `now`, when `elapsed` has passed since the
    /// sender started. Once `runtime` has elapsed it is the last one, and the sender is
    /// done: no further step is taken.
    pub fn next(&mut self, elapsed: u64, runtime: u64, now: u64) -> (step: SendStep)
        requires
            old(self).wf(),
            !old(self).is_done(),
            old(self).sent() < usize::MAX,
        ensures
            final(self).wf(),
            step.request == (Request { send_time: now, work: old(self).work_spec() }),
            step.last == (elapsed >= runtime),
            final(self).is_done() == step.last,
            final(self).sent() == old(self).sent() + 1,
            final(self).sent_log() == old(self).sent_log().push(now),
            final(self).work_spec() == old(self).work_spec(),
            final(self).pacer_spec() == old(self).pacer_spec(),
    {
        let last = elapsed >= runtime;
        self.done = last;
        self.requests_sent = self.requests_sent + 1;
        proof {
            self.sent_times@ = self.sent_times@.push(now);
        }
        SendStep { request: Request { send_time: now, work: self.work }, last }
    }

    /// Charges the iteration's `elapsed` time to the pacer and returns how long to
    /// busy-wait before the next request.
    pub fn pause(&mut self, elapsed: u64) -> (busy: u64)
        ensures
            (busy, final(self).pacer_spec().excess) == pace(
                old(self).pacer_spec().excess,
                elapsed,
                old(self).pacer_spec().delay,
            ),
            final(self).pacer_spec().delay == old(self).pacer_spec().delay,
            final(self).work_spec() == old(self).work_spec(),
            final(self).sent() == old(self).sent(),
            final(self).is_done() == old(self).is_done(),
            final(self).sent_log() == old(self).sent_log(),
    {
        self.pacer.next_wait(elapsed)
    }

    /// The number of requests sent, the last one included.
    pub fn requests_sent(&self) -> (r: usize)
        ensures
            r == self.sent(),
    {
        self.requests_sent
    }
}

/// The receiving half of an open-loop client: it records each response until it sees
/// that the sender is done.
pub struct OpenLoopReceiver {
    latency_records: Vec<LatencyRecord>,
}

impl OpenLoopReceiver {
    /// The records kept so far.
    pub closed spec fn records(&self) -> Seq<LatencyRecord> {
        self.latency_records@
    }

    /// A receiver with no records.
    pub fn new() -> (r: OpenLoopReceiver)
        ensures
            r.records() == Seq::<LatencyRecord>::empty(),
    {
        OpenLoopReceiver { latency_records: Vec::new() }
    }

    /// Whether to read another response: only while the sender is not done.
    pub fn keep_receiving(&self, done: bool) -> (r: bool)
        ensures
            r == !done,
    {
        !done
    }

    /// Records the response that came back at `recv_time`, or returns the clock anomaly
    /// and changes nothing.
    pub fn on_response(&mut self, resp: Response, recv_time: u64) -> (r: Result<(), ClockAnomaly>)
        requires
            all_wf(old(self).records()),
        ensures
            all_wf(final(self).records()),
            match record_of(resp.client_send_time, recv_time) {
                Ok(lr) => r is Ok && final(self).records() == old(self).records().push(lr),
                Err(e) => r == Err::<(), ClockAnomaly>(e) && final(self).records() == old(
                    self,
                ).records(),
            },
    {
        match resp.latency_record_at(recv_time) {
            Ok(lr) => {
                self.latency_records.push(lr);
                assert forall|i: int| 0 <= i < self.latency_records@.len() implies (
                #[trigger] self.latency_records@[i]).wf() by {
                    if i < old(self).latency_records@.len() {
                        assert(self.latency_records@[i] == old(self).latency_records@[i]);
                    }
                }
                Ok(())
            },
            Err(e) => Err(e),
        }
    }

    /// Ends the receiver and hands over its records.
    pub fn into_records(self) -> (r: Vec<LatencyRecord>)
        ensures
            r@ == self.records(),
    {
        self.latency_records
    }
}

proof fn lemma_pigeonhole(n: nat, m: nat, f: spec_fn(int) -> int)
    requires
        forall|i: int| 0 <= i < n ==> 0 <= #[trigger] f(i) < m,
        forall|i: int, j: int|
            0 <= i < n && 0 <= j < n && i != j ==> #[trigger] f(i) != #[trigger] f(j),
    ensures
        n <= m,
    decreases n,
{
    if n > 0 {
        assert(0 <= f(0) < m);
        let k = f(n - 1);
        let g = |i: int|
            if f(i) == m - 1 {
                k
            } else {
                f(i)
            };
        assert forall|i: int| 0 <= i < n - 1 implies 0 <= #[trigger] g(i) < m - 1 by {
            assert(f(i) != f(n - 1));
        }
        assert forall|i: int, j: int|
            0 <= i < n - 1 && 0 <= j < n - 1 && i != j implies #[trigger] g(i) != #[trigger] g(j) by {
            assert(f(i) != f(j));
            assert(f(i) != f(n - 1));
            assert(f(j) != f(n - 1));
        }
        lemma_pigeonhole((n - 1) as nat, (m - 1) as nat, g);
    }
}

/// When every record of an open-loop client answers a different request that the sender
/// sent (`answers` gives, for each record, the position of its request among those
/// sent), there are never more records than requests sent.
pub proof fn lemma_open_loop_records_bounded(
    sender: &OpenLoopSender,
    records: Seq<LatencyRecord>,
    answers: spec_fn(int) -> int,
)
    requires
        sender.wf(),
        forall|i: int|
            0 <= i < records.len() ==> 0 <= #[trigger] answers(i) < sender.sent_log().len()
                && records[i].send_time == sender.sent_log()[answers(i)],
        forall|i: int, j: int|
            0 <= i < records.len() && 0 <= j < records.len() && i != j ==> #[trigger] answers(i)
                != #[trigger] answers(j),
    ensures
        records.len() <= sender.sent(),
{
    lemma_pigeonhole(records.len(), sender.sent_log().len(), answers);
}

/// The driver of a partial-open loop: on each paced iteration it may start one more
/// session thread, up to `max_threads`, then hands out one unit of work.
pub struct SessionDriver {
    max_threads: usize,
    spawned: usize,
    pacer: Pacer,
}

impl SessionDriver {
    /// The most session threads that may be started.
    pub closed spec fn max_spec(&self) -> nat {
        self.max_threads as nat
    }

    /// The number of session threads started.
    pub closed spec fn spawned_spec(&self) -> nat {
        self.spawned as nat
    }

    /// The pacing state.
    pub closed spec fn pacer_spec(&self) -> Pacer {
        self.pacer
    }

    /// A driver that has started no session, starts at most `max_threads`, and hands out
    /// one unit of work every `delay` nanoseconds.
    pub fn new(max_threads: usize, delay: u64) -> (d: SessionDriver)
        ensures
            d.max_spec() == max_threads,
            d.spawned_spec() == 0,
            d.pacer_spec() == (Pacer { delay, excess: 0 }),
    {
        SessionDriver { max_threads, spawned: 0, pacer: Pacer::new(delay) }
    }

    /// Whether to start a new session thread, given how many sessions are idle: only when
    /// none is idle and fewer than `max_threads` have been started.
    pub fn should_spawn(&mut self, ready: u64) -> (spawn: bool)
        requires
            old(self).spawned_spec() <= old(self).max_spec(),
        ensures
            spawn == (ready == 0 && old(self).spawned_spec() < old(self).max_spec()),
            final(self).spawned_spec() == old(self).spawned_spec() + if spawn {
                1nat
            } else {
                0nat
            },
            final(self).spawned_spec() <= final(self).max_spec(),
            final(self).max_spec() == old(self).max_spec(),
            final(self).pacer_spec() == old(self).pacer_spec(),
    {
        if ready == 0 && self.spawned < self.max_threads {
            self.spawned = self.spawned + 1;
            true
        } else {
            false
        }
    }

    /// Charges the iteration's `elapsed` time to the pacer and returns how long to
    /// busy-wait before the next iteration.
    pub fn pause(&mut self, elapsed: u64) -> (busy: u64)
        ensures
            (busy, final(self).pacer_spec().excess) == pace(
                old(self).pacer_spec().excess,
                elapsed,
                old(self).pacer_spec().delay,
            ),
            final(self).pacer_spec().delay == old(self).pacer_spec().delay,
            final(self).spawned_spec() == old(self).spawned_spec(),
            final(self).max_spec() == old(self).max_spec(),
    {
        self.pacer.next_wait(elapsed)
    }
}

} // verus!
