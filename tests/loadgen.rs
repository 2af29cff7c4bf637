use rust_server_benchmarks::loadgen::{
    ClosedLoopClient, OpenLoopReceiver, OpenLoopSender, SessionDriver,
};
use rust_server_benchmarks::pacing::Pacer;
use rust_server_benchmarks::protocol::{ClockAnomaly, LatencyRecord, Request, Response, Work};
use rust_server_benchmarks::stats::{
    latencies, percentile_index, sorted_latencies, summarize, summarize_sorted, Summary,
};

#[test]
fn pacer_pays_back_excess() {
    let mut p = Pacer::new(100);
    assert_eq!(p.next_wait(30), 70);
    assert_eq!(p.excess, 0);
    assert_eq!(p.next_wait(250), 0);
    assert_eq!(p.excess, 150);
    assert_eq!(p.next_wait(10), 0);
    assert_eq!(p.excess, 60);
    assert_eq!(p.next_wait(10), 30);
    assert_eq!(p.excess, 0);
    assert_eq!(p.delay, 100);
}

#[test]
fn pacer_saturates() {
    let mut p = Pacer { delay: 5, excess: u64::MAX - 1 };
    assert_eq!(p.next_wait(10), 0);
    assert_eq!(p.excess, u64::MAX - 5);
}

#[test]
fn pacing_total_is_one_budget_per_iteration() {
    let services = [120u64, 5, 5, 40, 300, 1, 1, 1, 1, 1];
    let delay = 50u64;
    let mut p = Pacer::new(delay);
    let mut elapsed = 0u64;
    for s in services {
        elapsed += s + p.next_wait(s);
    }
    assert_eq!(elapsed, services.len() as u64 * delay + p.excess);
}

#[test]
fn closed_loop_steady_state_iterations() {
    // delay 10 ms, runtime 1 s, 100 µs per round trip.
    let runtime = 1_000_000_000u64;
    let mut c = ClosedLoopClient::new(Work::Constant, 10_000_000);
    let mut clock = 0u64;
    while c.should_continue(clock, runtime) {
        let req = c.next_request(clock);
        let resp = req.do_work(|_| {});
        clock += 100_000;
        c.on_response(resp, clock).unwrap();
        clock += c.pause(100_000);
    }
    let n = c.requests_sent();
    let lrs = c.into_records();
    assert_eq!(n, 100);
    assert_eq!(lrs.len(), n);
    assert!(lrs.iter().all(|lr| lr.recv_time - lr.send_time == 100_000));
}

#[test]
fn closed_loop_counts_records() {
    let mut c = ClosedLoopClient::new(Work::Busy { amt: 3 }, 0);
    let req = c.next_request(10);
    assert_eq!(req, Request { send_time: 10, work: Work::Busy { amt: 3 } });
    assert_eq!(c.requests_sent(), 1);
    assert_eq!(
        c.on_response(Response { client_send_time: 10 }, 9),
        Err(ClockAnomaly { send_time: 10, recv_time: 9 })
    );
    assert_eq!(c.on_response(Response { client_send_time: 10 }, 15), Ok(()));
    c.next_request(20);
    c.on_response(Response { client_send_time: 20 }, 21).unwrap();
    assert_eq!(c.requests_sent(), 2);
    assert_eq!(
        c.into_records(),
        vec![
            LatencyRecord { send_time: 10, recv_time: 15 },
            LatencyRecord { send_time: 20, recv_time: 21 }
        ]
    );
}

#[test]
fn open_loop_sends_one_request_after_done() {
    let runtime = 1_000u64;
    let mut s = OpenLoopSender::new(Work::Sleep { micros: 1000 }, 1);
    let mut clock = 0u64;
    let mut steps = Vec::new();
    loop {
        let step = s.next(clock, runtime, clock);
        steps.push(step);
        if step.last {
            break;
        }
        clock += 1 + s.pause(1);
    }
    assert_eq!(steps.iter().filter(|st| st.last).count(), 1);
    assert!(steps.last().unwrap().last);
    assert_eq!(s.requests_sent(), steps.len());
    assert_eq!(steps.len(), 1001);
    assert_eq!(steps[0].request, Request { send_time: 0, work: Work::Sleep { micros: 1000 } });
}

#[test]
fn open_loop_overload_records_fewer_than_sent() {
    let runtime = 1_000_000u64;
    let mut s = OpenLoopSender::new(Work::Sleep { micros: 1000 }, 1_000);
    let mut r = OpenLoopReceiver::new();
    let mut clock = 0u64;
    let mut sent_times = Vec::new();
    loop {
        let step = s.next(clock, runtime, clock);
        sent_times.push(step.request.send_time);
        if step.last {
            break;
        }
        clock += 1_000 + s.pause(1_000);
    }
    // The server answers one request per millisecond, in order.
    let mut served = 0usize;
    let mut finish = 0u64;
    while r.keep_receiving(served * 1_000_000 > runtime as usize) && served < sent_times.len() {
        finish = sent_times[0] + (served as u64 + 1) * 1_000_000;
        r.on_response(Response { client_send_time: sent_times[served] }, finish.max(sent_times[served]))
            .unwrap();
        served += 1;
    }
    let lrs = r.into_records();
    assert!(finish > 0);
    assert_eq!(s.requests_sent(), 1001);
    assert!(lrs.len() < s.requests_sent() / 10);
    let lat = latencies(&lrs);
    assert!(lat.windows(2).all(|w| w[0] <= w[1]));
}

#[test]
fn receiver_stops_when_done() {
    let mut r = OpenLoopReceiver::new();
    assert!(r.keep_receiving(false));
    assert!(!r.keep_receiving(true));
    assert_eq!(
        r.on_response(Response { client_send_time: 5 }, 4),
        Err(ClockAnomaly { send_time: 5, recv_time: 4 })
    );
    r.on_response(Response { client_send_time: 5 }, 6).unwrap();
    assert_eq!(r.into_records(), vec![LatencyRecord { send_time: 5, recv_time: 6 }]);
}

#[test]
fn session_driver_caps_threads() {
    let mut d = SessionDriver::new(2, 10);
    assert!(d.should_spawn(0));
    assert!(!d.should_spawn(1));
    assert!(d.should_spawn(0));
    assert!(!d.should_spawn(0));
    assert_eq!(d.pause(4), 6);
}

#[test]
fn percentile_indices() {
    assert_eq!(percentile_index(10, 50), 5);
    assert_eq!(percentile_index(10, 95), 9);
    assert_eq!(percentile_index(10, 99), 9);
    assert_eq!(percentile_index(100, 99), 99);
    assert_eq!(percentile_index(1, 99), 0);
    assert_eq!(percentile_index(250, 95), 237);
    assert_eq!(percentile_index(usize::MAX, 99), usize::MAX / 100 * 99 + (usize::MAX % 100) * 99 / 100);
}

#[test]
fn summary_of_unsorted_records() {
    let lrs: Vec<LatencyRecord> = [50u64, 10, 40, 20, 30]
        .iter()
        .map(|&l| LatencyRecord { send_time: 1000, recv_time: 1000 + l * 1000 })
        .collect();
    assert_eq!(sorted_latencies(&lrs), vec![10_000, 20_000, 30_000, 40_000, 50_000]);
    assert_eq!(
        summarize(&lrs, 10, 2),
        Some(Summary { p50: 30_000, p95: 50_000, p99: 50_000, offered: 5, achieved: 2 })
    );
}

#[test]
fn summary_edge_cases() {
    assert_eq!(summarize(&Vec::new(), 10, 1), None);
    let one = vec![LatencyRecord { send_time: 3, recv_time: 3 }];
    assert_eq!(summarize(&one, 1, 0), None);
    assert_eq!(
        summarize(&one, 1, 1),
        Some(Summary { p50: 0, p95: 0, p99: 0, offered: 1, achieved: 1 })
    );
    assert_eq!(
        summarize_sorted(&vec![1, 2, 3, 4], 7, 3),
        Some(Summary { p50: 3, p95: 4, p99: 4, offered: 2, achieved: 1 })
    );
}
