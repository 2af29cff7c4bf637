use rust_server_benchmarks::protocol::{
    decode_request, decode_response, encode_request, encode_response, ByteCursor, ClockAnomaly,
    DecodeError, Deserialize, LatencyRecord, Request, Response, Serialize, Work, REQUEST_SIZE,
    RESPONSE_SIZE,
};

fn round_trip(req: Request) {
    let bytes = encode_request(req);
    assert_eq!(bytes.len(), REQUEST_SIZE);
    assert_eq!(decode_request(&bytes), Ok(req));
}

#[test]
fn request_round_trip_constant() {
    round_trip(Request { send_time: 0, work: Work::Constant });
    round_trip(Request { send_time: u64::MAX, work: Work::Constant });
}

#[test]
fn request_round_trip_busy() {
    round_trip(Request { send_time: 42, work: Work::Busy { amt: 1_000_000 } });
    round_trip(Request { send_time: 7, work: Work::Busy { amt: u64::MAX } });
}

#[test]
fn request_round_trip_sleep() {
    round_trip(Request { send_time: 123_456_789, work: Work::Sleep { micros: 50_000 } });
    round_trip(Request { send_time: 1, work: Work::Sleep { micros: 0 } });
}

#[test]
fn response_round_trip() {
    for t in [0u64, 1, 1000, u64::MAX] {
        let bytes = encode_response(Response { client_send_time: t });
        assert_eq!(bytes.len(), RESPONSE_SIZE);
        assert_eq!(decode_response(&bytes), Ok(Response { client_send_time: t }));
    }
}

#[test]
fn rejects_tag_three() {
    let mut bytes = encode_request(Request { send_time: 9, work: Work::Busy { amt: 5 } });
    bytes[8] = 3;
    assert_eq!(decode_request(&bytes), Err(DecodeError::InvalidData(3)));
}

#[test]
fn rejects_tag_255() {
    let mut bytes = vec![0u8; REQUEST_SIZE];
    bytes[8] = 255;
    assert_eq!(decode_request(&bytes), Err(DecodeError::InvalidData(255)));
}

#[test]
fn short_buffers_are_eof() {
    let bytes = encode_request(Request { send_time: 9, work: Work::Sleep { micros: 5 } });
    for n in 0..REQUEST_SIZE {
        assert_eq!(decode_request(&bytes[..n]), Err(DecodeError::UnexpectedEof));
    }
    assert_eq!(decode_response(&[1, 2, 3]), Err(DecodeError::UnexpectedEof));
}

#[test]
fn invalid_tag_beats_short_payload() {
    let bytes = [0u8, 0, 0, 0, 0, 0, 0, 0, 7, 1];
    assert_eq!(decode_request(&bytes), Err(DecodeError::InvalidData(7)));
}

#[test]
fn endianness_of_request() {
    let bytes = encode_request(Request { send_time: 0x0102030405060708, work: Work::Constant });
    assert_eq!(bytes, vec![1, 2, 3, 4, 5, 6, 7, 8, 0, 0, 0, 0, 0, 0, 0, 0, 0]);
}

#[test]
fn payload_bytes_of_busy_and_sleep() {
    let busy = encode_request(Request { send_time: 0, work: Work::Busy { amt: 0x0A0B } });
    assert_eq!(&busy[8..], &[1, 0, 0, 0, 0, 0, 0, 0x0A, 0x0B]);
    let sleep = encode_request(Request { send_time: 0, work: Work::Sleep { micros: 256 } });
    assert_eq!(&sleep[8..], &[2, 0, 0, 0, 0, 0, 0, 1, 0]);
}

#[test]
fn constant_ignores_payload_bytes() {
    let mut bytes = encode_request(Request { send_time: 5, work: Work::Constant });
    bytes[16] = 9;
    assert_eq!(decode_request(&bytes), Ok(Request { send_time: 5, work: Work::Constant }));
}

#[test]
fn serialize_appends() {
    let mut out = vec![0xFFu8];
    Request { send_time: 2, work: Work::Busy { amt: 3 } }.serialize(&mut out);
    Response { client_send_time: 4 }.serialize(&mut out);
    assert_eq!(out.len(), 1 + REQUEST_SIZE + RESPONSE_SIZE);
    assert_eq!(out[0], 0xFF);
    assert_eq!(&out[18..], &[0, 0, 0, 0, 0, 0, 0, 4]);
}

#[test]
fn cursor_reads_frames_in_order() {
    let mut bytes = encode_request(Request { send_time: 10, work: Work::Sleep { micros: 20 } });
    bytes.extend(encode_request(Request { send_time: 11, work: Work::Constant }));
    let mut cur = ByteCursor::new(bytes);
    assert_eq!(
        Request::deserialize(&mut cur),
        Ok(Request { send_time: 10, work: Work::Sleep { micros: 20 } })
    );
    assert_eq!(cur.remaining(), REQUEST_SIZE);
    assert_eq!(Request::deserialize(&mut cur), Ok(Request { send_time: 11, work: Work::Constant }));
    assert_eq!(cur.remaining(), 0);
    assert_eq!(Request::deserialize(&mut cur), Err(DecodeError::UnexpectedEof));
}

#[test]
fn cursor_work_and_response() {
    let mut cur = ByteCursor::new(vec![2, 0, 0, 0, 0, 0, 0, 0, 3, 0, 0, 0, 0, 0, 0, 0, 9]);
    assert_eq!(Work::deserialize(&mut cur), Ok(Work::Sleep { micros: 3 }));
    assert_eq!(cur.remaining(), 8);
    assert_eq!(Response::deserialize(&mut cur), Ok(Response { client_send_time: 9 }));
    assert_eq!(Response::deserialize(&mut cur), Err(DecodeError::UnexpectedEof));
    assert_eq!(cur.remaining(), 0);
    let mut cur = ByteCursor::new(vec![5]);
    assert_eq!(Work::deserialize(&mut cur), Err(DecodeError::InvalidData(5)));
    assert_eq!(cur.remaining(), 0);
}

#[test]
fn response_echoes_request_prefix() {
    for req in [
        Request { send_time: 0x1122334455667788, work: Work::Constant },
        Request { send_time: 99, work: Work::Busy { amt: 10 } },
    ] {
        let bytes = encode_request(req);
        let resp = decode_request(&bytes).unwrap().do_work(|_| {});
        assert_eq!(encode_response(resp), bytes[..RESPONSE_SIZE].to_vec());
    }
}

#[test]
fn vanilla_echo_bytes() {
    let req = Request { send_time: 1000, work: Work::Constant };
    let resp = req.do_work(|_| {});
    assert_eq!(encode_response(resp), vec![0, 0, 0, 0, 0, 0, 0x03, 0xE8]);
    let lr = resp.to_latency_record().unwrap();
    assert_eq!(lr.send_time, 1000);
    assert!(lr.recv_time >= 1000);
}

#[test]
fn busy_work_runs_and_answers() {
    let req = Request { send_time: 77, work: Work::Busy { amt: 1_000_000 } };
    let resp = req.do_work(|_| panic!("busy work does not sleep"));
    assert_eq!(resp, Response { client_send_time: 77 });
}

#[test]
fn sleep_work_calls_sleep_with_micros() {
    let slept = std::cell::Cell::new(0u64);
    Request { send_time: 1, work: Work::Sleep { micros: 1234 } }.do_work(|m| slept.set(slept.get() + m));
    assert_eq!(slept.get(), 1234);
}

#[test]
fn latency_record_ordering() {
    let resp = Response { client_send_time: 500 };
    assert_eq!(resp.latency_record_at(500), Ok(LatencyRecord { send_time: 500, recv_time: 500 }));
    assert_eq!(resp.latency_record_at(800), Ok(LatencyRecord { send_time: 500, recv_time: 800 }));
    assert_eq!(resp.latency_record_at(499), Err(ClockAnomaly { send_time: 500, recv_time: 499 }));
    assert_eq!(LatencyRecord { send_time: 500, recv_time: 800 }.latency(), 300);
}

#[test]
fn clock_reads_after_epoch() {
    let a = rust_server_benchmarks::get_time();
    let b = rust_server_benchmarks::utils::get_time();
    assert!(a > 1_600_000_000_000_000_000);
    assert!(b >= a);
    let lr = Response { client_send_time: a }.to_latency_record().unwrap();
    assert!(lr.recv_time >= a);
    assert!(Response { client_send_time: u64::MAX }.to_latency_record().is_err());
}
