//! The wire protocol: requests, responses, the work a request asks for, and
//! the latency record a client keeps for each response.
use vstd::prelude::*;

use crate::endian::{
    be_bytes, be_value, lemma_be_bytes_of_value, lemma_be_value_of_bytes, push_be_u64,
    read_be_u64,
};

verus! {

/// Bytes in an encoded request.
pub const REQUEST_SIZE: usize = 17;

/// Bytes in an encoded response.
pub const RESPONSE_SIZE: usize = 8;

/// One latency sample: when a request left the client and when its response came back,
/// both in nanoseconds since the Unix epoch.
#[derive(Clone, Copy, Debug, PartialEq, Eq, Structural)]
pub struct LatencyRecord {
    pub send_time: u64,
    pub recv_time: u64,
}

impl LatencyRecord {
    /// A record never ends before it starts.
    pub open spec fn wf(&self) -> bool {
        self.recv_time >= self.send_time
    }

    /// The latency in nanoseconds.
    pub fn latency(&self) -> (r: u64)
        requires
            self.wf(),
        ensures
            r == self.recv_time - self.send_time,
    {
        self.recv_time - self.send_time
    }
}

/// A response that came back, by the local clock, before its request was sent.
#[derive(Clone, Copy, Debug, PartialEq, Eq, Structural)]
pub struct ClockAnomaly {
    pub send_time: u64,
    pub recv_time: u64,
}

/// Why bytes could not be decoded.
#[derive(Clone, Copy, Debug, PartialEq, Eq, Structural)]
pub enum DecodeError {
    /// The bytes ended inside a frame.
    UnexpectedEof,
    /// The work tag is none of the known ones; it carries the tag.
    InvalidData(u8),
}

/// The work a request asks the server to do.
#[derive(Clone, Copy, Debug, PartialEq, Eq, Structural)]
pub enum Work {
    /// Do nothing.
    Constant,
    /// Loop `amt` times.
    Busy { amt: u64 },
    /// Sleep for `micros` microseconds.
    Sleep { micros: u64 },
}

/// A client request.
#[derive(Clone, Copy, Debug, PartialEq, Eq, Structural)]
pub struct Request {
    /// The time (in nanoseconds) the request was sent.
    pub send_time: u64,
    /// The work to do.
    pub work: Work,
}

/// A server response.
#[derive(Clone, Copy, Debug, PartialEq, Eq, Structural)]
pub struct Response {
    /// The time (in nanoseconds) the request was sent by the client.
    pub client_send_time: u64,
}

pub open spec fn work_tag(w: Work) -> u8 {
    match w {
        Work::Constant => 0,
        Work::Busy { .. } => 1,
        Work::Sleep { .. } => 2,
    }
}

pub open spec fn work_payload(w: Work) -> u64 {
    match w {
        Work::Constant => 0,
        Work::Busy { amt } => amt,
        Work::Sleep { micros } => micros,
    }
}

/// The nine bytes of a work item: its tag, then its payload in big-endian order.
pub open spec fn work_wire(w: Work) -> Seq<u8> {
    seq![work_tag(w)] + be_bytes(work_payload(w))
}

/// The seventeen bytes of a request.
pub open spec fn request_wire(r: Request) -> Seq<u8> {
    be_bytes(r.send_time) + work_wire(r.work)
}

/// The eight bytes of a response.
pub open spec fn response_wire(r: Response) -> Seq<u8> {
    be_bytes(r.client_send_time)
}

/// The work item at the start of `s`.
pub open spec fn parse_work(s: Seq<u8>) -> Result<Work, DecodeError> {
    if s.len() < 1 {
        Err(DecodeError::UnexpectedEof)
    } else if s[0] > 2 {
        Err(DecodeError::InvalidData(s[0]))
    } else if s.len() < 9 {
        Err(DecodeError::UnexpectedEof)
    } else {
        let v = be_value(s.subrange(1, 9));
        if s[0] == 0 {
            Ok(Work::Constant)
        } else if s[0] == 1 {
            Ok(Work::Busy { amt: v })
        } else {
            Ok(Work::Sleep { micros: v })
        }
    }
}

/// How many bytes decoding a work item takes from `s`, whether it succeeds or not.
pub open spec fn work_consumed(s: Seq<u8>) -> nat {
    if s.len() < 1 {
        0
    } else if s[0] > 2 || s.len() < 9 {
        1
    } else {
        9
    }
}

/// The request at the start of `s`.
pub open spec fn parse_request(s: Seq<u8>) -> Result<Request, DecodeError> {
    if s.len() < 8 {
        Err(DecodeError::UnexpectedEof)
    } else {
        match parse_work(s.subrange(8, s.len() as int)) {
            Ok(w) => Ok(Request { send_time: be_value(s), work: w }),
            Err(e) => Err(e),
        }
    }
}

/// How many bytes decoding a request takes from `s`, whether it succeeds or not.
pub open spec fn request_consumed(s: Seq<u8>) -> nat {
    if s.len() < 8 {
        0
    } else {
        8 + work_consumed(s.subrange(8, s.len() as int))
    }
}

/// The response at the start of `s`.
pub open spec fn parse_response(s: Seq<u8>) -> Result<Response, DecodeError> {
    if s.len() < 8 {
        Err(DecodeError::UnexpectedEof)
    } else {
        Ok(Response { client_send_time: be_value(s) })
    }
}

/// The record a client keeps for a response stamped `recv_time` to a request sent at
/// `send_time`, or the anomaly when the stamps are out of order.
pub open spec fn record_of(send_time: u64, recv_time: u64) -> Result<LatencyRecord, ClockAnomaly> {
    if recv_time >= send_time {
        Ok(LatencyRecord { send_time, recv_time })
    } else {
        Err(ClockAnomaly { send_time, recv_time })
    }
}

/// Bytes read front to back: a buffer and the position of the next unread byte.
pub struct ByteCursor {
    data: Vec<u8>,
    pos: usize,
}

impl ByteCursor {
    #[verifier::type_invariant]
    spec fn inv(&self) -> bool {
        self.pos <= self.data@.len()
    }

    /// The bytes not read yet.
    pub closed spec fn rest(&self) -> Seq<u8> {
        self.data@.subrange(self.pos as int, self.data@.len() as int)
    }

    /// A cursor at the start of `data`.
    pub fn new(data: Vec<u8>) -> (c: ByteCursor)
        ensures
            c.rest() == data@,
    {
        let c = ByteCursor { data, pos: 0 };
        assert(c.rest() =~= c.data@);
        c
    }

    /// How many bytes are not read yet.
    pub fn remaining(&self) -> (r: usize)
        ensures
            r == self.rest().len(),
    {
        proof {
            use_type_invariant(self);
        }
        self.data.len() - self.pos
    }

    /// Takes one byte, or fails with `UnexpectedEof` when none is left.
    pub fn read_u8(&mut self) -> (r: Result<u8, DecodeError>)
        ensures
            old(self).rest().len() >= 1 ==> r == Ok::<u8, DecodeError>(old(self).rest()[0])
                && final(self).rest() == old(self).rest().subrange(1, old(self).rest().len() as int),
            old(self).rest().len() < 1 ==> r == Err::<u8, DecodeError>(DecodeError::UnexpectedEof)
                && final(self).rest() == old(self).rest(),
    {
        proof {
            use_type_invariant(&*self);
        }
        if self.data.len() - self.pos < 1 {
            return Err(DecodeError::UnexpectedEof);
        }
        let b = self.data[self.pos];
        self.pos = self.pos + 1;
        assert(self.rest() =~= old(self).rest().subrange(1, old(self).rest().len() as int));
        Ok(b)
    }

    /// Takes eight bytes and reads them as a big-endian integer, or fails with
    /// `UnexpectedEof` when fewer are left.
    pub fn read_u64(&mut self) -> (r: Result<u64, DecodeError>)
        ensures
            old(self).rest().len() >= 8 ==> r == Ok::<u64, DecodeError>(be_value(old(self).rest()))
                && final(self).rest() == old(self).rest().subrange(8, old(self).rest().len() as int),
            old(self).rest().len() < 8 ==> r == Err::<u64, DecodeError>(DecodeError::UnexpectedEof)
                && final(self).rest() == old(self).rest(),
    {
        proof {
            use_type_invariant(&*self);
        }
        if self.data.len() - self.pos < 8 {
            return Err(DecodeError::UnexpectedEof);
        }
        let v = read_be_u64(self.data.as_slice(), self.pos);
        assert(self.data@.subrange(self.pos as int, self.pos + 8) =~= old(self).rest().subrange(0, 8));
        self.pos = self.pos + 8;
        assert(self.rest() =~= old(self).rest().subrange(8, old(self).rest().len() as int));
        Ok(v)
    }
}

/// Values that write themselves into a byte sink.
pub trait Serialize<T>: Sized {
    fn serialize(self, bytes: &mut T);
}

/// Values that read themselves from a byte source.
pub trait Deserialize<T>: Sized {
    fn deserialize(bytes: &mut T) -> Result<Self, DecodeError>;
}

impl Serialize<Vec<u8>> for Work {
    fn serialize(self, bytes: &mut Vec<u8>)
        ensures
            final(bytes)@ == old(bytes)@ + work_wire(self),
    {
        match self {
            Work::Constant => {
                bytes.push(0u8);
                push_be_u64(bytes, 0);
            },
            Work::Busy { amt } => {
                bytes.push(1u8);
                push_be_u64(bytes, amt);
            },
            Work::Sleep { micros } => {
                bytes.push(2u8);
                push_be_u64(bytes, micros);
            },
        }
        assert(bytes@ =~= old(bytes)@ + work_wire(self));
    }
}

impl Deserialize<ByteCursor> for Work {
    fn deserialize(bytes: &mut ByteCursor) -> (r: Result<Work, DecodeError>)
        ensures
            r == parse_work(old(bytes).rest()),
            final(bytes).rest() == old(bytes).rest().subrange(
                work_consumed(old(bytes).rest()) as int,
                old(bytes).rest().len() as int,
            ),
    {
        let ghost s = bytes.rest();
        let tag = match bytes.read_u8() {
            Ok(t) => t,
            Err(e) => {
                assert(s.subrange(0, s.len() as int) =~= s);
                return Err(e);
            },
        };
        if tag > 2 {
            return Err(DecodeError::InvalidData(tag));
        }
        let v = match bytes.read_u64() {
            Ok(v) => v,
            Err(e) => {
                return Err(e);
            },
        };
        assert(s.subrange(1, s.len() as int).subrange(0, 8) =~= s.subrange(1, 9));
        assert(s.subrange(1, s.len() as int).subrange(8, s.len() - 1) =~= s.subrange(
            9,
            s.len() as int,
        ));
        if tag == 0 {
            Ok(Work::Constant)
        } else if tag == 1 {
            Ok(Work::Busy { amt: v })
        } else {
            Ok(Work::Sleep { micros: v })
        }
    }
}

impl Serialize<Vec<u8>> for Request {
    fn serialize(self, bytes: &mut Vec<u8>)
        ensures
            final(bytes)@ == old(bytes)@ + request_wire(self),
    {
        push_be_u64(bytes, self.send_time);
        self.work.serialize(bytes);
        assert(bytes@ =~= old(bytes)@ + request_wire(self));
    }
}

impl Deserialize<ByteCursor> for Request {
    fn deserialize(bytes: &mut ByteCursor) -> (r: Result<Request, DecodeError>)
        ensures
            r == parse_request(old(bytes).rest()),
            final(bytes).rest() == old(bytes).rest().subrange(
                request_consumed(old(bytes).rest()) as int,
                old(bytes).rest().len() as int,
            ),
    {
        let ghost s = bytes.rest();
        let send_time = match bytes.read_u64() {
            Ok(t) => t,
            Err(e) => {
                assert(s.subrange(0, s.len() as int) =~= s);
                return Err(e);
            },
        };
        let ghost s8 = s.subrange(8, s.len() as int);
        let r = match Work::deserialize(bytes) {
            Ok(work) => Ok(Request { send_time, work }),
            Err(e) => Err(e),
        };
        assert(s8.subrange(work_consumed(s8) as int, s8.len() as int) =~= s.subrange(
            8 + work_consumed(s8) as int,
            s.len() as int,
        ));
        r
    }
}

impl Serialize<Vec<u8>> for Response {
    fn serialize(self, bytes: &mut Vec<u8>)
        ensures
            final(bytes)@ == old(bytes)@ + response_wire(self),
    {
        push_be_u64(bytes, self.client_send_time);
    }
}

impl Deserialize<ByteCursor> for Response {
    fn deserialize(bytes: &mut ByteCursor) -> (r: Result<Response, DecodeError>)
        ensures
            r == parse_response(old(bytes).rest()),
            r is Ok ==> final(bytes).rest() == old(bytes).rest().subrange(
                RESPONSE_SIZE as int,
                old(bytes).rest().len() as int,
            ),
            r is Err ==> final(bytes).rest() == old(bytes).rest(),
    {
        match bytes.read_u64() {
            Ok(t) => Ok(Response { client_send_time: t }),
            Err(e) => Err(e),
        }
    }
}

/// Encodes a request into its seventeen bytes.
pub fn encode_request(req: Request) -> (r: Vec<u8>)
    ensures
        r@ == request_wire(req),
        r@.len() == REQUEST_SIZE,
{
    let mut out: Vec<u8> = Vec::new();
    req.serialize(&mut out);
    assert(out@ =~= request_wire(req));
    out
}

/// Encodes a response into its eight bytes.
pub fn encode_response(resp: Response) -> (r: Vec<u8>)
    ensures
        r@ == response_wire(resp),
        r@.len() == RESPONSE_SIZE,
{
    let mut out: Vec<u8> = Vec::new();
    resp.serialize(&mut out);
    assert(out@ =~= response_wire(resp));
    out
}

/// Decodes the request at the start of `buf`.
pub fn decode_request(buf: &[u8]) -> (r: Result<Request, DecodeError>)
    ensures
        r == parse_request(buf@),
{
    let ghost s = buf@;
    if buf.len() < 8 {
        return Err(DecodeError::UnexpectedEof);
    }
    let send_time = read_be_u64(buf, 0);
    let ghost w = s.subrange(8, s.len() as int);
    if buf.len() < 9 {
        return Err(DecodeError::UnexpectedEof);
    }
    let tag = buf[8];
    assert(w[0] == tag);
    if tag > 2 {
        return Err(DecodeError::InvalidData(tag));
    }
    if buf.len() < REQUEST_SIZE {
        return Err(DecodeError::UnexpectedEof);
    }
    let v = read_be_u64(buf, 9);
    assert(w.subrange(1, 9) =~= s.subrange(9, 17));
    let work = if tag == 0 {
        Work::Constant
    } else if tag == 1 {
        Work::Busy { amt: v }
    } else {
        Work::Sleep { micros: v }
    };
    proof {
        lemma_be_value_prefix(s);
    }
    Ok(Request { send_time, work })
}

/// Decodes the response at the start of `buf`.
pub fn decode_response(buf: &[u8]) -> (r: Result<Response, DecodeError>)
    ensures
        r == parse_response(buf@),
{
    if buf.len() < RESPONSE_SIZE {
        return Err(DecodeError::UnexpectedEof);
    }
    let t = read_be_u64(buf, 0);
    proof {
        lemma_be_value_prefix(buf@);
    }
    Ok(Response { client_send_time: t })
}

proof fn lemma_be_value_prefix(s: Seq<u8>)
    requires
        s.len() >= 8,
    ensures
        be_value(s.subrange(0, 8)) == be_value(s),
{
}

/// Relies on std::hint::black_box: it returns its argument unchanged, and keeps the
/// compiler from removing the loop that computes it.
pub assume_specification<T>[ core::hint::black_box ](dummy: T) -> (r: T)
    ensures
        r == dummy,
;

impl Work {
    /// Spins in a counted loop `amt` times.
    pub fn spin(amt: u64) {
        let mut i: u64 = 0;
        while i < amt
            invariant
                i <= amt,
            decreases amt - i,
        {
            i = core::hint::black_box(i) + 1;
        }
    }

    /// Does the work: nothing for `Constant`, a counted loop for `Busy`, and for `Sleep`
    /// one call of `sleep` with the microseconds to block for.
    pub fn do_work<F: Fn(u64)>(self, sleep: F)
        requires
            forall|m: u64| sleep.requires((m,)),
        ensures
            self matches Work::Sleep { micros } ==> sleep.ensures((micros,), ()),
    {
        match self {
            Work::Constant => {},
            Work::Busy { amt } => Work::spin(amt),
            Work::Sleep { micros } => sleep(micros),
        }
    }
}

impl Request {
    /// Does the request's work and answers it with the request's send time.
    pub fn do_work<F: Fn(u64)>(self, sleep: F) -> (r: Response)
        requires
            forall|m: u64| sleep.requires((m,)),
        ensures
            r.client_send_time == self.send_time,
            self.work matches Work::Sleep { micros } ==> sleep.ensures((micros,), ()),
    {
        self.work.do_work(sleep);
        Response { client_send_time: self.send_time }
    }
}

impl Response {
    /// The latency record for this response received at `recv_time`, or the anomaly
    /// when `recv_time` comes before the request's send time.
    pub fn latency_record_at(&self, recv_time: u64) -> (r: Result<LatencyRecord, ClockAnomaly>)
        ensures
            r == record_of(self.client_send_time, recv_time),
            r matches Ok(lr) ==> lr.wf(),
    {
        let send_time = self.client_send_time;
        if recv_time < send_time {
            Err(ClockAnomaly { send_time, recv_time })
        } else {
            Ok(LatencyRecord { send_time, recv_time })
        }
    }

    /// Reads the clock once and makes the latency record for this response, or reports
    /// the anomaly when the clock reads earlier than the request's send time.
    pub fn to_latency_record(&self) -> (r: Result<LatencyRecord, ClockAnomaly>)
        ensures
            r matches Ok(lr) ==> lr.send_time == self.client_send_time && lr.wf(),
            r matches Err(e) ==> e.send_time == self.client_send_time && e.recv_time
                < e.send_time,
    {
        let now = crate::utils::get_time();
        self.latency_record_at(now)
    }
}

/// Decoding the bytes of a request gives the request back, takes all seventeen of its
/// bytes, and ignores whatever follows them.
pub proof fn lemma_request_round_trip(r: Request, tail: Seq<u8>)
    ensures
        request_wire(r).len() == REQUEST_SIZE,
        parse_request(request_wire(r) + tail) == Ok::<Request, DecodeError>(r),
        request_consumed(request_wire(r) + tail) == REQUEST_SIZE,
{
    let s = request_wire(r) + tail;
    let w = s.subrange(8, s.len() as int);
    lemma_be_value_of_bytes(r.send_time);
    lemma_be_value_of_bytes(work_payload(r.work));
    assert(s.subrange(0, 8) =~= be_bytes(r.send_time));
    lemma_be_value_prefix(s);
    assert(w.subrange(1, 9) =~= be_bytes(work_payload(r.work)));
    assert(w[0] == work_tag(r.work));
}

/// Decoding the bytes of a response gives the response back, whatever follows them.
pub proof fn lemma_response_round_trip(r: Response, tail: Seq<u8>)
    ensures
        response_wire(r).len() == RESPONSE_SIZE,
        parse_response(response_wire(r) + tail) == Ok::<Response, DecodeError>(r),
{
    let s = response_wire(r) + tail;
    lemma_be_value_of_bytes(r.client_send_time);
    assert(s.subrange(0, 8) =~= be_bytes(r.client_send_time));
    lemma_be_value_prefix(s);
}

/// A request whose tag byte is none of the three known tags is rejected as invalid data,
/// carrying that tag.
pub proof fn lemma_invalid_tag_rejected(s: Seq<u8>)
    requires
        s.len() == REQUEST_SIZE,
        s[8] > 2,
    ensures
        parse_request(s) == Err::<Request, DecodeError>(DecodeError::InvalidData(s[8])),
{
    assert(s.subrange(8, s.len() as int)[0] == s[8]);
}

/// The response to any decodable request, which carries the request's send time, is
/// byte for byte the first eight bytes of that request.
pub proof fn lemma_response_echo(s: Seq<u8>, resp: Response)
    requires
        parse_request(s) is Ok,
        resp.client_send_time == parse_request(s)->Ok_0.send_time,
    ensures
        response_wire(resp) == s.subrange(0, RESPONSE_SIZE as int),
{
    lemma_be_value_prefix(s);
    lemma_be_bytes_of_value(s.subrange(0, 8));
}

} // verus!
