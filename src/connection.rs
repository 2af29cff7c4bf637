//! One connection slot of the event-loop server: a fixed scratch buffer that holds a
//! request while it is read and a response while it is written.
use vstd::prelude::*;

use crate::protocol::{
    encode_response, decode_request, parse_request, response_wire, DecodeError, Request,
    Response, REQUEST_SIZE, RESPONSE_SIZE,
};

verus! {

/// The half of a transaction a connection is in.
#[derive(Clone, Copy, Debug, PartialEq, Eq, Structural)]
pub enum Action {
    Read,
    Write,
}

/// Bytes in the frame that `action` moves: a request when reading, a response when writing.
pub open spec fn frame_size(action: Action) -> nat {
    match action {
        Action::Read => REQUEST_SIZE as nat,
        Action::Write => RESPONSE_SIZE as nat,
    }
}

/// The kinds of socket error that decide what happens to a connection.
#[derive(Clone, Copy, Debug, PartialEq, Eq, Structural)]
pub enum IoFault {
    WouldBlock,
    Interrupted,
    UnexpectedEof,
    WriteZero,
    Other,
}

/// What to do after one read or write on a connection's socket.
#[derive(Clone, Copy, Debug, PartialEq, Eq, Structural)]
pub enum Progress {
    /// Try the socket again.
    Continue,
    /// The whole frame has been moved.
    Complete,
    /// The socket would block: wait for the next readiness event.
    Blocked,
    /// The connection is over, for the reason given.
    Closed(IoFault),
}

/// The abstract state of a connection: its scratch buffer, how far into the current
/// frame it is, and which half of the transaction it is in.
pub struct ConnectionView {
    pub buf: Seq<u8>,
    pub idx: nat,
    pub action: Action,
}

/// A connection slot.
pub struct Connection {
    buf: Vec<u8>,
    idx: usize,
    action: Action,
}

impl View for Connection {
    type V = ConnectionView;

    closed spec fn view(&self) -> ConnectionView {
        ConnectionView { buf: self.buf@, idx: self.idx as nat, action: self.action }
    }
}

/// What a progress report means for a connection in state `c` after one transfer of
/// `n` bytes: none is an error, the end of the frame completes it.
pub open spec fn progress_after(c: ConnectionView, n: nat) -> Progress {
    if n == 0 {
        match c.action {
            Action::Read => Progress::Closed(IoFault::UnexpectedEof),
            Action::Write => Progress::Closed(IoFault::WriteZero),
        }
    } else if c.idx + n == frame_size(c.action) {
        Progress::Complete
    } else {
        Progress::Continue
    }
}

/// What a failed read or write means for a connection.
pub open spec fn progress_on_fault(kind: IoFault) -> Progress {
    match kind {
        IoFault::Interrupted => Progress::Continue,
        IoFault::WouldBlock => Progress::Blocked,
        _ => Progress::Closed(kind),
    }
}

impl Connection {
    /// The buffer holds a whole request, and the position lies within the current frame.
    pub open spec fn wf(&self) -> bool {
        &&& self@.buf.len() == REQUEST_SIZE
        &&& self@.idx <= frame_size(self@.action)
    }

    /// A slot waiting for a request: position zero, reading.
    pub open spec fn is_fresh(&self) -> bool {
        self@.idx == 0 && self@.action == Action::Read
    }

    /// A new slot with a zeroed buffer, ready to read a request.
    pub fn new() -> (c: Connection)
        ensures
            c.wf(),
            c.is_fresh(),
            c@.buf == Seq::new(REQUEST_SIZE as nat, |i: int| 0u8),
    {
        let mut buf: Vec<u8> = Vec::new();
        let mut i: usize = 0;
        while i < REQUEST_SIZE
            invariant
                i <= REQUEST_SIZE,
                buf@ == Seq::new(i as nat, |k: int| 0u8),
            decreases REQUEST_SIZE - i,
        {
            buf.push(0u8);
            i = i + 1;
            assert(buf@ =~= Seq::new(i as nat, |k: int| 0u8));
        }
        Connection { buf, idx: 0, action: Action::Read }
    }

    /// Starts a new half-transaction: back to the start of the buffer, in `state`.
    pub fn reset(&mut self, state: Action)
        requires
            old(self).wf(),
        ensures
            final(self).wf(),
            final(self)@ == (ConnectionView { buf: old(self)@.buf, idx: 0, action: state }),
    {
        self.idx = 0;
        self.action = state;
    }

    /// The half of the transaction the connection is in.
    pub fn action(&self) -> (r: Action)
        ensures
            r == self@.action,
    {
        self.action
    }

    /// Bytes in the current frame.
    pub fn frame_size(&self) -> (r: usize)
        ensures
            r == frame_size(self@.action),
    {
        match self.action {
            Action::Read => REQUEST_SIZE,
            Action::Write => RESPONSE_SIZE,
        }
    }

    /// Bytes of the current frame not moved yet.
    pub fn remaining(&self) -> (r: usize)
        requires
            self.wf(),
        ensures
            r == frame_size(self@.action) - self@.idx,
    {
        self.frame_size() - self.idx
    }

    /// The bytes of the current frame not moved yet: what a write sends next.
    pub fn unsent(&self) -> (r: Vec<u8>)
        requires
            self.wf(),
        ensures
            r@ == self@.buf.subrange(self@.idx as int, frame_size(self@.action) as int),
    {
        let end = self.frame_size();
        let mut out: Vec<u8> = Vec::new();
        let mut i: usize = self.idx;
        while i < end
            invariant
                self.wf(),
                end == frame_size(self@.action),
                self.idx <= i <= end,
                out@ == self@.buf.subrange(self.idx as int, i as int),
            decreases end - i,
        {
            out.push(self.buf[i]);
            i = i + 1;
            assert(out@ =~= self@.buf.subrange(self.idx as int, i as int));
        }
        out
    }

    /// Takes the bytes that one read returned: they land at the current position, which
    /// moves past them. No bytes means the peer closed the connection.
    pub fn received(&mut self, data: &[u8]) -> (p: Progress)
        requires
            old(self).wf(),
            old(self)@.action == Action::Read,
            data@.len() <= frame_size(old(self)@.action) - old(self)@.idx,
        ensures
            final(self).wf(),
            p == progress_after(old(self)@, data@.len()),
            final(self)@.action == Action::Read,
            final(self)@.idx == old(self)@.idx + data@.len(),
            final(self)@.buf == old(self)@.buf.subrange(0, old(self)@.idx as int) + data@
                + old(self)@.buf.subrange(
                (old(self)@.idx + data@.len()) as int,
                REQUEST_SIZE as int,
            ),
    {
        let n = data.len();
        let mut k: usize = 0;
        while k < n
            invariant
                self.wf(),
                self@.action == Action::Read,
                self.idx == old(self).idx,
                old(self)@.buf.len() == REQUEST_SIZE,
                n == data@.len(),
                k <= n,
                self.idx + n <= REQUEST_SIZE,
                self@.buf == old(self)@.buf.subrange(0, self.idx as int) + data@.subrange(
                    0,
                    k as int,
                ) + old(self)@.buf.subrange(self.idx + k, REQUEST_SIZE as int),
            decreases n - k,
        {
            let at = self.idx + k;
            self.buf.set(at, data[k]);
            k = k + 1;
            assert(self@.buf =~= old(self)@.buf.subrange(0, self.idx as int) + data@.subrange(
                0,
                k as int,
            ) + old(self)@.buf.subrange(self.idx + k, REQUEST_SIZE as int));
        }
        assert(data@.subrange(0, n as int) =~= data@);
        self.idx = self.idx + n;
        if n == 0 {
            Progress::Closed(IoFault::UnexpectedEof)
        } else if self.idx == REQUEST_SIZE {
            Progress::Complete
        } else {
            Progress::Continue
        }
    }

    /// Takes the count that one write returned: the position moves past the bytes sent.
    /// Zero bytes sent means the peer can take no more.
    pub fn sent(&mut self, n: usize) -> (p: Progress)
        requires
            old(self).wf(),
            old(self)@.action == Action::Write,
            n <= frame_size(old(self)@.action) - old(self)@.idx,
        ensures
            final(self).wf(),
            p == progress_after(old(self)@, n as nat),
            final(self)@ == (ConnectionView { idx: (old(self)@.idx + n) as nat, ..old(self)@ }),
    {
        self.idx = self.idx + n;
        if n == 0 {
            Progress::Closed(IoFault::WriteZero)
        } else if self.idx == RESPONSE_SIZE {
            Progress::Complete
        } else {
            Progress::Continue
        }
    }

    /// What a failed read or write means: retry when interrupted, wait when it would
    /// block, and close on anything else.
    pub fn failed(&self, kind: IoFault) -> (p: Progress)
        ensures
            p == progress_on_fault(kind),
    {
        match kind {
            IoFault::Interrupted => Progress::Continue,
            IoFault::WouldBlock => Progress::Blocked,
            _ => Progress::Closed(kind),
        }
    }

    /// Decodes the request that a completed read left in the buffer.
    pub fn deserialize_request(&self) -> (r: Result<Request, DecodeError>)
        requires
            self.wf(),
        ensures
            r == parse_request(self@.buf),
    {
        decode_request(self.buf.as_slice())
    }

    /// Puts the encoded response at the start of the buffer and turns the connection to
    /// writing it from its first byte.
    pub fn serialize_response(&mut self, response: Response)
        requires
            old(self).wf(),
        ensures
            final(self).wf(),
            final(self)@.action == Action::Write,
            final(self)@.idx == 0,
            final(self)@.buf.len() == REQUEST_SIZE,
            final(self)@.buf.subrange(0, RESPONSE_SIZE as int) == response_wire(response),
    {
        let bytes = encode_response(response);
        let mut k: usize = 0;
        while k < RESPONSE_SIZE
            invariant
                k <= RESPONSE_SIZE,
                bytes@ == response_wire(response),
                bytes@.len() == RESPONSE_SIZE,
                self.buf@.len() == REQUEST_SIZE,
                self.buf@.subrange(0, k as int) == bytes@.subrange(0, k as int),
            decreases RESPONSE_SIZE - k,
        {
            self.buf.set(k, bytes[k]);
            k = k + 1;
            assert(self.buf@.subrange(0, k as int) =~= bytes@.subrange(0, k as int));
        }
        assert(bytes@.subrange(0, RESPONSE_SIZE as int) =~= bytes@);
        self.idx = 0;
        self.action = Action::Write;
    }
}

} // verus!
