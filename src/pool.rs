//! The per-worker pool of connection slots, and what a worker does when a slot's
//! frame is complete.
use vstd::prelude::*;

use crate::connection::{
    frame_size, progress_after, Action, Connection, ConnectionView, Progress,
};
use crate::protocol::{
    lemma_response_echo, parse_request, response_wire, Response, Work, REQUEST_SIZE,
    RESPONSE_SIZE,
};

verus! {

/// How many entries of `s` are true.
pub open spec fn count_true(s: Seq<bool>) -> nat
    decreases s.len(),
{
    if s.len() == 0 {
        0
    } else {
        count_true(s.drop_last()) + if s.last() {
            1nat
        } else {
            0nat
        }
    }
}

proof fn lemma_count_true_update(s: Seq<bool>, i: int, b: bool)
    requires
        0 <= i < s.len(),
    ensures
        count_true(s.update(i, b)) + (if s[i] {
            1nat
        } else {
            0nat
        }) == count_true(s) + (if b {
            1nat
        } else {
            0nat
        }),
    decreases s.len(),
{
    let t = s.update(i, b);
    if i < s.len() - 1 {
        assert(t.drop_last() =~= s.drop_last().update(i, b));
        lemma_count_true_update(s.drop_last(), i, b);
    } else {
        assert(t.drop_last() =~= s.drop_last());
    }
}

proof fn lemma_count_true_none(n: nat)
    ensures
        count_true(Seq::new(n, |i: int| false)) == 0,
    decreases n,
{
    if n > 0 {
        assert(Seq::new(n, |i: int| false).drop_last() =~= Seq::new((n - 1) as nat, |i: int| false));
        lemma_count_true_none((n - 1) as nat);
    }
}

/// What the worker does with a slot's readiness interest after its frame completed.
#[derive(Clone, Copy, Debug, PartialEq, Eq, Structural)]
pub enum Directive {
    /// Keep the slot, now interested in the given half of the transaction.
    Rearm(Action),
    /// Unregister the socket: the slot has gone back to the free list.
    Release,
}

/// A fixed slab of connection slots and the list of the free ones. A slot's index is
/// the handle that readiness events carry.
pub struct ConnectionPool {
    capacity: usize,
    conns: Vec<Connection>,
    id_pool: Vec<usize>,
    in_use: Vec<bool>,
}

impl ConnectionPool {
    /// The number of slots.
    pub closed spec fn cap(&self) -> nat {
        self.capacity as nat
    }

    /// The free slots, the next to be taken last.
    pub closed spec fn free_list(&self) -> Seq<usize> {
        self.id_pool@
    }

    /// For each slot, whether a client holds it.
    pub closed spec fn used(&self) -> Seq<bool> {
        self.in_use@
    }

    /// The state of slot `id`.
    pub closed spec fn conn(&self, id: int) -> ConnectionView {
        self.conns@[id]@
    }

    /// The number of slots that clients hold.
    pub open spec fn in_use_count(&self) -> nat {
        count_true(self.used())
    }

    pub closed spec fn wf(&self) -> bool {
        &&& self.conns@.len() == self.capacity
        &&& self.in_use@.len() == self.capacity
        &&& self.id_pool@.no_duplicates()
        &&& forall|k: int|
            0 <= k < self.id_pool@.len() ==> #[trigger] self.id_pool@[k] < self.capacity
                && !self.in_use@[self.id_pool@[k] as int]
        &&& forall|i: int|
            0 <= i < self.capacity && !#[trigger] self.in_use@[i] ==> self.id_pool@.contains(
                i as usize,
            )
        &&& self.id_pool@.len() + count_true(self.in_use@) == self.capacity
        &&& forall|i: int| 0 <= i < self.capacity ==> (#[trigger] self.conns@[i]).wf()
        &&& forall|i: int|
            0 <= i < self.capacity && !#[trigger] self.in_use@[i] ==> self.conns@[i].is_fresh()
    }

    /// A pool of `capacity` free slots, each ready to read a request.
    pub fn new(capacity: usize) -> (p: ConnectionPool)
        ensures
            p.wf(),
            p.cap() == capacity,
            p.free_list() == Seq::new(capacity as nat, |i: int| i as usize),
            p.used() == Seq::new(capacity as nat, |i: int| false),
    {
        let mut conns: Vec<Connection> = Vec::new();
        let mut id_pool: Vec<usize> = Vec::new();
        let mut in_use: Vec<bool> = Vec::new();
        let mut i: usize = 0;
        while i < capacity
            invariant
                i <= capacity,
                conns@.len() == i,
                in_use@ == Seq::new(i as nat, |k: int| false),
                id_pool@ == Seq::new(i as nat, |k: int| k as usize),
                forall|k: int| 0 <= k < i ==> (#[trigger] conns@[k]).wf() && conns@[k].is_fresh(),
            decreases capacity - i,
        {
            conns.push(Connection::new());
            id_pool.push(i);
            in_use.push(false);
            i = i + 1;
            assert(in_use@ =~= Seq::new(i as nat, |k: int| false));
            assert(id_pool@ =~= Seq::new(i as nat, |k: int| k as usize));
        }
        proof {
            lemma_count_true_none(capacity as nat);
            assert forall|k: int| 0 <= k < capacity && !#[trigger] in_use@[k] implies id_pool@.contains(
                k as usize,
            ) by {
                assert(id_pool@[k] == k as usize);
            }
        }
        ConnectionPool { capacity, conns, id_pool, in_use }
    }

    /// The number of slots.
    pub fn capacity(&self) -> (r: usize)
        ensures
            r == self.cap(),
    {
        self.capacity
    }

    /// Returns `true` if no slot is in use.
    pub fn is_empty(&self) -> (r: bool)
        requires
            self.wf(),
        ensures
            r == (self.in_use_count() == 0),
    {
        self.id_pool.len() == self.capacity
    }

    /// Returns `true` if every slot is in use.
    pub fn is_full(&self) -> (r: bool)
        requires
            self.wf(),
        ensures
            r == (self.free_list().len() == 0),
            r == (self.in_use_count() == self.cap()),
    {
        self.id_pool.len() == 0
    }

    /// Whether a client holds slot `id`.
    pub fn is_used(&self, id: usize) -> (r: bool)
        requires
            self.wf(),
            id < self.cap(),
        ensures
            r == self.used()[id as int],
    {
        self.in_use[id]
    }

    /// Takes a free slot for a new client and returns its index.
    pub fn add(&mut self) -> (id: usize)
        requires
            old(self).wf(),
            old(self).free_list().len() > 0,
        ensures
            final(self).wf(),
            final(self).cap() == old(self).cap(),
            id == old(self).free_list().last(),
            id < old(self).cap(),
            !old(self).used()[id as int],
            final(self).free_list() == old(self).free_list().drop_last(),
            final(self).used() == old(self).used().update(id as int, true),
            final(self).conn(id as int).idx == 0,
            final(self).conn(id as int).action == Action::Read,
            forall|j: int| 0 <= j < old(self).cap() ==> #[trigger] final(self).conn(j) == old(self).conn(j),
    {
        let ghost ids = self.id_pool@;
        let id = self.id_pool.pop().unwrap();
        assert(ids[ids.len() - 1] == id);
        proof {
            lemma_count_true_update(self.in_use@, id as int, true);
        }
        self.in_use.set(id, true);
        proof {
            assert(self.id_pool@ =~= ids.drop_last());
            assert forall|k: int| 0 <= k < self.id_pool@.len() implies #[trigger] self.id_pool@[k]
                < self.capacity && !self.in_use@[self.id_pool@[k] as int] by {
                assert(ids[k] == self.id_pool@[k]);
                assert(ids[k] != ids[ids.len() - 1]);
            }
            assert forall|i: int| 0 <= i < self.capacity && !#[trigger] self.in_use@[i] implies self.id_pool@.contains(
                i as usize,
            ) by {
                assert(old(self).in_use@[i] == false);
                let k = choose|k: int| 0 <= k < ids.len() && ids[k] == i as usize;
                assert(k != ids.len() - 1);
                assert(self.id_pool@[k] == i as usize);
            }
        }
        id
    }

    /// Returns slot `id` to the free list, ready to read a request for the next client.
    pub fn delete(&mut self, id: usize)
        requires
            old(self).wf(),
            id < old(self).cap(),
            old(self).used()[id as int],
        ensures
            final(self).wf(),
            final(self).cap() == old(self).cap(),
            final(self).free_list() == old(self).free_list().push(id),
            final(self).used() == old(self).used().update(id as int, false),
            final(self).conn(id as int) == (ConnectionView {
                idx: 0,
                action: Action::Read,
                ..old(self).conn(id as int)
            }),
            forall|j: int|
                0 <= j < old(self).cap() && j != id ==> #[trigger] final(self).conn(j) == old(self).conn(j),
    {
        self.conns[id].reset(Action::Read);
        proof {
            lemma_count_true_update(self.in_use@, id as int, false);
            assert(!self.id_pool@.contains(id));
        }
        self.in_use.set(id, false);
        let ghost ids = self.id_pool@;
        self.id_pool.push(id);
        proof {
            assert forall|k: int| 0 <= k < self.id_pool@.len() implies #[trigger] self.id_pool@[k]
                < self.capacity && !self.in_use@[self.id_pool@[k] as int] by {
                if k < ids.len() {
                    assert(ids[k] == self.id_pool@[k]);
                    assert(ids[k] != id);
                }
            }
            assert forall|i: int| 0 <= i < self.capacity && !#[trigger] self.in_use@[i] implies self.id_pool@.contains(
                i as usize,
            ) by {
                if i == id {
                    assert(self.id_pool@[ids.len() as int] == id);
                } else {
                    assert(old(self).in_use@[i] == false);
                    let k = choose|k: int| 0 <= k < ids.len() && ids[k] == i as usize;
                    assert(self.id_pool@[k] == i as usize);
                }
            }
            assert forall|a: int, b: int|
                0 <= a < self.id_pool@.len() && 0 <= b < self.id_pool@.len() && a != b implies self.id_pool@[a]
                != self.id_pool@[b] by {
                if a < ids.len() && b < ids.len() {
                    assert(ids[a] == self.id_pool@[a] && ids[b] == self.id_pool@[b]);
                } else if a < ids.len() {
                    assert(self.id_pool@[a] < self.capacity && !self.in_use@[self.id_pool@[a] as int]);
                } else {
                    assert(self.id_pool@[b] < self.capacity && !self.in_use@[self.id_pool@[b] as int]);
                }
            }
        }
    }

    /// Starts the next half-transaction of slot `id`.
    pub fn modify(&mut self, id: usize, state: Action)
        requires
            old(self).wf(),
            id < old(self).cap(),
            old(self).used()[id as int],
        ensures
            final(self).wf(),
            final(self).cap() == old(self).cap(),
            final(self).free_list() == old(self).free_list(),
            final(self).used() == old(self).used(),
            final(self).conn(id as int) == (ConnectionView {
                idx: 0,
                action: state,
                ..old(self).conn(id as int)
            }),
            forall|j: int|
                0 <= j < old(self).cap() && j != id ==> #[trigger] final(self).conn(j) == old(self).conn(j),
    {
        self.conns[id].reset(state);
    }

    /// The connection in slot `id`.
    pub fn get_ref(&self, id: usize) -> (r: &Connection)
        requires
            self.wf(),
            id < self.cap(),
        ensures
            r@ == self.conn(id as int),
            r.wf(),
    {
        &self.conns[id]
    }

    /// Takes the bytes that one read on slot `id`'s socket returned.
    pub fn received(&mut self, id: usize, data: &[u8]) -> (p: Progress)
        requires
            old(self).wf(),
            id < old(self).cap(),
            old(self).used()[id as int],
            old(self).conn(id as int).action == Action::Read,
            data@.len() <= frame_size(Action::Read) - old(self).conn(id as int).idx,
        ensures
            final(self).wf(),
            final(self).cap() == old(self).cap(),
            final(self).free_list() == old(self).free_list(),
            final(self).used() == old(self).used(),
            p == progress_after(old(self).conn(id as int), data@.len()),
            final(self).conn(id as int).action == Action::Read,
            final(self).conn(id as int).idx == old(self).conn(id as int).idx + data@.len(),
            final(self).conn(id as int).buf == old(self).conn(id as int).buf.subrange(
                0,
                old(self).conn(id as int).idx as int,
            ) + data@ + old(self).conn(id as int).buf.subrange(
                (old(self).conn(id as int).idx + data@.len()) as int,
                REQUEST_SIZE as int,
            ),
            forall|j: int|
                0 <= j < old(self).cap() && j != id ==> #[trigger] final(self).conn(j) == old(self).conn(j),
    {
        self.conns[id].received(data)
    }

    /// Takes the count that one write on slot `id`'s socket returned.
    pub fn sent(&mut self, id: usize, n: usize) -> (p: Progress)
        requires
            old(self).wf(),
            id < old(self).cap(),
            old(self).used()[id as int],
            old(self).conn(id as int).action == Action::Write,
            n <= frame_size(Action::Write) - old(self).conn(id as int).idx,
        ensures
            final(self).wf(),
            final(self).cap() == old(self).cap(),
            final(self).free_list() == old(self).free_list(),
            final(self).used() == old(self).used(),
            p == progress_after(old(self).conn(id as int), n as nat),
            final(self).conn(id as int) == (ConnectionView {
                idx: (old(self).conn(id as int).idx + n) as nat,
                ..old(self).conn(id as int)
            }),
            forall|j: int|
                0 <= j < old(self).cap() && j != id ==> #[trigger] final(self).conn(j) == old(self).conn(j),
    {
        self.conns[id].sent(n)
    }

    /// Finishes the half-transaction that slot `id` has completed. After a read it decodes
    /// the request, does its work (calling `sleep` for a sleep), puts the response in the
    /// buffer and turns to writing it; a request that does not decode frees the slot.
    /// After a write it turns back to reading the next request.
    pub fn complete<F: Fn(u64)>(&mut self, id: usize, sleep: F) -> (d: Directive)
        requires
            old(self).wf(),
            id < old(self).cap(),
            old(self).used()[id as int],
            old(self).conn(id as int).idx == frame_size(old(self).conn(id as int).action),
            forall|m: u64| sleep.requires((m,)),
        ensures
            final(self).wf(),
            final(self).cap() == old(self).cap(),
            forall|j: int|
                0 <= j < old(self).cap() && j != id ==> #[trigger] final(self).conn(j) == old(self).conn(j),
            old(self).conn(id as int).action == Action::Write ==> {
                &&& d == Directive::Rearm(Action::Read)
                &&& final(self).free_list() == old(self).free_list()
                &&& final(self).used() == old(self).used()
                &&& final(self).conn(id as int) == (ConnectionView {
                    idx: 0,
                    action: Action::Read,
                    ..old(self).conn(id as int)
                })
            },
            old(self).conn(id as int).action == Action::Read ==> match parse_request(
                old(self).conn(id as int).buf,
            ) {
                Ok(req) => {
                    &&& d == Directive::Rearm(Action::Write)
                    &&& final(self).free_list() == old(self).free_list()
                    &&& final(self).used() == old(self).used()
                    &&& final(self).conn(id as int).action == Action::Write
                    &&& final(self).conn(id as int).idx == 0
                    &&& final(self).conn(id as int).buf.subrange(0, RESPONSE_SIZE as int)
                        == response_wire(Response { client_send_time: req.send_time })
                    &&& final(self).conn(id as int).buf.subrange(0, RESPONSE_SIZE as int)
                        == old(self).conn(id as int).buf.subrange(0, RESPONSE_SIZE as int)
                    &&& req.work matches Work::Sleep { micros } ==> sleep.ensures((micros,), ())
                },
                Err(_) => {
                    &&& d == Directive::Release
                    &&& final(self).free_list() == old(self).free_list().push(id)
                    &&& final(self).used() == old(self).used().update(id as int, false)
                    &&& final(self).conn(id as int).idx == 0
                    &&& final(self).conn(id as int).action == Action::Read
                },
            },
    {
        match self.conns[id].action() {
            Action::Write => {
                self.modify(id, Action::Read);
                Directive::Rearm(Action::Read)
            },
            Action::Read => {
                match self.conns[id].deserialize_request() {
                    Ok(req) => {
                        proof {
                            lemma_response_echo(
                                self.conns@[id as int]@.buf,
                                Response { client_send_time: req.send_time },
                            );
                        }
                        let response = req.do_work(sleep);
                        self.conns[id].serialize_response(response);
                        Directive::Rearm(Action::Write)
                    },
                    Err(_) => {
                        self.delete(id);
                        Directive::Release
                    },
                }
            },
        }
    }
}

/// In every pool, the free slots and the slots in use add up to the capacity, no slot
/// appears twice in the free list, every free slot is a real slot not in use, and every
/// slot not in use is free.
pub proof fn lemma_admission_invariant(p: &ConnectionPool)
    requires
        p.wf(),
    ensures
        p.free_list().len() + p.in_use_count() == p.cap(),
        p.free_list().no_duplicates(),
        forall|k: int|
            0 <= k < p.free_list().len() ==> #[trigger] p.free_list()[k] < p.cap() && !p.used()[p.free_list()[k] as int],
        forall|i: int| 0 <= i < p.cap() && !#[trigger] p.used()[i] ==> p.free_list().contains(i as usize),
        p.used().len() == p.cap(),
{
}

} // verus!
