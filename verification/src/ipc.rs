//! Synchronous message-passing IPC.
//!
//! A rendezvous primitive in the style of L4/seL4 synchronous IPC: a thread
//! sends a three-word message on an endpoint and a thread receives from it.
//! Whoever arrives first blocks in the endpoint's wait queue until its partner
//! appears; then the message is transferred directly and both continue.
use vstd::prelude::*;
use crate::config::{MAX_ENDPOINTS, WAIT_QUEUE};

verus! {

pub const NUM_ENDPOINTS: usize = 4;

/// Endpoint rights a task may hold, one bit each.
pub const CAP_SEND: u8 = 1;

pub const CAP_RECV: u8 = 2;

/// Status codes of the one-word send/receive path.
pub const OK: usize = 0;

pub const EPERM: usize = 1;

pub const RECV_DENIED: usize = usize::MAX;

/// A message in transit: the sending thread and three payload words.
#[derive(Clone, Copy, Debug, PartialEq, Eq)]
pub struct Message {
    pub sender: usize,
    pub words: [usize; 3],
}

/// The message from `sender` carrying `w0, w1, w2`.
pub open spec fn msg_of(sender: usize, w0: usize, w1: usize, w2: usize) -> Message {
    Message { sender, words: [w0, w1, w2] }
}

impl Message {
    pub fn new(sender: usize, w0: usize, w1: usize, w2: usize) -> (m: Message)
        ensures
            m == msg_of(sender, w0, w1, w2),
    {
        let m = Message { sender, words: [w0, w1, w2] };
        assert(m.words =~= msg_of(sender, w0, w1, w2).words);
        m
    }

    pub fn empty() -> (m: Message)
        ensures
            m == msg_of(0, 0, 0, 0),
    {
        Message::new(0, 0, 0, 0)
    }
}

#[derive(Clone, Copy, Debug, PartialEq, Eq, Structural)]
pub enum IpcError {
    /// No free endpoint slot.
    Full,
    /// The endpoint id is out of range or not allocated.
    BadEndpoint,
    /// The endpoint's wait queue is full.
    QueueFull,
}

/// `s` with every occurrence of `tid` taken out, the rest in order.
pub open spec fn without(s: Seq<usize>, tid: usize) -> Seq<usize> {
    s.filter(|x: usize| x != tid)
}

/// Taking ids out of a sequence keeps every remaining id below `bound`.
pub proof fn lemma_without_bounded(s: Seq<usize>, tid: usize, bound: usize)
    requires
        forall|i: int| 0 <= i < s.len() ==> #[trigger] s[i] < bound,
    ensures
        forall|i: int| 0 <= i < without(s, tid).len() ==> #[trigger] without(s, tid)[i] < bound,
    decreases s.len(),
{
    reveal(Seq::filter);
    if s.len() > 0 {
        let d = s.drop_last();
        lemma_without_bounded(d, tid, bound);
        assert(without(s, tid) == (if s.last() != tid {
            without(d, tid).push(s.last())
        } else {
            without(d, tid)
        }));
        assert forall|i: int| 0 <= i < without(s, tid).len() implies #[trigger] without(s, tid)[i] < bound by {
            if i < without(d, tid).len() {
                assert(without(s, tid)[i] == without(d, tid)[i]);
            }
        }
    }
}

/// A bounded FIFO of waiting thread ids.
#[derive(Clone, Copy)]
pub struct WaitQueue {
    slots: [usize; WAIT_QUEUE],
    len: usize,
}

impl View for WaitQueue {
    type V = Seq<usize>;

    closed spec fn view(&self) -> Seq<usize> {
        self.slots@.take(self.len as int)
    }
}

impl WaitQueue {
    #[verifier::type_invariant]
    spec fn inv(self) -> bool {
        self.len <= WAIT_QUEUE
    }

    pub fn new() -> (q: WaitQueue)
        ensures
            q@ == Seq::<usize>::empty(),
    {
        let q = WaitQueue { slots: [0usize; WAIT_QUEUE], len: 0 };
        assert(q@ =~= Seq::<usize>::empty());
        q
    }

    pub fn len(&self) -> (n: usize)
        ensures
            n == self@.len(),
    {
        proof {
            use_type_invariant(self);
        }
        self.len
    }

    pub fn is_empty(&self) -> (b: bool)
        ensures
            b == (self@.len() == 0),
    {
        proof {
            use_type_invariant(self);
        }
        self.len == 0
    }

    /// Appends `tid` at the back; refused when the queue is full.
    pub fn push(&mut self, tid: usize) -> (r: Result<(), IpcError>)
        ensures
            old(self)@.len() < WAIT_QUEUE ==> r == Ok::<(), IpcError>(()) && final(self)@ == old(
                self,
            )@.push(tid),
            old(self)@.len() >= WAIT_QUEUE ==> r == Err::<(), IpcError>(IpcError::QueueFull)
                && *final(self) == *old(self),
    {
        proof {
            use_type_invariant(&*self);
        }
        if self.len >= WAIT_QUEUE {
            return Err(IpcError::QueueFull);
        }
        let ghost before = self@;
        let n = self.len;
        self.slots[n] = tid;
        self.len = n + 1;
        assert(self@ =~= before.push(tid));
        Ok(())
    }

    /// Takes the id at the front, if any.
    pub fn pop(&mut self) -> (r: Option<usize>)
        ensures
            old(self)@.len() == 0 ==> r is None && *final(self) == *old(self),
            old(self)@.len() > 0 ==> r == Some(old(self)@[0]) && final(self)@ == old(
                self,
            )@.drop_first(),
    {
        proof {
            use_type_invariant(&*self);
        }
        if self.len == 0 {
            return None;
        }
        let ghost before = self@;
        let first = self.slots[0];
        let n = self.len;
        let mut i: usize = 1;
        while i < n
            invariant
                1 <= i <= n,
                n == self.len,
                n <= WAIT_QUEUE,
                before == old(self)@,
                before.len() == n,
                forall|k: int| 0 <= k < i - 1 ==> self.slots@[k] == before[k + 1],
                forall|k: int| i <= k < n ==> self.slots@[k] == before[k],
            decreases n - i,
        {
            let v = self.slots[i];
            self.slots[i - 1] = v;
            i = i + 1;
        }
        self.len = n - 1;
        assert(self@ =~= before.drop_first());
        Some(first)
    }

    /// Drops every occurrence of `tid`, keeping the others in order.
    pub fn remove(&mut self, tid: usize)
        ensures
            final(self)@ == without(old(self)@, tid),
    {
        proof {
            use_type_invariant(&*self);
        }
        let ghost before = self@;
        let n = self.len;
        let mut i: usize = 0;
        let mut j: usize = 0;
        while i < n
            invariant
                0 <= j <= i <= n,
                n == self.len,
                n <= WAIT_QUEUE,
                before == old(self)@,
                before.len() == n,
                self.slots@.take(j as int) == without(before.take(i as int), tid),
                forall|k: int| i <= k < n ==> self.slots@[k] == before[k],
            decreases n - i,
        {
            let v = self.slots[i];
            proof {
                assert(before.take(i + 1).drop_last() =~= before.take(i as int));
                assert(before.take(i + 1).last() == v);
                reveal(Seq::filter);
                assert(without(before.take(i + 1), tid) == (if v != tid {
                    without(before.take(i as int), tid).push(v)
                } else {
                    without(before.take(i as int), tid)
                }));
            }
            if v != tid {
                self.slots[j] = v;
                proof {
                    assert(self.slots@.take(j + 1) =~= self.slots@.take(j as int).push(v));
                }
                j = j + 1;
            }
            i = i + 1;
        }
        self.len = j;
        assert(before.take(n as int) =~= before);
    }

    /// Whether every waiting id is below `bound`.
    pub fn all_below(&self, bound: usize) -> (b: bool)
        ensures
            b == forall|k: int| 0 <= k < self@.len() ==> #[trigger] self@[k] < bound,
    {
        proof {
            use_type_invariant(self);
        }
        let mut i: usize = 0;
        while i < self.len
            invariant
                0 <= i <= self.len,
                self.len <= WAIT_QUEUE,
                forall|k: int| 0 <= k < i ==> #[trigger] self@[k] < bound,
            decreases self.len - i,
        {
            if self.slots[i] >= bound {
                assert(self@[i as int] >= bound);
                return false;
            }
            i = i + 1;
        }
        true
    }

    /// Whether `tid` waits in this queue.
    pub fn contains(&self, tid: usize) -> (b: bool)
        ensures
            b == self@.contains(tid),
    {
        proof {
            use_type_invariant(self);
        }
        let mut i: usize = 0;
        while i < self.len
            invariant
                0 <= i <= self.len,
                self.len <= WAIT_QUEUE,
                forall|k: int| 0 <= k < i ==> self@[k] != tid,
            decreases self.len - i,
        {
            if self.slots[i] == tid {
                assert(self@[i as int] == tid);
                return true;
            }
            i = i + 1;
        }
        false
    }
}

/// A rendezvous point: a generation, bumped when the endpoint is revoked, and
/// the threads blocked sending and receiving on it, in arrival order.
#[derive(Clone, Copy)]
pub struct Endpoint {
    pub used: bool,
    pub generation: u32,
    pub senders: WaitQueue,
    pub receivers: WaitQueue,
}

impl Endpoint {
    pub fn new() -> (e: Endpoint)
        ensures
            !e.used,
            e.generation == 0,
            e.senders@ == Seq::<usize>::empty(),
            e.receivers@ == Seq::<usize>::empty(),
    {
        Endpoint { used: false, generation: 0, senders: WaitQueue::new(), receivers: WaitQueue::new() }
    }

    /// Takes the longest-waiting receiver, if any.
    pub fn pop_receiver(&mut self) -> (r: Option<usize>)
        ensures
            old(self).receivers@.len() == 0 ==> r is None && *final(self) == *old(self),
            old(self).receivers@.len() > 0 ==> r == Some(old(self).receivers@[0]),
            *final(self) == (Endpoint {
                receivers: final(self).receivers,
                ..*old(self)
            }),
            final(self).receivers@ == (if old(self).receivers@.len() == 0 {
                old(self).receivers@
            } else {
                old(self).receivers@.drop_first()
            }),
    {
        self.receivers.pop()
    }

    /// Takes the longest-waiting sender, if any.
    pub fn pop_sender(&mut self) -> (r: Option<usize>)
        ensures
            old(self).senders@.len() == 0 ==> r is None && *final(self) == *old(self),
            old(self).senders@.len() > 0 ==> r == Some(old(self).senders@[0]),
            *final(self) == (Endpoint { senders: final(self).senders, ..*old(self) }),
            final(self).senders@ == (if old(self).senders@.len() == 0 {
                old(self).senders@
            } else {
                old(self).senders@.drop_first()
            }),
    {
        self.senders.pop()
    }

    pub fn enqueue_sender(&mut self, tid: usize) -> (r: Result<(), IpcError>)
        ensures
            *final(self) == (Endpoint { senders: final(self).senders, ..*old(self) }),
            old(self).senders@.len() < WAIT_QUEUE ==> r is Ok && final(self).senders@ == old(
                self,
            ).senders@.push(tid),
            old(self).senders@.len() >= WAIT_QUEUE ==> r == Err::<(), IpcError>(
                IpcError::QueueFull,
            ) && *final(self) == *old(self),
    {
        self.senders.push(tid)
    }

    pub fn enqueue_receiver(&mut self, tid: usize) -> (r: Result<(), IpcError>)
        ensures
            *final(self) == (Endpoint { receivers: final(self).receivers, ..*old(self) }),
            old(self).receivers@.len() < WAIT_QUEUE ==> r is Ok && final(self).receivers@ == old(
                self,
            ).receivers@.push(tid),
            old(self).receivers@.len() >= WAIT_QUEUE ==> r == Err::<(), IpcError>(
                IpcError::QueueFull,
            ) && *final(self) == *old(self),
    {
        self.receivers.push(tid)
    }

    /// Takes `tid` out of both wait queues.
    pub fn cancel(&mut self, tid: usize)
        ensures
            final(self).used == old(self).used,
            final(self).generation == old(self).generation,
            final(self).senders@ == without(old(self).senders@, tid),
            final(self).receivers@ == without(old(self).receivers@, tid),
    {
        self.senders.remove(tid);
        self.receivers.remove(tid);
    }

    /// Frees the endpoint: its waiters are dropped and its generation moves
    /// on, so every capability minted for it goes stale.
    pub fn revoke(&mut self)
        ensures
            !final(self).used,
            final(self).generation == vstd::wrapping::u32_specs::wrapping_add(
                old(self).generation,
                1,
            ),
            final(self).senders@ == Seq::<usize>::empty(),
            final(self).receivers@ == Seq::<usize>::empty(),
    {
        self.used = false;
        self.generation = self.generation.wrapping_add(1);
        self.senders = WaitQueue::new();
        self.receivers = WaitQueue::new();
    }
}

/// The lowest free endpoint slot from 1 on, if there is one.
pub open spec fn first_free_endpoint(s: Seq<Endpoint>) -> Option<int> {
    if exists|i: int| 1 <= i < MAX_ENDPOINTS && !(#[trigger] s[i].used) {
        Some(
            choose|i: int|
                1 <= i < MAX_ENDPOINTS && !(#[trigger] s[i].used) && forall|j: int|
                    1 <= j < i ==> (#[trigger] s[j].used),
        )
    } else {
        None
    }
}

pub struct EndpointTable {
    pub slots: [Endpoint; MAX_ENDPOINTS],
}

impl EndpointTable {
    pub open spec fn valid_id(&self, ep: int) -> bool {
        0 <= ep < MAX_ENDPOINTS && self.slots@[ep].used
    }

    pub fn new() -> (t: EndpointTable)
        ensures
            forall|i: int|
                0 <= i < MAX_ENDPOINTS ==> !(#[trigger] t.slots@[i]).used && t.slots@[i].generation
                    == 0 && t.slots@[i].senders@.len() == 0 && t.slots@[i].receivers@.len() == 0,
    {
        EndpointTable { slots: [Endpoint::new(); MAX_ENDPOINTS] }
    }

    /// Marks the lowest free endpoint from 1 on as in use and returns its id.
    pub fn allocate(&mut self) -> (r: Result<usize, IpcError>)
        ensures
            match first_free_endpoint(old(self).slots@) {
                Some(i) => r == Ok::<usize, IpcError>(i as usize) && final(self).slots@ == old(
                    self,
                ).slots@.update(i, Endpoint { used: true, ..old(self).slots@[i] }),
                None => r == Err::<usize, IpcError>(IpcError::Full) && final(self).slots@ == old(
                    self,
                ).slots@,
            },
    {
        let mut i: usize = 1;
        while i < MAX_ENDPOINTS
            invariant
                1 <= i <= MAX_ENDPOINTS,
                self.slots@ == old(self).slots@,
                forall|j: int| 1 <= j < i ==> (#[trigger] self.slots@[j]).used,
            decreases MAX_ENDPOINTS - i,
        {
            if !self.slots[i].used {
                proof {
                    let k = i as int;
                    let c = choose|c: int|
                        1 <= c < MAX_ENDPOINTS && !(#[trigger] self.slots@[c].used) && forall|
                            j: int,
                        | 1 <= j < c ==> (#[trigger] self.slots@[j].used);
                    assert(!self.slots@[k].used);
                    assert(c == k) by {
                        if c > k {
                            assert(self.slots@[k].used);
                        }
                    }
                }
                self.slots[i].used = true;
                return Ok(i);
            }
            i = i + 1;
        }
        Err(IpcError::Full)
    }

    pub fn get(&self, ep: usize) -> (r: Result<&Endpoint, IpcError>)
        ensures
            self.valid_id(ep as int) ==> r == Ok::<&Endpoint, IpcError>(&self.slots@[ep as int]),
            !self.valid_id(ep as int) ==> r == Err::<&Endpoint, IpcError>(IpcError::BadEndpoint),
    {
        if ep >= MAX_ENDPOINTS || !self.slots[ep].used {
            return Err(IpcError::BadEndpoint);
        }
        Ok(&self.slots[ep])
    }

    pub fn get_mut(&mut self, ep: usize) -> (r: Result<&mut Endpoint, IpcError>)
        ensures
            old(self).valid_id(ep as int) ==> r is Ok && *r->Ok_0 == old(self).slots@[ep as int]
                && final(self).slots@ == old(self).slots@.update(ep as int, *final(r->Ok_0)),
            !old(self).valid_id(ep as int) ==> r == Err::<&mut Endpoint, IpcError>(
                IpcError::BadEndpoint,
            ) && final(self).slots@ == old(self).slots@,
    {
        if ep >= MAX_ENDPOINTS || !self.slots[ep].used {
            return Err(IpcError::BadEndpoint);
        }
        Ok(&mut self.slots[ep])
    }
}

} // verus!
