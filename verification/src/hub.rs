//! The connection hub: the set of currently-connected real-time clients.
//!
//! Each connection is keyed by its network address and owns two outbound
//! queues: a subscription to the shared broadcast channel, bounded at
//! `BROADCAST_CAPACITY` messages with the oldest unread message dropped on
//! overflow (a slow subscriber skips messages rather than blocking the
//! publisher), and an unbounded unicast queue. Delivery order within one
//! connection follows enqueue order; the unverified shell drains the queues
//! into the socket.

use vstd::prelude::*;

use crate::errors::DeliveryError;

verus! {

/// Capacity of the shared broadcast channel: a subscriber more than this
/// many messages behind loses the oldest unread ones.
pub const BROADCAST_CAPACITY: usize = 100;

/// The model of one connection: its address and the two outbound queues,
/// oldest message first.
#[verifier::ext_equal]
pub ghost struct ConnModel {
    pub addr: Seq<char>,
    pub broadcast_queue: Seq<Seq<char>>,
    pub unicast_queue: Seq<Seq<char>>,
}

/// One connected client.
pub struct Connection {
    addr: String,
    broadcast_queue: Vec<String>,
    unicast_queue: Vec<String>,
}

impl View for Connection {
    type V = ConnModel;

    closed spec fn view(&self) -> ConnModel {
        ConnModel {
            addr: self.addr@,
            broadcast_queue: self.broadcast_queue@.map_values(|m: String| m@),
            unicast_queue: self.unicast_queue@.map_values(|m: String| m@),
        }
    }
}

/// The currently-connected clients, keyed by address.
pub struct ConnectionHub {
    conns: Vec<Connection>,
}

/// A fresh connection model: empty queues. A subscriber sees only messages
/// broadcast after it connected.
pub open spec fn fresh_conn(addr: Seq<char>) -> ConnModel {
    ConnModel { addr, broadcast_queue: Seq::empty(), unicast_queue: Seq::empty() }
}

/// One broadcast as one subscriber's queue sees it: appended, dropping the
/// oldest unread message when the queue is at capacity.
pub open spec fn conn_after_broadcast(c: ConnModel, m: Seq<char>) -> ConnModel {
    ConnModel {
        broadcast_queue: if c.broadcast_queue.len() < BROADCAST_CAPACITY {
            c.broadcast_queue.push(m)
        } else {
            c.broadcast_queue.skip(1).push(m)
        },
        ..c
    }
}

/// One broadcast as the hub sees it: every connection receives it
/// independently; no connection's backlog delays any other.
pub open spec fn spec_broadcast(s: Seq<ConnModel>, m: Seq<char>) -> Seq<ConnModel> {
    s.map_values(|c: ConnModel| conn_after_broadcast(c, m))
}

/// The connections left after the one with this address is dropped, in
/// their original order.
pub open spec fn without_addr(s: Seq<ConnModel>, addr: Seq<char>) -> Seq<ConnModel>
    decreases s.len(),
{
    if s.len() == 0 {
        Seq::empty()
    } else if s.last().addr == addr {
        without_addr(s.drop_last(), addr)
    } else {
        without_addr(s.drop_last(), addr).push(s.last())
    }
}

/// Connecting replaces any stale registration for the same address with a
/// fresh one.
pub open spec fn spec_connect(s: Seq<ConnModel>, addr: Seq<char>) -> Seq<ConnModel> {
    without_addr(s, addr).push(fresh_conn(addr))
}

/// Whether some connection has this address.
pub open spec fn has_addr(s: Seq<ConnModel>, addr: Seq<char>) -> bool {
    exists|i: int| 0 <= i < s.len() && (#[trigger] s[i].addr) == addr
}

/// The position of the connection with this address (unique in a
/// well-formed hub).
pub open spec fn addr_index(s: Seq<ConnModel>, addr: Seq<char>) -> int {
    choose|i: int| 0 <= i < s.len() && (#[trigger] s[i].addr) == addr
}

/// A unicast enqueued at the connection with this address; other
/// connections are untouched.
pub open spec fn spec_unicast(s: Seq<ConnModel>, addr: Seq<char>, m: Seq<char>) -> Seq<ConnModel> {
    s.map_values(
        |c: ConnModel|
            if c.addr == addr {
                ConnModel { unicast_queue: c.unicast_queue.push(m), ..c }
            } else {
                c
            },
    )
}

proof fn lemma_filter_absent(s: Seq<ConnModel>, addr: Seq<char>)
    requires
        forall|i: int| 0 <= i < s.len() ==> (#[trigger] s[i].addr) != addr,
    ensures
        without_addr(s, addr) == s,
    decreases s.len(),
{
    if s.len() > 0 {
        lemma_filter_absent(s.drop_last(), addr);
        assert(without_addr(s, addr) =~= s);
    } else {
        assert(without_addr(s, addr) =~= s);
    }
}

proof fn lemma_filter_unique_remove(s: Seq<ConnModel>, i: int, addr: Seq<char>)
    requires
        0 <= i < s.len(),
        s[i].addr == addr,
        forall|j: int| 0 <= j < s.len() && j != i ==> (#[trigger] s[j].addr) != addr,
    ensures
        without_addr(s, addr) == s.remove(i),
    decreases s.len(),
{
    if i == s.len() - 1 {
        assert(forall|j: int|
            0 <= j < s.drop_last().len() ==> (#[trigger] s.drop_last()[j].addr) != addr);
        lemma_filter_absent(s.drop_last(), addr);
        assert(without_addr(s, addr) =~= s.remove(i));
    } else {
        lemma_filter_unique_remove(s.drop_last(), i, addr);
        assert(without_addr(s, addr) =~= s.remove(i));
    }
}

proof fn lemma_filter_keeps_none(s: Seq<ConnModel>, addr: Seq<char>)
    ensures
        !has_addr(without_addr(s, addr), addr),
    decreases s.len(),
{
    if s.len() > 0 {
        lemma_filter_keeps_none(s.drop_last(), addr);
    }
}

impl View for ConnectionHub {
    type V = Seq<ConnModel>;

    closed spec fn view(&self) -> Seq<ConnModel> {
        self.conns@.map_values(|c: Connection| c@)
    }
}

impl ConnectionHub {
    /// Addresses are unique and no broadcast queue exceeds the channel
    /// capacity.
    pub open spec fn wf(&self) -> bool {
        &&& forall|j: int, l: int|
            0 <= j < self@.len() && 0 <= l < self@.len() && j != l ==> (#[trigger] self@[j].addr)
                != (#[trigger] self@[l].addr)
        &&& forall|i: int|
            0 <= i < self@.len() ==> (#[trigger] self@[i].broadcast_queue).len()
                <= BROADCAST_CAPACITY
    }

    /// A hub with no connected clients.
    pub fn new() -> (r: ConnectionHub)
        ensures
            r.wf(),
            r@ == Seq::<ConnModel>::empty(),
    {
        let r = ConnectionHub { conns: Vec::new() };
        proof {
            assert(r@ =~= Seq::<ConnModel>::empty());
        }
        r
    }

    /// How many clients are connected.
    pub fn count(&self) -> (r: usize)
        ensures
            r == self@.len(),
    {
        self.conns.len()
    }

    fn find(&self, addr: &String) -> (r: Option<usize>)
        ensures
            match r {
                Some(i) => i < self@.len() && self@[i as int].addr == addr@,
                None => !has_addr(self@, addr@),
            },
    {
        let mut i: usize = 0;
        while i < self.conns.len()
            invariant
                i <= self.conns@.len(),
                self@.len() == self.conns@.len(),
                forall|j: int| 0 <= j < i ==> (#[trigger] self@[j].addr) != addr@,
            decreases self.conns@.len() - i,
        {
            assert(self@[i as int] == self.conns@[i as int]@);
            if self.conns[i].addr == *addr {
                return Some(i);
            }
            i = i + 1;
        }
        None
    }

    /// Whether a client with this address is connected.
    pub fn is_connected(&self, addr: &String) -> (r: bool)
        ensures
            r == has_addr(self@, addr@),
    {
        self.find(addr).is_some()
    }

    /// Registers a client under its address: a fresh pair of outbound
    /// queues, replacing any stale registration of the same address.
    pub fn connect(&mut self, addr: &String)
        requires
            old(self).wf(),
        ensures
            final(self).wf(),
            final(self)@ == spec_connect(old(self)@, addr@),
            has_addr(final(self)@, addr@),
    {
        self.remove_conn(addr);
        let fresh = Connection {
            addr: addr.clone(),
            broadcast_queue: Vec::new(),
            unicast_queue: Vec::new(),
        };
        proof {
            assert(fresh@ =~~= fresh_conn(addr@));
            lemma_filter_keeps_none(old(self)@, addr@);
        }
        let ghost before = self@;
        self.conns.push(fresh);
        proof {
            assert(self@ =~= before.push(fresh_conn(addr@)));
            assert(self@[self@.len() - 1].addr == addr@);
        }
    }

    /// Unregisters a client. Removal is unconditional and idempotent:
    /// dropping an address that is not connected changes nothing.
    pub fn disconnect(&mut self, addr: &String)
        requires
            old(self).wf(),
        ensures
            final(self).wf(),
            final(self)@ == without_addr(old(self)@, addr@),
            !has_addr(final(self)@, addr@),
    {
        self.remove_conn(addr);
        proof {
            lemma_filter_keeps_none(old(self)@, addr@);
        }
    }

    fn remove_conn(&mut self, addr: &String)
        requires
            old(self).wf(),
        ensures
            final(self).wf(),
            final(self)@ == without_addr(old(self)@, addr@),
    {
        match self.find(addr) {
            Some(i) => {
                self.conns.remove(i);
                proof {
                    assert(self@ =~= old(self)@.remove(i as int));
                    lemma_filter_unique_remove(old(self)@, i as int, addr@);
                }
            },
            None => {
                proof {
                    lemma_filter_absent(old(self)@, addr@);
                }
            },
        }
    }

    /// Publishes a message to every connected subscriber's broadcast queue,
    /// dropping each full queue's oldest unread message. Reports
    /// `NoSubscribers` when no client is connected — an advisory signal,
    /// not an operational failure, and never a reason to block.
    pub fn broadcast(&mut self, message: &str) -> (r: Result<(), DeliveryError>)
        requires
            old(self).wf(),
        ensures
            final(self).wf(),
            final(self)@ == spec_broadcast(old(self)@, message@),
            forall|j: int|
                0 <= j < old(self)@.len() ==> (#[trigger] final(self)@[j].addr) == old(
                    self,
                )@[j].addr,
            r.is_ok() <==> old(self)@.len() > 0,
            r.is_err() ==> r == Err::<(), DeliveryError>(DeliveryError::NoSubscribers),
    {
        let n = self.conns.len();
        let mut updated: Vec<Connection> = Vec::new();
        let mut i: usize = 0;
        while i < n
            invariant
                n == old(self)@.len(),
                i <= n,
                old(self).wf(),
                self.conns@.len() == n - i,
                updated@.len() == i,
                forall|j: int|
                    0 <= j < i ==> #[trigger] updated@[j]@ == conn_after_broadcast(
                        old(self)@[j],
                        message@,
                    ),
                forall|j: int| 0 <= j < n - i ==> #[trigger] self.conns@[j]@ == old(self)@[i + j],
            decreases n - i,
        {
            let mut c = self.conns.remove(0);
            let ghost cpre = c@;
            if c.broadcast_queue.len() >= BROADCAST_CAPACITY {
                c.broadcast_queue.remove(0);
                proof {
                    assert(c@.broadcast_queue =~= cpre.broadcast_queue.skip(1));
                }
            }
            c.broadcast_queue.push(message.to_owned());
            proof {
                assert(c@ =~~= conn_after_broadcast(cpre, message@)) by {
                    if cpre.broadcast_queue.len() < BROADCAST_CAPACITY {
                        assert(c@.broadcast_queue =~= cpre.broadcast_queue.push(message@));
                    } else {
                        assert(c@.broadcast_queue =~= cpre.broadcast_queue.skip(1).push(message@));
                    }
                }
            }
            updated.push(c);
            i = i + 1;
        }
        self.conns = updated;
        proof {
            assert(self@ =~= spec_broadcast(old(self)@, message@));
        }
        if n > 0 {
            Ok(())
        } else {
            Err(DeliveryError::NoSubscribers)
        }
    }

    /// Enqueues a message on the outbound unicast queue of the client with
    /// this address; fails with `NotFound` when no such client is connected
    /// — no retry, no queueing for not-yet-connected clients.
    pub fn unicast(&mut self, addr: &String, message: &str) -> (r: Result<(), DeliveryError>)
        requires
            old(self).wf(),
        ensures
            final(self).wf(),
            r.is_ok() <==> has_addr(old(self)@, addr@),
            r.is_ok() ==> final(self)@ == spec_unicast(old(self)@, addr@, message@),
            r.is_err() ==> final(self)@ == old(self)@ && r == Err::<(), DeliveryError>(
                DeliveryError::NotFound,
            ),
    {
        match self.find(addr) {
            Some(i) => {
                let mut c = self.conns.remove(i);
                let ghost cpre = c@;
                c.unicast_queue.push(message.to_owned());
                proof {
                    assert(c@ =~~= ConnModel {
                        unicast_queue: cpre.unicast_queue.push(message@),
                        ..cpre
                    });
                }
                self.conns.insert(i, c);
                proof {
                    assert forall|j: int| 0 <= j < old(self)@.len() && j != i implies (
                    #[trigger] old(self)@[j].addr) != addr@ by {}
                    assert(self@ =~= spec_unicast(old(self)@, addr@, message@));
                }
                Ok(())
            },
            None => Err(DeliveryError::NotFound),
        }
    }

    /// A point-in-time snapshot of the connected clients' addresses.
    pub fn list_connected(&self) -> (r: Vec<String>)
        ensures
            r@.len() == self@.len(),
            forall|i: int| 0 <= i < r@.len() ==> (#[trigger] r@[i])@ == self@[i].addr,
    {
        let mut out: Vec<String> = Vec::new();
        let mut i: usize = 0;
        while i < self.conns.len()
            invariant
                i <= self.conns@.len(),
                self@.len() == self.conns@.len(),
                out@.len() == i,
                forall|j: int| 0 <= j < i ==> (#[trigger] out@[j])@ == self@[j].addr,
            decreases self.conns@.len() - i,
        {
            assert(self@[i as int] == self.conns@[i as int]@);
            out.push(self.conns[i].addr.clone());
            i = i + 1;
        }
        out
    }

    /// Takes the oldest undelivered broadcast message of this client's
    /// subscription, in publish order; `None` when the client is not
    /// connected or has nothing pending.
    pub fn pop_broadcast(&mut self, addr: &String) -> (r: Option<String>)
        requires
            old(self).wf(),
        ensures
            final(self).wf(),
            match r {
                Some(m) => {
                    &&& has_addr(old(self)@, addr@)
                    &&& old(self)@[addr_index(old(self)@, addr@)].broadcast_queue.len() > 0
                    &&& m@ == old(self)@[addr_index(old(self)@, addr@)].broadcast_queue[0]
                    &&& final(self)@ == old(self)@.update(
                        addr_index(old(self)@, addr@),
                        ConnModel {
                            broadcast_queue: old(self)@[addr_index(
                                old(self)@,
                                addr@,
                            )].broadcast_queue.skip(1),
                            ..old(self)@[addr_index(old(self)@, addr@)]
                        },
                    )
                },
                None => {
                    &&& final(self)@ == old(self)@
                    &&& (has_addr(old(self)@, addr@) ==> old(self)@[addr_index(
                        old(self)@,
                        addr@,
                    )].broadcast_queue.len() == 0)
                },
            },
    {
        match self.find(addr) {
            Some(i) => {
                proof {
                    assert(addr_index(old(self)@, addr@) == i as int);
                }
                if self.conns[i].broadcast_queue.len() == 0 {
                    return None;
                }
                let mut c = self.conns.remove(i);
                let ghost cpre = c@;
                let m = c.broadcast_queue.remove(0);
                proof {
                    assert(c@ =~~= ConnModel {
                        broadcast_queue: cpre.broadcast_queue.skip(1),
                        ..cpre
                    });
                }
                self.conns.insert(i, c);
                proof {
                    assert(self@ =~= old(self)@.update(i as int, c@));
                }
                Some(m)
            },
            None => None,
        }
    }

    /// Takes the oldest undelivered unicast message addressed to this
    /// client, in enqueue order; `None` when the client is not connected or
    /// has nothing pending.
    pub fn pop_unicast(&mut self, addr: &String) -> (r: Option<String>)
        requires
            old(self).wf(),
        ensures
            final(self).wf(),
            match r {
                Some(m) => {
                    &&& has_addr(old(self)@, addr@)
                    &&& old(self)@[addr_index(old(self)@, addr@)].unicast_queue.len() > 0
                    &&& m@ == old(self)@[addr_index(old(self)@, addr@)].unicast_queue[0]
                    &&& final(self)@ == old(self)@.update(
                        addr_index(old(self)@, addr@),
                        ConnModel {
                            unicast_queue: old(self)@[addr_index(
                                old(self)@,
                                addr@,
                            )].unicast_queue.skip(1),
                            ..old(self)@[addr_index(old(self)@, addr@)]
                        },
                    )
                },
                None => {
                    &&& final(self)@ == old(self)@
                    &&& (has_addr(old(self)@, addr@) ==> old(self)@[addr_index(
                        old(self)@,
                        addr@,
                    )].unicast_queue.len() == 0)
                },
            },
    {
        match self.find(addr) {
            Some(i) => {
                proof {
                    assert(addr_index(old(self)@, addr@) == i as int);
                }
                if self.conns[i].unicast_queue.len() == 0 {
                    return None;
                }
                let mut c = self.conns.remove(i);
                let ghost cpre = c@;
                let m = c.unicast_queue.remove(0);
                proof {
                    assert(c@ =~~= ConnModel { unicast_queue: cpre.unicast_queue.skip(1), ..cpre });
                }
                self.conns.insert(i, c);
                proof {
                    assert(self@ =~= old(self)@.update(i as int, c@));
                }
                Some(m)
            },
            None => None,
        }
    }
}


/// The hub after a whole sequence of broadcasts, published in order.
pub open spec fn spec_broadcast_all(s: Seq<ConnModel>, msgs: Seq<Seq<char>>) -> Seq<ConnModel>
    decreases msgs.len(),
{
    if msgs.len() == 0 {
        s
    } else {
        spec_broadcast_all(spec_broadcast(s, msgs[0]), msgs.skip(1))
    }
}

/// In-order delivery: a connection that keeps pace with the channel
/// capacity has, after any sequence of broadcasts, exactly those messages
/// appended to its queue in the order they were published; its address and
/// unicast queue are untouched.
pub proof fn lemma_broadcasts_in_order(s: Seq<ConnModel>, msgs: Seq<Seq<char>>, j: int)
    requires
        0 <= j < s.len(),
        s[j].broadcast_queue.len() + msgs.len() <= BROADCAST_CAPACITY,
    ensures
        spec_broadcast_all(s, msgs).len() == s.len(),
        spec_broadcast_all(s, msgs)[j].addr == s[j].addr,
        spec_broadcast_all(s, msgs)[j].broadcast_queue == s[j].broadcast_queue + msgs,
        spec_broadcast_all(s, msgs)[j].unicast_queue == s[j].unicast_queue,
    decreases msgs.len(),
{
    if msgs.len() == 0 {
        assert(s[j].broadcast_queue + msgs =~= s[j].broadcast_queue);
    } else {
        let s1 = spec_broadcast(s, msgs[0]);
        assert(s1[j] == conn_after_broadcast(s[j], msgs[0]));
        assert(s1[j].broadcast_queue =~= s[j].broadcast_queue.push(msgs[0]));
        lemma_broadcasts_in_order(s1, msgs.skip(1), j);
        assert(s[j].broadcast_queue.push(msgs[0]) + msgs.skip(1) =~= s[j].broadcast_queue + msgs);
    }
}

/// A subscriber that has just connected has an empty queue, so it receives
/// every message broadcast after its connection completed, in order, as
/// long as the sequence stays within the channel capacity.
pub proof fn lemma_new_subscriber_receives_all(
    s: Seq<ConnModel>,
    addr: Seq<char>,
    msgs: Seq<Seq<char>>,
)
    requires
        msgs.len() <= BROADCAST_CAPACITY,
    ensures
        spec_broadcast_all(spec_connect(s, addr), msgs)[spec_connect(s, addr).len()
            - 1].broadcast_queue == msgs,
        spec_broadcast_all(spec_connect(s, addr), msgs)[spec_connect(s, addr).len() - 1].addr
            == addr,
{
    let t = spec_connect(s, addr);
    assert(t[t.len() - 1] == fresh_conn(addr));
    lemma_broadcasts_in_order(t, msgs, t.len() - 1);
    assert(Seq::<Seq<char>>::empty() + msgs =~= msgs);
}

/// A lagging subscriber loses only its own oldest unread message: a full
/// queue drops its front to admit the new message, while every connection
/// below capacity receives the full append — one subscriber falling behind
/// never blocks or perturbs delivery to the others.
pub proof fn lemma_lagging_subscriber(s: Seq<ConnModel>, m: Seq<char>, j: int, k: int)
    requires
        0 <= j < s.len(),
        0 <= k < s.len(),
        s[j].broadcast_queue.len() == BROADCAST_CAPACITY,
        s[k].broadcast_queue.len() < BROADCAST_CAPACITY,
    ensures
        spec_broadcast(s, m)[j].broadcast_queue == s[j].broadcast_queue.skip(1).push(m),
        spec_broadcast(s, m)[k].broadcast_queue == s[k].broadcast_queue.push(m),
{
}

/// A unicast attempted right after its target connected finds the target:
/// connecting registers the address that unicast then looks up.
pub proof fn lemma_unicast_after_connect(s: Seq<ConnModel>, addr: Seq<char>)
    ensures
        has_addr(spec_connect(s, addr), addr),
{
    let t = spec_connect(s, addr);
    assert(t[t.len() - 1].addr == addr);
}


/// An inbound socket frame, as the session's inbound duty sees it.
pub enum InboundFrame {
    Text(String),
    Binary,
    Ping,
    Pong,
    Close,
}

/// What the session does with one inbound frame.
pub enum FrameAction {
    /// Hand the text to the host application's inbound sink.
    Forward(String),
    /// Skip the frame and keep reading.
    Ignore,
    /// End the session; cleanup then unregisters the connection.
    Terminate,
}

/// The inbound duty's rule: each text frame is forwarded to the host's
/// sink, a close frame ends the session, and every other frame is ignored.
pub fn classify_frame(frame: InboundFrame) -> (r: FrameAction)
    ensures
        match frame {
            InboundFrame::Text(t) => (r matches FrameAction::Forward(m) && m@ == t@),
            InboundFrame::Close => r is Terminate,
            _ => r is Ignore,
        },
{
    match frame {
        InboundFrame::Text(t) => FrameAction::Forward(t),
        InboundFrame::Close => FrameAction::Terminate,
        _ => FrameAction::Ignore,
    }
}

} // verus!


