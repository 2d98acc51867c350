//! The room broadcaster: one inbound queue of rendered messages and one
//! bounded subscription per live session. Fan-out of one message appends it
//! to every live subscription, or delivers nothing at all while some
//! subscriber sits at capacity — blocking backpressure, so no message is
//! ever dropped or duplicated.
//!
//! The subscriptions are carried by a `bus::Bus` ring: one broadcast appends
//! to every reader, and the ring refuses a broadcast while its slowest
//! reader still has a full queue. The driving loops own a single `Room`
//! value behind one exclusive lock, so every call below is serialized, as
//! the contracts on the hub assume.

use vstd::prelude::*;

use crate::protocol::fmt_chat;
use crate::protocol::frame_next_name;
use crate::protocol::frame_reply;
use crate::protocol::is_user_frame;
use crate::text::trimmed;
use vstd::utf8::valid_utf8;

verus! {

/// The pending messages of every live subscription, by subscription id:
/// what has been fanned out to it and not yet polled, oldest first.
pub uninterp spec fn hub_pending(h: RoomHub) -> Map<int, Seq<Seq<u8>>>;

/// The capacity the hub's ring was created with: no subscription ever holds
/// more than this many pending messages.
pub uninterp spec fn hub_cap(h: RoomHub) -> nat;

/// Whether one more message can be fanned out: every live subscription is
/// below capacity.
pub open spec fn can_deliver(p: Map<int, Seq<Seq<u8>>>, cap: nat) -> bool {
    forall|id: int| p.dom().contains(id) ==> p[id].len() < cap
}

/// The subscription table of a hub with no subscriptions.
pub open spec fn no_subscriptions() -> Map<int, Seq<Seq<u8>>> {
    Map::empty()
}

/// One message appended to every live subscription, exactly once each.
pub open spec fn fanout(p: Map<int, Seq<Seq<u8>>>, m: Seq<u8>) -> Map<int, Seq<Seq<u8>>> {
    Map::new(|id: int| p.dom().contains(id), |id: int| p[id].push(m))
}

/// The subscription table: a `bus::Bus` ring and the readers handed out for
/// it, one per live subscription, indexed by subscription id. A dropped
/// reader leaves the ring's accounting, so a terminated session never blocks
/// the broadcaster.
#[verifier::external_body]
pub struct RoomHub {
    bus: bus::Bus<Vec<u8>>,
    readers: Vec<Option<bus::BusReader<Vec<u8>>>>,
}

impl RoomHub {
    /// Relies on `bus::Bus::new`: a ring of capacity `cap` with no readers.
    /// (`bus` adds its own padding slot, so `cap` is the usable capacity.)
    #[verifier::external_body]
    fn new(cap: usize) -> (h: RoomHub)
        requires
            1 <= cap < usize::MAX,
        ensures
            hub_pending(h) == no_subscriptions(),
            hub_cap(h) == cap,
    {
        RoomHub { bus: bus::Bus::new(cap), readers: Vec::new() }
    }

    /// Relies on `bus::Bus::add_rx`: a new reader sees only future
    /// broadcasts, so the new subscription starts empty.
    #[verifier::external_body]
    fn subscribe(&mut self) -> (id: usize)
        ensures
            !old(self).pending_dom_contains(id as int),
            hub_pending(*final(self)) == hub_pending(*old(self)).insert(
                id as int,
                Seq::<Seq<u8>>::empty(),
            ),
            hub_cap(*final(self)) == hub_cap(*old(self)),
    {
        let id = self.readers.len();
        self.readers.push(Some(self.bus.add_rx()));
        id
    }

    /// Relies on `Drop for bus::BusReader`: a dropped reader signals the
    /// ring, which stops counting it, so the subscription simply vanishes.
    #[verifier::external_body]
    fn unsubscribe(&mut self, id: usize)
        ensures
            hub_pending(*final(self)) == hub_pending(*old(self)).remove(id as int),
            hub_cap(*final(self)) == hub_cap(*old(self)),
    {
        if let Some(slot) = self.readers.get_mut(id) {
            *slot = None;
        }
    }

    /// Relies on `bus::Bus::try_broadcast`: it succeeds exactly when the
    /// ring has room for the slowest live reader, in which case every live
    /// reader will see the value once; on failure it returns the value
    /// unchanged and the ring keeps its state.
    #[verifier::external_body]
    fn try_broadcast(&mut self, m: Vec<u8>) -> (r: Result<(), Vec<u8>>)
        ensures
            r is Ok ==> {
                &&& can_deliver(hub_pending(*old(self)), hub_cap(*old(self)))
                &&& hub_pending(*final(self)) == fanout(hub_pending(*old(self)), m@)
            },
            r matches Err(back) ==> {
                &&& !can_deliver(hub_pending(*old(self)), hub_cap(*old(self)))
                &&& hub_pending(*final(self)) == hub_pending(*old(self))
                &&& back@ == m@
            },
            hub_cap(*final(self)) == hub_cap(*old(self)),
    {
        self.bus.try_broadcast(m)
    }

    /// Relies on `bus::BusReader::try_recv`: it pops this reader's oldest
    /// pending broadcast, or reports an empty queue without blocking.
    #[verifier::external_body]
    fn try_recv(&mut self, id: usize) -> (r: Option<Vec<u8>>)
        ensures
            !old(self).pending_dom_contains(id as int) ==> {
                &&& r is None
                &&& hub_pending(*final(self)) == hub_pending(*old(self))
            },
            old(self).pending_dom_contains(id as int) && hub_pending(*old(self))[id as int].len()
                == 0 ==> {
                &&& r is None
                &&& hub_pending(*final(self)) == hub_pending(*old(self))
            },
            old(self).pending_dom_contains(id as int) && hub_pending(*old(self))[id as int].len()
                > 0 ==> {
                &&& r matches Some(m) && m@ == hub_pending(*old(self))[id as int].first()
                &&& hub_pending(*final(self)) == hub_pending(*old(self)).insert(
                    id as int,
                    hub_pending(*old(self))[id as int].drop_first(),
                )
            },
            hub_cap(*final(self)) == hub_cap(*old(self)),
    {
        match self.readers.get_mut(id) {
            Some(Some(rd)) => match rd.try_recv() {
                Ok(m) => Some(m),
                Err(_) => None,
            },
            _ => None,
        }
    }

    /// Whether `id` is a live subscription.
    pub open spec fn pending_dom_contains(self, id: int) -> bool {
        hub_pending(self).dom().contains(id)
    }
}

/// What the broadcaster's loop does after one step.
#[derive(PartialEq, Eq, Debug, Clone, Copy)]
pub enum RoomStep {
    /// The oldest inbound message was fanned out to every live subscription.
    Delivered,
    /// Some subscription is at capacity: nothing was delivered and the
    /// message stays at the head of the inbound queue; retry after the slow
    /// subscriber drains.
    Blocked,
    /// The inbound queue was empty: idle briefly instead of spinning.
    Idle,
}

/// The room: the shared inbound message queue and the subscription table.
pub struct Room {
    inbound: Vec<Vec<u8>>,
    hub: RoomHub,
}

impl Room {
    /// The inbound queue, oldest message first.
    pub closed spec fn inbound_view(self) -> Seq<Seq<u8>> {
        self.inbound.deep_view()
    }

    /// The pending messages of every live subscription, by id.
    pub closed spec fn pending(self) -> Map<int, Seq<Seq<u8>>> {
        hub_pending(self.hub)
    }

    /// The per-subscription capacity.
    pub closed spec fn cap(self) -> nat {
        hub_cap(self.hub)
    }

    /// Well-formedness: the capacity is positive and, since fan-out only
    /// happens below capacity, no subscription ever exceeds it.
    pub open spec fn wf(self) -> bool {
        &&& self.cap() >= 1
        &&& forall|id: int| self.pending().dom().contains(id) ==> self.pending()[id].len()
            <= self.cap()
    }

    /// A room with no subscriptions and an empty inbound queue, whose
    /// subscriptions will each hold at most `cap` pending messages.
    pub fn new(cap: usize) -> (r: Room)
        requires
            1 <= cap < usize::MAX,
        ensures
            r.wf(),
            r.inbound_view() == Seq::<Seq<u8>>::empty(),
            r.pending() == Map::<int, Seq<Seq<u8>>>::empty(),
            r.cap() == cap,
    {
        let room = Room { inbound: Vec::new(), hub: RoomHub::new(cap) };
        proof {
            assert(room.inbound_view() =~= Seq::<Seq<u8>>::empty());
        }
        room
    }

    /// Admits a session: a fresh, empty subscription, created before any
    /// message can be lost.
    pub fn subscribe(&mut self) -> (id: usize)
        requires
            old(self).wf(),
        ensures
            final(self).wf(),
            !old(self).pending().dom().contains(id as int),
            final(self).pending() == old(self).pending().insert(id as int, Seq::<Seq<u8>>::empty()),
            final(self).inbound_view() == old(self).inbound_view(),
            final(self).cap() == old(self).cap(),
    {
        let id = self.hub.subscribe();
        proof {
            assert forall|j: int| self.pending().dom().contains(j) implies (
            self.pending()[j].len() <= self.cap()) by {
                if j != id as int {
                    assert(old(self).pending().dom().contains(j));
                    assert(old(self).pending()[j].len() <= old(self).cap());
                }
            }
        }
        id
    }

    /// Releases a terminated session's subscription; its undrained messages
    /// vanish with it and it can no longer block the broadcaster.
    pub fn unsubscribe(&mut self, id: usize)
        requires
            old(self).wf(),
        ensures
            final(self).wf(),
            final(self).pending() == old(self).pending().remove(id as int),
            final(self).inbound_view() == old(self).inbound_view(),
            final(self).cap() == old(self).cap(),
    {
        self.hub.unsubscribe(id);
        proof {
            assert forall|j: int| self.pending().dom().contains(j) implies (
            self.pending()[j].len() <= self.cap()) by {
                assert(old(self).pending().dom().contains(j));
                assert(old(self).pending()[j].len() <= old(self).cap());
            }
        }
    }

    /// Queues one rendered message for broadcast, behind every message
    /// already inbound.
    pub fn submit(&mut self, m: Vec<u8>)
        requires
            old(self).wf(),
        ensures
            final(self).wf(),
            final(self).inbound_view() == old(self).inbound_view().push(m@),
            final(self).pending() == old(self).pending(),
            final(self).cap() == old(self).cap(),
    {
        let ghost before = self.inbound.deep_view();
        let ghost mv = m@;
        self.inbound.push(m);
        proof {
            assert(self.inbound.deep_view() =~~= before.push(mv));
            assert forall|j: int| self.pending().dom().contains(j) implies (
            self.pending()[j].len() <= self.cap()) by {
                assert(old(self).pending().dom().contains(j));
                assert(old(self).pending()[j].len() <= old(self).cap());
            }
        }
    }

    /// Drains one pending message from subscription `id`, oldest first, if
    /// any is pending.
    pub fn poll(&mut self, id: usize) -> (r: Option<Vec<u8>>)
        requires
            old(self).wf(),
        ensures
            final(self).wf(),
            final(self).inbound_view() == old(self).inbound_view(),
            final(self).cap() == old(self).cap(),
            !old(self).pending().dom().contains(id as int) || old(self).pending()[id as int].len()
                == 0 ==> {
                &&& r is None
                &&& final(self).pending() == old(self).pending()
            },
            old(self).pending().dom().contains(id as int) && old(self).pending()[id as int].len()
                > 0 ==> {
                &&& r matches Some(m) && m@ == old(self).pending()[id as int].first()
                &&& final(self).pending() == old(self).pending().insert(
                    id as int,
                    old(self).pending()[id as int].drop_first(),
                )
            },
    {
        let r = self.hub.try_recv(id);
        proof {
            assert forall|j: int| self.pending().dom().contains(j) implies self.pending()[j].len()
                <= self.cap() by {
                assert(old(self).pending().dom().contains(j));
                assert(old(self).pending()[j].len() <= old(self).cap());
            }
        }
        r
    }

    /// One broadcaster step: fans the oldest inbound message out to every
    /// live subscription, exactly once each, or reports why it did nothing.
    /// Delivery happens exactly when every subscription is below capacity —
    /// one slow subscriber stalls every other (blocking backpressure).
    pub fn step(&mut self) -> (r: RoomStep)
        requires
            old(self).wf(),
        ensures
            final(self).wf(),
            final(self).cap() == old(self).cap(),
            r is Idle <==> old(self).inbound_view().len() == 0,
            r is Idle ==> {
                &&& final(self).inbound_view() == old(self).inbound_view()
                &&& final(self).pending() == old(self).pending()
            },
            r is Delivered ==> {
                &&& can_deliver(old(self).pending(), old(self).cap())
                &&& final(self).inbound_view() == old(self).inbound_view().drop_first()
                &&& final(self).pending() == fanout(old(self).pending(), old(self).inbound_view()[0])
            },
            r is Blocked ==> {
                &&& !can_deliver(old(self).pending(), old(self).cap())
                &&& final(self).inbound_view() == old(self).inbound_view()
                &&& final(self).pending() == old(self).pending()
            },
            old(self).inbound_view().len() > 0 ==> (r is Delivered <==> can_deliver(
                old(self).pending(),
                old(self).cap(),
            )),
    {
        if self.inbound.len() == 0 {
            return RoomStep::Idle;
        }
        let ghost before = self.inbound.deep_view();
        let m = self.inbound.remove(0);
        proof {
            assert(m@ =~= before[0]);
        }
        match self.hub.try_broadcast(m) {
            Ok(()) => {
                proof {
                    assert(self.inbound.deep_view() =~~= before.drop_first());
                    assert forall|j: int| self.pending().dom().contains(j) implies (
                    self.pending()[j].len() <= self.cap()) by {
                        assert(old(self).pending().dom().contains(j));
                        assert(old(self).pending()[j].len() < old(self).cap());
                    }
                }
                RoomStep::Delivered
            },
            Err(back) => {
                self.inbound.insert(0, back);
                proof {
                    assert(self.inbound.deep_view() =~~= before);
                }
                RoomStep::Blocked
            },
        }
    }
}

/// Delivery law: fanning a message out appends it to every live
/// subscription exactly once, creates and removes no subscription, and two
/// messages fanned out in turn arrive in that order in every subscription.
pub proof fn lemma_fanout_exactly_once(
    p: Map<int, Seq<Seq<u8>>>,
    m1: Seq<u8>,
    m2: Seq<u8>,
    id: int,
)
    requires
        p.dom().contains(id),
    ensures
        fanout(p, m1).dom() == p.dom(),
        fanout(p, m1)[id] == p[id] + seq![m1],
        fanout(fanout(p, m1), m2)[id] == p[id] + seq![m1, m2],
{
    assert(fanout(p, m1).dom() =~= p.dom());
    assert(fanout(p, m1)[id] =~= p[id] + seq![m1]);
    assert(fanout(fanout(p, m1), m2)[id] =~= p[id] + seq![m1, m2]);
}

/// Delivery law for chat: a named session's chat frame neither renames the
/// session nor is dropped — it becomes exactly one `<name>: <text>` line,
/// and two such lines reach every live subscription in the order sent.
pub proof fn lemma_chat_delivery(
    p: Map<int, Seq<Seq<u8>>>,
    name: Seq<u8>,
    f1: Seq<u8>,
    f2: Seq<u8>,
    id: int,
)
    requires
        p.dom().contains(id),
        name.len() > 0,
        valid_utf8(f1),
        valid_utf8(f2),
        !is_user_frame(trimmed(f1)),
        !is_user_frame(trimmed(f2)),
    ensures
        frame_reply(name, f1) == Some(fmt_chat(name, trimmed(f1))),
        frame_next_name(name, f1) == name,
        fanout(fanout(p, fmt_chat(name, trimmed(f1))), fmt_chat(name, trimmed(f2)))[id] == p[id]
            + seq![fmt_chat(name, trimmed(f1)), fmt_chat(name, trimmed(f2))],
{
    lemma_fanout_exactly_once(p, fmt_chat(name, trimmed(f1)), fmt_chat(name, trimmed(f2)), id);
}

/// Backpressure law: while any one subscriber still holds `cap` pending
/// messages, no further message can be delivered to anyone.
pub proof fn lemma_backpressure(p: Map<int, Seq<Seq<u8>>>, cap: nat, slow: int)
    requires
        p.dom().contains(slow),
        p[slow].len() >= cap,
    ensures
        !can_deliver(p, cap),
{
}

} // verus!
