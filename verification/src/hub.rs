//! The broadcast hub: an in-process fan-out bus of room-change events.
//! Every subscriber owns an independent bounded buffer; publishing never
//! blocks — when a subscriber's buffer is full its oldest unread event is
//! dropped (the subscriber lags) while every other subscriber is
//! unaffected. A new subscription starts at "now": no replay.
use crate::base::RoomChange;
use crate::models::Message;
use crate::strings::str_eq;
use vstd::prelude::*;

verus! {

/// What a receive from the bus yielded: an event, a lag notice (some
/// events were dropped for this subscriber only), or closure of the bus.
pub enum RecvOutcome {
    Event(RoomChange),
    Lagged,
    Closed,
}

/// What a room stream does with one receive outcome: push a frame to the
/// client, keep waiting, or end the stream.
pub enum StreamStep {
    Emit(Message),
    Skip,
    Stop,
}

/// The per-room filter of the room stream endpoint: an event is emitted
/// exactly when its message belongs to the requested room; lag is
/// survived; closure ends the stream.
pub fn stream_step(outcome: RecvOutcome, room_id: &str) -> (r: StreamStep)
    ensures
        match outcome {
            RecvOutcome::Event(ch) => {
                if ch.message.room_id@ == room_id@ {
                    r == StreamStep::Emit(ch.message)
                } else {
                    r == StreamStep::Skip
                }
            },
            RecvOutcome::Lagged => r == StreamStep::Skip,
            RecvOutcome::Closed => r == StreamStep::Stop,
        },
{
    match outcome {
        RecvOutcome::Event(ch) => {
            if str_eq(ch.message.room_id.as_str(), room_id) {
                StreamStep::Emit(ch.message)
            } else {
                StreamStep::Skip
            }
        },
        RecvOutcome::Lagged => StreamStep::Skip,
        RecvOutcome::Closed => StreamStep::Stop,
    }
}

struct SubscriberSlot {
    buffer: Vec<RoomChange>,
    active: bool,
}

/// What one publish does to one subscriber's buffer: the event is
/// appended; if the buffer is at capacity the oldest unread event is
/// dropped to make room.
pub open spec fn delivered(buf: Seq<RoomChange>, e: RoomChange, cap: int) -> Seq<RoomChange> {
    if buf.len() >= cap {
        buf.skip(1).push(e)
    } else {
        buf.push(e)
    }
}

/// After a publish, the event is the newest element of every active
/// subscriber's buffer, and the buffer still respects the capacity: a
/// delivery displaces at most that subscriber's own oldest unread event.
pub proof fn lemma_delivered_event_is_newest(buf: Seq<RoomChange>, e: RoomChange, cap: int)
    requires
        cap >= 1,
        buf.len() <= cap,
    ensures
        delivered(buf, e, cap).last() == e,
        delivered(buf, e, cap).len() <= cap,
{
}

/// The fan-out bus. Subscribers are slots; a closed subscription keeps
/// its index so other handles stay valid.
pub struct BroadcastHub {
    subs: Vec<SubscriberSlot>,
    capacity: usize,
}

impl BroadcastHub {
    pub closed spec fn cap(&self) -> int {
        self.capacity as int
    }

    pub closed spec fn n_slots(&self) -> int {
        self.subs@.len() as int
    }

    pub closed spec fn is_active(&self, i: int) -> bool {
        0 <= i < self.subs@.len() && self.subs@[i].active
    }

    /// The events waiting for subscriber `i`, oldest first.
    pub closed spec fn buffer_of(&self, i: int) -> Seq<RoomChange> {
        self.subs@[i].buffer@
    }

    /// Every buffer respects the capacity.
    pub closed spec fn wf(&self) -> bool {
        &&& self.capacity >= 1
        &&& forall|i: int|
            0 <= i < self.subs@.len() ==> (#[trigger] self.subs@[i].buffer@).len()
                <= self.capacity
    }

    pub fn new(capacity: usize) -> (r: BroadcastHub)
        requires
            capacity >= 1,
        ensures
            r.wf(),
            r.cap() == capacity,
            r.n_slots() == 0,
    {
        BroadcastHub { subs: Vec::new(), capacity }
    }

    /// Open a new subscription: an independent reader starting at "now",
    /// with nothing waiting. Existing subscribers are untouched.
    pub fn subscribe(&mut self) -> (id: usize)
        requires
            old(self).wf(),
        ensures
            final(self).wf(),
            final(self).cap() == old(self).cap(),
            id as int == old(self).n_slots(),
            final(self).n_slots() == old(self).n_slots() + 1,
            final(self).is_active(id as int),
            final(self).buffer_of(id as int) == Seq::<RoomChange>::empty(),
            forall|i: int|
                0 <= i < old(self).n_slots() ==> #[trigger] final(self).is_active(i) == old(self).is_active(i) && final(self).buffer_of(i) == old(self).buffer_of(i),
    {
        let id = self.subs.len();
        self.subs.push(SubscriberSlot { buffer: Vec::new(), active: true });
        id
    }

    /// Close a subscription; its buffer is discarded and nothing will be
    /// delivered to it again. Other subscribers are untouched.
    pub fn unsubscribe(&mut self, id: usize)
        requires
            old(self).wf(),
            id < old(self).n_slots(),
        ensures
            final(self).wf(),
            final(self).cap() == old(self).cap(),
            final(self).n_slots() == old(self).n_slots(),
            !final(self).is_active(id as int),
            forall|i: int|
                0 <= i < old(self).n_slots() && i != id ==> #[trigger] final(self).is_active(i)
                    == old(self).is_active(i) && final(self).buffer_of(i) == old(self).buffer_of(i),
    {
        let mut slot = self.subs.remove(id);
        slot.active = false;
        slot.buffer = Vec::new();
        self.subs.insert(id, slot);
        proof {
            assert forall|i: int|
                0 <= i < old(self).n_slots() && i != id implies #[trigger] self.is_active(i)
                == old(self).is_active(i) && self.buffer_of(i) == old(self).buffer_of(i) by {
                assert(self.subs@[i] == old(self).subs@[i]);
            }
        }
    }

    /// Fan an event out: every active subscriber's buffer receives it
    /// (dropping that subscriber's oldest unread event when full); closed
    /// slots and everything else are untouched. Publishing never blocks
    /// and never fails.
    pub fn publish(&mut self, event: &RoomChange)
        requires
            old(self).wf(),
        ensures
            final(self).wf(),
            final(self).cap() == old(self).cap(),
            final(self).n_slots() == old(self).n_slots(),
            forall|i: int|
                0 <= i < old(self).n_slots() ==> #[trigger] final(self).is_active(i) == old(self).is_active(i),
            forall|i: int|
                0 <= i < old(self).n_slots() && old(self).is_active(i) ==> #[trigger] final(self).buffer_of(i) == delivered(old(self).buffer_of(i), *event, old(self).cap()),
            forall|i: int|
                0 <= i < old(self).n_slots() && !old(self).is_active(i) ==> #[trigger] final(self).buffer_of(i) == old(self).buffer_of(i),
    {
        let n = self.subs.len();
        let mut k: usize = 0;
        while k < n
            invariant
                k <= n,
                n == self.subs@.len(),
                self.capacity == old(self).capacity,
                self.capacity >= 1,
                n == old(self).subs@.len(),
                forall|i: int| k <= i < n ==> self.subs@[i] == old(self).subs@[i],
                forall|i: int|
                    0 <= i < k ==> (#[trigger] self.subs@[i]).active == old(self).subs@[i].active,
                forall|i: int|
                    0 <= i < k && old(self).subs@[i].active ==> (#[trigger] self.subs@[i]).buffer@
                        == delivered(old(self).subs@[i].buffer@, *event, self.capacity as int),
                forall|i: int|
                    0 <= i < k && !old(self).subs@[i].active ==> (#[trigger] self.subs@[i]).buffer@
                        == old(self).subs@[i].buffer@,
                forall|i: int|
                    0 <= i < n ==> (#[trigger] self.subs@[i].buffer@).len() <= self.capacity,
            decreases n - k,
        {
            let mut slot = self.subs.remove(k);
            let ghost prev = slot;
            if slot.active {
                if slot.buffer.len() >= self.capacity {
                    slot.buffer.remove(0);
                }
                slot.buffer.push(event.clone());
                proof {
                    assert(slot.buffer@ =~= delivered(
                        prev.buffer@,
                        *event,
                        self.capacity as int,
                    ));
                }
            }
            self.subs.insert(k, slot);
            proof {
                assert forall|i: int| 0 <= i < n && i != k implies self.subs@[i] == old(self).subs@[i] || (0 <= i < k) by {}
            }
            k = k + 1;
        }
    }

    /// Take the oldest waiting event for subscriber `id`, if any.
    pub fn try_next(&mut self, id: usize) -> (r: Option<RoomChange>)
        requires
            old(self).wf(),
            id < old(self).n_slots(),
        ensures
            final(self).wf(),
            final(self).cap() == old(self).cap(),
            final(self).n_slots() == old(self).n_slots(),
            forall|i: int|
                0 <= i < old(self).n_slots() ==> #[trigger] final(self).is_active(i) == old(self).is_active(i),
            forall|i: int|
                0 <= i < old(self).n_slots() && i != id ==> #[trigger] final(self).buffer_of(i)
                    == old(self).buffer_of(i),
            match r {
                None => old(self).buffer_of(id as int).len() == 0 && final(self).buffer_of(id as int) == old(self).buffer_of(id as int),
                Some(e) => old(self).buffer_of(id as int).len() > 0 && e == old(self).buffer_of(id as int)[0] && final(self).buffer_of(id as int) == old(self).buffer_of(id as int).skip(1),
            },
    {
        let mut slot = self.subs.remove(id);
        let r: Option<RoomChange> = if slot.buffer.len() == 0 {
            None
        } else {
            Some(slot.buffer.remove(0))
        };
        self.subs.insert(id, slot);
        proof {
            assert forall|i: int|
                0 <= i < old(self).n_slots() && i != id implies #[trigger] self.buffer_of(i)
                == old(self).buffer_of(i) by {
                assert(self.subs@[i] == old(self).subs@[i]);
            }
            if old(self).buffer_of(id as int).len() > 0 {
                assert(self.buffer_of(id as int) =~= old(self).buffer_of(id as int).skip(1));
            }
        }
        r
    }
}

} // verus!
