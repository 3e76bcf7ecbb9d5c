//! The event bus: a bounded, multi-subscriber broadcast channel for change
//! events. Publishing never waits on a consumer; a subscriber that falls
//! behind its buffer capacity loses its oldest unread events, and only those.

use vstd::prelude::*;

verus! {

use crate::component::{ComponentChanged, ComponentChangedView};

/// The mathematical contents of a sequence of change events.
pub open spec fn event_views(s: Seq<ComponentChanged>) -> Seq<ComponentChangedView> {
    s.map_values(|e: ComponentChanged| e@)
}

/// One delivery of an event into a buffer of bound `cap`: the event is
/// appended, and when the buffer is full the oldest entry makes room first.
pub open spec fn bounded_push(
    q: Seq<ComponentChangedView>,
    e: ComponentChangedView,
    cap: nat,
) -> Seq<ComponentChangedView> {
    if q.len() < cap {
        q.push(e)
    } else {
        q.drop_first().push(e)
    }
}

/// Delivery of a whole sequence of events, oldest first.
pub open spec fn bounded_push_all(
    q: Seq<ComponentChangedView>,
    events: Seq<ComponentChangedView>,
    cap: nat,
) -> Seq<ComponentChangedView>
    decreases events.len(),
{
    if events.len() == 0 {
        q
    } else {
        bounded_push(bounded_push_all(q, events.drop_last(), cap), events.last(), cap)
    }
}

/// A buffer that the deliveries fit into loses nothing: delivery is plain
/// concatenation whenever the buffer has room for every event.
pub proof fn lemma_bounded_push_all_no_drop(
    q: Seq<ComponentChangedView>,
    events: Seq<ComponentChangedView>,
    cap: nat,
)
    requires
        q.len() + events.len() <= cap,
    ensures
        bounded_push_all(q, events, cap) == q + events,
    decreases events.len(),
{
    if events.len() == 0 {
        assert(q + events =~= q);
    } else {
        lemma_bounded_push_all_no_drop(q, events.drop_last(), cap);
        assert(q + events =~= (q + events.drop_last()).push(events.last()));
    }
}

/// One subscriber's side of the bus: its pending-event buffer and whether
/// the slot is still in use. A cancelled subscriber leaves its slot behind,
/// inactive and empty, so other subscribers' positions are unaffected.
struct Subscriber {
    active: bool,
    queue: Vec<ComponentChanged>,
}

/// The broadcast channel. Created once at startup and shared by the single
/// writer path and all subscribers; each subscriber owns a slot with an
/// independent bounded buffer.
pub struct EventBus {
    capacity: usize,
    slots: Vec<Subscriber>,
}

impl EventBus {
    /// The per-subscriber buffer bound.
    pub closed spec fn capacity_spec(&self) -> nat {
        self.capacity as nat
    }

    /// How many subscriber slots exist, cancelled ones included.
    pub closed spec fn num_slots(&self) -> int {
        self.slots@.len() as int
    }

    /// Whether slot `i` belongs to a live subscriber.
    pub closed spec fn slot_active(&self, i: int) -> bool
        recommends
            0 <= i < self.num_slots(),
    {
        self.slots@[i].active
    }

    /// The pending events of slot `i`, oldest first.
    pub closed spec fn slot_queue(&self, i: int) -> Seq<ComponentChangedView>
        recommends
            0 <= i < self.num_slots(),
    {
        event_views(self.slots@[i].queue@)
    }

    /// Every buffer respects the bound, and the bound is positive.
    pub open spec fn wf(&self) -> bool {
        &&& self.capacity_spec() >= 1
        &&& forall|i: int|
            0 <= i < self.num_slots() ==> #[trigger] self.slot_queue(i).len()
                <= self.capacity_spec()
    }

    /// A fresh bus with no subscribers and the given per-subscriber bound.
    pub fn new(capacity: usize) -> (bus: EventBus)
        requires
            capacity >= 1,
        ensures
            bus.wf(),
            bus.capacity_spec() == capacity,
            bus.num_slots() == 0,
    {
        EventBus { capacity, slots: Vec::new() }
    }

    /// How many subscriber slots exist, cancelled ones included.
    pub fn subscriber_count(&self) -> (n: usize)
        ensures
            n == self.num_slots(),
    {
        self.slots.len()
    }

    /// Opens a new, independent subscription. The new slot starts empty: the
    /// subscriber observes only events published after this call, never
    /// earlier ones.
    pub fn subscribe(&mut self) -> (id: usize)
        ensures
            id == old(self).num_slots(),
            final(self).num_slots() == old(self).num_slots() + 1,
            final(self).capacity_spec() == old(self).capacity_spec(),
            final(self).slot_active(id as int),
            final(self).slot_queue(id as int) == Seq::<ComponentChangedView>::empty(),
            forall|i: int|
                0 <= i < old(self).num_slots() ==> #[trigger] final(self).slot_active(i) == old(self).slot_active(i) && final(self).slot_queue(i) == old(self).slot_queue(i),
            old(self).wf() ==> final(self).wf(),
    {
        let id = self.slots.len();
        self.slots.push(Subscriber { active: true, queue: Vec::new() });
        proof {
            assert(final(self).slot_queue(id as int) =~= Seq::<ComponentChangedView>::empty());
            if old(self).wf() {
                assert forall|i: int|
                    0 <= i < final(self).num_slots() implies #[trigger] final(self).slot_queue(
                    i,
                ).len() <= final(self).capacity_spec() by {
                    if i < old(self).num_slots() {
                        assert(old(self).slot_queue(i).len() <= old(self).capacity_spec());
                        assert(final(self).slot_queue(i) == old(self).slot_queue(i));
                    }
                }
            }
        }
        id
    }

    /// Cancels a subscription: the slot is released and its pending events
    /// dropped; every other subscriber and the publisher are unaffected.
    pub fn unsubscribe(&mut self, id: usize)
        requires
            id < old(self).num_slots(),
        ensures
            final(self).num_slots() == old(self).num_slots(),
            final(self).capacity_spec() == old(self).capacity_spec(),
            !final(self).slot_active(id as int),
            final(self).slot_queue(id as int) == Seq::<ComponentChangedView>::empty(),
            forall|i: int|
                0 <= i < old(self).num_slots() && i != id ==> #[trigger] final(self).slot_active(i)
                    == old(self).slot_active(i) && final(self).slot_queue(i) == old(self).slot_queue(i),
            old(self).wf() ==> final(self).wf(),
    {
        self.slots[id] = Subscriber { active: false, queue: Vec::new() };
        proof {
            assert(final(self).slot_queue(id as int) =~= Seq::<ComponentChangedView>::empty());
            if old(self).wf() {
                assert forall|i: int|
                    0 <= i < final(self).num_slots() implies #[trigger] final(self).slot_queue(
                    i,
                ).len() <= final(self).capacity_spec() by {
                    assert(old(self).slot_queue(i).len() <= old(self).capacity_spec());
                    if i != id {
                        assert(final(self).slot_queue(i) == old(self).slot_queue(i));
                    }
                }
            }
        }
    }

    /// Broadcasts one event to every live subscriber, never waiting on any of
    /// them: a full buffer drops its oldest entry to make room. With no
    /// subscribers the event is silently discarded; that is not an error.
    pub fn publish(&mut self, event: ComponentChanged)
        requires
            old(self).wf(),
        ensures
            final(self).wf(),
            final(self).num_slots() == old(self).num_slots(),
            final(self).capacity_spec() == old(self).capacity_spec(),
            forall|i: int|
                0 <= i < old(self).num_slots() ==> #[trigger] final(self).slot_active(i) == old(self).slot_active(i),
            forall|i: int|
                0 <= i < old(self).num_slots() && old(self).slot_active(i) ==> #[trigger] final(self).slot_queue(i) == bounded_push(
                    old(self).slot_queue(i),
                    event@,
                    old(self).capacity_spec(),
                ),
            forall|i: int|
                0 <= i < old(self).num_slots() && !old(self).slot_active(i) ==> #[trigger] final(self).slot_queue(i) == old(self).slot_queue(i),
    {
        let n = self.slots.len();
        let mut i: usize = 0;
        while i < n
            invariant
                n == self.slots@.len(),
                i <= n,
                self.capacity == old(self).capacity,
                old(self).wf(),
                forall|k: int|
                    0 <= k < n ==> #[trigger] self.slot_active(k) == old(self).slot_active(k),
                forall|k: int|
                    0 <= k < i && old(self).slot_active(k) ==> #[trigger] self.slot_queue(k)
                        == bounded_push(
                        old(self).slot_queue(k),
                        event@,
                        old(self).capacity_spec(),
                    ),
                forall|k: int|
                    (i <= k < n || !old(self).slot_active(k)) && 0 <= k < n
                        ==> #[trigger] self.slot_queue(k) == old(self).slot_queue(k),
                forall|k: int|
                    0 <= k < n ==> #[trigger] self.slot_queue(k).len() <= self.capacity_spec(),
            decreases n - i,
        {
            let ghost prev = *self;
            if self.slots[i].active {
                let ghost q0 = self.slot_queue(i as int);
                if self.slots[i].queue.len() >= self.capacity {
                    self.slots[i].queue.remove(0);
                    proof {
                        assert(self.slot_queue(i as int) =~= q0.drop_first());
                    }
                }
                let ghost q1 = self.slot_queue(i as int);
                let e = event.clone();
                self.slots[i].queue.push(e);
                proof {
                    assert(self.slot_queue(i as int) =~= q1.push(event@));
                    assert(self.slot_queue(i as int) == bounded_push(
                        q0,
                        event@,
                        old(self).capacity_spec(),
                    ));
                }
            }
            proof {
                assert forall|k: int| 0 <= k < n && k != i implies #[trigger] self.slot_queue(k)
                    == prev.slot_queue(k) && self.slot_active(k) == prev.slot_active(k) by {
                    assert(self.slots@[k] == prev.slots@[k]);
                }
                assert(self.slot_active(i as int) == prev.slot_active(i as int));
                assert forall|k: int| 0 <= k < n implies #[trigger] self.slot_queue(k).len()
                    <= self.capacity_spec() by {
                    assert(prev.slot_queue(k).len() <= prev.capacity_spec());
                }
                assert forall|k: int| 0 <= k < n implies #[trigger] self.slot_active(k) == old(
                    self,
                ).slot_active(k) by {
                    assert(prev.slot_active(k) == old(self).slot_active(k));
                }
            }
            i = i + 1;
        }
    }

    /// Hands the oldest pending event of slot `id` out, or reports that the
    /// buffer is empty. This is the synchronous core of a subscription
    /// stream; waiting for a nonempty buffer belongs to the caller.
    pub fn try_recv(&mut self, id: usize) -> (r: Option<ComponentChanged>)
        requires
            id < old(self).num_slots(),
        ensures
            final(self).num_slots() == old(self).num_slots(),
            final(self).capacity_spec() == old(self).capacity_spec(),
            forall|i: int|
                0 <= i < old(self).num_slots() ==> #[trigger] final(self).slot_active(i) == old(self).slot_active(i),
            forall|i: int|
                0 <= i < old(self).num_slots() && i != id ==> #[trigger] final(self).slot_queue(i)
                    == old(self).slot_queue(i),
            old(self).slot_queue(id as int).len() == 0 ==> r is None && final(self).slot_queue(
                id as int,
            ) == old(self).slot_queue(id as int),
            old(self).slot_queue(id as int).len() > 0 ==> (r matches Some(e) && e@ == old(self).slot_queue(id as int)[0] && final(self).slot_queue(id as int) == old(self).slot_queue(id as int).drop_first()),
            old(self).wf() ==> final(self).wf(),
    {
        if self.slots[id].queue.len() == 0 {
            None
        } else {
            let e = self.slots[id].queue.remove(0);
            proof {
                assert(final(self).slot_queue(id as int) =~= old(self).slot_queue(
                    id as int,
                ).drop_first());
                if old(self).wf() {
                    assert forall|i: int|
                        0 <= i < final(self).num_slots() implies #[trigger] final(self).slot_queue(
                        i,
                    ).len() <= final(self).capacity_spec() by {
                        assert(old(self).slot_queue(i).len() <= old(self).capacity_spec());
                        if i != id {
                            assert(final(self).slot_queue(i) == old(self).slot_queue(i));
                        }
                    }
                }
            }
            Some(e)
        }
    }
}

} // verus!
