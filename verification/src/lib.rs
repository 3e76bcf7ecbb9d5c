//! A live component registry with change notification.
//!
//! The crate models a running data-processing pipeline's topology: a set of
//! named stages (sources, transforms, sinks). A [`state::Registry`] owns the
//! current snapshot of that topology; [`update_config`] atomically replaces it
//! with a freshly loaded one, computes the identity-based (by name) difference
//! between the two, and broadcasts one change event per added or removed name
//! over a bounded, lossy, multi-subscriber [`bus::EventBus`].

pub mod bus;
pub mod component;
pub mod diff;
pub mod query;
pub mod state;

use vstd::prelude::*;

verus! {

use crate::bus::{bounded_push, bounded_push_all, EventBus};
use crate::component::{Component, ComponentChangedView, ComponentView, Sink, Source, Transform};
use crate::diff::{diff, is_diff, views_of_changes};
use crate::state::{Registry, Snapshot};

/// True when every pair of distinct positions in `s` holds components with
/// distinct names: the registry-wide uniqueness invariant.
pub open spec fn unique_names(s: Seq<ComponentView>) -> bool {
    forall|i: int, j: int|
        0 <= i < s.len() && 0 <= j < s.len() && i != j ==> s[i].name() != s[j].name()
}

/// True when some component in `s` is named `n`.
pub open spec fn contains_name(s: Seq<ComponentView>, n: Seq<char>) -> bool {
    exists|i: int| 0 <= i < s.len() && (#[trigger] s[i].name()) == n
}

/// In a sequence with unique names, no prefix holds the name of the entry
/// that follows it.
pub proof fn lemma_unique_prefix_absent(s: Seq<ComponentView>, m: int)
    requires
        unique_names(s),
        0 <= m < s.len(),
    ensures
        !contains_name(s.take(m), s[m].name()),
{
    if contains_name(s.take(m), s[m].name()) {
        let i = choose|i: int|
            0 <= i < s.take(m).len() && (#[trigger] s.take(m)[i].name()) == s[m].name();
        assert(s[i].name() == s[m].name());
        assert(false);
    }
}

/// What one update call does to the bus: every subscriber that was active
/// before the call has the whole event sequence delivered into its bounded
/// buffer, oldest first; inactive slots and the slot layout are untouched.
pub open spec fn bus_broadcast(
    pre: EventBus,
    post: EventBus,
    events: Seq<ComponentChangedView>,
) -> bool {
    &&& post.capacity_spec() == pre.capacity_spec()
    &&& post.num_slots() == pre.num_slots()
    &&& forall|i: int|
        0 <= i < pre.num_slots() ==> #[trigger] post.slot_active(i) == pre.slot_active(i)
    &&& forall|i: int|
        0 <= i < pre.num_slots() && pre.slot_active(i) ==> #[trigger] post.slot_queue(i)
            == bounded_push_all(pre.slot_queue(i), events, pre.capacity_spec())
    &&& forall|i: int|
        0 <= i < pre.num_slots() && !pre.slot_active(i) ==> #[trigger] post.slot_queue(i)
            == pre.slot_queue(i)
}

/// What one update call amounts to: some event sequence that is exactly the
/// identity-based difference between the old and the new topology was
/// broadcast to every subscriber active before the call.
pub open spec fn update_effect(
    prev: Seq<ComponentView>,
    next: Seq<ComponentView>,
    pre: EventBus,
    post: EventBus,
) -> bool {
    exists|events: Seq<ComponentChangedView>|
        #[trigger] is_diff(prev, next, events) && bus_broadcast(pre, post, events)
}

impl Registry {
    /// The sole mutation entry point: computes the diff of `new_snapshot`
    /// against the current snapshot, publishes one event per removed and per
    /// added name, then commits the swap. The previous snapshot is retained
    /// until every event is published, since `Removed` events carry the full
    /// prior component.
    pub fn update(&mut self, bus: &mut EventBus, new_snapshot: Snapshot)
        requires
            old(self).wf(),
            new_snapshot.wf(),
            old(bus).wf(),
        ensures
            final(self)@ == new_snapshot@,
            final(self).wf(),
            final(bus).wf(),
            update_effect(old(self)@, new_snapshot@, *old(bus), *final(bus)),
    {
        let events = diff(self.snapshot(), &new_snapshot);
        let ghost evs = views_of_changes(events@);
        let n = events.len();
        let mut k: usize = 0;
        proof {
            assert(evs.take(0) =~= Seq::<ComponentChangedView>::empty());
        }
        while k < n
            invariant
                n == events@.len(),
                k <= n,
                evs == views_of_changes(events@),
                evs.len() == n,
                bus.wf(),
                old(bus).wf(),
                bus.capacity_spec() == old(bus).capacity_spec(),
                bus.num_slots() == old(bus).num_slots(),
                forall|i: int|
                    0 <= i < old(bus).num_slots() ==> #[trigger] bus.slot_active(i) == old(
                        bus,
                    ).slot_active(i),
                forall|i: int|
                    0 <= i < old(bus).num_slots() && old(bus).slot_active(i)
                        ==> #[trigger] bus.slot_queue(i) == bounded_push_all(
                        old(bus).slot_queue(i),
                        evs.take(k as int),
                        old(bus).capacity_spec(),
                    ),
                forall|i: int|
                    0 <= i < old(bus).num_slots() && !old(bus).slot_active(i)
                        ==> #[trigger] bus.slot_queue(i) == old(bus).slot_queue(i),
            decreases n - k,
        {
            let ghost prev_bus = *bus;
            let e = events[k].clone();
            bus.publish(e);
            proof {
                assert(e@ == evs[k as int]);
                assert(evs.take(k + 1).drop_last() =~= evs.take(k as int));
                assert(evs.take(k + 1).last() == evs[k as int]);
                assert forall|i: int|
                    0 <= i < old(bus).num_slots() && old(bus).slot_active(
                        i,
                    ) implies #[trigger] bus.slot_queue(i) == bounded_push_all(
                    old(bus).slot_queue(i),
                    evs.take(k + 1),
                    old(bus).capacity_spec(),
                ) by {
                    assert(prev_bus.slot_queue(i) == bounded_push_all(
                        old(bus).slot_queue(i),
                        evs.take(k as int),
                        old(bus).capacity_spec(),
                    ));
                    assert(bus.slot_queue(i) == bounded_push(
                        prev_bus.slot_queue(i),
                        e@,
                        prev_bus.capacity_spec(),
                    ));
                }
                assert forall|i: int|
                    0 <= i < old(bus).num_slots() && !old(bus).slot_active(
                        i,
                    ) implies #[trigger] bus.slot_queue(i) == old(bus).slot_queue(i) by {
                    assert(prev_bus.slot_queue(i) == old(bus).slot_queue(i));
                }
            }
            k = k + 1;
        }
        self.replace(new_snapshot);
        proof {
            assert(evs.take(n as int) =~= evs);
            assert(bus_broadcast(*old(bus), *final(bus), evs));
            assert(is_diff(old(self)@, new_snapshot@, evs));
            assert(update_effect(old(self)@, new_snapshot@, *old(bus), *final(bus)));
        }
    }
}

/// Idempotence: an update whose topology is identical to the current one
/// emits no events, and every subscriber's buffer is left exactly as it was.
pub proof fn lemma_update_idempotent(
    prev: Seq<ComponentView>,
    events: Seq<ComponentChangedView>,
    pre: EventBus,
    post: EventBus,
)
    requires
        is_diff(prev, prev, events),
        bus_broadcast(pre, post, events),
    ensures
        events.len() == 0,
        forall|i: int|
            0 <= i < pre.num_slots() ==> #[trigger] post.slot_queue(i) == pre.slot_queue(i),
        forall|i: int|
            0 <= i < pre.num_slots() ==> #[trigger] post.slot_active(i) == pre.slot_active(i),
{
    if events.len() > 0 {
        let e = events[0];
        crate::diff::lemma_contains_to_contains_name(prev, e.component());
        assert(false);
    }
}

/// Completeness: a subscriber that was active before the call and whose
/// buffer has room for the diff observes all of it — exactly one `Added`
/// event for every name in the new topology but not the old, carrying the
/// new component, and symmetrically exactly one `Removed` event carrying the
/// prior component.
pub proof fn lemma_update_completeness(
    prev: Seq<ComponentView>,
    next: Seq<ComponentView>,
    events: Seq<ComponentChangedView>,
    pre: EventBus,
    post: EventBus,
    i: int,
    c: ComponentView,
)
    requires
        is_diff(prev, next, events),
        bus_broadcast(pre, post, events),
        0 <= i < pre.num_slots(),
        pre.slot_active(i),
        pre.slot_queue(i).len() + events.len() <= pre.capacity_spec(),
    ensures
        post.slot_queue(i) == pre.slot_queue(i) + events,
        next.contains(c) && !contains_name(prev, c.name()) ==> exists|j: int|
            0 <= j < events.len() && events[j] == ComponentChangedView::Added(c),
        prev.contains(c) && !contains_name(next, c.name()) ==> exists|j: int|
            0 <= j < events.len() && events[j] == ComponentChangedView::Removed(c),
        forall|j1: int, j2: int|
            0 <= j1 < events.len() && 0 <= j2 < events.len() && (#[trigger] events[j1]).name()
                == (#[trigger] events[j2]).name() ==> j1 == j2,
{
    crate::bus::lemma_bounded_push_all_no_drop(pre.slot_queue(i), events, pre.capacity_spec());
    if next.contains(c) && !contains_name(prev, c.name()) {
        let k = choose|k: int| 0 <= k < next.len() && next[k] == c;
        assert(events.contains(ComponentChangedView::Added(next[k])));
    }
    if prev.contains(c) && !contains_name(next, c.name()) {
        let k = choose|k: int| 0 <= k < prev.len() && prev[k] == c;
        assert(events.contains(ComponentChangedView::Removed(prev[k])));
    }
}

/// Isolation: two subscribers active before the call, each starting with an
/// empty buffer that the diff fits into, observe exactly the same events
/// from it.
pub proof fn lemma_update_isolation(
    events: Seq<ComponentChangedView>,
    pre: EventBus,
    post: EventBus,
    i1: int,
    i2: int,
)
    requires
        bus_broadcast(pre, post, events),
        0 <= i1 < pre.num_slots(),
        0 <= i2 < pre.num_slots(),
        pre.slot_active(i1),
        pre.slot_active(i2),
        pre.slot_queue(i1).len() == 0,
        pre.slot_queue(i2).len() == 0,
        events.len() <= pre.capacity_spec(),
    ensures
        post.slot_queue(i1) == events,
        post.slot_queue(i2) == events,
        post.slot_queue(i1) == post.slot_queue(i2),
{
    crate::bus::lemma_bounded_push_all_no_drop(pre.slot_queue(i1), events, pre.capacity_spec());
    crate::bus::lemma_bounded_push_all_no_drop(pre.slot_queue(i2), events, pre.capacity_spec());
    assert(pre.slot_queue(i1) + events =~= events);
    assert(pre.slot_queue(i2) + events =~= events);
}

/// An externally produced, already-validated topology description: per
/// stage, its name, kind-specific type tag and topology metadata. The core
/// never parses raw configuration text.
pub struct Config {
    pub sources: Vec<Source>,
    pub transforms: Vec<Transform>,
    pub sinks: Vec<Sink>,
}

impl Config {
    /// The topology this configuration describes: sources first, then
    /// transforms, then sinks.
    pub open spec fn components(&self) -> Seq<ComponentView> {
        self.sources@.map_values(|s: Source| ComponentView::Source(s@)) + self.transforms@.map_values(
            |t: Transform| ComponentView::Transform(t@),
        ) + self.sinks@.map_values(|s: Sink| ComponentView::Sink(s@))
    }

    /// A valid configuration names every stage uniquely, across all kinds.
    pub open spec fn wf(&self) -> bool {
        unique_names(self.components())
    }
}

/// Builds the snapshot a configuration describes.
fn build_snapshot(config: &Config) -> (s: Snapshot)
    requires
        config.wf(),
    ensures
        s@ == config.components(),
        s.wf(),
{
    let ghost all = config.components();
    let mut snap = Snapshot::new();
    proof {
        assert(snap@ =~= all.take(0));
    }
    let n1 = config.sources.len();
    let mut i: usize = 0;
    while i < n1
        invariant
            config.wf(),
            all == config.components(),
            n1 == config.sources@.len(),
            i <= n1,
            snap@ == all.take(i as int),
            snap.wf(),
        decreases n1 - i,
    {
        let c = Component::Source(config.sources[i].clone());
        proof {
            assert(all[i as int] == ComponentView::Source(config.sources@[i as int]@));
            lemma_unique_prefix_absent(all, i as int);
            assert(all.take(i + 1) =~= all.take(i as int).push(all[i as int]));
        }
        snap.insert(c);
        i = i + 1;
    }
    let n2 = config.transforms.len();
    let mut j: usize = 0;
    while j < n2
        invariant
            config.wf(),
            all == config.components(),
            n1 == config.sources@.len(),
            n2 == config.transforms@.len(),
            j <= n2,
            snap@ == all.take(n1 + j),
            snap.wf(),
        decreases n2 - j,
    {
        let ghost g = n1 + j as int;
        let c = Component::Transform(config.transforms[j].clone());
        proof {
            assert(all[g] == ComponentView::Transform(config.transforms@[j as int]@));
            lemma_unique_prefix_absent(all, g);
            assert(all.take(g + 1) =~= all.take(g).push(all[g]));
        }
        snap.insert(c);
        j = j + 1;
    }
    let n3 = config.sinks.len();
    let mut k: usize = 0;
    while k < n3
        invariant
            config.wf(),
            all == config.components(),
            n1 == config.sources@.len(),
            n2 == config.transforms@.len(),
            n3 == config.sinks@.len(),
            k <= n3,
            snap@ == all.take(n1 + n2 + k),
            snap.wf(),
        decreases n3 - k,
    {
        let ghost g = n1 + n2 + k as int;
        let c = Component::Sink(config.sinks[k].clone());
        proof {
            assert(all[g] == ComponentView::Sink(config.sinks@[k as int]@));
            lemma_unique_prefix_absent(all, g);
            assert(all.take(g + 1) =~= all.take(g).push(all[g]));
        }
        snap.insert(c);
        k = k + 1;
    }
    proof {
        assert(all.take(all.len() as int) =~= all);
    }
    snap
}

/// Replaces the registry's topology with the one `config` describes: the
/// single ingress from the configuration-reload collaborator, called once
/// per successful (re)load, the initial load included. The diff against the
/// prior snapshot is published to `bus` before the swap commits.
pub fn update_config(registry: &mut Registry, bus: &mut EventBus, config: &Config)
    requires
        old(registry).wf(),
        old(bus).wf(),
        config.wf(),
    ensures
        final(registry)@ == config.components(),
        final(registry).wf(),
        final(bus).wf(),
        update_effect(old(registry)@, config.components(), *old(bus), *final(bus)),
{
    let snapshot = build_snapshot(config);
    registry.update(bus, snapshot);
}

} // verus!
