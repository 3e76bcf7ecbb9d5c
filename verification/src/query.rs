//! The query and subscription surface: synchronous reads of the current
//! snapshot, filtered by kind, and the two filtered event streams built on
//! the event bus.

use vstd::prelude::*;

verus! {

use crate::bus::EventBus;
use crate::component::{
    Component,
    ComponentChanged,
    ComponentChangedView,
    ComponentKind,
    ComponentView,
    Sink,
    SinkView,
    Source,
    SourceView,
    Transform,
    TransformView,
};
use crate::state::{kind_pred, views_of, Registry};

/// The payloads of the `Added` events of `q`, in order; `Removed` events
/// are passed over silently.
pub open spec fn added_payloads(q: Seq<ComponentChangedView>) -> Seq<ComponentView>
    decreases q.len(),
{
    if q.len() == 0 {
        Seq::empty()
    } else if q[0] is Added {
        seq![q[0].component()] + added_payloads(q.drop_first())
    } else {
        added_payloads(q.drop_first())
    }
}

/// The payloads of the `Removed` events of `q`, in order; `Added` events
/// are passed over silently.
pub open spec fn removed_payloads(q: Seq<ComponentChangedView>) -> Seq<ComponentView>
    decreases q.len(),
{
    if q.len() == 0 {
        Seq::empty()
    } else if q[0] is Removed {
        seq![q[0].component()] + removed_payloads(q.drop_first())
    } else {
        removed_payloads(q.drop_first())
    }
}

/// The read-only query surface over a registry.
pub struct ComponentsQuery;

/// The mathematical contents of a sequence of sources.
pub open spec fn source_views(s: Seq<Source>) -> Seq<SourceView> {
    s.map_values(|x: Source| x@)
}

/// The mathematical contents of a sequence of transforms.
pub open spec fn transform_views(s: Seq<Transform>) -> Seq<TransformView> {
    s.map_values(|x: Transform| x@)
}

/// The mathematical contents of a sequence of sinks.
pub open spec fn sink_views(s: Seq<Sink>) -> Seq<SinkView> {
    s.map_values(|x: Sink| x@)
}

/// The source payload of a component, where it is one.
pub open spec fn as_source(c: ComponentView) -> SourceView {
    match c {
        ComponentView::Source(s) => s,
        _ => vstd::pervasive::arbitrary(),
    }
}

/// The transform payload of a component, where it is one.
pub open spec fn as_transform(c: ComponentView) -> TransformView {
    match c {
        ComponentView::Transform(t) => t,
        _ => vstd::pervasive::arbitrary(),
    }
}

/// The sink payload of a component, where it is one.
pub open spec fn as_sink(c: ComponentView) -> SinkView {
    match c {
        ComponentView::Sink(s) => s,
        _ => vstd::pervasive::arbitrary(),
    }
}

/// The source payloads of a sequence of source components.
pub open spec fn sources_of(s: Seq<ComponentView>) -> Seq<SourceView> {
    s.map_values(|c: ComponentView| as_source(c))
}

/// The transform payloads of a sequence of transform components.
pub open spec fn transforms_of(s: Seq<ComponentView>) -> Seq<TransformView> {
    s.map_values(|c: ComponentView| as_transform(c))
}

/// The sink payloads of a sequence of sink components.
pub open spec fn sinks_of(s: Seq<ComponentView>) -> Seq<SinkView> {
    s.map_values(|c: ComponentView| as_sink(c))
}

impl ComponentsQuery {
    /// A query handle; it carries no state of its own.
    pub fn new() -> (q: ComponentsQuery) {
        ComponentsQuery
    }

    /// All configured components, as of call time.
    pub fn components(&self, registry: &Registry) -> (r: Vec<Component>)
        ensures
            views_of(r@) == registry@,
    {
        let snap = registry.snapshot();
        let n = snap.len();
        let mut r: Vec<Component> = Vec::new();
        let mut i: usize = 0;
        proof {
            assert(views_of(r@) =~= registry@.take(0));
        }
        while i < n
            invariant
                n == registry@.len(),
                i <= n,
                snap@ == registry@,
                views_of(r@) == registry@.take(i as int),
            decreases n - i,
        {
            let c = snap.entry(i).clone();
            let ghost r0 = r@;
            r.push(c);
            proof {
                assert(views_of(r@) =~= views_of(r0).push(c@));
                assert(registry@.take(i + 1) =~= registry@.take(i as int).push(
                    registry@[i as int],
                ));
            }
            i = i + 1;
        }
        proof {
            assert(registry@.take(n as int) =~= registry@);
        }
        r
    }

    /// The configured sources, in snapshot order.
    pub fn sources(&self, registry: &Registry) -> (r: Vec<Source>)
        ensures
            source_views(r@) == sources_of(registry@.filter(kind_pred(ComponentKind::Source))),
    {
        let ghost filtered = registry@.filter(kind_pred(ComponentKind::Source));
        let cs = registry.get_by_kind(ComponentKind::Source);
        let n = cs.len();
        let mut r: Vec<Source> = Vec::new();
        let mut i: usize = 0;
        proof {
            assert(source_views(r@) =~= sources_of(filtered).take(0));
        }
        while i < n
            invariant
                n == cs@.len(),
                views_of(cs@) == filtered,
                filtered == registry@.filter(kind_pred(ComponentKind::Source)),
                i <= n,
                source_views(r@) == sources_of(filtered).take(i as int),
            decreases n - i,
        {
            proof {
                Seq::lemma_filter_pred(registry@, kind_pred(ComponentKind::Source), i as int);
                assert(cs@[i as int]@ == filtered[i as int]);
            }
            match &cs[i] {
                Component::Source(s) => {
                    let copy = s.clone();
                    let ghost r0 = r@;
                    r.push(copy);
                    proof {
                        assert(source_views(r@) =~= source_views(r0).push(copy@));
                        assert(sources_of(filtered).take(i + 1) =~= sources_of(filtered).take(
                            i as int,
                        ).push(as_source(filtered[i as int])));
                    }
                },
                _ => {
                    proof {
                        assert(filtered[i as int].kind() == ComponentKind::Source);
                        assert(false);
                    }
                },
            }
            i = i + 1;
        }
        proof {
            assert(sources_of(filtered).take(n as int) =~= sources_of(filtered));
        }
        r
    }

    /// The configured transforms, in snapshot order.
    pub fn transforms(&self, registry: &Registry) -> (r: Vec<Transform>)
        ensures
            transform_views(r@) == transforms_of(
                registry@.filter(kind_pred(ComponentKind::Transform)),
            ),
    {
        let ghost filtered = registry@.filter(kind_pred(ComponentKind::Transform));
        let cs = registry.get_by_kind(ComponentKind::Transform);
        let n = cs.len();
        let mut r: Vec<Transform> = Vec::new();
        let mut i: usize = 0;
        proof {
            assert(transform_views(r@) =~= transforms_of(filtered).take(0));
        }
        while i < n
            invariant
                n == cs@.len(),
                views_of(cs@) == filtered,
                filtered == registry@.filter(kind_pred(ComponentKind::Transform)),
                i <= n,
                transform_views(r@) == transforms_of(filtered).take(i as int),
            decreases n - i,
        {
            proof {
                Seq::lemma_filter_pred(registry@, kind_pred(ComponentKind::Transform), i as int);
                assert(cs@[i as int]@ == filtered[i as int]);
            }
            match &cs[i] {
                Component::Transform(t) => {
                    let copy = t.clone();
                    let ghost r0 = r@;
                    r.push(copy);
                    proof {
                        assert(transform_views(r@) =~= transform_views(r0).push(copy@));
                        assert(transforms_of(filtered).take(i + 1) =~= transforms_of(
                            filtered,
                        ).take(i as int).push(as_transform(filtered[i as int])));
                    }
                },
                _ => {
                    proof {
                        assert(filtered[i as int].kind() == ComponentKind::Transform);
                        assert(false);
                    }
                },
            }
            i = i + 1;
        }
        proof {
            assert(transforms_of(filtered).take(n as int) =~= transforms_of(filtered));
        }
        r
    }

    /// The configured sinks, in snapshot order.
    pub fn sinks(&self, registry: &Registry) -> (r: Vec<Sink>)
        ensures
            sink_views(r@) == sinks_of(registry@.filter(kind_pred(ComponentKind::Sink))),
    {
        let ghost filtered = registry@.filter(kind_pred(ComponentKind::Sink));
        let cs = registry.get_by_kind(ComponentKind::Sink);
        let n = cs.len();
        let mut r: Vec<Sink> = Vec::new();
        let mut i: usize = 0;
        proof {
            assert(sink_views(r@) =~= sinks_of(filtered).take(0));
        }
        while i < n
            invariant
                n == cs@.len(),
                views_of(cs@) == filtered,
                filtered == registry@.filter(kind_pred(ComponentKind::Sink)),
                i <= n,
                sink_views(r@) == sinks_of(filtered).take(i as int),
            decreases n - i,
        {
            proof {
                Seq::lemma_filter_pred(registry@, kind_pred(ComponentKind::Sink), i as int);
                assert(cs@[i as int]@ == filtered[i as int]);
            }
            match &cs[i] {
                Component::Sink(s) => {
                    let copy = s.clone();
                    let ghost r0 = r@;
                    r.push(copy);
                    proof {
                        assert(sink_views(r@) =~= sink_views(r0).push(copy@));
                        assert(sinks_of(filtered).take(i + 1) =~= sinks_of(filtered).take(
                            i as int,
                        ).push(as_sink(filtered[i as int])));
                    }
                },
                _ => {
                    proof {
                        assert(filtered[i as int].kind() == ComponentKind::Sink);
                        assert(false);
                    }
                },
            }
            i = i + 1;
        }
        proof {
            assert(sinks_of(filtered).take(n as int) =~= sinks_of(filtered));
        }
        r
    }
}

/// A live stream of the components added to the topology: the payloads of
/// `Added` events published after the stream was opened, in order, with
/// `Removed` events passed over silently.
pub struct AddedStream {
    pub id: usize,
}

/// A live stream of the components removed from the topology: the payloads
/// of `Removed` events published after the stream was opened, in order, with
/// `Added` events passed over silently.
pub struct RemovedStream {
    pub id: usize,
}

/// The subscription surface over an event bus.
pub struct ComponentsSubscription;

impl ComponentsSubscription {
    /// A subscription handle; it carries no state of its own.
    pub fn new() -> (s: ComponentsSubscription) {
        ComponentsSubscription
    }

    /// Opens a fresh, independent stream of added components. The stream
    /// starts empty: it observes only events published after this call —
    /// there is no replay.
    pub fn component_added(&self, bus: &mut EventBus) -> (s: AddedStream)
        ensures
            s.id == old(bus).num_slots(),
            final(bus).num_slots() == old(bus).num_slots() + 1,
            final(bus).capacity_spec() == old(bus).capacity_spec(),
            final(bus).slot_active(s.id as int),
            final(bus).slot_queue(s.id as int) == Seq::<ComponentChangedView>::empty(),
            forall|i: int|
                0 <= i < old(bus).num_slots() ==> #[trigger] final(bus).slot_active(i) == old(
                    bus,
                ).slot_active(i) && final(bus).slot_queue(i) == old(bus).slot_queue(i),
            old(bus).wf() ==> final(bus).wf(),
    {
        AddedStream { id: bus.subscribe() }
    }

    /// Opens a fresh, independent stream of removed components, with the
    /// same no-replay guarantee.
    pub fn component_removed(&self, bus: &mut EventBus) -> (s: RemovedStream)
        ensures
            s.id == old(bus).num_slots(),
            final(bus).num_slots() == old(bus).num_slots() + 1,
            final(bus).capacity_spec() == old(bus).capacity_spec(),
            final(bus).slot_active(s.id as int),
            final(bus).slot_queue(s.id as int) == Seq::<ComponentChangedView>::empty(),
            forall|i: int|
                0 <= i < old(bus).num_slots() ==> #[trigger] final(bus).slot_active(i) == old(
                    bus,
                ).slot_active(i) && final(bus).slot_queue(i) == old(bus).slot_queue(i),
            old(bus).wf() ==> final(bus).wf(),
    {
        RemovedStream { id: bus.subscribe() }
    }
}

impl AddedStream {
    /// Hands out the next added component already pending on this stream, or
    /// reports that none is. `Removed` events in between are consumed and
    /// skipped. Waiting for the next event belongs to the caller; this never
    /// blocks.
    pub fn try_next(&self, bus: &mut EventBus) -> (r: Option<Component>)
        requires
            self.id < old(bus).num_slots(),
            old(bus).wf(),
        ensures
            final(bus).wf(),
            final(bus).num_slots() == old(bus).num_slots(),
            final(bus).capacity_spec() == old(bus).capacity_spec(),
            forall|i: int|
                0 <= i < old(bus).num_slots() ==> #[trigger] final(bus).slot_active(i) == old(
                    bus,
                ).slot_active(i),
            forall|i: int|
                0 <= i < old(bus).num_slots() && i != self.id ==> #[trigger] final(bus).slot_queue(
                    i,
                ) == old(bus).slot_queue(i),
            r is None ==> added_payloads(old(bus).slot_queue(self.id as int)) == Seq::<
                ComponentView,
            >::empty() && final(bus).slot_queue(self.id as int) == Seq::<
                ComponentChangedView,
            >::empty(),
            r matches Some(c) ==> added_payloads(old(bus).slot_queue(self.id as int)).len() > 0
                && c@ == added_payloads(old(bus).slot_queue(self.id as int))[0] && added_payloads(
                final(bus).slot_queue(self.id as int),
            ) == added_payloads(old(bus).slot_queue(self.id as int)).drop_first(),
        decreases old(bus).slot_queue(self.id as int).len(),
    {
        let ghost q0 = old(bus).slot_queue(self.id as int);
        match bus.try_recv(self.id) {
            None => {
                proof {
                    assert(q0 =~= Seq::<ComponentChangedView>::empty());
                }
                None
            },
            Some(e) => {
                match e {
                    ComponentChanged::Added(c) => {
                        proof {
                            assert(added_payloads(q0)[0] == q0[0].component());
                            assert(added_payloads(q0).drop_first() =~= added_payloads(
                                q0.drop_first(),
                            ));
                        }
                        Some(c)
                    },
                    ComponentChanged::Removed(_) => {
                        proof {
                            assert(added_payloads(q0) == added_payloads(q0.drop_first()));
                        }
                        self.try_next(bus)
                    },
                }
            },
        }
    }

    /// Closes the stream, releasing its bus slot; other subscribers and the
    /// publisher are unaffected.
    pub fn cancel(self, bus: &mut EventBus)
        requires
            self.id < old(bus).num_slots(),
        ensures
            final(bus).num_slots() == old(bus).num_slots(),
            final(bus).capacity_spec() == old(bus).capacity_spec(),
            !final(bus).slot_active(self.id as int),
            forall|i: int|
                0 <= i < old(bus).num_slots() && i != self.id ==> #[trigger] final(bus).slot_active(
                    i,
                ) == old(bus).slot_active(i) && final(bus).slot_queue(i) == old(bus).slot_queue(i),
            old(bus).wf() ==> final(bus).wf(),
    {
        bus.unsubscribe(self.id);
    }
}

impl RemovedStream {
    /// Hands out the next removed component already pending on this stream,
    /// or reports that none is. `Added` events in between are consumed and
    /// skipped. Waiting for the next event belongs to the caller; this never
    /// blocks.
    pub fn try_next(&self, bus: &mut EventBus) -> (r: Option<Component>)
        requires
            self.id < old(bus).num_slots(),
            old(bus).wf(),
        ensures
            final(bus).wf(),
            final(bus).num_slots() == old(bus).num_slots(),
            final(bus).capacity_spec() == old(bus).capacity_spec(),
            forall|i: int|
                0 <= i < old(bus).num_slots() ==> #[trigger] final(bus).slot_active(i) == old(
                    bus,
                ).slot_active(i),
            forall|i: int|
                0 <= i < old(bus).num_slots() && i != self.id ==> #[trigger] final(bus).slot_queue(
                    i,
                ) == old(bus).slot_queue(i),
            r is None ==> removed_payloads(old(bus).slot_queue(self.id as int)) == Seq::<
                ComponentView,
            >::empty() && final(bus).slot_queue(self.id as int) == Seq::<
                ComponentChangedView,
            >::empty(),
            r matches Some(c) ==> removed_payloads(old(bus).slot_queue(self.id as int)).len() > 0
                && c@ == removed_payloads(old(bus).slot_queue(self.id as int))[0]
                && removed_payloads(final(bus).slot_queue(self.id as int)) == removed_payloads(
                old(bus).slot_queue(self.id as int),
            ).drop_first(),
        decreases old(bus).slot_queue(self.id as int).len(),
    {
        let ghost q0 = old(bus).slot_queue(self.id as int);
        match bus.try_recv(self.id) {
            None => {
                proof {
                    assert(q0 =~= Seq::<ComponentChangedView>::empty());
                }
                None
            },
            Some(e) => {
                match e {
                    ComponentChanged::Removed(c) => {
                        proof {
                            assert(removed_payloads(q0)[0] == q0[0].component());
                            assert(removed_payloads(q0).drop_first() =~= removed_payloads(
                                q0.drop_first(),
                            ));
                        }
                        Some(c)
                    },
                    ComponentChanged::Added(_) => {
                        proof {
                            assert(removed_payloads(q0) == removed_payloads(q0.drop_first()));
                        }
                        self.try_next(bus)
                    },
                }
            },
        }
    }

    /// Closes the stream, releasing its bus slot; other subscribers and the
    /// publisher are unaffected.
    pub fn cancel(self, bus: &mut EventBus)
        requires
            self.id < old(bus).num_slots(),
        ensures
            final(bus).num_slots() == old(bus).num_slots(),
            final(bus).capacity_spec() == old(bus).capacity_spec(),
            !final(bus).slot_active(self.id as int),
            forall|i: int|
                0 <= i < old(bus).num_slots() && i != self.id ==> #[trigger] final(bus).slot_active(
                    i,
                ) == old(bus).slot_active(i) && final(bus).slot_queue(i) == old(bus).slot_queue(i),
            old(bus).wf() ==> final(bus).wf(),
    {
        bus.unsubscribe(self.id);
    }
}

} // verus!
