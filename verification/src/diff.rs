//! The diff engine: given the previous and the next snapshot, it computes the
//! exact sets of removed and added components, keyed by name alone. A name
//! present in both snapshots is never reported, even if the component behind
//! it changed.

use vstd::prelude::*;

verus! {

use crate::component::{ComponentChanged, ComponentChangedView, ComponentView};
use crate::state::Snapshot;
use crate::contains_name;

/// The mathematical contents of a vector of change events.
pub open spec fn views_of_changes(s: Seq<ComponentChanged>) -> Seq<ComponentChangedView> {
    s.map_values(|e: ComponentChanged| e@)
}

/// What it means for `events` to be the identity-based difference between
/// `prev` and `next`:
/// - every `Removed` event carries a component of `prev` whose name is absent
///   from `next`, and every `Added` event a component of `next` whose name is
///   absent from `prev`;
/// - no two events concern the same name, so each name is reported at most
///   once;
/// - every removed name and every added name is reported.
/// The order of the events is deliberately left open.
pub open spec fn is_diff(
    prev: Seq<ComponentView>,
    next: Seq<ComponentView>,
    events: Seq<ComponentChangedView>,
) -> bool {
    &&& forall|i: int|
        0 <= i < events.len() && (#[trigger] events[i]) is Removed ==> prev.contains(
            events[i].component(),
        ) && !contains_name(next, events[i].name())
    &&& forall|i: int|
        0 <= i < events.len() && (#[trigger] events[i]) is Added ==> next.contains(
            events[i].component(),
        ) && !contains_name(prev, events[i].name())
    &&& forall|i: int, j: int|
        0 <= i < events.len() && 0 <= j < events.len() && i != j ==> events[i].name()
            != events[j].name()
    &&& forall|j: int|
        0 <= j < prev.len() && !contains_name(next, (#[trigger] prev[j]).name()) ==> events.contains(
            ComponentChangedView::Removed(prev[j]),
        )
    &&& forall|j: int|
        0 <= j < next.len() && !contains_name(prev, (#[trigger] next[j]).name()) ==> events.contains(
            ComponentChangedView::Added(next[j]),
        )
}

/// A component found in `s` has its name in `s`.
pub proof fn lemma_contains_to_contains_name(s: Seq<ComponentView>, c: ComponentView)
    requires
        s.contains(c),
    ensures
        contains_name(s, c.name()),
{
    let k = choose|k: int| 0 <= k < s.len() && s[k] == c;
    assert(s[k].name() == c.name());
}

/// No spurious events: a name present in both the old and the new topology
/// is never reported, no matter how the component behind it changed — the
/// diff is identity-based, not content-based.
pub proof fn lemma_no_spurious_events(
    prev: Seq<ComponentView>,
    next: Seq<ComponentView>,
    events: Seq<ComponentChangedView>,
    n: Seq<char>,
)
    requires
        is_diff(prev, next, events),
        contains_name(prev, n),
        contains_name(next, n),
    ensures
        forall|i: int| 0 <= i < events.len() ==> (#[trigger] events[i]).name() != n,
{
    assert forall|i: int| 0 <= i < events.len() implies (#[trigger] events[i]).name() != n by {
        if events[i] is Removed {
            assert(!contains_name(next, events[i].name()));
        } else {
            assert(!contains_name(prev, events[i].name()));
        }
    }
}

/// Computes the difference between the previous snapshot `prev` and the next
/// snapshot `next`: one `Removed` event per name that disappeared, carrying
/// the full prior component, and one `Added` event per name that appeared,
/// carrying the next component.
pub fn diff(prev: &Snapshot, next: &Snapshot) -> (events: Vec<ComponentChanged>)
    requires
        prev.wf(),
        next.wf(),
    ensures
        is_diff(prev@, next@, views_of_changes(events@)),
{
    let mut events: Vec<ComponentChanged> = Vec::new();
    removed_into(prev, next, &mut events);
    added_into(prev, next, &mut events);
    events
}

/// Pushes one `Removed(prev[j])` event per name of `prev` absent from `next`.
fn removed_into(prev: &Snapshot, next: &Snapshot, events: &mut Vec<ComponentChanged>)
    requires
        prev.wf(),
        old(events)@.len() == 0,
    ensures
        forall|i: int|
            0 <= i < final(events)@.len() ==> (#[trigger] views_of_changes(final(events)@)[i])
                is Removed && prev@.contains(views_of_changes(final(events)@)[i].component())
                && !contains_name(next@, views_of_changes(final(events)@)[i].name()),
        forall|i1: int, i2: int|
            0 <= i1 < final(events)@.len() && 0 <= i2 < final(events)@.len() && i1 != i2
                ==> views_of_changes(final(events)@)[i1].name() != views_of_changes(
                final(events)@,
            )[i2].name(),
        forall|j: int|
            0 <= j < prev@.len() && !contains_name(next@, (#[trigger] prev@[j]).name())
                ==> views_of_changes(final(events)@).contains(
                ComponentChangedView::Removed(prev@[j]),
            ),
{
    let n = prev.len();
    let mut j: usize = 0;
    while j < n
        invariant
            prev.wf(),
            n == prev@.len(),
            j <= n,
            forall|i: int|
                0 <= i < events@.len() ==> (#[trigger] views_of_changes(events@)[i]) is Removed
                    && exists|k: int|
                    0 <= k < j && views_of_changes(events@)[i].component() == prev@[k],
            forall|i: int|
                0 <= i < events@.len() ==> !contains_name(
                    next@,
                    (#[trigger] views_of_changes(events@)[i]).name(),
                ),
            forall|k: int|
                0 <= k < j && !contains_name(next@, (#[trigger] prev@[k]).name())
                    ==> views_of_changes(events@).contains(
                    ComponentChangedView::Removed(prev@[k]),
                ),
            forall|i1: int, i2: int|
                0 <= i1 < events@.len() && 0 <= i2 < events@.len() && i1 != i2
                    ==> views_of_changes(events@)[i1].name() != views_of_changes(
                    events@,
                )[i2].name(),
        decreases n - j,
    {
        let c = prev.entry(j);
        if !next.contains(c.name()) {
            let ghost e0 = events@;
            events.push(ComponentChanged::Removed(c.clone()));
            proof {
                assert(views_of_changes(events@) =~= views_of_changes(e0).push(
                    ComponentChangedView::Removed(prev@[j as int]),
                ));
                let last = events@.len() - 1;
                assert(views_of_changes(events@)[last] == ComponentChangedView::Removed(
                    prev@[j as int],
                ));
                assert forall|i: int| 0 <= i < events@.len() implies (#[trigger] views_of_changes(
                    events@,
                )[i]) is Removed && exists|k: int|
                    0 <= k < j + 1 && views_of_changes(events@)[i].component() == prev@[k] by {
                    if i < e0.len() {
                        assert(views_of_changes(events@)[i] == views_of_changes(e0)[i]);
                        let k = choose|k: int|
                            0 <= k < j && views_of_changes(e0)[i].component() == prev@[k];
                        assert(0 <= k < j + 1 && views_of_changes(events@)[i].component()
                            == prev@[k]);
                    } else {
                        assert(0 <= j < j + 1 && views_of_changes(events@)[i].component()
                            == prev@[j as int]);
                    }
                }
                assert forall|i1: int, i2: int|
                    0 <= i1 < events@.len() && 0 <= i2 < events@.len() && i1
                        != i2 implies views_of_changes(events@)[i1].name() != views_of_changes(
                    events@,
                )[i2].name() by {
                    if i1 < e0.len() && i2 < e0.len() {
                        assert(views_of_changes(e0)[i1].name() != views_of_changes(e0)[i2].name());
                    } else if i1 < e0.len() {
                        let k1 = choose|k: int|
                            0 <= k < j && views_of_changes(e0)[i1].component() == prev@[k];
                        assert(prev@[k1].name() != prev@[j as int].name());
                    } else {
                        let k2 = choose|k: int|
                            0 <= k < j && views_of_changes(e0)[i2].component() == prev@[k];
                        assert(prev@[k2].name() != prev@[j as int].name());
                    }
                }
                assert forall|k: int|
                    0 <= k < j + 1 && !contains_name(
                        next@,
                        (#[trigger] prev@[k]).name(),
                    ) implies views_of_changes(events@).contains(
                    ComponentChangedView::Removed(prev@[k]),
                ) by {
                    if k < j {
                        let idx = choose|idx: int|
                            0 <= idx < views_of_changes(e0).len() && views_of_changes(e0)[idx]
                                == ComponentChangedView::Removed(prev@[k]);
                        assert(views_of_changes(events@)[idx] == ComponentChangedView::Removed(
                            prev@[k],
                        ));
                    } else {
                        assert(views_of_changes(events@)[last] == ComponentChangedView::Removed(
                            prev@[k],
                        ));
                    }
                }
            }
        }
        j = j + 1;
    }
    proof {
        assert forall|i: int| 0 <= i < events@.len() implies prev@.contains(
            (#[trigger] views_of_changes(events@)[i]).component(),
        ) by {
            let k = choose|k: int|
                0 <= k < n && views_of_changes(events@)[i].component() == prev@[k];
            assert(prev@[k] == views_of_changes(events@)[i].component());
        }
    }
}

/// Pushes one `Added(next[j])` event per name of `next` absent from `prev`,
/// after the `Removed` events already collected.
fn added_into(prev: &Snapshot, next: &Snapshot, events: &mut Vec<ComponentChanged>)
    requires
        prev.wf(),
        next.wf(),
        forall|i: int|
            0 <= i < old(events)@.len() ==> (#[trigger] views_of_changes(old(events)@)[i])
                is Removed && prev@.contains(views_of_changes(old(events)@)[i].component())
                && !contains_name(next@, views_of_changes(old(events)@)[i].name()),
        forall|i1: int, i2: int|
            0 <= i1 < old(events)@.len() && 0 <= i2 < old(events)@.len() && i1 != i2
                ==> views_of_changes(old(events)@)[i1].name() != views_of_changes(
                old(events)@,
            )[i2].name(),
        forall|j: int|
            0 <= j < prev@.len() && !contains_name(next@, (#[trigger] prev@[j]).name())
                ==> views_of_changes(old(events)@).contains(
                ComponentChangedView::Removed(prev@[j]),
            ),
    ensures
        is_diff(prev@, next@, views_of_changes(final(events)@)),
{
    let ghost base = old(events)@;
    let n = next.len();
    let mut j: usize = 0;
    while j < n
        invariant
            prev.wf(),
            next.wf(),
            n == next@.len(),
            j <= n,
            events@.len() >= base.len(),
            forall|i: int|
                0 <= i < base.len() ==> #[trigger] views_of_changes(events@)[i]
                    == views_of_changes(base)[i],
            forall|i: int|
                0 <= i < base.len() ==> (#[trigger] views_of_changes(base)[i]) is Removed
                    && prev@.contains(views_of_changes(base)[i].component()) && !contains_name(
                    next@,
                    views_of_changes(base)[i].name(),
                ),
            forall|i: int|
                base.len() <= i < events@.len() ==> (#[trigger] views_of_changes(events@)[i])
                    is Added && !contains_name(
                    prev@,
                    views_of_changes(events@)[i].name(),
                ) && exists|k: int|
                    0 <= k < j && views_of_changes(events@)[i].component() == next@[k],
            forall|k: int|
                0 <= k < j && !contains_name(prev@, (#[trigger] next@[k]).name())
                    ==> views_of_changes(events@).contains(ComponentChangedView::Added(next@[k])),
            forall|i1: int, i2: int|
                0 <= i1 < events@.len() && 0 <= i2 < events@.len() && i1 != i2
                    ==> views_of_changes(events@)[i1].name() != views_of_changes(
                    events@,
                )[i2].name(),
        decreases n - j,
    {
        let c = next.entry(j);
        if !prev.contains(c.name()) {
            let ghost e0 = events@;
            events.push(ComponentChanged::Added(c.clone()));
            proof {
                assert(views_of_changes(events@) =~= views_of_changes(e0).push(
                    ComponentChangedView::Added(next@[j as int]),
                ));
                let last = events@.len() - 1;
                assert(views_of_changes(events@)[last] == ComponentChangedView::Added(
                    next@[j as int],
                ));
                assert forall|i: int|
                    base.len() <= i < events@.len() implies (#[trigger] views_of_changes(
                    events@,
                )[i]) is Added && !contains_name(
                    prev@,
                    views_of_changes(events@)[i].name(),
                ) && exists|k: int|
                    0 <= k < j + 1 && views_of_changes(events@)[i].component() == next@[k] by {
                    if i < e0.len() {
                        assert(views_of_changes(events@)[i] == views_of_changes(e0)[i]);
                        let k = choose|k: int|
                            0 <= k < j && views_of_changes(e0)[i].component() == next@[k];
                        assert(0 <= k < j + 1 && views_of_changes(events@)[i].component()
                            == next@[k]);
                    } else {
                        assert(0 <= j < j + 1 && views_of_changes(events@)[i].component()
                            == next@[j as int]);
                    }
                }
                assert forall|i1: int, i2: int|
                    0 <= i1 < events@.len() && 0 <= i2 < events@.len() && i1
                        != i2 implies views_of_changes(events@)[i1].name() != views_of_changes(
                    events@,
                )[i2].name() by {
                    if i1 < e0.len() && i2 < e0.len() {
                        assert(views_of_changes(e0)[i1].name() != views_of_changes(e0)[i2].name());
                    } else if i1 < e0.len() {
                        assert(views_of_changes(events@)[i1] == views_of_changes(e0)[i1]);
                        if i1 < base.len() {
                            lemma_contains_to_contains_name(
                                prev@,
                                views_of_changes(e0)[i1].component(),
                            );
                        } else {
                            let k = choose|k: int|
                                0 <= k < j && views_of_changes(e0)[i1].component() == next@[k];
                            assert(next@[k].name() != next@[j as int].name());
                        }
                    } else if i2 < e0.len() {
                        assert(views_of_changes(events@)[i2] == views_of_changes(e0)[i2]);
                        if i2 < base.len() {
                            lemma_contains_to_contains_name(
                                prev@,
                                views_of_changes(e0)[i2].component(),
                            );
                        } else {
                            let k = choose|k: int|
                                0 <= k < j && views_of_changes(e0)[i2].component() == next@[k];
                            assert(next@[k].name() != next@[j as int].name());
                        }
                    }
                }
                assert forall|k: int|
                    0 <= k < j + 1 && !contains_name(
                        prev@,
                        (#[trigger] next@[k]).name(),
                    ) implies views_of_changes(events@).contains(
                    ComponentChangedView::Added(next@[k]),
                ) by {
                    if k < j {
                        let idx = choose|idx: int|
                            0 <= idx < views_of_changes(e0).len() && views_of_changes(e0)[idx]
                                == ComponentChangedView::Added(next@[k]);
                        assert(views_of_changes(events@)[idx] == ComponentChangedView::Added(
                            next@[k],
                        ));
                    } else {
                        assert(views_of_changes(events@)[last] == ComponentChangedView::Added(
                            next@[k],
                        ));
                    }
                }
            }
        }
        j = j + 1;
    }
    proof {
        assert forall|i: int|
            0 <= i < events@.len() && (#[trigger] views_of_changes(events@)[i])
                is Removed implies prev@.contains(views_of_changes(events@)[i].component())
            && !contains_name(next@, views_of_changes(events@)[i].name()) by {
            if i >= base.len() {
                assert(views_of_changes(events@)[i] is Added);
            } else {
                assert(views_of_changes(events@)[i] == views_of_changes(base)[i]);
            }
        }
        assert forall|i: int|
            0 <= i < events@.len() && (#[trigger] views_of_changes(events@)[i])
                is Added implies next@.contains(views_of_changes(events@)[i].component())
            && !contains_name(prev@, views_of_changes(events@)[i].name()) by {
            assert(i >= base.len());
            let k = choose|k: int|
                0 <= k < n && views_of_changes(events@)[i].component() == next@[k];
            assert(next@[k] == views_of_changes(events@)[i].component());
        }
        assert forall|j2: int|
            0 <= j2 < prev@.len() && !contains_name(
                next@,
                (#[trigger] prev@[j2]).name(),
            ) implies views_of_changes(events@).contains(
            ComponentChangedView::Removed(prev@[j2]),
        ) by {
            let i = choose|i: int|
                0 <= i < views_of_changes(base).len() && views_of_changes(base)[i]
                    == ComponentChangedView::Removed(prev@[j2]);
            assert(views_of_changes(events@)[i] == ComponentChangedView::Removed(prev@[j2]));
        }
    }
}

} // verus!
