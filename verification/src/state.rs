//! The registry state: an immutable name-to-component snapshot and the
//! `Registry` that owns the current one.

use vstd::prelude::*;

verus! {

use crate::component::{Component, ComponentKind, ComponentView};
use crate::{contains_name, unique_names};

/// The mathematical contents of a sequence of components.
pub open spec fn views_of(s: Seq<Component>) -> Seq<ComponentView> {
    s.map_values(|c: Component| c@)
}

/// The predicate selecting components of one kind.
pub open spec fn kind_pred(kind: ComponentKind) -> spec_fn(ComponentView) -> bool {
    |c: ComponentView| c.kind() == kind
}

/// An immutable point-in-time topology: a mapping from name to component,
/// held as a sequence whose entries carry pairwise distinct names. A new
/// snapshot fully replaces the old one; entries are never mutated in place.
pub struct Snapshot {
    entries: Vec<Component>,
}

impl View for Snapshot {
    type V = Seq<ComponentView>;

    closed spec fn view(&self) -> Seq<ComponentView> {
        views_of(self.entries@)
    }
}

impl Snapshot {
    /// Name uniqueness across the whole snapshot, regardless of kind.
    pub open spec fn wf(&self) -> bool {
        unique_names(self@)
    }

    /// The empty topology.
    pub fn new() -> (s: Snapshot)
        ensures
            s@ == Seq::<ComponentView>::empty(),
            s.wf(),
    {
        let s = Snapshot { entries: Vec::new() };
        proof {
            assert(s@ =~= Seq::<ComponentView>::empty());
        }
        s
    }

    /// The number of configured components.
    pub fn len(&self) -> (n: usize)
        ensures
            n == self@.len(),
    {
        self.entries.len()
    }

    /// Adds a component under a name not yet present; the sole way a
    /// snapshot is built.
    pub fn insert(&mut self, c: Component)
        requires
            old(self).wf(),
            !contains_name(old(self)@, c@.name()),
        ensures
            final(self)@ == old(self)@.push(c@),
            final(self).wf(),
    {
        self.entries.push(c);
        proof {
            assert(final(self)@ =~= old(self)@.push(c@));
            assert forall|i: int, j: int|
                0 <= i < final(self)@.len() && 0 <= j < final(self)@.len() && i
                    != j implies final(self)@[i].name() != final(self)@[j].name() by {
                if i < old(self)@.len() && j < old(self)@.len() {
                    assert(old(self)@[i].name() != old(self)@[j].name());
                } else if i < old(self)@.len() {
                    assert(old(self)@[i].name() == final(self)@[i].name());
                } else {
                    assert(old(self)@[j].name() == final(self)@[j].name());
                }
            }
        }
    }

    /// The component at position `i` of this snapshot's stable order.
    pub fn entry(&self, i: usize) -> (c: &Component)
        requires
            i < self@.len(),
        ensures
            c@ == self@[i as int],
    {
        &self.entries[i]
    }

    /// Looks a component up by name in this snapshot.
    pub fn get(&self, name: &String) -> (r: Option<&Component>)
        ensures
            r matches Some(c) ==> self@.contains(c@) && c@.name() == name@,
            r is None <==> !contains_name(self@, name@),
    {
        let n = self.entries.len();
        let mut i: usize = 0;
        while i < n
            invariant
                n == self.entries@.len(),
                i <= n,
                forall|j: int| 0 <= j < i ==> (#[trigger] self@[j].name()) != name@,
            decreases n - i,
        {
            if *self.entries[i].name() == *name {
                proof {
                    assert(self@[i as int] == self.entries@[i as int]@);
                    assert(self@.contains(self@[i as int]));
                }
                return Some(&self.entries[i]);
            }
            proof {
                assert(self@[i as int] == self.entries@[i as int]@);
            }
            i = i + 1;
        }
        proof {
            assert(!contains_name(self@, name@));
        }
        None
    }

    /// True when some component in this snapshot is named `name`.
    pub fn contains(&self, name: &String) -> (r: bool)
        ensures
            r == contains_name(self@, name@),
    {
        self.get(name).is_some()
    }

    /// All components of one kind, in snapshot order: a stable order within
    /// one snapshot, unspecified across snapshots.
    pub fn get_by_kind(&self, kind: ComponentKind) -> (r: Vec<Component>)
        ensures
            views_of(r@) == self@.filter(kind_pred(kind)),
    {
        let n = self.entries.len();
        let mut r: Vec<Component> = Vec::new();
        let mut i: usize = 0;
        proof {
            assert(views_of(r@) =~= self@.take(0).filter(kind_pred(kind)));
            assert(self@.take(0) =~= Seq::<ComponentView>::empty());
            reveal(Seq::filter);
        }
        while i < n
            invariant
                n == self.entries@.len(),
                i <= n,
                views_of(r@) == self@.take(i as int).filter(kind_pred(kind)),
            decreases n - i,
        {
            proof {
                assert(self@.take(i + 1) =~= self@.take(i as int).push(self@[i as int]));
                assert(self@[i as int] == self.entries@[i as int]@);
                self@.take(i as int).lemma_filter_push(self@[i as int], kind_pred(kind));
            }
            let c = &self.entries[i];
            if c.kind() == kind {
                let copy = c.clone();
                let ghost r0 = r@;
                r.push(copy);
                proof {
                    assert(views_of(r@) =~= views_of(r0).push(copy@));
                    assert(copy@ == self@[i as int]);
                }
            }
            i = i + 1;
        }
        proof {
            assert(self@.take(n as int) =~= self@);
        }
        r
    }
}

/// Owns the current topology snapshot. Created empty at process start;
/// replaced wholesale by the single mutator entry point, never entry by
/// entry.
pub struct Registry {
    current: Snapshot,
}

impl View for Registry {
    type V = Seq<ComponentView>;

    closed spec fn view(&self) -> Seq<ComponentView> {
        self.current@
    }
}

impl Registry {
    /// Name uniqueness across the registry.
    pub open spec fn wf(&self) -> bool {
        unique_names(self@)
    }

    /// An empty registry, as at process start.
    pub fn new() -> (r: Registry)
        ensures
            r@ == Seq::<ComponentView>::empty(),
            r.wf(),
    {
        Registry { current: Snapshot::new() }
    }

    /// The current snapshot; reading it never waits on a writer beyond the
    /// borrow itself.
    pub fn snapshot(&self) -> (s: &Snapshot)
        ensures
            s@ == self@,
            s.wf() == self.wf(),
    {
        &self.current
    }

    /// Looks a component up by name in the current snapshot.
    pub fn get(&self, name: &String) -> (r: Option<&Component>)
        ensures
            r matches Some(c) ==> self@.contains(c@) && c@.name() == name@,
            r is None <==> !contains_name(self@, name@),
    {
        self.current.get(name)
    }

    /// All components of one kind in the current snapshot, in snapshot
    /// order.
    pub fn get_by_kind(&self, kind: ComponentKind) -> (r: Vec<Component>)
        ensures
            views_of(r@) == self@.filter(kind_pred(kind)),
    {
        self.current.get_by_kind(kind)
    }

    /// Commits an already-diffed topology: the snapshot pointer swap.
    pub(crate) fn replace(&mut self, s: Snapshot)
        ensures
            final(self)@ == s@,
            final(self).wf() == s.wf(),
    {
        self.current = s;
    }
}

} // verus!
