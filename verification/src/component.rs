//! The component model: the three pipeline-stage kinds, the tagged union over
//! them, and the change event carried by the event bus.
//!
//! Each executable type has a mathematical view (`SourceView`,
//! `ComponentView`, ...) over which every contract in the crate is stated.

use vstd::prelude::*;

verus! {

/// A configured source: a stage with no inputs that emits values of
/// `output_type`.
pub struct Source {
    pub name: String,
    pub component_type: String,
    pub output_type: String,
}

/// A configured transform: consumes the named `inputs`, in declaration order.
pub struct Transform {
    pub name: String,
    pub component_type: String,
    pub inputs: Vec<String>,
}

/// A configured sink: consumes the named `inputs`, in declaration order.
pub struct Sink {
    pub name: String,
    pub component_type: String,
    pub inputs: Vec<String>,
}

/// The kind tag shared by all components.
#[derive(Clone, Copy, PartialEq, Eq, Structural)]
pub enum ComponentKind {
    Source,
    Transform,
    Sink,
}

/// A pipeline stage: the tagged union over the three kinds. Every component
/// carries a name that is unique across the whole registry, regardless of
/// kind.
pub enum Component {
    Source(Source),
    Transform(Transform),
    Sink(Sink),
}

/// A topology change, carrying a full copy of the affected component so that
/// subscribers need no further lookup.
pub enum ComponentChanged {
    Added(Component),
    Removed(Component),
}

/// The mathematical value of a [`Source`].
#[verifier::ext_equal]
pub struct SourceView {
    pub name: Seq<char>,
    pub component_type: Seq<char>,
    pub output_type: Seq<char>,
}

/// The mathematical value of a [`Transform`].
#[verifier::ext_equal]
pub struct TransformView {
    pub name: Seq<char>,
    pub component_type: Seq<char>,
    pub inputs: Seq<Seq<char>>,
}

/// The mathematical value of a [`Sink`].
#[verifier::ext_equal]
pub struct SinkView {
    pub name: Seq<char>,
    pub component_type: Seq<char>,
    pub inputs: Seq<Seq<char>>,
}

/// The mathematical value of a [`Component`].
#[verifier::ext_equal]
pub enum ComponentView {
    Source(SourceView),
    Transform(TransformView),
    Sink(SinkView),
}

/// The mathematical value of a [`ComponentChanged`] event.
#[verifier::ext_equal]
pub enum ComponentChangedView {
    Added(ComponentView),
    Removed(ComponentView),
}

impl View for Source {
    type V = SourceView;

    open spec fn view(&self) -> SourceView {
        SourceView {
            name: self.name@,
            component_type: self.component_type@,
            output_type: self.output_type@,
        }
    }
}

impl View for Transform {
    type V = TransformView;

    open spec fn view(&self) -> TransformView {
        TransformView {
            name: self.name@,
            component_type: self.component_type@,
            inputs: self.inputs.deep_view(),
        }
    }
}

impl View for Sink {
    type V = SinkView;

    open spec fn view(&self) -> SinkView {
        SinkView {
            name: self.name@,
            component_type: self.component_type@,
            inputs: self.inputs.deep_view(),
        }
    }
}

impl View for Component {
    type V = ComponentView;

    open spec fn view(&self) -> ComponentView {
        match self {
            Component::Source(s) => ComponentView::Source(s@),
            Component::Transform(t) => ComponentView::Transform(t@),
            Component::Sink(s) => ComponentView::Sink(s@),
        }
    }
}

impl View for ComponentChanged {
    type V = ComponentChangedView;

    open spec fn view(&self) -> ComponentChangedView {
        match self {
            ComponentChanged::Added(c) => ComponentChangedView::Added(c@),
            ComponentChanged::Removed(c) => ComponentChangedView::Removed(c@),
        }
    }
}

impl ComponentView {
    /// The component's globally unique name.
    pub open spec fn name(&self) -> Seq<char> {
        match self {
            ComponentView::Source(s) => s.name,
            ComponentView::Transform(t) => t.name,
            ComponentView::Sink(s) => s.name,
        }
    }

    /// The kind-specific type tag.
    pub open spec fn component_type(&self) -> Seq<char> {
        match self {
            ComponentView::Source(s) => s.component_type,
            ComponentView::Transform(t) => t.component_type,
            ComponentView::Sink(s) => s.component_type,
        }
    }

    /// The kind tag of this component.
    pub open spec fn kind(&self) -> ComponentKind {
        match self {
            ComponentView::Source(_) => ComponentKind::Source,
            ComponentView::Transform(_) => ComponentKind::Transform,
            ComponentView::Sink(_) => ComponentKind::Sink,
        }
    }
}

impl ComponentChangedView {
    /// The full component the event carries.
    pub open spec fn component(&self) -> ComponentView {
        match self {
            ComponentChangedView::Added(c) => *c,
            ComponentChangedView::Removed(c) => *c,
        }
    }

    /// The name of the component the event is about.
    pub open spec fn name(&self) -> Seq<char> {
        self.component().name()
    }
}

/// Clones a vector of strings, keeping its view: `String::clone` is exact, so
/// the element-wise `cloned` facts collapse to equality.
fn clone_names(v: &Vec<String>) -> (r: Vec<String>)
    ensures
        r@ == v@,
        r.deep_view() == v.deep_view(),
{
    let r = v.clone();
    proof {
        assert forall|i: int| 0 <= i < r@.len() implies r@[i] == v@[i] by {
            assert(cloned::<String>(v@[i], r@[i]));
        }
        assert(r@ =~= v@);
        assert(r.deep_view() =~= v.deep_view());
    }
    r
}

impl Clone for Source {
    fn clone(&self) -> (r: Self)
        ensures
            r@ == self@,
    {
        Source {
            name: self.name.clone(),
            component_type: self.component_type.clone(),
            output_type: self.output_type.clone(),
        }
    }
}

impl Clone for Transform {
    fn clone(&self) -> (r: Self)
        ensures
            r@ == self@,
    {
        Transform {
            name: self.name.clone(),
            component_type: self.component_type.clone(),
            inputs: clone_names(&self.inputs),
        }
    }
}

impl Clone for Sink {
    fn clone(&self) -> (r: Self)
        ensures
            r@ == self@,
    {
        Sink {
            name: self.name.clone(),
            component_type: self.component_type.clone(),
            inputs: clone_names(&self.inputs),
        }
    }
}

impl Clone for Component {
    fn clone(&self) -> (r: Self)
        ensures
            r@ == self@,
    {
        match self {
            Component::Source(s) => Component::Source(s.clone()),
            Component::Transform(t) => Component::Transform(t.clone()),
            Component::Sink(s) => Component::Sink(s.clone()),
        }
    }
}

impl Clone for ComponentChanged {
    fn clone(&self) -> (r: Self)
        ensures
            r@ == self@,
    {
        match self {
            ComponentChanged::Added(c) => ComponentChanged::Added(c.clone()),
            ComponentChanged::Removed(c) => ComponentChanged::Removed(c.clone()),
        }
    }
}

impl Component {
    /// The component's globally unique name.
    pub fn name(&self) -> (r: &String)
        ensures
            r@ == self@.name(),
    {
        match self {
            Component::Source(s) => &s.name,
            Component::Transform(t) => &t.name,
            Component::Sink(s) => &s.name,
        }
    }

    /// The kind-specific type tag.
    pub fn component_type(&self) -> (r: &String)
        ensures
            r@ == self@.component_type(),
    {
        match self {
            Component::Source(s) => &s.component_type,
            Component::Transform(t) => &t.component_type,
            Component::Sink(s) => &s.component_type,
        }
    }

    /// The kind tag of this component.
    pub fn kind(&self) -> (k: ComponentKind)
        ensures
            k == self@.kind(),
    {
        match self {
            Component::Source(_) => ComponentKind::Source,
            Component::Transform(_) => ComponentKind::Transform,
            Component::Sink(_) => ComponentKind::Sink,
        }
    }
}

} // verus!
