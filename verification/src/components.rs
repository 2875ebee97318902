use vstd::prelude::*;
use crate::registry::TypeTag;

verus! {

/// The kinds of component that the engine's own entities carry.
#[derive(Debug, Clone, Copy, PartialEq, Eq, Structural)]
pub enum ComponentKind {
    Transform,
    Mesh,
    Light,
    RigidBody,
    Collider,
    Camera,
    Player,
    Outline,
}

/// The type tag of a kind of component.
pub open spec fn tag_of(kind: ComponentKind) -> TypeTag {
    match kind {
        ComponentKind::Transform => 1,
        ComponentKind::Mesh => 2,
        ComponentKind::Light => 3,
        ComponentKind::RigidBody => 4,
        ComponentKind::Collider => 5,
        ComponentKind::Camera => 6,
        ComponentKind::Player => 7,
        ComponentKind::Outline => 8,
    }
}

impl ComponentKind {
    /// The type tag under which components of this kind are attached.
    pub fn tag(self) -> (tag: TypeTag)
        ensures
            tag == tag_of(self),
    {
        match self {
            ComponentKind::Transform => 1,
            ComponentKind::Mesh => 2,
            ComponentKind::Light => 3,
            ComponentKind::RigidBody => 4,
            ComponentKind::Collider => 5,
            ComponentKind::Camera => 6,
            ComponentKind::Player => 7,
            ComponentKind::Outline => 8,
        }
    }
}

/// The type tags of a sequence of kinds.
pub open spec fn tags_of(kinds: Seq<ComponentKind>) -> Seq<TypeTag> {
    kinds.map_values(|kind: ComponentKind| tag_of(kind))
}

/// The type tags of some kinds, in their order.
pub fn tags(kinds: &Vec<ComponentKind>) -> (out: Vec<TypeTag>)
    ensures
        out@ == tags_of(kinds@),
{
    let mut out: Vec<TypeTag> = Vec::new();
    let mut i: usize = 0;
    while i < kinds.len()
        invariant
            i <= kinds@.len(),
            out@ == tags_of(kinds@.subrange(0, i as int)),
        decreases kinds@.len() - i,
    {
        out.push(kinds[i].tag());
        proof {
            assert(out@ =~= tags_of(kinds@.subrange(0, i + 1)));
        }
        i += 1;
    }
    proof {
        assert(kinds@.subrange(0, i as int) =~= kinds@);
    }
    out
}

/// Two kinds of component never share a type tag.
pub proof fn lemma_tags_differ(a: ComponentKind, b: ComponentKind)
    ensures
        tag_of(a) == tag_of(b) <==> a == b,
{
}

/// The shapes a mesh can be made of.
#[derive(Debug, Clone, Copy, PartialEq, Eq, Structural)]
pub enum Primitives {
    Plane,
    Cube,
}

impl Primitives {
    /// How many vertices the renderer draws for this shape.
    pub fn lines(self) -> (n: i32)
        ensures
            n == match self {
                Primitives::Plane => 6i32,
                Primitives::Cube => 36i32,
            },
    {
        match self {
            Primitives::Plane => 6,
            Primitives::Cube => 36,
        }
    }
}

} // verus!
