use vstd::prelude::*;
use crate::components::ComponentKind;
use crate::registry::TypeTag;

verus! {

/// The system that moves the camera of the editor.
#[derive(Debug, Default, Clone, Copy)]
pub struct EditorCamera;

/// The system that copies simulated positions to transforms.
#[derive(Debug, Default, Clone, Copy)]
pub struct Physic;

/// The system that moves the player's body.
#[derive(Debug, Default, Clone, Copy)]
pub struct Player;

/// The system that draws meshes.
#[derive(Debug, Default, Clone, Copy)]
pub struct Renderer;

/// The system that draws the outline of what is selected.
#[derive(Debug, Default, Clone, Copy)]
pub struct Selectable;

/// The kinds of component the editor camera asks for.
pub open spec fn editor_camera_kinds() -> Seq<ComponentKind> {
    seq![ComponentKind::Transform, ComponentKind::Camera]
}

/// The kinds of component the physics system asks for.
pub open spec fn physic_kinds() -> Seq<ComponentKind> {
    seq![ComponentKind::Transform, ComponentKind::RigidBody]
}

/// The kinds of component the player system asks for.
pub open spec fn player_kinds() -> Seq<ComponentKind> {
    seq![ComponentKind::Transform, ComponentKind::RigidBody, ComponentKind::Player]
}

/// The kinds of component the renderer asks for.
pub open spec fn renderer_kinds() -> Seq<ComponentKind> {
    seq![ComponentKind::Mesh, ComponentKind::Transform]
}

/// The kinds of component the outline system asks for.
pub open spec fn selectable_kinds() -> Seq<ComponentKind> {
    seq![ComponentKind::Mesh, ComponentKind::Outline, ComponentKind::Transform]
}

impl EditorCamera {
    /// The type tags an entity must carry for the editor camera to run on it.
    pub fn get_targets(&self) -> (targets: Vec<TypeTag>)
        ensures
            targets@ == crate::components::tags_of(editor_camera_kinds()),
    {
        let targets = vec![ComponentKind::Transform.tag(), ComponentKind::Camera.tag()];
        proof {
            assert(targets@ =~= crate::components::tags_of(editor_camera_kinds()));
        }
        targets
    }
}

impl Physic {
    /// The type tags an entity must carry for the physics system to run on it.
    pub fn get_targets(&self) -> (targets: Vec<TypeTag>)
        ensures
            targets@ == crate::components::tags_of(physic_kinds()),
    {
        let targets = vec![ComponentKind::Transform.tag(), ComponentKind::RigidBody.tag()];
        proof {
            assert(targets@ =~= crate::components::tags_of(physic_kinds()));
        }
        targets
    }
}

impl Player {
    /// The type tags an entity must carry for the player system to run on it.
    pub fn get_targets(&self) -> (targets: Vec<TypeTag>)
        ensures
            targets@ == crate::components::tags_of(player_kinds()),
    {
        let targets = vec![
            ComponentKind::Transform.tag(),
            ComponentKind::RigidBody.tag(),
            ComponentKind::Player.tag(),
        ];
        proof {
            assert(targets@ =~= crate::components::tags_of(player_kinds()));
        }
        targets
    }
}

impl Renderer {
    /// The type tags an entity must carry for the renderer to run on it.
    pub fn get_targets(&self) -> (targets: Vec<TypeTag>)
        ensures
            targets@ == crate::components::tags_of(renderer_kinds()),
    {
        let targets = vec![ComponentKind::Mesh.tag(), ComponentKind::Transform.tag()];
        proof {
            assert(targets@ =~= crate::components::tags_of(renderer_kinds()));
        }
        targets
    }
}

impl Selectable {
    /// The type tags an entity must carry for the outline system to run on it.
    pub fn get_targets(&self) -> (targets: Vec<TypeTag>)
        ensures
            targets@ == crate::components::tags_of(selectable_kinds()),
    {
        let targets = vec![
            ComponentKind::Mesh.tag(),
            ComponentKind::Outline.tag(),
            ComponentKind::Transform.tag(),
        ];
        proof {
            assert(targets@ =~= crate::components::tags_of(selectable_kinds()));
        }
        targets
    }
}

} // verus!
