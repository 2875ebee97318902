use vstd::prelude::*;
use vstd::string::StringExecFns;
use crate::components::{ComponentKind, Primitives};
use crate::entity::EntityType;

verus! {

/// Where the scene files are.
pub const SCENE_PATH: &'static str = "assets/scenes/";

/// Where the shader files are.
pub const SHADER_PATH: &'static str = "assets/shaders/";

/// Where the texture files are.
pub const TEXTURE_PATH: &'static str = "assets/textures/";

/// The file of a name under a directory: the two put together.
pub fn file_under(directory: &str, name: &str) -> (path: String)
    ensures
        path@ == directory@ + name@,
{
    let path = String::from_str(directory);
    path.concat(name)
}

/// One record of a scene description, as far as loading decides by it: the
/// entity's identifier and, for the records that are drawn with a texture,
/// the texture's name (empty for none).
#[derive(Debug)]
pub enum Elements {
    Camera(EntityType),
    Cube(EntityType, String),
    Plane(EntityType, String),
    LightSource(EntityType),
    Player(EntityType, String),
}

/// The kind of a record.
#[derive(Debug, Clone, Copy, PartialEq, Eq, Structural)]
pub enum ElementKind {
    Camera,
    Cube,
    Plane,
    LightSource,
    Player,
}

/// How the simulation treats a body.
#[derive(Debug, Clone, Copy, PartialEq, Eq, Structural)]
pub enum BodyKind {
    Dynamic,
    Kinematic,
}

/// The entity to make of one record.
#[derive(Debug, Clone, Copy, PartialEq, Eq, Structural)]
pub struct Spawn {
    /// The place of the record in the scene description.
    pub record: usize,
    /// The entity's identifier.
    pub id: EntityType,
    pub kind: ElementKind,
    /// Whether the record names a texture, to be registered and sent to the
    /// renderer before the mesh is attached.
    pub textured: bool,
}

impl Elements {
    /// The kind of the record.
    pub open spec fn spec_kind(self) -> ElementKind {
        match self {
            Elements::Camera(_) => ElementKind::Camera,
            Elements::Cube(_, _) => ElementKind::Cube,
            Elements::Plane(_, _) => ElementKind::Plane,
            Elements::LightSource(_) => ElementKind::LightSource,
            Elements::Player(_, _) => ElementKind::Player,
        }
    }

    /// The identifier the record gives its entity.
    pub open spec fn spec_id(self) -> EntityType {
        match self {
            Elements::Camera(id) => id,
            Elements::Cube(id, _) => id,
            Elements::Plane(id, _) => id,
            Elements::LightSource(id) => id,
            Elements::Player(id, _) => id,
        }
    }

    /// Whether the record names a texture.
    pub open spec fn spec_textured(self) -> bool {
        match self {
            Elements::Cube(_, texture) => texture@.len() > 0,
            Elements::Plane(_, texture) => texture@.len() > 0,
            Elements::Player(_, texture) => texture@.len() > 0,
            Elements::Camera(_) => false,
            Elements::LightSource(_) => false,
        }
    }

    /// The kind of the record.
    pub fn kind(&self) -> (kind: ElementKind)
        ensures
            kind == self.spec_kind(),
    {
        match self {
            Elements::Camera(_) => ElementKind::Camera,
            Elements::Cube(_, _) => ElementKind::Cube,
            Elements::Plane(_, _) => ElementKind::Plane,
            Elements::LightSource(_) => ElementKind::LightSource,
            Elements::Player(_, _) => ElementKind::Player,
        }
    }

    /// The identifier the record gives its entity.
    pub fn id(&self) -> (id: EntityType)
        ensures
            id == self.spec_id(),
    {
        match self {
            Elements::Camera(id) => *id,
            Elements::Cube(id, _) => *id,
            Elements::Plane(id, _) => *id,
            Elements::LightSource(id) => *id,
            Elements::Player(id, _) => *id,
        }
    }

    /// Whether the record names a texture.
    pub fn textured(&self) -> (b: bool)
        ensures
            b == self.spec_textured(),
    {
        match self {
            Elements::Cube(_, texture) => !texture.as_str().is_empty(),
            Elements::Plane(_, texture) => !texture.as_str().is_empty(),
            Elements::Player(_, texture) => !texture.as_str().is_empty(),
            Elements::Camera(_) => false,
            Elements::LightSource(_) => false,
        }
    }
}

/// The kinds of component an entity of a kind of record gets, in the order
/// of attachment.
pub open spec fn kinds_of(kind: ElementKind) -> Seq<ComponentKind> {
    match kind {
        ElementKind::Camera => seq![ComponentKind::Transform, ComponentKind::Camera],
        ElementKind::Cube => seq![
            ComponentKind::Transform,
            ComponentKind::RigidBody,
            ComponentKind::Mesh,
        ],
        ElementKind::Plane => seq![
            ComponentKind::Collider,
            ComponentKind::Transform,
            ComponentKind::Mesh,
        ],
        ElementKind::LightSource => seq![
            ComponentKind::Transform,
            ComponentKind::Light,
            ComponentKind::Mesh,
        ],
        ElementKind::Player => seq![
            ComponentKind::Transform,
            ComponentKind::RigidBody,
            ComponentKind::Player,
            ComponentKind::Mesh,
        ],
    }
}

impl ElementKind {
    /// The kinds of component an entity of this kind of record gets, in the
    /// order of attachment.
    pub fn components(self) -> (kinds: Vec<ComponentKind>)
        ensures
            kinds@ == kinds_of(self),
    {
        let kinds = match self {
            ElementKind::Camera => vec![ComponentKind::Transform, ComponentKind::Camera],
            ElementKind::Cube => vec![
                ComponentKind::Transform,
                ComponentKind::RigidBody,
                ComponentKind::Mesh,
            ],
            ElementKind::Plane => vec![
                ComponentKind::Collider,
                ComponentKind::Transform,
                ComponentKind::Mesh,
            ],
            ElementKind::LightSource => vec![
                ComponentKind::Transform,
                ComponentKind::Light,
                ComponentKind::Mesh,
            ],
            ElementKind::Player => vec![
                ComponentKind::Transform,
                ComponentKind::RigidBody,
                ComponentKind::Player,
                ComponentKind::Mesh,
            ],
        };
        proof {
            assert(kinds@ =~= kinds_of(self));
        }
        kinds
    }

    /// The shape of the mesh; a camera has none.
    pub fn primitive(self) -> (shape: Option<Primitives>)
        ensures
            shape == match self {
                ElementKind::Camera => None,
                ElementKind::Plane => Some(Primitives::Plane),
                ElementKind::Cube => Some(Primitives::Cube),
                ElementKind::LightSource => Some(Primitives::Cube),
                ElementKind::Player => Some(Primitives::Cube),
            },
    {
        match self {
            ElementKind::Camera => None,
            ElementKind::Plane => Some(Primitives::Plane),
            ElementKind::Cube => Some(Primitives::Cube),
            ElementKind::LightSource => Some(Primitives::Cube),
            ElementKind::Player => Some(Primitives::Cube),
        }
    }

    /// The name of the shader the mesh is drawn with; a camera has no mesh.
    pub fn shader(self) -> (name: Option<&'static str>)
        ensures
            match self {
                ElementKind::Camera => name is None,
                ElementKind::LightSource => name is Some && name->0@ == "light"@,
                _ => name is Some && name->0@ == "default_material"@,
            },
    {
        match self {
            ElementKind::Camera => None,
            ElementKind::LightSource => Some("light"),
            _ => Some("default_material"),
        }
    }

    /// How the simulation treats the body; only cubes and players have one.
    pub fn body(self) -> (body: Option<BodyKind>)
        ensures
            body == match self {
                ElementKind::Cube => Some(BodyKind::Dynamic),
                ElementKind::Player => Some(BodyKind::Kinematic),
                _ => None,
            },
    {
        match self {
            ElementKind::Cube => Some(BodyKind::Dynamic),
            ElementKind::Player => Some(BodyKind::Kinematic),
            _ => None,
        }
    }
}

/// Whether a record is honoured: a camera only on the first load.
pub open spec fn honoured(record: Elements, first_load: bool) -> bool {
    record.spec_kind() == ElementKind::Camera ==> first_load
}

/// The entity to make of the record at a place.
pub open spec fn spawn_of(record: Elements, place: int) -> Spawn {
    Spawn {
        record: place as usize,
        id: record.spec_id(),
        kind: record.spec_kind(),
        textured: record.spec_textured(),
    }
}

/// The entities to make of a scene description: one for each record that is
/// honoured, in the order of the records.
pub open spec fn plan(items: Seq<Elements>, first_load: bool) -> Seq<Spawn>
    decreases items.len(),
{
    if items.len() == 0 {
        Seq::empty()
    } else if honoured(items.last(), first_load) {
        plan(items.drop_last(), first_load).push(spawn_of(items.last(), items.len() - 1))
    } else {
        plan(items.drop_last(), first_load)
    }
}

/// What loads scenes: the name of the current scene, and whether no scene
/// has been loaded yet.
pub struct SceneLoader {
    current: Option<String>,
    first_load: bool,
}

impl SceneLoader {
    /// The name of the current scene.
    pub closed spec fn scene(self) -> Option<Seq<char>> {
        match self.current {
            Some(name) => Some(name@),
            None => None,
        }
    }

    /// Whether no scene has been loaded yet.
    pub closed spec fn first_load(self) -> bool {
        self.first_load
    }

    /// A loader without a scene, before its first load.
    pub fn new() -> (loader: Self)
        ensures
            loader.scene() is None,
            loader.first_load(),
    {
        SceneLoader { current: None, first_load: true }
    }

    /// Makes `path` the current scene.
    pub fn set_scene(&mut self, path: &str)
        ensures
            final(self).scene() == Some(path@),
            final(self).first_load() == old(self).first_load(),
    {
        self.current = Some(path.to_owned());
    }

    /// The file of the current scene, where there is one.
    pub fn scene_file(&self) -> (file: Option<String>)
        ensures
            match file {
                Some(path) => self.scene() is Some && path@ == SCENE_PATH@ + self.scene()->0,
                None => self.scene() is None,
            },
    {
        match &self.current {
            Some(name) => Some(file_under(SCENE_PATH, name.as_str())),
            None => None,
        }
    }

    /// Whether no scene has been loaded yet.
    pub fn is_first_load(&self) -> (b: bool)
        ensures
            b == self.first_load(),
    {
        self.first_load
    }

    /// Decides what to make of a scene description: an entity for each
    /// record in order, but for a camera only on the first load. After it
    /// the first load is over.
    pub fn load_scene(&mut self, items: &Vec<Elements>) -> (spawns: Vec<Spawn>)
        ensures
            spawns@ == plan(items@, old(self).first_load()),
            !final(self).first_load(),
            final(self).scene() == old(self).scene(),
    {
        let mut spawns: Vec<Spawn> = Vec::new();
        let mut i: usize = 0;
        while i < items.len()
            invariant
                i <= items@.len(),
                *self == *old(self),
                spawns@ == plan(items@.subrange(0, i as int), self.first_load),
            decreases items@.len() - i,
        {
            proof {
                let next = items@.subrange(0, i + 1);
                assert(next.drop_last() =~= items@.subrange(0, i as int));
                assert(next.last() == items@[i as int]);
            }
            let record = &items[i];
            let kind = record.kind();
            if kind != ElementKind::Camera || self.first_load {
                spawns.push(Spawn { record: i, id: record.id(), kind, textured: record.textured() });
            }
            i += 1;
        }
        proof {
            assert(items@.subrange(0, i as int) =~= items@);
        }
        self.first_load = false;
        spawns
    }
}

/// Every record that is no camera is honoured on every load, and a camera
/// on the first load only.
pub proof fn lemma_camera_latch(record: Elements)
    ensures
        honoured(record, true),
        honoured(record, false) <==> record.spec_kind() != ElementKind::Camera,
{
}

/// The plan keeps the order of the records: each entry is made of the
/// honoured record whose place it names, and the places go up.
pub proof fn lemma_plan_in_order(items: Seq<Elements>, first_load: bool, k: int)
    requires
        items.len() <= usize::MAX,
        0 <= k < plan(items, first_load).len(),
    ensures
        0 <= plan(items, first_load)[k].record < items.len(),
        plan(items, first_load)[k] == spawn_of(
            items[plan(items, first_load)[k].record as int],
            plan(items, first_load)[k].record as int,
        ),
        honoured(items[plan(items, first_load)[k].record as int], first_load),
        forall|j: int|
            0 <= j < k ==> (#[trigger] plan(items, first_load)[j]).record < plan(
                items,
                first_load,
            )[k].record,
    decreases items.len(),
{
    if items.len() > 0 {
        let front = items.drop_last();
        let rest = plan(front, first_load);
        let whole = plan(items, first_load);
        lemma_plan_bounds(front, first_load);
        if k < rest.len() {
            lemma_plan_in_order(front, first_load, k);
            assert(whole[k] == rest[k]);
            assert(front[rest[k].record as int] == items[rest[k].record as int]);
            assert forall|j: int| 0 <= j < k implies (#[trigger] whole[j]).record
                < whole[k].record by {
                assert(whole[j] == rest[j]);
            }
        } else {
            assert(honoured(items.last(), first_load));
            assert(whole[k] == spawn_of(items.last(), items.len() - 1));
            assert forall|j: int| 0 <= j < k implies (#[trigger] whole[j]).record
                < whole[k].record by {
                lemma_plan_in_order(front, first_load, j);
                assert(whole[j] == rest[j]);
            }
        }
    }
}

/// The plan has no more entries than the scene has records.
pub proof fn lemma_plan_bounds(items: Seq<Elements>, first_load: bool)
    ensures
        plan(items, first_load).len() <= items.len(),
        first_load ==> plan(items, first_load).len() == items.len(),
    decreases items.len(),
{
    if items.len() > 0 {
        lemma_plan_bounds(items.drop_last(), first_load);
    }
}

} // verus!
