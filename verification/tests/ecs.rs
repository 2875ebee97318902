use game_engine::entity::{Entity, EntityCounter};
use game_engine::error::EngineError;
use game_engine::registry::{AnyMap, TypeTag};
use game_engine::world::{should_process, System, World};

#[derive(Debug, PartialEq)]
struct CompA {
    foo: bool,
}

#[derive(Debug, PartialEq)]
struct CompB {
    bar: bool,
}

#[derive(Debug, PartialEq)]
enum Comp {
    A(CompA),
    B(CompB),
    Transform(i32),
    Light(u8),
}

const COMP_A: TypeTag = 1;
const COMP_B: TypeTag = 2;
const TRANSFORM: TypeTag = 10;
const LIGHT: TypeTag = 11;

#[test]
fn should_add_entity() {
    let mut counter = EntityCounter::new();
    let mut world: World<Comp, ()> = World::new();

    let comp_a = CompA { foo: true };
    world.add_entity(Entity::new(&mut counter).with(COMP_A, Comp::A(comp_a)));
    assert_eq!(world.entities_len(), 1);

    let comp_a = CompA { foo: true };
    let comp_b = CompB { bar: false };
    world.add_entity(
        Entity::new(&mut counter)
            .with(COMP_A, Comp::A(comp_a))
            .with(COMP_B, Comp::B(comp_b)),
    );
    assert_eq!(world.entities_len(), 2);
}

struct SystemA;

impl System<Comp, ()> for SystemA {
    fn get_targets(&self) -> Vec<TypeTag> {
        vec![]
    }

    fn process(&self, _entity: &mut Entity<Comp>, _state: &mut ()) {}
}

struct SystemB;

impl System<Comp, ()> for SystemB {
    fn get_targets(&self) -> Vec<TypeTag> {
        vec![]
    }

    fn process(&self, _entity: &mut Entity<Comp>, _state: &mut ()) {}
}

#[test]
fn should_add_system() {
    let mut world: World<Comp, ()> = World::new();

    world.add_system(Box::new(SystemA));
    assert_eq!(world.systems_len(), 1);
    world.add_system(Box::new(SystemB));
    assert_eq!(world.systems_len(), 2);
}

struct Flipper;

impl System<Comp, u32> for Flipper {
    fn get_targets(&self) -> Vec<TypeTag> {
        vec![COMP_A]
    }

    fn process(&self, entity: &mut Entity<Comp>, state: &mut u32) {
        *state += 1;
        match entity.get_mut(COMP_A).unwrap() {
            Comp::A(c) => {
                assert_eq!(c.foo, true);
                c.foo = false;
                assert_ne!(c.foo, true);
            }
            _ => panic!("another kind under the tag of CompA"),
        }
    }
}

#[test]
fn should_run_system() {
    let mut counter = EntityCounter::new();
    let mut world: World<Comp, u32> = World::new();

    let comp_a = CompA { foo: true };
    world.add_entity(Entity::new(&mut counter).with(COMP_A, Comp::A(comp_a)));

    world.add_system(Box::new(Flipper));
    let mut calls = 0u32;
    world.run(&mut calls);
    assert_eq!(calls, 1);
}

#[test]
fn registry_insert_get_overwrite_remove() {
    let mut map: AnyMap<i32> = AnyMap::new();
    assert_eq!(map.get(COMP_A), Err(EngineError::ComponentNotFound));
    assert_eq!(map.get_opt(COMP_A), None);
    map.insert(COMP_A, 5);
    map.insert(COMP_B, 7);
    assert_eq!(map.get(COMP_A), Ok(&5));
    assert_eq!(map.get_opt(COMP_B), Some(&7));
    map.insert(COMP_A, 6);
    assert_eq!(map.get(COMP_A), Ok(&6));
    assert_eq!(map.types(), vec![COMP_A, COMP_B]);
    *map.get_mut(COMP_B).unwrap() = 70;
    assert_eq!(map.get(COMP_B), Ok(&70));
    assert_eq!(map.get_mut(LIGHT), Err(EngineError::ComponentNotFound));
    assert_eq!(map.remove(COMP_A), Ok(()));
    assert_eq!(map.get(COMP_A), Err(EngineError::ComponentNotFound));
    assert_eq!(map.get(COMP_B), Ok(&70));
    assert_eq!(map.remove(COMP_A), Err(EngineError::ComponentNotFound));
    assert_eq!(map.types(), vec![COMP_B]);
}

#[test]
fn with_then_get_returns_the_component() {
    let mut counter = EntityCounter::new();
    let entity = Entity::new(&mut counter).with(TRANSFORM, Comp::Transform(3));
    assert_eq!(entity.get(TRANSFORM), Ok(&Comp::Transform(3)));
    assert_eq!(entity.get_opt(LIGHT), None);
    assert_eq!(entity.get(LIGHT), Err(EngineError::ComponentNotFound));
    let entity = entity.with(TRANSFORM, Comp::Transform(4));
    assert_eq!(entity.get(TRANSFORM), Ok(&Comp::Transform(4)));
    assert_eq!(entity.get_all_types(), vec![TRANSFORM]);
}

#[test]
fn entity_remove_detaches_one_component() {
    let mut counter = EntityCounter::new();
    let entity = Entity::new(&mut counter)
        .with(TRANSFORM, Comp::Transform(1))
        .with(LIGHT, Comp::Light(2));
    let entity = entity.remove(TRANSFORM).ok().unwrap();
    assert_eq!(entity.get_opt(TRANSFORM), None);
    assert_eq!(entity.get(LIGHT), Ok(&Comp::Light(2)));
    assert!(matches!(entity.remove(TRANSFORM), Err(EngineError::ComponentNotFound)));
}

#[test]
fn fresh_ids_count_up_from_one() {
    let mut counter = EntityCounter::new();
    let a: Entity<Comp> = Entity::new(&mut counter);
    let b: Entity<Comp> = Entity::new(&mut counter);
    assert_eq!(a.id, 1);
    assert_eq!(b.id, 2);
    assert_eq!(counter.current(), 2);
}

#[test]
fn id_after_from_file_is_above() {
    let mut counter = EntityCounter::new();
    let loaded: Entity<Comp> = Entity::from_file(100, &mut counter);
    assert_eq!(loaded.id, 100);
    assert_eq!(counter.current(), 100);
    let fresh: Entity<Comp> = Entity::new(&mut counter);
    assert!(fresh.id > 100);
    assert_eq!(fresh.id, 101);
}

#[test]
fn from_file_moves_the_counter_by_the_id() {
    let mut counter = EntityCounter::new();
    let _: Entity<Comp> = Entity::from_file(1, &mut counter);
    assert_eq!(counter.current(), 1);
    let _: Entity<Comp> = Entity::from_file(2, &mut counter);
    assert_eq!(counter.current(), 3);
    let _: Entity<Comp> = Entity::from_file(3, &mut counter);
    assert_eq!(counter.current(), 3);
    let _: Entity<Comp> = Entity::from_file(2, &mut counter);
    assert_eq!(counter.current(), 3);
}

struct Recorder {
    name: char,
    targets: Vec<TypeTag>,
}

impl System<Comp, Vec<(char, usize)>> for Recorder {
    fn get_targets(&self) -> Vec<TypeTag> {
        self.targets.clone()
    }

    fn process(&self, entity: &mut Entity<Comp>, state: &mut Vec<(char, usize)>) {
        state.push((self.name, entity.id));
    }
}

#[test]
fn systems_run_in_registration_order_on_matching_entities() {
    let mut counter = EntityCounter::new();
    let mut world: World<Comp, Vec<(char, usize)>> = World::new();
    world.add_system(Box::new(Recorder { name: 'A', targets: vec![TRANSFORM] }));
    world.add_system(Box::new(Recorder { name: 'B', targets: vec![TRANSFORM, LIGHT] }));
    world.add_entity(
        Entity::new(&mut counter)
            .with(TRANSFORM, Comp::Transform(0))
            .with(LIGHT, Comp::Light(0)),
    );
    world.add_entity(Entity::new(&mut counter).with(TRANSFORM, Comp::Transform(0)));
    world.add_entity(Entity::new(&mut counter).with(LIGHT, Comp::Light(0)));
    let mut log = Vec::new();
    world.run(&mut log);
    assert_eq!(log, vec![('A', 1), ('B', 1), ('A', 2)]);
}

#[test]
fn system_with_unmet_target_never_fires() {
    let mut counter = EntityCounter::new();
    let mut world: World<Comp, Vec<(char, usize)>> = World::new();
    world.add_system(Box::new(Recorder { name: 'C', targets: vec![COMP_B] }));
    world.add_entity(Entity::new(&mut counter).with(COMP_A, Comp::A(CompA { foo: true })));
    let mut log = Vec::new();
    world.run(&mut log);
    assert!(log.is_empty());
    assert_eq!(world.entities_len(), 1);
}

#[test]
fn system_without_targets_runs_on_every_entity() {
    let mut counter = EntityCounter::new();
    let mut world: World<Comp, Vec<(char, usize)>> = World::new();
    world.add_system(Box::new(Recorder { name: 'E', targets: vec![] }));
    world.add_entity(Entity::new(&mut counter));
    world.add_entity(Entity::new(&mut counter).with(LIGHT, Comp::Light(1)));
    let mut log = Vec::new();
    world.run(&mut log);
    assert_eq!(log, vec![('E', 1), ('E', 2)]);
}

#[test]
fn should_process_is_subset() {
    assert!(should_process(&vec![], &vec![]));
    assert!(should_process(&vec![], &vec![1, 2]));
    assert!(should_process(&vec![2, 1], &vec![1, 2, 3]));
    assert!(should_process(&vec![2, 2], &vec![2]));
    assert!(!should_process(&vec![1, 4], &vec![1, 2, 3]));
    assert!(!should_process(&vec![1], &vec![]));
}

struct Ids;

impl System<Comp, Vec<(usize, Vec<TypeTag>)>> for Ids {
    fn get_targets(&self) -> Vec<TypeTag> {
        vec![]
    }

    fn process(&self, entity: &mut Entity<Comp>, state: &mut Vec<(usize, Vec<TypeTag>)>) {
        state.push((entity.id, entity.get_all_types()));
    }
}

fn snapshot(world: &mut World<Comp, Vec<(usize, Vec<TypeTag>)>>) -> Vec<(usize, Vec<TypeTag>)> {
    let mut seen = Vec::new();
    world.run(&mut seen);
    seen
}

#[test]
fn load_replaces_in_place_and_appends_new() {
    let mut counter = EntityCounter::new();
    let mut world: World<Comp, Vec<(usize, Vec<TypeTag>)>> = World::new();
    world.add_system(Box::new(Ids));
    world.load_entities(vec![
        Entity::from_file(1, &mut counter).with(TRANSFORM, Comp::Transform(1)),
        Entity::from_file(2, &mut counter).with(TRANSFORM, Comp::Transform(2)),
        Entity::from_file(3, &mut counter).with(TRANSFORM, Comp::Transform(3)),
    ]);
    assert_eq!(world.entities_len(), 3);
    assert_eq!(
        snapshot(&mut world),
        vec![(1, vec![TRANSFORM]), (2, vec![TRANSFORM]), (3, vec![TRANSFORM])]
    );

    world.load_entities(vec![
        Entity::from_file(2, &mut counter).with(LIGHT, Comp::Light(9)),
        Entity::from_file(7, &mut counter).with(COMP_A, Comp::A(CompA { foo: false })),
    ]);
    assert_eq!(world.entities_len(), 4);
    assert_eq!(
        snapshot(&mut world),
        vec![(1, vec![TRANSFORM]), (2, vec![LIGHT]), (3, vec![TRANSFORM]), (7, vec![COMP_A])]
    );
}

#[test]
fn load_of_an_empty_batch_changes_nothing() {
    let mut counter = EntityCounter::new();
    let mut world: World<Comp, Vec<(usize, Vec<TypeTag>)>> = World::new();
    world.add_system(Box::new(Ids));
    world.add_entity(Entity::new(&mut counter));
    world.load_entities(vec![]);
    assert_eq!(snapshot(&mut world), vec![(1, vec![])]);
}

#[test]
fn load_twice_the_same_new_id_keeps_the_later() {
    let mut counter = EntityCounter::new();
    let mut world: World<Comp, Vec<(usize, Vec<TypeTag>)>> = World::new();
    world.add_system(Box::new(Ids));
    world.load_entities(vec![
        Entity::from_file(5, &mut counter).with(TRANSFORM, Comp::Transform(1)),
        Entity::from_file(5, &mut counter).with(LIGHT, Comp::Light(1)),
    ]);
    assert_eq!(snapshot(&mut world), vec![(5, vec![LIGHT])]);
}

#[test]
fn default_world_entity_and_registry_are_empty() {
    let world: World<Comp, ()> = World::default();
    assert_eq!(world.entities_len(), 0);
    assert_eq!(world.systems_len(), 0);
    let entity: Entity<Comp> = Entity::default();
    assert_eq!(entity.id, 0);
    assert!(entity.get_all_types().is_empty());
    let map: AnyMap<u8> = AnyMap::default();
    assert_eq!(map.get_opt(COMP_A), None);
}
