use vstd::prelude::*;
use crate::entity::{Entity, EntityType};
use crate::registry::TypeTag;

verus! {

/// A unit of behaviour that the world runs on every entity that carries all
/// the component types it asks for.
///
/// `targets` names the set of types asked for and `processed` the changes one
/// call of `process` may make; the world's contracts are stated over them.
/// An implementation written outside the verifier is taken at its word: that
/// `get_targets` returns what `targets` says, and that `process` stays within
/// `processed`.
pub trait System<C, S> {
    /// The component types an entity must carry for this system to run on it.
    /// Unless an implementation says which, nothing is known of them.
    open spec fn targets(&self) -> Seq<TypeTag> {
        arbitrary()
    }

    /// Whether one call of `process` may turn the entity `before` and the
    /// shared state `state_before` into `after` and `state_after`. Unless an
    /// implementation says less, a call may make any change.
    open spec fn processed(
        &self,
        before: Entity<C>,
        state_before: S,
        after: Entity<C>,
        state_after: S,
    ) -> bool {
        true
    }

    /// The component types an entity must carry for this system to run on it.
    fn get_targets(&self) -> (targets: Vec<TypeTag>)
        ensures
            targets@ == self.targets(),
    ;

    /// Acts on one entity that carries all the targets, with the state
    /// that all systems share.
    fn process(&self, entity: &mut Entity<C>, state: &mut S)
        ensures
            self.processed(*old(entity), *old(state), *final(entity), *final(state)),
    ;
}

/// A system as the world keeps it.
#[verifier::reject_recursive_types(C)]
#[verifier::reject_recursive_types(S)]
pub struct Registered<C, S> {
    pub system: Box<dyn System<C, S>>,
}

/// The entities in processing order and the systems in dispatch order.
#[verifier::reject_recursive_types(C)]
#[verifier::reject_recursive_types(S)]
pub struct World<C, S> {
    entities: Vec<Entity<C>>,
    systems: Vec<Registered<C, S>>,
}

/// Whether some entity of the sequence has the identifier `id`.
pub open spec fn holds_id<C>(entities: Seq<Entity<C>>, id: EntityType) -> bool {
    exists|i: int| 0 <= i < entities.len() && entities[i].id == id
}

/// Whether `i` is the first place in the sequence with the identifier `id`.
pub open spec fn is_first_with_id<C>(entities: Seq<Entity<C>>, id: EntityType, i: int) -> bool {
    &&& 0 <= i < entities.len()
    &&& entities[i].id == id
    &&& forall|j: int| 0 <= j < i ==> entities[j].id != id
}

/// The first place in the sequence with the identifier `id`.
pub open spec fn first_with_id<C>(entities: Seq<Entity<C>>, id: EntityType) -> int {
    choose|i: int| is_first_with_id(entities, id, i)
}

/// One entity loaded: it takes the place of the first entity with its
/// identifier, or the end of the sequence where there is none.
pub open spec fn upsert<C>(entities: Seq<Entity<C>>, entity: Entity<C>) -> Seq<Entity<C>> {
    if holds_id(entities, entity.id) {
        entities.update(first_with_id(entities, entity.id), entity)
    } else {
        entities.push(entity)
    }
}

/// A batch loaded, one entity after the other.
pub open spec fn load<C>(entities: Seq<Entity<C>>, batch: Seq<Entity<C>>) -> Seq<Entity<C>>
    decreases batch.len(),
{
    if batch.len() == 0 {
        entities
    } else {
        upsert(load(entities, batch.drop_last()), batch.last())
    }
}

/// Whether an entity carries every type of `targets`.
pub open spec fn carries_all<C>(entity: Entity<C>, targets: Seq<TypeTag>) -> bool {
    forall|k: int| 0 <= k < targets.len() ==> entity.components().dom().contains(targets[k])
}

/// One system met with one entity: the system processes the entity if the
/// entity carries all the system's targets, and nothing happens otherwise.
pub open spec fn step<C, S>(
    system: Registered<C, S>,
    before: Entity<C>,
    state_before: S,
    after: Entity<C>,
    state_after: S,
) -> bool {
    if carries_all(before, system.system.targets()) {
        system.system.processed(before, state_before, after, state_after)
    } else {
        after == before && state_after == state_before
    }
}

/// Whether `entities` and `states` record one entity met with all the
/// systems in dispatch order: they start at `before` and `state_before`, and
/// each system takes one entry to the next by `step`.
pub open spec fn pass_trace<C, S>(
    systems: Seq<Registered<C, S>>,
    before: Entity<C>,
    state_before: S,
    entities: Seq<Entity<C>>,
    states: Seq<S>,
) -> bool {
    &&& entities.len() == systems.len() + 1
    &&& states.len() == systems.len() + 1
    &&& entities[0] == before
    &&& states[0] == state_before
    &&& forall|j: int|
        #![trigger systems[j]]
        0 <= j < systems.len() ==> step(
            systems[j],
            entities[j],
            states[j],
            entities[j + 1],
            states[j + 1],
        )
}

/// One entity met with all the systems in dispatch order.
pub open spec fn pass<C, S>(
    systems: Seq<Registered<C, S>>,
    before: Entity<C>,
    state_before: S,
    after: Entity<C>,
    state_after: S,
) -> bool {
    exists|entities: Seq<Entity<C>>, states: Seq<S>|
        #[trigger] pass_trace(systems, before, state_before, entities, states) && entities.last()
            == after && states.last() == state_after
}

/// Whether `states` records the shared state between the entities of one
/// frame: it starts at `state_before`, and each entity, met with all the
/// systems, takes one entry to the next.
pub open spec fn sweep_trace<C, S>(
    systems: Seq<Registered<C, S>>,
    before: Seq<Entity<C>>,
    state_before: S,
    after: Seq<Entity<C>>,
    states: Seq<S>,
) -> bool {
    &&& after.len() == before.len()
    &&& states.len() == before.len() + 1
    &&& states[0] == state_before
    &&& forall|i: int|
        #![trigger before[i]]
        0 <= i < before.len() ==> pass(systems, before[i], states[i], after[i], states[i + 1])
}

/// One frame: every entity in processing order met with all the systems.
pub open spec fn sweep<C, S>(
    systems: Seq<Registered<C, S>>,
    before: Seq<Entity<C>>,
    state_before: S,
    after: Seq<Entity<C>>,
    state_after: S,
) -> bool {
    exists|states: Seq<S>|
        #[trigger] sweep_trace(systems, before, state_before, after, states) && states.last()
            == state_after
}

/// Whether every target occurs among the types.
pub fn should_process(targets: &Vec<TypeTag>, types: &Vec<TypeTag>) -> (b: bool)
    ensures
        b <==> forall|k: int| 0 <= k < targets@.len() ==> types@.contains(targets@[k]),
{
    let mut k: usize = 0;
    while k < targets.len()
        invariant
            k <= targets@.len(),
            forall|a: int| 0 <= a < k ==> types@.contains(targets@[a]),
        decreases targets@.len() - k,
    {
        let target = targets[k];
        let mut found = false;
        let mut m: usize = 0;
        while m < types.len()
            invariant
                m <= types@.len(),
                found <==> exists|a: int| 0 <= a < m && types@[a] == target,
            decreases types@.len() - m,
        {
            if types[m] == target {
                found = true;
            }
            m += 1;
        }
        if !found {
            assert(!types@.contains(targets@[k as int]));
            return false;
        }
        k += 1;
    }
    true
}

impl<C, S> World<C, S> {
    /// The entities, in processing order.
    pub closed spec fn entity_seq(self) -> Seq<Entity<C>> {
        self.entities@
    }

    /// The systems, in dispatch order.
    pub closed spec fn system_seq(self) -> Seq<Registered<C, S>> {
        self.systems@
    }

    /// A world without entities and without systems.
    pub fn new() -> (w: Self)
        ensures
            w.entity_seq() == Seq::<Entity<C>>::empty(),
            w.system_seq() == Seq::<Registered<C, S>>::empty(),
    {
        World { entities: Vec::new(), systems: Vec::new() }
    }

    /// Puts `entity` behind the entities that are there.
    pub fn add_entity(&mut self, entity: Entity<C>)
        ensures
            final(self).entity_seq() == old(self).entity_seq().push(entity),
            final(self).system_seq() == old(self).system_seq(),
    {
        self.entities.push(entity);
    }

    fn position(&self, id: EntityType) -> (r: Option<usize>)
        ensures
            match r {
                Some(i) => is_first_with_id(self.entities@, id, i as int),
                None => !holds_id(self.entities@, id),
            },
    {
        let mut i: usize = 0;
        while i < self.entities.len()
            invariant
                i <= self.entities@.len(),
                forall|j: int| 0 <= j < i ==> self.entities@[j].id != id,
            decreases self.entities@.len() - i,
        {
            if self.entities[i].id == id {
                return Some(i);
            }
            i += 1;
        }
        None
    }

    /// Loads a batch, one entity after the other: an entity whose identifier
    /// is present takes the place of the first entity with that identifier;
    /// any other goes to the end. Entities that the batch does not name stay
    /// as they are.
    pub fn load_entities(&mut self, entities: Vec<Entity<C>>)
        ensures
            final(self).entity_seq() == load(old(self).entity_seq(), entities@),
            final(self).system_seq() == old(self).system_seq(),
    {
        let ghost batch = entities@;
        for entity in it: entities
            invariant
                it.seq() == batch,
                self.systems@ == old(self).systems@,
                self.entities@ == load(old(self).entities@, batch.subrange(0, it.index() as int)),
        {
            proof {
                let next = batch.subrange(0, it.index() + 1);
                assert(next.drop_last() =~= batch.subrange(0, it.index() as int));
                assert(next.last() == entity);
            }
            match self.position(entity.id) {
                Some(i) => {
                    proof {
                        lemma_first_is(self.entities@, entity.id, i as int);
                    }
                    self.entities[i] = entity;
                },
                None => {
                    self.entities.push(entity);
                },
            }
        }
        proof {
            assert(batch.subrange(0, batch.len() as int) =~= batch);
        }
    }

    /// Registers `system` behind the systems that are there.
    ///
    /// The clause is exact, but the verifier treats a boxed trait object as
    /// a value it knows nothing of: from a sequence with one pushed onto it
    /// a caller derives nothing, not even the new length, and no form of
    /// this contract was found of which it does. What a caller can prove of
    /// a world holds for every sequence of systems; `run` is stated so.
    pub fn add_system(&mut self, system: Box<dyn System<C, S>>)
        ensures
            final(self).system_seq() == old(self).system_seq().push(Registered { system }),
            final(self).entity_seq() == old(self).entity_seq(),
    {
        self.systems.push(Registered { system });
    }

    /// How many entities the world holds.
    pub fn entities_len(&self) -> (n: usize)
        ensures
            n == self.entity_seq().len(),
    {
        self.entities.len()
    }

    /// How many systems the world holds.
    pub fn systems_len(&self) -> (n: usize)
        ensures
            n == self.system_seq().len(),
    {
        self.systems.len()
    }

    /// One frame: every entity in order, and for each the systems in
    /// dispatch order; a system processes an entity exactly when the entity,
    /// as it is at that moment, carries all the system's targets.
    pub fn run(&mut self, state: &mut S)
        ensures
            final(self).system_seq() == old(self).system_seq(),
            sweep(
                old(self).system_seq(),
                old(self).entity_seq(),
                *old(state),
                final(self).entity_seq(),
                *final(state),
            ),
    {
        let ghost systems = self.systems@;
        let ghost before = self.entities@;
        let ghost mut states: Seq<S> = seq![*state];
        let mut i: usize = 0;
        while i < self.entities.len()
            invariant
                i <= before.len(),
                self.systems@ == systems,
                self.entities@.len() == before.len(),
                forall|k: int| i <= k < before.len() ==> self.entities@[k] == before[k],
                states.len() == i + 1,
                states[0] == *old(state),
                states[i as int] == *state,
                forall|k: int|
                    #![trigger before[k]]
                    0 <= k < i ==> pass(
                        systems,
                        before[k],
                        states[k],
                        self.entities@[k],
                        states[k + 1],
                    ),
            decreases before.len() - i,
        {
            let ghost state_mid = *state;
            let ghost swept = self.entities@;
            let ghost mut es: Seq<Entity<C>> = seq![self.entities@[i as int]];
            let ghost mut ss: Seq<S> = seq![*state];
            let mut j: usize = 0;
            while j < self.systems.len()
                invariant
                    i < before.len(),
                    j <= systems.len(),
                    self.systems@ == systems,
                    self.entities@.len() == before.len(),
                    swept.len() == before.len(),
                    forall|k: int|
                        0 <= k < before.len() && k != i ==> self.entities@[k] == swept[k],
                    es.len() == j + 1,
                    ss.len() == j + 1,
                    es[0] == before[i as int],
                    ss[0] == state_mid,
                    es[j as int] == self.entities@[i as int],
                    ss[j as int] == *state,
                    forall|k: int|
                        #![trigger systems[k]]
                        0 <= k < j ==> step(systems[k], es[k], ss[k], es[k + 1], ss[k + 1]),
                decreases systems.len() - j,
            {
                let targets = self.systems[j].system.get_targets();
                let types = self.entities[i].get_all_types();
                if should_process(&targets, &types) {
                    self.systems[j].system.process(&mut self.entities[i], state);
                }
                proof {
                    es = es.push(self.entities@[i as int]);
                    ss = ss.push(*state);
                }
                j += 1;
            }
            proof {
                assert(pass_trace(systems, before[i as int], state_mid, es, ss));
                states = states.push(*state);
            }
            i += 1;
        }
        proof {
            assert(sweep_trace(systems, before, *old(state), self.entities@, states));
        }
    }
}

impl<C, S> Default for World<C, S> {
    /// A world without entities and without systems.
    fn default() -> (w: Self)
        ensures
            w.entity_seq() == Seq::<Entity<C>>::empty(),
            w.system_seq() == Seq::<Registered<C, S>>::empty(),
    {
        World::new()
    }
}

/// A place that is the first with an identifier is the place that
/// `first_with_id` names.
pub proof fn lemma_first_is<C>(entities: Seq<Entity<C>>, id: EntityType, i: int)
    requires
        is_first_with_id(entities, id, i),
    ensures
        holds_id(entities, id),
        first_with_id(entities, id) == i,
{
    let j = first_with_id(entities, id);
    assert(is_first_with_id(entities, id, j));
    assert(!(j < i) && !(i < j));
}

/// Loading an entity whose identifier is present puts it in the place of
/// the first entity with that identifier; every other entity stays.
pub proof fn lemma_upsert_present<C>(entities: Seq<Entity<C>>, entity: Entity<C>, i: int)
    requires
        is_first_with_id(entities, entity.id, i),
    ensures
        upsert(entities, entity) == entities.update(i, entity),
        upsert(entities, entity).len() == entities.len(),
        upsert(entities, entity)[i] == entity,
        forall|k: int| 0 <= k < entities.len() && k != i ==> upsert(entities, entity)[k] == entities[k],
{
    lemma_first_is(entities, entity.id, i);
}

/// Loading an entity whose identifier is new puts it behind the others;
/// every other entity stays.
pub proof fn lemma_upsert_absent<C>(entities: Seq<Entity<C>>, entity: Entity<C>)
    requires
        !holds_id(entities, entity.id),
    ensures
        upsert(entities, entity) == entities.push(entity),
        upsert(entities, entity).len() == entities.len() + 1,
        upsert(entities, entity).last() == entity,
        forall|k: int| 0 <= k < entities.len() ==> upsert(entities, entity)[k] == entities[k],
{
}

/// A batch of one entity is that entity loaded; an empty batch is nothing.
pub proof fn lemma_load_one<C>(entities: Seq<Entity<C>>, entity: Entity<C>)
    ensures
        load(entities, seq![entity]) == upsert(entities, entity),
        load(entities, Seq::<Entity<C>>::empty()) == entities,
{
    assert(seq![entity].drop_last() =~= Seq::<Entity<C>>::empty());
    assert(load(entities, seq![entity].drop_last()) == entities);
}

/// Among the places with an identifier there is a first.
pub proof fn lemma_first_from<C>(entities: Seq<Entity<C>>, id: EntityType, i: int)
    requires
        0 <= i < entities.len(),
        entities[i].id == id,
    ensures
        is_first_with_id(entities, id, first_with_id(entities, id)),
    decreases i,
{
    if forall|j: int| 0 <= j < i ==> entities[j].id != id {
        assert(is_first_with_id(entities, id, i));
    } else {
        let j = choose|j: int| 0 <= j < i && entities[j].id == id;
        lemma_first_from(entities, id, j);
    }
}

/// Where an identifier is present, `first_with_id` names its first place.
pub proof fn lemma_first_exists<C>(entities: Seq<Entity<C>>, id: EntityType)
    requires
        holds_id(entities, id),
    ensures
        is_first_with_id(entities, id, first_with_id(entities, id)),
{
    let i = choose|i: int| 0 <= i < entities.len() && entities[i].id == id;
    lemma_first_from(entities, id, i);
}

/// Whether no two entities of the sequence share an identifier.
pub open spec fn unique_ids<C>(entities: Seq<Entity<C>>) -> bool {
    forall|i: int, j: int|
        0 <= i < entities.len() && 0 <= j < entities.len() && i != j ==> entities[i].id
            != entities[j].id
}

/// Loading an entity keeps the identifiers unique.
pub proof fn lemma_upsert_keeps_ids_unique<C>(entities: Seq<Entity<C>>, entity: Entity<C>)
    requires
        unique_ids(entities),
    ensures
        unique_ids(upsert(entities, entity)),
        holds_id(upsert(entities, entity), entity.id),
{
    let after = upsert(entities, entity);
    if holds_id(entities, entity.id) {
        lemma_first_exists(entities, entity.id);
        let k = first_with_id(entities, entity.id);
        assert(after[k].id == entity.id);
        assert forall|i: int, j: int|
            0 <= i < after.len() && 0 <= j < after.len() && i != j implies after[i].id
            != after[j].id by {
            assert(after[i].id == entities[i].id);
            assert(after[j].id == entities[j].id);
        }
    } else {
        assert(after[entities.len() as int].id == entity.id);
        assert forall|i: int, j: int|
            0 <= i < after.len() && 0 <= j < after.len() && i != j implies after[i].id
            != after[j].id by {
            if i < entities.len() {
                assert(after[i] == entities[i]);
            }
            if j < entities.len() {
                assert(after[j] == entities[j]);
            }
        }
    }
}

/// Loading a batch keeps the identifiers unique, whatever the batch holds.
pub proof fn lemma_load_keeps_ids_unique<C>(entities: Seq<Entity<C>>, batch: Seq<Entity<C>>)
    requires
        unique_ids(entities),
    ensures
        unique_ids(load(entities, batch)),
    decreases batch.len(),
{
    if batch.len() > 0 {
        lemma_load_keeps_ids_unique(entities, batch.drop_last());
        lemma_upsert_keeps_ids_unique(load(entities, batch.drop_last()), batch.last());
    }
}

/// Loading never loses an entity: the entities that were there keep their
/// places and their identifiers.
pub proof fn lemma_load_keeps_places<C>(entities: Seq<Entity<C>>, batch: Seq<Entity<C>>)
    ensures
        load(entities, batch).len() >= entities.len(),
        forall|k: int| 0 <= k < entities.len() ==> #[trigger] load(entities, batch)[k].id == entities[k].id,
    decreases batch.len(),
{
    if batch.len() > 0 {
        let before = load(entities, batch.drop_last());
        lemma_load_keeps_places(entities, batch.drop_last());
        let entity = batch.last();
        if holds_id(before, entity.id) {
            lemma_first_exists(before, entity.id);
        }
    }
}

/// A system processes an entity exactly when the entity carries all the
/// system's targets; otherwise neither the entity nor the shared state
/// changes.
pub proof fn lemma_processed_iff_carried<C, S>(
    system: Registered<C, S>,
    before: Entity<C>,
    state_before: S,
    after: Entity<C>,
    state_after: S,
)
    requires
        step(system, before, state_before, after, state_after),
    ensures
        carries_all(before, system.system.targets()) ==> system.system.processed(
            before,
            state_before,
            after,
            state_after,
        ),
        !carries_all(before, system.system.targets()) ==> after == before && state_after
            == state_before,
{
}

/// A frame of one system and one entity is that system met with that
/// entity.
pub proof fn lemma_sweep_of_one<C, S>(
    system: Registered<C, S>,
    before: Entity<C>,
    state_before: S,
    after: Seq<Entity<C>>,
    state_after: S,
)
    requires
        sweep(seq![system], seq![before], state_before, after, state_after),
    ensures
        after.len() == 1,
        step(system, before, state_before, after[0], state_after),
{
    let systems = seq![system];
    let entities = seq![before];
    let states = choose|states: Seq<S>|
        #[trigger] sweep_trace(systems, entities, state_before, after, states) && states.last()
            == state_after;
    assert(entities[0] == before);
    assert(pass(systems, entities[0], states[0], after[0], states[1]));
    let (es, ss) = choose|es: Seq<Entity<C>>, ss: Seq<S>|
        #[trigger] pass_trace(systems, before, state_before, es, ss) && es.last() == after[0]
            && ss.last() == state_after;
    assert(systems[0] == system);
    assert(step(systems[0], es[0], ss[0], es[1], ss[1]));
}

/// Along the record of one entity met with the systems, nothing changes as
/// long as the entity carries not all the targets of any of the systems.
pub proof fn lemma_trace_without_match<C, S>(
    systems: Seq<Registered<C, S>>,
    before: Entity<C>,
    state_before: S,
    entities: Seq<Entity<C>>,
    states: Seq<S>,
    j: int,
)
    requires
        pass_trace(systems, before, state_before, entities, states),
        forall|k: int|
            0 <= k < systems.len() ==> !carries_all(before, (#[trigger] systems[k]).system.targets()),
        0 <= j <= systems.len(),
    ensures
        entities[j] == before,
        states[j] == state_before,
    decreases j,
{
    if j > 0 {
        lemma_trace_without_match(systems, before, state_before, entities, states, j - 1);
        assert(step(systems[j - 1], entities[j - 1], states[j - 1], entities[j], states[j]));
    }
}

/// An entity that carries not all the targets of any system is skipped: the
/// frame leaves it as it is.
pub proof fn lemma_unmatched_entity_stays<C, S>(
    systems: Seq<Registered<C, S>>,
    before: Seq<Entity<C>>,
    state_before: S,
    after: Seq<Entity<C>>,
    state_after: S,
    i: int,
)
    requires
        sweep(systems, before, state_before, after, state_after),
        0 <= i < before.len(),
        forall|k: int|
            0 <= k < systems.len() ==> !carries_all(before[i], (#[trigger] systems[k]).system.targets()),
    ensures
        after.len() == before.len(),
        after[i] == before[i],
{
    let states = choose|states: Seq<S>|
        #[trigger] sweep_trace(systems, before, state_before, after, states) && states.last()
            == state_after;
    let entity = before[i];
    assert(pass(systems, entity, states[i], after[i], states[i + 1]));
    let (es, ss) = choose|es: Seq<Entity<C>>, ss: Seq<S>|
        #[trigger] pass_trace(systems, entity, states[i], es, ss) && es.last() == after[i]
            && ss.last() == states[i + 1];
    lemma_trace_without_match(systems, entity, states[i], es, ss, systems.len() as int);
}

/// A world without systems leaves every entity and the shared state as
/// they are.
pub proof fn lemma_sweep_without_systems<C, S>(
    before: Seq<Entity<C>>,
    state_before: S,
    after: Seq<Entity<C>>,
    state_after: S,
)
    requires
        sweep(Seq::<Registered<C, S>>::empty(), before, state_before, after, state_after),
    ensures
        after == before,
        state_after == state_before,
{
    let systems = Seq::<Registered<C, S>>::empty();
    let states = choose|states: Seq<S>|
        #[trigger] sweep_trace(systems, before, state_before, after, states) && states.last()
            == state_after;
    assert forall|i: int| 0 <= i < before.len() implies after[i] == before[i] && #[trigger] states[i
        + 1] == states[i] by {
        let entity = before[i];
        assert(pass(systems, entity, states[i], after[i], states[i + 1]));
        let (es, ss) = choose|es: Seq<Entity<C>>, ss: Seq<S>|
            #[trigger] pass_trace(systems, entity, states[i], es, ss) && es.last() == after[i]
                && ss.last() == states[i + 1];
    }
    lemma_constant(states, before.len() as int);
    assert(after =~= before);
}

/// A sequence whose every entry equals the one before it is constant.
pub proof fn lemma_constant<S>(states: Seq<S>, n: int)
    requires
        0 <= n < states.len(),
        forall|i: int| 0 <= i < states.len() - 1 ==> #[trigger] states[i + 1] == states[i],
    ensures
        states[n] == states[0],
    decreases n,
{
    if n > 0 {
        lemma_constant(states, n - 1);
        assert(states[(n - 1) + 1] == states[n - 1]);
    }
}

} // verus!
