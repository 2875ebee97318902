use vstd::prelude::*;
use crate::error::EngineError;
use crate::registry::{AnyMap, TypeTag};

verus! {

/// An entity's identifier.
pub type EntityType = usize;

/// The source of fresh entity identifiers: it remembers the highest
/// identifier it has accounted for and never goes back.
pub struct EntityCounter {
    last: EntityType,
}

/// The counter's value after an entity with the identifier `id` came from a
/// file: an identifier above the mark moves the mark up by `id`.
pub open spec fn mark_after_file(mark: int, id: int) -> int {
    if id > mark {
        mark + id
    } else {
        mark
    }
}

impl EntityCounter {
    /// The highest identifier accounted for so far.
    pub closed spec fn mark(self) -> EntityType {
        self.last
    }

    /// A counter that has handed out nothing: the first fresh identifier is 1.
    pub fn new() -> (c: Self)
        ensures
            c.mark() == 0,
    {
        EntityCounter { last: 0 }
    }

    /// The highest identifier accounted for so far.
    pub fn current(&self) -> (m: EntityType)
        ensures
            m == self.mark(),
    {
        self.last
    }

    /// Hands out the next unused identifier.
    pub fn next_id(&mut self) -> (id: EntityType)
        requires
            old(self).mark() < usize::MAX,
        ensures
            id == old(self).mark() + 1,
            final(self).mark() == id,
            final(self).mark() > old(self).mark(),
    {
        self.last = self.last + 1;
        self.last
    }

    /// Accounts for an identifier that was assigned elsewhere.
    pub fn observe(&mut self, id: EntityType)
        requires
            mark_after_file(old(self).mark() as int, id as int) <= usize::MAX,
        ensures
            final(self).mark() == mark_after_file(old(self).mark() as int, id as int),
            final(self).mark() >= old(self).mark(),
            final(self).mark() >= id,
    {
        if id > self.last {
            self.last = self.last + id;
        }
    }
}

/// An identity and the components attached to it, one per type tag at most.
pub struct Entity<C> {
    pub id: EntityType,
    pub components: AnyMap<C>,
}

impl<C> Entity<C> {
    /// The attached components, by type tag.
    pub open spec fn components(self) -> Map<TypeTag, C> {
        self.components@
    }

    /// The type tags attached, in the order of their first attachment.
    pub open spec fn type_seq(self) -> Seq<TypeTag> {
        self.components.tag_seq()
    }

    /// A fresh entity without components, with the next unused identifier.
    pub fn new(counter: &mut EntityCounter) -> (e: Self)
        requires
            old(counter).mark() < usize::MAX,
        ensures
            e.id == old(counter).mark() + 1,
            final(counter).mark() == e.id,
            final(counter).mark() > old(counter).mark(),
            e.components() == Map::<TypeTag, C>::empty(),
            e.type_seq() == Seq::<TypeTag>::empty(),
    {
        let id = counter.next_id();
        Entity { id, components: AnyMap::new() }
    }

    /// An entity without components under an identifier that a file
    /// supplies. The counter moves past identifiers above its mark, so that
    /// an identifier it hands out later is above `id`.
    pub fn from_file(id: EntityType, counter: &mut EntityCounter) -> (e: Self)
        requires
            mark_after_file(old(counter).mark() as int, id as int) <= usize::MAX,
        ensures
            e.id == id,
            final(counter).mark() == mark_after_file(old(counter).mark() as int, id as int),
            final(counter).mark() >= old(counter).mark(),
            final(counter).mark() >= id,
            e.components() == Map::<TypeTag, C>::empty(),
            e.type_seq() == Seq::<TypeTag>::empty(),
    {
        counter.observe(id);
        Entity { id, components: AnyMap::new() }
    }

    /// The type tags attached, each once.
    pub fn get_all_types(&self) -> (types: Vec<TypeTag>)
        ensures
            types@ == self.type_seq(),
            types@.no_duplicates(),
            forall|t: TypeTag| types@.contains(t) <==> self.components().dom().contains(t),
    {
        self.components.types()
    }

    /// The component under `tag`; `ComponentNotFound` when none is attached.
    pub fn get(&self, tag: TypeTag) -> (r: Result<&C, EngineError>)
        ensures
            match r {
                Ok(c) => self.components().dom().contains(tag) && *c == self.components()[tag],
                Err(e) => e == EngineError::ComponentNotFound && !self.components().dom().contains(
                    tag,
                ),
            },
    {
        self.components.get(tag)
    }

    /// The component under `tag`, if one is attached.
    pub fn get_opt(&self, tag: TypeTag) -> (r: Option<&C>)
        ensures
            match r {
                Some(c) => self.components().dom().contains(tag) && *c == self.components()[tag],
                None => !self.components().dom().contains(tag),
            },
    {
        self.components.get_opt(tag)
    }

    /// Mutable access to the component under `tag`; `ComponentNotFound` when
    /// none is attached. What the caller writes replaces that component;
    /// the identifier and the other components stay.
    pub fn get_mut(&mut self, tag: TypeTag) -> (r: Result<&mut C, EngineError>)
        ensures
            match r {
                Ok(c) => old(self).components().dom().contains(tag) && *c == old(
                    self,
                ).components()[tag] && final(self).components() == old(self).components().insert(
                    tag,
                    *final(c),
                ) && final(self).id == old(self).id && final(self).type_seq() == old(
                    self,
                ).type_seq(),
                Err(e) => e == EngineError::ComponentNotFound && !old(
                    self,
                ).components().dom().contains(tag) && *final(self) == *old(self),
            },
    {
        self.components.get_mut(tag)
    }

    /// The entity without the component under `tag`; `ComponentNotFound` when
    /// none is attached.
    pub fn remove(self, tag: TypeTag) -> (r: Result<Self, EngineError>)
        ensures
            match r {
                Ok(e) => self.components().dom().contains(tag) && e.id == self.id
                    && e.components() == self.components().remove(tag) && e.type_seq()
                    == self.type_seq().remove(self.type_seq().index_of(tag)),
                Err(e) => e == EngineError::ComponentNotFound && !self.components().dom().contains(
                    tag,
                ),
            },
    {
        let mut entity = self;
        match entity.components.remove(tag) {
            Ok(_) => Ok(entity),
            Err(e) => Err(e),
        }
    }

    /// The entity with `component` attached under `tag`, in place of the
    /// component that was there.
    pub fn with(self, tag: TypeTag, component: C) -> (e: Self)
        ensures
            e.id == self.id,
            e.components() == self.components().insert(tag, component),
            e.type_seq() == if self.components().dom().contains(tag) {
                self.type_seq()
            } else {
                self.type_seq().push(tag)
            },
    {
        let mut entity = self;
        entity.components.insert(tag, component);
        entity
    }
}

impl<C> Default for Entity<C> {
    /// An entity without components and with the identifier 0, which no
    /// counter hands out.
    fn default() -> (e: Self)
        ensures
            e.id == 0,
            e.components() == Map::<TypeTag, C>::empty(),
            e.type_seq() == Seq::<TypeTag>::empty(),
    {
        Entity { id: 0, components: AnyMap::new() }
    }
}

/// An entity asked for a component that was just attached gives that
/// component back; every other type is attached or not as before, with the
/// component it had.
pub proof fn lemma_with_then_get<C>(before: Entity<C>, tag: TypeTag, component: C, after: Entity<C>)
    requires
        after.components() == before.components().insert(tag, component),
    ensures
        after.components().dom().contains(tag),
        after.components()[tag] == component,
        forall|other: TypeTag|
            other != tag ==> (after.components().dom().contains(other)
                <==> before.components().dom().contains(other)),
        forall|other: TypeTag|
            other != tag && before.components().dom().contains(other)
                ==> after.components()[other] == before.components()[other],
{
}

/// An entity without components has no component of any type.
pub proof fn lemma_nothing_attached<C>(entity: Entity<C>, tag: TypeTag)
    requires
        entity.components() == Map::<TypeTag, C>::empty(),
    ensures
        !entity.components().dom().contains(tag),
{
}

/// An identifier handed out after an entity came from a file is above that
/// entity's identifier, and above every identifier accounted for before.
pub proof fn lemma_fresh_id_above_file_id(mark: EntityType, id: EntityType)
    ensures
        mark_after_file(mark as int, id as int) + 1 > id,
        mark_after_file(mark as int, id as int) + 1 > mark,
        mark_after_file(mark as int, id as int) >= mark,
        mark_after_file(mark as int, id as int) >= id,
{
}

} // verus!
