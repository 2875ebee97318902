use vstd::prelude::*;
use crate::error::EngineError;

verus! {

/// A runtime type identity: the key under which a value of one kind is stored.
pub type TypeTag = u64;

/// A container that holds at most one value per type tag.
///
/// Its view is the map from each tag present to the value stored under it.
pub struct AnyMap<V> {
    tags: Vec<TypeTag>,
    values: Vec<V>,
}

/// The map that parallel sequences of tags and values stand for.
pub open spec fn map_of<V>(tags: Seq<TypeTag>, values: Seq<V>) -> Map<TypeTag, V> {
    Map::new(|t: TypeTag| tags.contains(t), |t: TypeTag| values[tags.index_of(t)])
}

impl<V> View for AnyMap<V> {
    type V = Map<TypeTag, V>;

    closed spec fn view(&self) -> Map<TypeTag, V> {
        map_of(self.tags@, self.values@)
    }
}

impl<V> AnyMap<V> {
    #[verifier::type_invariant]
    spec fn inv(self) -> bool {
        &&& self.tags@.len() == self.values@.len()
        &&& self.tags@.no_duplicates()
    }

    /// The tags present, in the order in which they were first inserted.
    pub closed spec fn tag_seq(self) -> Seq<TypeTag> {
        self.tags@
    }

    /// An empty registry.
    pub fn new() -> (m: Self)
        ensures
            m@ == Map::<TypeTag, V>::empty(),
            m.tag_seq() == Seq::<TypeTag>::empty(),
    {
        let m = AnyMap { tags: Vec::new(), values: Vec::new() };
        assert(m@ =~= Map::<TypeTag, V>::empty());
        m
    }

    fn position(&self, tag: TypeTag) -> (r: Option<usize>)
        ensures
            match r {
                Some(i) => i < self.tags@.len() && self.tags@[i as int] == tag,
                None => !self.tags@.contains(tag),
            },
    {
        let mut i: usize = 0;
        while i < self.tags.len()
            invariant
                i <= self.tags@.len(),
                forall|k: int| 0 <= k < i ==> self.tags@[k] != tag,
            decreases self.tags@.len() - i,
        {
            if self.tags[i] == tag {
                return Some(i);
            }
            i += 1;
        }
        None
    }

    /// The value stored under `tag`; `ComponentNotFound` when there is none.
    pub fn get(&self, tag: TypeTag) -> (r: Result<&V, EngineError>)
        ensures
            match r {
                Ok(v) => self@.dom().contains(tag) && *v == self@[tag],
                Err(e) => e == EngineError::ComponentNotFound && !self@.dom().contains(tag),
            },
    {
        proof {
            use_type_invariant(self);
        }
        match self.position(tag) {
            Some(i) => {
                proof {
                    crate::seq_facts::lemma_unique_index(self.tags@, i as int);
                }
                Ok(&self.values[i])
            },
            None => Err(EngineError::ComponentNotFound),
        }
    }

    /// The value stored under `tag`, if there is one.
    pub fn get_opt(&self, tag: TypeTag) -> (r: Option<&V>)
        ensures
            match r {
                Some(v) => self@.dom().contains(tag) && *v == self@[tag],
                None => !self@.dom().contains(tag),
            },
    {
        proof {
            use_type_invariant(self);
        }
        match self.position(tag) {
            Some(i) => {
                proof {
                    crate::seq_facts::lemma_unique_index(self.tags@, i as int);
                }
                Some(&self.values[i])
            },
            None => None,
        }
    }

    /// Mutable access to the value stored under `tag`; `ComponentNotFound`
    /// when there is none. Whatever the caller writes replaces that value and
    /// nothing else.
    pub fn get_mut(&mut self, tag: TypeTag) -> (r: Result<&mut V, EngineError>)
        ensures
            match r {
                Ok(v) => old(self)@.dom().contains(tag) && *v == old(self)@[tag] && final(self)@
                    == old(self)@.insert(tag, *final(v)) && final(self).tag_seq() == old(
                    self,
                ).tag_seq(),
                Err(e) => e == EngineError::ComponentNotFound && !old(self)@.dom().contains(tag)
                    && *final(self) == *old(self),
            },
    {
        proof {
            use_type_invariant(&*self);
        }
        match self.position(tag) {
            Some(i) => {
                proof {
                    crate::seq_facts::lemma_unique_index(self.tags@, i as int);
                    assert forall|x: V|
                        map_of(self.tags@, self.values@.update(i as int, x)) == map_of(
                            self.tags@,
                            self.values@,
                        ).insert(tag, x) by {
                        lemma_update_is_insert(self.tags@, self.values@, i as int, x);
                    }
                }
                Ok(&mut self.values[i])
            },
            None => Err(EngineError::ComponentNotFound),
        }
    }

    /// Stores `value` under `tag`, replacing the value that was there.
    pub fn insert(&mut self, tag: TypeTag, value: V)
        ensures
            final(self)@ == old(self)@.insert(tag, value),
            final(self).tag_seq() == if old(self)@.dom().contains(tag) {
                old(self).tag_seq()
            } else {
                old(self).tag_seq().push(tag)
            },
    {
        proof {
            use_type_invariant(&*self);
        }
        match self.position(tag) {
            Some(i) => {
                proof {
                    lemma_update_is_insert(self.tags@, self.values@, i as int, value);
                }
                self.values[i] = value;
            },
            None => {
                let mut taken = AnyMap { tags: Vec::new(), values: Vec::new() };
                std::mem::swap(self, &mut taken);
                let AnyMap { mut tags, mut values } = taken;
                proof {
                    lemma_push_is_insert(tags@, values@, tag, value);
                }
                tags.push(tag);
                values.push(value);
                *self = AnyMap { tags, values };
            },
        }
    }

    /// Takes away the value stored under `tag`; `ComponentNotFound` when
    /// there is none.
    pub fn remove(&mut self, tag: TypeTag) -> (r: Result<(), EngineError>)
        ensures
            match r {
                Ok(_) => old(self)@.dom().contains(tag) && final(self)@ == old(self)@.remove(tag)
                    && final(self).tag_seq() == old(self).tag_seq().remove(
                    old(self).tag_seq().index_of(tag),
                ),
                Err(e) => e == EngineError::ComponentNotFound && !old(self)@.dom().contains(tag)
                    && *final(self) == *old(self),
            },
    {
        proof {
            use_type_invariant(&*self);
        }
        match self.position(tag) {
            Some(i) => {
                proof {
                    crate::seq_facts::lemma_unique_index(self.tags@, i as int);
                }
                let mut taken = AnyMap { tags: Vec::new(), values: Vec::new() };
                std::mem::swap(self, &mut taken);
                let AnyMap { mut tags, mut values } = taken;
                proof {
                    lemma_remove_is_remove(tags@, values@, i as int);
                }
                tags.remove(i);
                values.remove(i);
                *self = AnyMap { tags, values };
                Ok(())
            },
            None => Err(EngineError::ComponentNotFound),
        }
    }

    /// The tags present, each once.
    pub fn types(&self) -> (r: Vec<TypeTag>)
        ensures
            r@ == self.tag_seq(),
            r@.no_duplicates(),
            forall|t: TypeTag| r@.contains(t) <==> self@.dom().contains(t),
    {
        proof {
            use_type_invariant(self);
        }
        let mut out: Vec<TypeTag> = Vec::new();
        let mut i: usize = 0;
        while i < self.tags.len()
            invariant
                i <= self.tags@.len(),
                out@ == self.tags@.subrange(0, i as int),
            decreases self.tags@.len() - i,
        {
            out.push(self.tags[i]);
            proof {
                assert(out@ =~= self.tags@.subrange(0, i + 1));
            }
            i += 1;
        }
        proof {
            assert(out@ =~= self.tags@);
        }
        out
    }
}

impl<V> Default for AnyMap<V> {
    /// An empty registry.
    fn default() -> (m: Self)
        ensures
            m@ == Map::<TypeTag, V>::empty(),
            m.tag_seq() == Seq::<TypeTag>::empty(),
    {
        AnyMap::new()
    }
}

/// Replacing the value at the place of a tag is an insertion under that tag.
pub proof fn lemma_update_is_insert<V>(tags: Seq<TypeTag>, values: Seq<V>, i: int, x: V)
    requires
        tags.no_duplicates(),
        tags.len() == values.len(),
        0 <= i < tags.len(),
    ensures
        map_of(tags, values.update(i, x)) == map_of(tags, values).insert(tags[i], x),
{
    crate::seq_facts::lemma_unique_index(tags, i);
    assert forall|t: TypeTag| tags.contains(t) implies #[trigger] map_of(
        tags,
        values.update(i, x),
    )[t] == map_of(tags, values).insert(tags[i], x)[t] by {
        crate::seq_facts::lemma_index_of_holds(tags, t);
    }
    assert(map_of(tags, values.update(i, x)) =~= map_of(tags, values).insert(tags[i], x));
}

/// Appending a tag that is not yet present is an insertion under that tag.
pub proof fn lemma_push_is_insert<V>(tags: Seq<TypeTag>, values: Seq<V>, tag: TypeTag, x: V)
    requires
        tags.no_duplicates(),
        tags.len() == values.len(),
        !tags.contains(tag),
    ensures
        tags.push(tag).no_duplicates(),
        map_of(tags.push(tag), values.push(x)) == map_of(tags, values).insert(tag, x),
{
    crate::seq_facts::lemma_unique_push(tags, tag);
    assert forall|t: TypeTag| tags.push(tag).contains(t) implies #[trigger] map_of(
        tags.push(tag),
        values.push(x),
    )[t] == map_of(tags, values).insert(tag, x)[t] by {
        if t != tag {
            crate::seq_facts::lemma_index_of_holds(tags, t);
        }
    }
    assert(map_of(tags.push(tag), values.push(x)) =~= map_of(tags, values).insert(tag, x));
}

/// Taking the tag at one place away removes that tag and no other.
pub proof fn lemma_remove_is_remove<V>(tags: Seq<TypeTag>, values: Seq<V>, i: int)
    requires
        tags.no_duplicates(),
        tags.len() == values.len(),
        0 <= i < tags.len(),
    ensures
        tags.remove(i).no_duplicates(),
        tags.remove(i).len() == values.remove(i).len(),
        map_of(tags.remove(i), values.remove(i)) == map_of(tags, values).remove(tags[i]),
{
    crate::seq_facts::lemma_unique_remove(tags, i);
    values.remove_ensures(i);
    assert forall|t: TypeTag| tags.remove(i).contains(t) implies #[trigger] map_of(
        tags.remove(i),
        values.remove(i),
    )[t] == map_of(tags, values).remove(tags[i])[t] by {
        crate::seq_facts::lemma_index_of_holds(tags, t);
    }
    assert(map_of(tags.remove(i), values.remove(i)) =~= map_of(tags, values).remove(tags[i]));
}

} // verus!
