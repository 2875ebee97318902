use vstd::prelude::*;

verus! {

/// The kinds of light.
#[derive(Debug, Clone, Copy, PartialEq, Eq, Structural)]
pub enum Lights {
    Sun,
    Directional,
    Point,
    Spotlight,
}

/// The fields of one light in the lights' uniform buffer, in their order.
#[derive(Debug, Clone, Copy, PartialEq, Eq, Structural)]
pub enum LightField {
    Kind,
    Direction,
    Position,
    Ambient,
    Diffuse,
    Specular,
}

/// The bytes one light takes in the uniform buffer.
pub const LIGHT_BLOCK: isize = 96;

/// The bytes from one field of a light to the next.
pub const LIGHT_FIELD: isize = 16;

/// How many lights the uniform buffer has room for.
pub const LIGHT_ROOM: isize = 2;

/// The number that stands for a kind of light in the shaders: 2 for a
/// directional light, 1 for every other.
pub fn kind_code(kind: Lights) -> (code: i32)
    ensures
        code == if kind == Lights::Directional {
            2i32
        } else {
            1i32
        },
{
    match kind {
        Lights::Sun => 1,
        Lights::Directional => 2,
        _ => 1,
    }
}

/// The place of a field among the fields of a light.
pub open spec fn field_place(field: LightField) -> int {
    match field {
        LightField::Kind => 0,
        LightField::Direction => 1,
        LightField::Position => 2,
        LightField::Ambient => 3,
        LightField::Diffuse => 4,
        LightField::Specular => 5,
    }
}

/// Where a field of the light in a slot starts in the uniform buffer.
pub open spec fn offset_of(slot: int, field: LightField) -> int {
    LIGHT_BLOCK * slot + LIGHT_FIELD * field_place(field)
}

/// Where a field of the light in a slot starts in the uniform buffer.
pub fn field_offset(slot: usize, field: LightField) -> (offset: isize)
    requires
        LIGHT_BLOCK * (slot + 1) <= isize::MAX,
    ensures
        offset == offset_of(slot as int, field),
{
    let place: isize = match field {
        LightField::Kind => 0,
        LightField::Direction => 1,
        LightField::Position => 2,
        LightField::Ambient => 3,
        LightField::Diffuse => 4,
        LightField::Specular => 5,
    };
    LIGHT_BLOCK * (slot as isize) + LIGHT_FIELD * place
}

/// The bytes to reserve for the lights' uniform buffer.
pub fn lights_ubo_size() -> (size: isize)
    ensures
        size == LIGHT_ROOM * LIGHT_BLOCK,
        size == 192,
{
    LIGHT_ROOM * LIGHT_BLOCK
}

/// Hands out the slots of the lights' uniform buffer, one after the other.
pub struct LightSlots {
    next: usize,
}

impl LightSlots {
    /// The slot that the next light gets.
    pub closed spec fn next(self) -> int {
        self.next as int
    }

    /// No slot is taken yet.
    pub fn new() -> (slots: Self)
        ensures
            slots.next() == 0,
    {
        LightSlots { next: 0 }
    }

    /// How many slots are taken.
    pub fn taken(&self) -> (n: usize)
        ensures
            n == self.next(),
    {
        self.next
    }

    /// Gives a light that is made in the program its slot: the counter
    /// itself where nothing is counted yet, and else the counter moved on
    /// by one.
    pub fn claim(&mut self) -> (slot: usize)
        requires
            old(self).next() < usize::MAX,
        ensures
            slot == if old(self).next() > 0 {
                old(self).next() + 1
            } else {
                0
            },
            final(self).next() == slot,
    {
        if self.next > 0 {
            self.next = self.next + 1;
        }
        self.next
    }

    /// Gives a light its slot: the next free one.
    pub fn set_ubo(&mut self) -> (slot: usize)
        requires
            old(self).next() < usize::MAX,
        ensures
            slot == old(self).next(),
            final(self).next() == slot + 1,
    {
        let slot = self.next;
        self.next = self.next + 1;
        slot
    }
}

/// The fields of a light lie within its block, and the blocks of two slots
/// do not overlap.
pub proof fn lemma_fields_within_block(slot: int, field: LightField)
    requires
        0 <= slot,
    ensures
        LIGHT_BLOCK * slot <= offset_of(slot, field),
        offset_of(slot, field) + LIGHT_FIELD <= LIGHT_BLOCK * (slot + 1),
{
}

/// Two different fields, or the fields of two different slots, start at
/// different places.
pub proof fn lemma_offsets_differ(a: int, f: LightField, b: int, g: LightField)
    requires
        0 <= a,
        0 <= b,
    ensures
        offset_of(a, f) == offset_of(b, g) <==> a == b && f == g,
{
    lemma_fields_within_block(a, f);
    lemma_fields_within_block(b, g);
}

} // verus!
