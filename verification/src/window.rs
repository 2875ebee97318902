use vstd::prelude::*;
use crate::registry::{AnyMap, TypeTag};

verus! {

/// A key of the keyboard: the keys the engine acts on by name, any other by
/// the number the windowing layer gives it.
#[derive(Debug, Clone, Copy, PartialEq, Eq, Structural)]
pub enum Key {
    A,
    D,
    E,
    F,
    L,
    P,
    Q,
    S,
    W,
    Space,
    Escape,
    Other(u32),
}

/// The number under which the state of a key is kept.
pub open spec fn code_of(key: Key) -> TypeTag {
    match key {
        Key::A => 0,
        Key::D => 1,
        Key::E => 2,
        Key::F => 3,
        Key::L => 4,
        Key::P => 5,
        Key::Q => 6,
        Key::S => 7,
        Key::W => 8,
        Key::Space => 9,
        Key::Escape => 10,
        Key::Other(n) => (n + 11) as TypeTag,
    }
}

impl Key {
    /// The number under which the state of this key is kept.
    pub fn code(self) -> (code: TypeTag)
        ensures
            code == code_of(self),
    {
        match self {
            Key::A => 0,
            Key::D => 1,
            Key::E => 2,
            Key::F => 3,
            Key::L => 4,
            Key::P => 5,
            Key::Q => 6,
            Key::S => 7,
            Key::W => 8,
            Key::Space => 9,
            Key::Escape => 10,
            Key::Other(n) => n as u64 + 11,
        }
    }
}

/// Two keys never share a number.
pub proof fn lemma_codes_differ(a: Key, b: Key)
    ensures
        code_of(a) == code_of(b) <==> a == b,
{
}

/// The modifier keys that are held down.
#[derive(Debug, Default, Clone, Copy, PartialEq, Eq, Structural)]
pub struct Modifiers {
    pub shift: bool,
    pub ctrl: bool,
    pub alt: bool,
    pub logo: bool,
}

/// What is kept of a key while it is held down: whether it has been acted
/// on once since it went down.
#[derive(Debug, Clone, Copy, PartialEq, Eq, Structural)]
pub struct KeyState {
    pub once: bool,
}

/// The keys after one was acted on: a key that is down and has not been
/// acted on is marked, and nothing changes otherwise.
pub open spec fn acted_on(keys: Map<TypeTag, KeyState>, key: Key) -> Map<TypeTag, KeyState> {
    if keys.dom().contains(code_of(key)) && !keys[code_of(key)].once {
        keys.insert(code_of(key), KeyState { once: true })
    } else {
        keys
    }
}

/// The keys that are held down, and the modifiers.
pub struct KeyEvents {
    pub keycodes: AnyMap<KeyState>,
    pub modifiers: Modifiers,
}

impl KeyEvents {
    /// Whether `key` is held down.
    pub open spec fn down(self, key: Key) -> bool {
        self.keycodes@.dom().contains(code_of(key))
    }

    /// Whether `key` is held down and has not been acted on yet.
    pub open spec fn fresh(self, key: Key) -> bool {
        self.down(key) && !self.keycodes@[code_of(key)].once
    }

    /// No key is down and no modifier is held.
    pub fn new() -> (events: Self)
        ensures
            events.keycodes@ == Map::<TypeTag, KeyState>::empty(),
            events.keycodes.tag_seq() == Seq::<TypeTag>::empty(),
            events.modifiers == (Modifiers { shift: false, ctrl: false, alt: false, logo: false }),
    {
        KeyEvents {
            keycodes: AnyMap::new(),
            modifiers: Modifiers { shift: false, ctrl: false, alt: false, logo: false },
        }
    }

    /// Acts on a key once for each time it goes down: true if `key` is down
    /// and has not been acted on since; the key is then marked. False, and
    /// nothing changes, otherwise.
    pub fn once(&mut self, key: Key) -> (fire: bool)
        ensures
            fire == old(self).fresh(key),
            final(self).modifiers == old(self).modifiers,
            final(self).keycodes@ == acted_on(old(self).keycodes@, key),
    {
        match self.keycodes.get_mut(key.code()) {
            Ok(pressed) => {
                if !pressed.once {
                    pressed.once = true;
                    true
                } else {
                    proof {
                        assert(old(self).keycodes@.insert(code_of(key), *pressed) =~= old(self).keycodes@);
                    }
                    false
                }
            },
            Err(_) => false,
        }
    }

    /// Whether `key` is held down.
    pub fn pressed(&self, key: Key) -> (b: bool)
        ensures
            b == self.down(key),
    {
        self.keycodes.get_opt(key.code()).is_some()
    }

    /// Takes over the modifiers.
    pub fn set_modifiers(&mut self, modifiers: Modifiers)
        ensures
            final(self).modifiers == modifiers,
            final(self).keycodes == old(self).keycodes,
    {
        self.modifiers = modifiers;
    }

    /// Records that `key` went down; a key that is down already keeps its
    /// state.
    pub fn add_keycode(&mut self, key: Key)
        ensures
            final(self).modifiers == old(self).modifiers,
            final(self).keycodes@ == if old(self).down(key) {
                old(self).keycodes@
            } else {
                old(self).keycodes@.insert(code_of(key), KeyState { once: false })
            },
    {
        if self.keycodes.get_opt(key.code()).is_none() {
            self.keycodes.insert(key.code(), KeyState { once: false });
        }
    }

    /// Takes in what the keyboard reports of one key: the key went down or
    /// up, and these modifiers are held. Returns whether the window is to
    /// close, which the escape key asks for.
    pub fn keyboard_input(&mut self, key: Key, pressed: bool, modifiers: Modifiers) -> (close: bool)
        ensures
            close == (key == Key::Escape),
            final(self).modifiers == modifiers,
            final(self).keycodes@ == if pressed {
                if old(self).down(key) {
                    old(self).keycodes@
                } else {
                    old(self).keycodes@.insert(code_of(key), KeyState { once: false })
                }
            } else {
                old(self).keycodes@.remove(code_of(key))
            },
    {
        if pressed {
            self.add_keycode(key);
        } else {
            self.remove_keycode(key);
        }
        self.set_modifiers(modifiers);
        key == Key::Escape
    }

    /// Records that `key` went up.
    pub fn remove_keycode(&mut self, key: Key)
        ensures
            final(self).modifiers == old(self).modifiers,
            final(self).keycodes@ == old(self).keycodes@.remove(code_of(key)),
    {
        match self.keycodes.remove(key.code()) {
            Ok(_) => {},
            Err(_) => {
                proof {
                    assert(old(self).keycodes@.remove(code_of(key)) =~= old(self).keycodes@);
                }
            },
        }
    }
}

impl Default for KeyEvents {
    /// No key is down and no modifier is held.
    fn default() -> (events: Self)
        ensures
            events.keycodes@ == Map::<TypeTag, KeyState>::empty(),
            events.keycodes.tag_seq() == Seq::<TypeTag>::empty(),
            events.modifiers == (Modifiers { shift: false, ctrl: false, alt: false, logo: false }),
    {
        KeyEvents::new()
    }
}

/// How the renderer fills the faces it draws.
#[derive(Debug, Clone, Copy, PartialEq, Eq, Structural)]
pub enum PolygonMode {
    Line,
    Fill,
}

/// The mode the keyboard asks for: while ctrl is held, F asks for filled
/// faces and L for lines; where both are down, F has the last word.
pub fn polygon_mode(keyboard: &KeyEvents) -> (mode: Option<PolygonMode>)
    ensures
        mode == if !keyboard.modifiers.ctrl {
            None
        } else if keyboard.down(Key::F) {
            Some(PolygonMode::Fill)
        } else if keyboard.down(Key::L) {
            Some(PolygonMode::Line)
        } else {
            None
        },
{
    // Only if ctrl is pressed.
    if !keyboard.modifiers.ctrl {
        return None;
    }
    let mut mode = None;
    if keyboard.pressed(Key::L) {
        mode = Some(PolygonMode::Line);
    }
    if keyboard.pressed(Key::F) {
        mode = Some(PolygonMode::Fill);
    }
    mode
}

} // verus!
