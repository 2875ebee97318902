use vstd::prelude::*;
use crate::window::{Key, KeyEvents};

verus! {

/// The switches of the editor.
#[derive(Debug, Clone, Copy, PartialEq, Eq, Structural)]
pub struct Editor {
    pub enabled_physics: bool,
    pub enabled_wireframe_mode: bool,
}

impl Editor {
    /// The editor as it starts: physics on, wireframe off.
    pub fn new() -> (editor: Self)
        ensures
            editor == (Editor { enabled_physics: true, enabled_wireframe_mode: false }),
    {
        Editor { enabled_physics: true, enabled_wireframe_mode: false }
    }

    /// Acts on the keyboard: while shift is held, P turns physics on or off
    /// and L the wireframe mode, each once for each time the key goes down.
    pub fn check_inputs(&mut self, keyboard: &mut KeyEvents)
        ensures
            final(keyboard).modifiers == old(keyboard).modifiers,
            final(self).enabled_physics == (old(self).enabled_physics != (old(keyboard).modifiers.shift && old(keyboard).fresh(Key::P))),
            final(self).enabled_wireframe_mode == (old(self).enabled_wireframe_mode != (old(keyboard).modifiers.shift && old(keyboard).fresh(Key::L))),
            final(keyboard).keycodes@ == if old(keyboard).modifiers.shift {
                crate::window::acted_on(crate::window::acted_on(old(keyboard).keycodes@, Key::P), Key::L)
            } else {
                old(keyboard).keycodes@
            },
    {
        if keyboard.modifiers.shift {
            if keyboard.once(Key::P) {
                self.enabled_physics = !self.enabled_physics;
            }
            if keyboard.once(Key::L) {
                self.enabled_wireframe_mode = !self.enabled_wireframe_mode;
            }
        }
    }
}

impl Default for Editor {
    /// The editor as it starts: physics on, wireframe off.
    fn default() -> (editor: Self)
        ensures
            editor == (Editor { enabled_physics: true, enabled_wireframe_mode: false }),
    {
        Editor::new()
    }
}

} // verus!
