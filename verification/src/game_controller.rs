use vstd::prelude::*;

verus! {

/// What the player asks of the game.
#[derive(Debug, Clone, Copy, PartialEq, Eq, Structural)]
pub enum Input {
    Direction,
    CloseRequested,
}

impl Input {
    /// The input after one more event of the window: a request to close
    /// takes the place of what was seen before, any other event leaves it.
    pub fn after_event(seen: Option<Input>, close_requested: bool) -> (input: Option<Input>)
        ensures
            input == if close_requested {
                Some(Input::CloseRequested)
            } else {
                seen
            },
    {
        if close_requested {
            Some(Input::CloseRequested)
        } else {
            seen
        }
    }
}

} // verus!
