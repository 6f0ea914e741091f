use vstd::prelude::*;

verus! {

/// The play/pause and paint-mode flags of the control layer that drives the
/// engine frame by frame.
pub struct Controls {
    pub is_paused: bool,
    pub game_has_started: bool,
}

impl Controls {
    /// Paused, in paint mode.
    pub fn new() -> (c: Controls)
        ensures
            c.is_paused,
            !c.game_has_started,
    {
        Controls { is_paused: true, game_has_started: false }
    }

    /// The start/pause button: flips between running and paused and leaves
    /// paint mode for good.
    pub fn press_start_pause(&mut self)
        ensures
            final(self).is_paused == !old(self).is_paused,
            final(self).game_has_started,
    {
        self.is_paused = !self.is_paused;
        self.game_has_started = true;
    }
}

} // verus!
