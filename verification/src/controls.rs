//! What the frame loop decides from the user's commands: the speed mode and
//! with it the number of sub-steps per frame, pause, and the mouse modes.

use vstd::prelude::*;

verus! {

/// The highest speed mode; the modes are `0..=MAX_MODE`.
pub const MAX_MODE: u8 = 3;

/// A key that the controls react to.
#[derive(Clone, Copy, Debug, PartialEq, Eq, Structural)]
pub enum Key {
    Left,
    Right,
    Space,
    R,
    Other,
}

/// A mouse button.
#[derive(Clone, Copy, Debug, PartialEq, Eq, Structural)]
pub enum Button {
    Left,
    Middle,
    Right,
    Other,
}

/// The state of the controls.
#[derive(Clone, Copy, Debug, PartialEq, Eq, Structural)]
pub struct Controls {
    pub render_mode: u8,
    pub paused: bool,
    pub panning: bool,
    pub drawing: bool,
}

/// Sub-steps per frame and unit of resolution in the speed mode `mode`.
pub open spec fn steps_for(mode: u8) -> u32 {
    if mode <= 1 {
        1
    } else if mode == 2 {
        20
    } else {
        500
    }
}

/// The mode before `mode`, the highest before the lowest.
pub open spec fn mode_before(mode: u8) -> u8 {
    if mode == 0 {
        MAX_MODE
    } else {
        (mode - 1) as u8
    }
}

/// The mode after `mode`, the lowest after the highest.
pub open spec fn mode_after(mode: u8) -> u8 {
    if mode >= MAX_MODE {
        0
    } else {
        (mode + 1) as u8
    }
}

impl Controls {
    /// The speed mode is one of the modes.
    pub open spec fn wf(self) -> bool {
        self.render_mode <= MAX_MODE
    }

    /// The controls after `key` went down.
    pub open spec fn after_key(self, key: Key) -> Controls {
        match key {
            Key::Left => Controls { render_mode: mode_before(self.render_mode), ..self },
            Key::Right => Controls { render_mode: mode_after(self.render_mode), ..self },
            Key::Space => Controls { paused: !self.paused, ..self },
            _ => self,
        }
    }

    /// The controls at the start: slowest mode, running, no mouse mode.
    pub fn new() -> (controls: Controls)
        ensures
            controls == (Controls {
                render_mode: 0,
                paused: false,
                panning: false,
                drawing: false,
            }),
            controls.wf(),
    {
        Controls { render_mode: 0, paused: false, panning: false, drawing: false }
    }

    /// Takes a key press. Left and right walk through the speed modes, space
    /// toggles pause. Returns true when the key asks for the release of all
    /// pinned bodies.
    pub fn key_down(&mut self, key: Key) -> (release: bool)
        ensures
            *final(self) == old(self).after_key(key),
            old(self).wf() ==> final(self).wf(),
            release == (key == Key::R),
    {
        match key {
            Key::Left => {
                if self.render_mode == 0 {
                    self.render_mode = MAX_MODE;
                } else {
                    self.render_mode = self.render_mode - 1;
                }
                false
            },
            Key::Right => {
                if self.render_mode >= MAX_MODE {
                    self.render_mode = 0;
                } else {
                    self.render_mode = self.render_mode + 1;
                }
                false
            },
            Key::Space => {
                self.paused = !self.paused;
                false
            },
            Key::R => true,
            Key::Other => false,
        }
    }

    /// Takes a mouse button press: the middle button starts panning, the left
    /// and the right one start drawing.
    pub fn button_down(&mut self, button: Button)
        ensures
            final(self).panning == (old(self).panning || button == Button::Middle),
            final(self).drawing == (old(self).drawing || button == Button::Left || button
                == Button::Right),
            final(self).render_mode == old(self).render_mode,
            final(self).paused == old(self).paused,
    {
        match button {
            Button::Middle => {
                self.panning = true;
            },
            Button::Left | Button::Right => {
                self.drawing = true;
            },
            Button::Other => {},
        }
    }

    /// Takes a mouse button release: the middle button ends panning, the left
    /// and the right one end drawing.
    pub fn button_up(&mut self, button: Button)
        ensures
            final(self).panning == (old(self).panning && button != Button::Middle),
            final(self).drawing == (old(self).drawing && button != Button::Left && button
                != Button::Right),
            final(self).render_mode == old(self).render_mode,
            final(self).paused == old(self).paused,
    {
        match button {
            Button::Middle => {
                self.panning = false;
            },
            Button::Left | Button::Right => {
                self.drawing = false;
            },
            Button::Other => {},
        }
    }

    /// Sub-steps per frame and unit of resolution in the current mode.
    pub fn sim_steps(&self) -> (steps: u32)
        ensures
            steps == steps_for(self.render_mode),
    {
        if self.render_mode <= 1 {
            1
        } else if self.render_mode == 2 {
            20
        } else {
            500
        }
    }

    /// Sub-steps to run in the next frame at the resolution `res`: none while
    /// paused.
    pub fn sub_steps(&self, res: u32) -> (n: u32)
        requires
            steps_for(self.render_mode) * res <= u32::MAX,
        ensures
            n == if self.paused {
                0
            } else {
                steps_for(self.render_mode) * res
            },
    {
        if self.paused {
            0
        } else {
            self.sim_steps() * res
        }
    }
}

/// Compute time per body and sub-step, in ten-thousandths of a nanosecond,
/// for a frame that took `elapsed_nanos`; an empty store counts as one body.
pub fn compute_time(elapsed_nanos: u128, bodies: usize, sim_steps: u32) -> (cost: u128)
    requires
        elapsed_nanos * 10000 <= u128::MAX,
        sim_steps > 0,
    ensures
        cost == (elapsed_nanos * 10000) / ((if bodies == 0 {
            1
        } else {
            bodies as int
        }) * sim_steps),
{
    let count: u128 = if bodies == 0 {
        1
    } else {
        bodies as u128
    };
    assert(count * (sim_steps as u128) <= u128::MAX && count * (sim_steps as u128) > 0) by (nonlinear_arith)
        requires
            0 < count <= usize::MAX,
            0 < sim_steps <= u32::MAX,
    ;
    (elapsed_nanos * 10000) / (count * (sim_steps as u128))
}

} // verus!
