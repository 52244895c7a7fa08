//! Bodies, and the transitions between the mobile and the pinned state.

use vstd::prelude::*;
use crate::scalar::{lt, ZERO};

verus! {

/// A simulated body: a mobile particle, a pinned trace, or an attractor.
///
/// Every scalar field holds the bit pattern of a double. For an attractor
/// `mass` is also the square of its capture radius.
#[derive(Clone, Copy, Debug, PartialEq, Eq, Structural)]
pub struct Body {
    pub x: u64,
    pub y: u64,
    pub init_x: u64,
    pub init_y: u64,
    pub v_x: u64,
    pub v_y: u64,
    pub mass: u64,
    pub pinned: bool,
    pub color_index: u8,
}

impl Body {
    /// True of a body at rest at its spawn position and flagged as pinned.
    pub open spec fn is_trace(self) -> bool {
        &&& self.pinned
        &&& self.x == self.init_x
        &&& self.y == self.init_y
        &&& self.v_x == ZERO
        &&& self.v_y == ZERO
    }

    /// The body as a trace of `attractor`: back at its spawn position, at
    /// rest, pinned, and tagged with the attractor's colour.
    pub open spec fn captured_by(self, attractor: Body) -> Body {
        Body {
            x: self.init_x,
            y: self.init_y,
            v_x: ZERO,
            v_y: ZERO,
            pinned: true,
            color_index: attractor.color_index,
            ..self
        }
    }

    /// The attractor captures a body at the squared distance `dist_sq`: the
    /// distance lies strictly within the capture radius.
    pub open spec fn captures(self, dist_sq: u64) -> bool {
        lt(dist_sq, self.mass)
    }

    /// The body set free again: mobile and at rest, position and tag kept.
    pub open spec fn released(self) -> Body {
        Body { v_x: ZERO, v_y: ZERO, pinned: false, ..self }
    }

    /// Creates a body whose spawn position is its starting position.
    pub fn new(x: u64, y: u64, v_x: u64, v_y: u64, mass: u64, pinned: bool, color_index: u8) -> (body: Body)
        ensures
            body == (Body { x, y, init_x: x, init_y: y, v_x, v_y, mass, pinned, color_index }),
    {
        Body { x, y, init_x: x, init_y: y, v_x, v_y, mass, pinned, color_index }
    }

    /// Turns the body into a trace of `attractor`.
    pub fn pin(&mut self, attractor: &Body)
        ensures
            *final(self) == old(self).captured_by(*attractor),
    {
        self.color_index = attractor.color_index;
        self.pinned = true;
        self.x = self.init_x;
        self.y = self.init_y;
        self.v_x = ZERO;
        self.v_y = ZERO;
    }

    /// Sets the body free again.
    pub fn release(&mut self)
        ensures
            *final(self) == old(self).released(),
    {
        self.pinned = false;
        self.v_x = ZERO;
        self.v_y = ZERO;
    }
}

} // verus!
