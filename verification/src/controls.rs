//! The input sampled for one frame.

use vstd::prelude::*;
use crate::fixed::Vec2;

verus! {

/// What the player asked for this frame.  The pointer position is in world
/// coordinates.
#[derive(Clone, Copy, Debug, PartialEq, Eq, Structural)]
pub struct Controls {
    pub is_q: bool,
    pub is_up: bool,
    pub is_down: bool,
    pub is_left: bool,
    pub is_right: bool,
    pub mouse_pos: Vec2,
    pub is_left_mouse_click: bool,
    pub is_right_mouse_click: bool,
    pub is_right_mouse_down: bool,
}

impl Controls {
    /// The horizontal intent of the direction keys: -1, 0 or 1.
    pub open spec fn spec_key_x(&self) -> int {
        (if self.is_right { 1int } else { 0int }) - (if self.is_left { 1int } else { 0int })
    }

    /// The vertical intent of the direction keys: -1, 0 or 1.
    pub open spec fn spec_key_y(&self) -> int {
        (if self.is_down { 1int } else { 0int }) - (if self.is_up { 1int } else { 0int })
    }

    /// Reads the horizontal intent of the direction keys.
    pub fn key_x(&self) -> (k: i32)
        ensures
            k == self.spec_key_x(),
    {
        let right: i32 = if self.is_right { 1 } else { 0 };
        let left: i32 = if self.is_left { 1 } else { 0 };
        right - left
    }

    /// Reads the vertical intent of the direction keys.
    pub fn key_y(&self) -> (k: i32)
        ensures
            k == self.spec_key_y(),
    {
        let down: i32 = if self.is_down { 1 } else { 0 };
        let up: i32 = if self.is_up { 1 } else { 0 };
        down - up
    }
}

} // verus!
