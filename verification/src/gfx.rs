//! Sprites: which part of which texture stands for an actor, and which
//! frame of an animation is showing.

use vstd::prelude::*;
use crate::fixed::Vec2;

verus! {

/// An axis-aligned rectangle given by its top-left corner and its size.
#[derive(Clone, Copy, Debug, PartialEq, Eq, Structural)]
pub struct Rect {
    pub x: i32,
    pub y: i32,
    pub w: i32,
    pub h: i32,
}

/// One image: a region of a named texture and the size to draw it at.
pub struct Frame {
    pub texture: String,
    pub source_rect: Rect,
    pub dest_size: Vec2,
}

/// A sprite that never changes.
pub struct StaticSprite {
    pub frame: Frame,
}

/// A sprite that cycles through its frames at `fps` frames per second.
/// `time` is the number of milliseconds the current frame has been showing.
pub struct AnimatedSprite {
    pub frames: Vec<Frame>,
    pub frame_index: usize,
    pub fps: u8,
    pub time: u32,
}

impl Rect {
    /// Whether `p` lies in the rectangle, borders included.
    pub open spec fn spec_contains(&self, p: Vec2) -> bool {
        self.x <= p.x <= self.x + self.w && self.y <= p.y <= self.y + self.h
    }

    /// Tests whether a point lies in the rectangle or on its border.
    pub fn contains(&self, p: Vec2) -> (inside: bool)
        ensures
            inside == self.spec_contains(p),
    {
        let right: i64 = self.x as i64 + self.w as i64;
        let bottom: i64 = self.y as i64 + self.h as i64;
        self.x <= p.x && p.x as i64 <= right && self.y <= p.y && p.y as i64 <= bottom
    }
}

impl AnimatedSprite {
    /// There is a frame to show, and `frame_index` names one.
    pub open spec fn wf(&self) -> bool {
        self.frame_index < self.frames@.len()
    }

    /// Whether the current frame has been showing for longer than one
    /// animation period once `frame_time` more milliseconds have passed.
    pub open spec fn frame_due(&self, frame_time: u32) -> bool {
        self.time.saturating_add(frame_time) * self.fps > 1000
    }

    /// The frame clock after `frame_time` more milliseconds.
    pub open spec fn spec_time_after(&self, frame_time: u32) -> u32 {
        if self.frame_due(frame_time) {
            0
        } else {
            self.time.saturating_add(frame_time)
        }
    }

    /// The frame showing after `frame_time` more milliseconds.
    pub open spec fn spec_index_after(&self, frame_time: u32) -> int {
        if self.frame_due(frame_time) {
            (self.frame_index + 1) % (self.frames@.len() as int)
        } else {
            self.frame_index as int
        }
    }

    /// The sprite after `frame_time` more milliseconds.
    pub open spec fn spec_after(&self, frame_time: u32) -> AnimatedSprite {
        AnimatedSprite {
            time: self.spec_time_after(frame_time),
            frame_index: self.spec_index_after(frame_time) as usize,
            ..*self
        }
    }

    /// Advances the animation clock by `frame_time` milliseconds.  When the
    /// current frame has been showing for more than `1000 / fps`
    /// milliseconds the next frame is shown, wrapping around after the last,
    /// and the clock starts again.  A sprite with `fps == 0` never advances.
    pub fn update(&mut self, frame_time: u32)
        requires
            old(self).wf(),
        ensures
            *final(self) == old(self).spec_after(frame_time),
            final(self).wf(),
    {
        let t: u32 = self.time.saturating_add(frame_time);
        let len = self.frames.len();
        assert(t * self.fps <= 0xFFFF_FFFF * 0xFF) by (nonlinear_arith)
            requires
                0 <= t <= 0xFFFF_FFFF,
                0 <= self.fps <= 0xFF,
        ;
        if t as u64 * self.fps as u64 > 1000 {
            let next = self.frame_index + 1;
            if next == len {
                proof {
                    vstd::arithmetic::div_mod::lemma_mod_self_0(next as int);
                }
                self.frame_index = 0;
            } else {
                proof {
                    vstd::arithmetic::div_mod::lemma_small_mod(
                        next as nat,
                        self.frames@.len() as nat,
                    );
                }
                self.frame_index = next;
            }
            self.time = 0;
        } else {
            self.time = t;
        }
    }
}

} // verus!
