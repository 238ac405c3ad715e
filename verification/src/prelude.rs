//! Shared geometry of the playfield and the action a sprite asks for.
use vstd::prelude::*;

verus! {

/// Width of the playfield, in pixels.
pub const WINDOW_WIDTH: i32 = 320;

/// Height of the playfield, in pixels.
pub const WINDOW_HEIGHT: i32 = 416;

/// Game updates per second.
pub const UPDATE_RATE: u64 = 60;

/// What a sprite asks its owner to do after an update: nothing, to be
/// removed, or to have a sprite added.
#[derive(Clone, Copy, Debug, PartialEq, Eq, Structural)]
pub enum SpriteAction {
    Nothing,
    Kill,
    _AddSprite,
}

/// An axis-aligned rectangle given by its centre and its two half-extents,
/// in playfield coordinates (the y axis points up).
#[derive(Clone, Copy, Debug, PartialEq, Eq, Structural)]
pub struct VRect {
    pub x: i32,
    pub y: i32,
    pub x_radius: i32,
    pub y_radius: i32,
}

/// A rectangle in screen coordinates (the y axis points down): the top-left
/// corner, the width and the height.
#[derive(Clone, Copy, Debug, PartialEq, Eq, Structural)]
pub struct ScreenRect {
    pub left: i64,
    pub top: i64,
    pub width: i64,
    pub height: i64,
}

impl VRect {
    /// Left edge.
    pub open spec fn left(self) -> int {
        self.x - self.x_radius
    }

    /// Top edge.
    pub open spec fn top(self) -> int {
        self.y + self.y_radius
    }

    /// Right edge.
    pub open spec fn right(self) -> int {
        self.x + self.x_radius
    }

    /// Bottom edge.
    pub open spec fn bottom(self) -> int {
        self.y - self.y_radius
    }

    /// Full width.
    pub open spec fn width(self) -> int {
        self.x_radius * 2
    }

    /// Full height.
    pub open spec fn height(self) -> int {
        self.y_radius * 2
    }

    pub fn new(x: i32, y: i32, x_radius: i32, y_radius: i32) -> (r: VRect)
        ensures
            r == (VRect { x, y, x_radius, y_radius }),
    {
        VRect { x, y, x_radius, y_radius }
    }

    /// Moves the centre to `(x, y)`; the half-extents stay.
    pub fn move_to(&mut self, x: i32, y: i32)
        ensures
            *final(self) == (VRect { x, y, x_radius: old(self).x_radius, y_radius: old(self).y_radius }),
    {
        self.x = x;
        self.y = y;
    }

    pub fn l(&self) -> (v: i64)
        ensures
            v == self.left(),
    {
        self.x as i64 - self.x_radius as i64
    }

    pub fn t(&self) -> (v: i64)
        ensures
            v == self.top(),
    {
        self.y as i64 + self.y_radius as i64
    }

    pub fn r(&self) -> (v: i64)
        ensures
            v == self.right(),
    {
        self.x as i64 + self.x_radius as i64
    }

    pub fn _b(&self) -> (v: i64)
        ensures
            v == self.bottom(),
    {
        self.y as i64 - self.y_radius as i64
    }

    pub fn w(&self) -> (v: i64)
        ensures
            v == self.width(),
    {
        self.x_radius as i64 * 2
    }

    pub fn h(&self) -> (v: i64)
        ensures
            v == self.height(),
    {
        self.y_radius as i64 * 2
    }

    /// Where a sprite occupying this rectangle is drawn: the playfield's y
    /// axis is flipped against the window's height.
    pub open spec fn spec_screen_rect(self) -> ScreenRect {
        ScreenRect {
            left: self.left() as i64,
            top: (WINDOW_HEIGHT - self.top()) as i64,
            width: self.width() as i64,
            height: self.height() as i64,
        }
    }

    /// The rectangle in window coordinates that a sprite on this region is
    /// drawn into.
    pub fn screen_rect(&self) -> (s: ScreenRect)
        ensures
            s == self.spec_screen_rect(),
            s.left == self.left(),
            s.top == WINDOW_HEIGHT - self.top(),
            s.width == self.width(),
            s.height == self.height(),
    {
        ScreenRect { left: self.l(), top: WINDOW_HEIGHT as i64 - self.t(), width: self.w(), height: self.h() }
    }
}

} // verus!
