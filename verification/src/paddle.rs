//! The paddle: it follows the pointer across the bottom of the playfield but
//! never leaves its bounds.
use vstd::prelude::*;
use crate::prelude::{SpriteAction, VRect};

verus! {

/// The paddle's region and the rectangle it must stay inside.
#[derive(Clone, Copy, Debug, PartialEq, Eq, Structural)]
pub struct Paddle {
    pub region: VRect,
    pub bounds: VRect,
}

/// Where the paddle's centre ends up when asked to move to `x`: first pushed
/// right so its left edge is not left of the bounds, then pushed left so its
/// right edge is not right of the bounds.
pub open spec fn clamp_x(x: int, x_radius: int, bounds: VRect) -> int {
    let x1 = if x - x_radius < bounds.left() {
        bounds.left() + x_radius
    } else {
        x
    };
    if x1 + x_radius > bounds.right() {
        bounds.right() - x_radius
    } else {
        x1
    }
}

impl Paddle {
    /// Both positions that clamping can produce fit a 32-bit coordinate.
    pub open spec fn wf(self) -> bool {
        &&& i32::MIN <= self.bounds.left() + self.region.x_radius <= i32::MAX
        &&& i32::MIN <= self.bounds.right() - self.region.x_radius <= i32::MAX
    }

    /// Where the paddle's collider stands: the top of a circle whose centre
    /// lies two half-heights below the paddle's centre.
    pub open spec fn spec_collider_position(self) -> (int, int) {
        (self.region.x as int, self.region.y - self.region.y_radius * 2)
    }

    pub fn new(region: VRect, bounds: VRect) -> (p: Paddle)
        ensures
            p == (Paddle { region, bounds }),
    {
        Paddle { region, bounds }
    }

    /// The centre of the paddle's collider.
    pub fn collider_position(&self) -> (c: (i64, i64))
        ensures
            c.0 == self.spec_collider_position().0,
            c.1 == self.spec_collider_position().1,
    {
        (self.region.x as i64, self.region.y as i64 - self.region.y_radius as i64 * 2)
    }

    /// Moves the paddle's centre to `x`, kept within the bounds; its height,
    /// size and bounds stay.
    pub fn set_position(&mut self, x: i32)
        requires
            old(self).wf(),
        ensures
            final(self).region.x == clamp_x(x as int, old(self).region.x_radius as int, old(self).bounds),
            final(self).region.y == old(self).region.y,
            final(self).region.x_radius == old(self).region.x_radius,
            final(self).region.y_radius == old(self).region.y_radius,
            final(self).bounds == old(self).bounds,
            final(self).wf(),
    {
        let y = self.region.y;
        self.region.move_to(x, y);
        if self.region.l() < self.bounds.l() {
            let nx = (self.bounds.l() + self.region.x_radius as i64) as i32;
            self.region.move_to(nx, y);
        }
        if self.region.r() > self.bounds.r() {
            let nx = (self.bounds.r() - self.region.x_radius as i64) as i32;
            self.region.move_to(nx, y);
        }
    }

    /// The paddle asks for nothing after an update.
    pub fn update(&self) -> (a: SpriteAction)
        ensures
            a == SpriteAction::Nothing,
    {
        SpriteAction::Nothing
    }
}

/// A paddle no wider than its bounds ends inside them wherever it is asked
/// to move, and a position that keeps it inside is taken as it is.
pub proof fn lemma_paddle_stays_in_bounds(x: int, region: VRect, bounds: VRect)
    requires
        region.width() <= bounds.width(),
    ensures
        bounds.left() <= clamp_x(x, region.x_radius as int, bounds) - region.x_radius,
        clamp_x(x, region.x_radius as int, bounds) + region.x_radius <= bounds.right(),
        bounds.left() <= x - region.x_radius && x + region.x_radius <= bounds.right()
            ==> clamp_x(x, region.x_radius as int, bounds) == x,
{
}

/// Moving the paddle twice to the same place leaves it where the first move
/// put it.
pub proof fn lemma_set_position_idempotent(x: int, region: VRect, bounds: VRect)
    requires
        region.width() <= bounds.width(),
    ensures
        clamp_x(clamp_x(x, region.x_radius as int, bounds), region.x_radius as int, bounds) == clamp_x(
            x,
            region.x_radius as int,
            bounds,
        ),
{
}

} // verus!
