//! A brick of the wall: where it is, which collider stands for it, and where
//! it is in its life: standing, dying (its death animation plays) or gone.
use vstd::prelude::*;
use crate::prelude::{SpriteAction, VRect};

verus! {

/// A brick. The collider that the physics world keeps for it is known here
/// by its handle; whether its death animation is playing or has ended is what
/// the animation reported last.
#[derive(Clone, Copy, Debug, PartialEq, Eq, Structural)]
pub struct Brick {
    pub handle: usize,
    pub region: VRect,
    pub dying: bool,
    pub animation_ended: bool,
}

impl Brick {
    /// The brick after `kill`: its death animation plays.
    pub open spec fn spec_killed(self) -> Brick {
        Brick { dying: true, ..self }
    }

    /// What `update` asks for: removal once the death animation has ended.
    pub open spec fn spec_update(self) -> SpriteAction {
        if self.animation_ended {
            SpriteAction::Kill
        } else {
            SpriteAction::Nothing
        }
    }

    /// A standing brick on `region`, whose collider has handle `handle`.
    pub fn new(region: VRect, handle: usize) -> (b: Brick)
        ensures
            b == (Brick { handle, region, dying: false, animation_ended: false }),
    {
        Brick { handle, region, dying: false, animation_ended: false }
    }

    /// Whether the brick's death animation is playing.
    pub fn dying(&self) -> (d: bool)
        ensures
            d == self.dying,
    {
        self.dying
    }

    /// The handle of the brick's collider.
    pub fn handle(&self) -> (h: usize)
        ensures
            h == self.handle,
    {
        self.handle
    }

    /// Records what the brick's animation reports after it advanced: whether
    /// it is playing and whether it has reached its end.
    pub fn observe_animation(&mut self, active: bool, ended: bool)
        ensures
            *final(self) == (Brick { dying: active, animation_ended: ended, ..*old(self) }),
    {
        self.dying = active;
        self.animation_ended = ended;
    }

    /// Once the death animation has ended the brick asks to be removed.
    pub fn update(&self) -> (a: SpriteAction)
        ensures
            a == self.spec_update(),
    {
        if self.animation_ended {
            SpriteAction::Kill
        } else {
            SpriteAction::Nothing
        }
    }

    /// Starts the brick's death.
    pub fn kill(&mut self)
        ensures
            *final(self) == old(self).spec_killed(),
    {
        self.dying = true;
    }
}

} // verus!
