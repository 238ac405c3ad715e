//! A level's own state and rules: its bricks, its paddle, the running score,
//! and how the contacts of a frame kill bricks.
use vstd::prelude::*;
use crate::brick::Brick;
use crate::layout::{brick_layout, lemma_maps_fit, lemma_take_step, level_plan, map_levels, spec_map_levels, BrickPlan};
use crate::paddle::{clamp_x, Paddle};
use crate::prelude::{SpriteAction, VRect};

verus! {

/// Horizontal centre of the ball a level puts in when it restarts.
pub const BALL_START_X: i32 = 50;

/// Vertical centre of the ball a level puts in when it restarts.
pub const BALL_START_Y: i32 = 166;

/// Half the size of a ball.
pub const BALL_RADIUS: i32 = 8;

/// A contact between two colliders, as the physics world reports it: the
/// two started touching, or the two stopped touching.
#[derive(Clone, Copy, Debug, PartialEq, Eq, Structural)]
pub enum Contact {
    Started(usize, usize),
    Stopped(usize, usize),
}

/// A sound the level asks to be played.
#[derive(Clone, Copy, Debug, PartialEq, Eq, Structural)]
pub enum SoundCue {
    BrickDeath,
    Bounce,
}

/// What resolving a frame's contacts asks of the world outside the level: the
/// colliders to take out of the physics world, in order, and the sounds to
/// play, in order.
pub struct CollisionReport {
    pub removed: Vec<usize>,
    pub sounds: Vec<SoundCue>,
}

/// A ball's collider takes part in the contact between `h1` and `h2`.
pub open spec fn ball_in_contact(balls: Seq<usize>, h1: usize, h2: usize) -> bool {
    exists|m: int| 0 <= m < balls.len() && (balls[m] == h1 || balls[m] == h2)
}

/// A contact between `h1` and `h2` in which a ball took part (`ball`) kills
/// a brick that is not already dying and whose collider is one of the two.
pub open spec fn brick_hit(b: Brick, h1: usize, h2: usize, ball: bool) -> bool {
    ball && !b.dying && (b.handle == h1 || b.handle == h2)
}

/// The bricks after such a contact.
pub open spec fn bricks_after_contact(bricks: Seq<Brick>, h1: usize, h2: usize, ball: bool) -> Seq<Brick> {
    Seq::new(
        bricks.len(),
        |i: int|
            if brick_hit(bricks[i], h1, h2, ball) {
                bricks[i].spec_killed()
            } else {
                bricks[i]
            },
    )
}

/// The colliders of the bricks that such a contact kills, in brick order.
pub open spec fn handles_hit(bricks: Seq<Brick>, h1: usize, h2: usize, ball: bool) -> Seq<usize>
    decreases bricks.len(),
{
    if bricks.len() == 0 {
        Seq::empty()
    } else {
        let rest = handles_hit(bricks.drop_last(), h1, h2, ball);
        if brick_hit(bricks.last(), h1, h2, ball) {
            rest.push(bricks.last().handle)
        } else {
            rest
        }
    }
}

/// `n` brick-death sounds.
pub open spec fn death_cues(n: nat) -> Seq<SoundCue> {
    Seq::new(n, |i: int| SoundCue::BrickDeath)
}

/// The sounds of a contact that ended: one brick death per brick killed, or a
/// bounce when none was.
pub open spec fn contact_sounds(killed: nat) -> Seq<SoundCue> {
    if killed > 0 {
        death_cues(killed)
    } else {
        seq![SoundCue::Bounce]
    }
}

/// The bricks, the colliders to remove and the sounds after a frame's
/// contacts are taken in order; a contact that started changes nothing.
pub open spec fn resolve_contacts(contacts: Seq<Contact>, bricks: Seq<Brick>, balls: Seq<usize>) -> (
    Seq<Brick>,
    Seq<usize>,
    Seq<SoundCue>,
)
    decreases contacts.len(),
{
    if contacts.len() == 0 {
        (bricks, Seq::empty(), Seq::empty())
    } else {
        let (b0, r0, s0) = resolve_contacts(contacts.drop_last(), bricks, balls);
        match contacts.last() {
            Contact::Started(_, _) => (b0, r0, s0),
            Contact::Stopped(h1, h2) => {
                let ball = ball_in_contact(balls, h1, h2);
                let hit = handles_hit(b0, h1, h2, ball);
                (bricks_after_contact(b0, h1, h2, ball), r0 + hit, s0 + contact_sounds(hit.len()))
            },
        }
    }
}

/// How many of the bricks are standing, not dying.
pub open spec fn count_standing(bricks: Seq<Brick>) -> nat
    decreases bricks.len(),
{
    if bricks.len() == 0 {
        0
    } else {
        count_standing(bricks.drop_last()) + if bricks.last().dying {
            0nat
        } else {
            1nat
        }
    }
}

proof fn lemma_contact_counts(bricks: Seq<Brick>, h1: usize, h2: usize, ball: bool)
    ensures
        count_standing(bricks_after_contact(bricks, h1, h2, ball)) + handles_hit(bricks, h1, h2, ball).len()
            == count_standing(bricks),
    decreases bricks.len(),
{
    if bricks.len() > 0 {
        lemma_contact_counts(bricks.drop_last(), h1, h2, ball);
        assert(bricks_after_contact(bricks, h1, h2, ball).drop_last() =~= bricks_after_contact(
            bricks.drop_last(),
            h1,
            h2,
            ball,
        ));
    }
}

proof fn lemma_handles_hit_members(bricks: Seq<Brick>, h1: usize, h2: usize, ball: bool)
    ensures
        forall|i: int|
            0 <= i < bricks.len() && #[trigger] brick_hit(bricks[i], h1, h2, ball) ==> handles_hit(
                bricks,
                h1,
                h2,
                ball,
            ).contains(bricks[i].handle),
        forall|t: usize|
            #[trigger] handles_hit(bricks, h1, h2, ball).contains(t) ==> exists|i: int|
                0 <= i < bricks.len() && brick_hit(bricks[i], h1, h2, ball) && bricks[i].handle == t,
        handles_hit(bricks, h1, h2, ball).len() <= bricks.len(),
    decreases bricks.len(),
{
    if bricks.len() > 0 {
        let rest = bricks.drop_last();
        lemma_handles_hit_members(rest, h1, h2, ball);
        let hr = handles_hit(rest, h1, h2, ball);
        let h = handles_hit(bricks, h1, h2, ball);
        assert forall|i: int|
            0 <= i < bricks.len() && #[trigger] brick_hit(bricks[i], h1, h2, ball) implies h.contains(
                bricks[i].handle,
            ) by {
            if i < bricks.len() - 1 {
                assert(rest[i] == bricks[i]);
                assert(brick_hit(rest[i], h1, h2, ball));
                let k = choose|k: int| 0 <= k < hr.len() && hr[k] == rest[i].handle;
                assert(h[k] == hr[k]);
            } else {
                assert(h[h.len() - 1] == bricks[i].handle);
            }
        }
        assert forall|t: usize| #[trigger] h.contains(t) implies exists|i: int|
            0 <= i < bricks.len() && brick_hit(bricks[i], h1, h2, ball) && bricks[i].handle == t by {
            let k = choose|k: int| 0 <= k < h.len() && h[k] == t;
            if k < hr.len() {
                assert(hr[k] == t);
                assert(hr.contains(t));
                let i = choose|i: int| 0 <= i < rest.len() && brick_hit(rest[i], h1, h2, ball) && rest[i].handle == t;
                assert(rest[i] == bricks[i]);
            } else {
                assert(brick_hit(bricks[bricks.len() - 1], h1, h2, ball));
            }
        }
    }
}

/// One contact that stopped, between colliders `h1` and `h2`: when one of
/// the two is a ball's, every brick that was standing and whose collider is
/// one of the two starts dying and its collider is to be removed, whatever
/// its place among the bricks; every other brick stays as it was. Only
/// colliders of such bricks are removed, each of them plays a brick-death
/// sound, and a contact that kills nothing plays one bounce.
pub proof fn lemma_stopped_contact(bricks: Seq<Brick>, balls: Seq<usize>, h1: usize, h2: usize)
    ensures
        ({
            let r = resolve_contacts(seq![Contact::Stopped(h1, h2)], bricks, balls);
            let ball = exists|m: int| 0 <= m < balls.len() && (balls[m] == h1 || balls[m] == h2);
            &&& r.0.len() == bricks.len()
            &&& forall|i: int|
                0 <= i < bricks.len() && ball && !bricks[i].dying && (bricks[i].handle == h1 || bricks[i].handle
                    == h2) ==> {
                    &&& #[trigger] r.0[i] == (Brick { dying: true, ..bricks[i] })
                    &&& r.1.contains(bricks[i].handle)
                }
            &&& forall|i: int|
                0 <= i < bricks.len() && !(ball && !bricks[i].dying && (bricks[i].handle == h1
                    || bricks[i].handle == h2)) ==> #[trigger] r.0[i] == bricks[i]
            &&& forall|t: usize|
                #[trigger] r.1.contains(t) ==> ball && (t == h1 || t == h2) && exists|i: int|
                    0 <= i < bricks.len() && !bricks[i].dying && bricks[i].handle == t
            &&& r.1.len() <= bricks.len()
            &&& r.2 == if r.1.len() > 0 {
                Seq::new(r.1.len(), |i: int| SoundCue::BrickDeath)
            } else {
                seq![SoundCue::Bounce]
            }
        }),
{
    let c = seq![Contact::Stopped(h1, h2)];
    assert(c.drop_last() =~= Seq::<Contact>::empty());
    assert(resolve_contacts(c.drop_last(), bricks, balls) == (bricks, Seq::<usize>::empty(), Seq::<SoundCue>::empty()));
    let ball = ball_in_contact(balls, h1, h2);
    lemma_handles_hit_members(bricks, h1, h2, ball);
    let hit = handles_hit(bricks, h1, h2, ball);
    let r = resolve_contacts(c, bricks, balls);
    assert(r.0 == bricks_after_contact(bricks, h1, h2, ball));
    assert(r.1 =~= hit);
    assert(r.2 =~= contact_sounds(hit.len()));
    if hit.len() > 0 {
        assert(r.2 =~= Seq::new(r.1.len(), |i: int| SoundCue::BrickDeath));
    }
}

/// Taking contacts one after the other: resolving a run of contacts and then
/// another run, from the bricks the first run left, is resolving both runs at
/// once; the colliders to remove and the sounds follow one another.
pub proof fn lemma_contacts_compose(first: Seq<Contact>, then: Seq<Contact>, bricks: Seq<Brick>, balls: Seq<usize>)
    ensures
        ({
            let r1 = resolve_contacts(first, bricks, balls);
            let r2 = resolve_contacts(then, r1.0, balls);
            resolve_contacts(first + then, bricks, balls) == (r2.0, r1.1 + r2.1, r1.2 + r2.2)
        }),
    decreases then.len(),
{
    let r1 = resolve_contacts(first, bricks, balls);
    if then.len() == 0 {
        assert(first + then =~= first);
        assert(r1.1 + Seq::<usize>::empty() =~= r1.1);
        assert(r1.2 + Seq::<SoundCue>::empty() =~= r1.2);
    } else {
        lemma_contacts_compose(first, then.drop_last(), bricks, balls);
        assert((first + then).drop_last() =~= first + then.drop_last());
        assert((first + then).last() == then.last());
        let r2p = resolve_contacts(then.drop_last(), r1.0, balls);
        match then.last() {
            Contact::Started(_, _) => {},
            Contact::Stopped(h1, h2) => {
                let ball = ball_in_contact(balls, h1, h2);
                let hit = handles_hit(r2p.0, h1, h2, ball);
                assert(r1.1 + r2p.1 + hit =~= r1.1 + (r2p.1 + hit));
                assert(r1.2 + r2p.2 + contact_sounds(hit.len()) =~= r1.2 + (r2p.2 + contact_sounds(hit.len())));
            },
        }
    }
}

/// A contact that started changes nothing and asks for nothing.
pub proof fn lemma_started_contact(bricks: Seq<Brick>, balls: Seq<usize>, h1: usize, h2: usize)
    ensures
        resolve_contacts(seq![Contact::Started(h1, h2)], bricks, balls) == (
            bricks,
            Seq::<usize>::empty(),
            Seq::<SoundCue>::empty(),
        ),
{
    let c = seq![Contact::Started(h1, h2)];
    assert(c.drop_last() =~= Seq::<Contact>::empty());
    assert(resolve_contacts(c.drop_last(), bricks, balls) == (bricks, Seq::<usize>::empty(), Seq::<SoundCue>::empty()));
}

/// Contacts never move, revive or otherwise change a brick, save that a
/// standing brick may start dying; and the standing bricks they cost are
/// exactly the colliders they ask to remove, so a brick is killed, and scored,
/// at most once.
pub proof fn lemma_contacts_only_kill(contacts: Seq<Contact>, bricks: Seq<Brick>, balls: Seq<usize>)
    ensures
        resolve_contacts(contacts, bricks, balls).0.len() == bricks.len(),
        forall|i: int|
            0 <= i < bricks.len() ==> {
                let after = #[trigger] resolve_contacts(contacts, bricks, balls).0[i];
                after == bricks[i] || (!bricks[i].dying && after == bricks[i].spec_killed())
            },
        count_standing(resolve_contacts(contacts, bricks, balls).0) + resolve_contacts(contacts, bricks, balls).1.len()
            == count_standing(bricks),
    decreases contacts.len(),
{
    if contacts.len() > 0 {
        lemma_contacts_only_kill(contacts.drop_last(), bricks, balls);
        let (b0, r0, s0) = resolve_contacts(contacts.drop_last(), bricks, balls);
        match contacts.last() {
            Contact::Started(_, _) => {},
            Contact::Stopped(h1, h2) => {
                let ball = ball_in_contact(balls, h1, h2);
                lemma_contact_counts(b0, h1, h2, ball);
                let after = bricks_after_contact(b0, h1, h2, ball);
                assert forall|i: int| 0 <= i < bricks.len() implies {
                    let a = #[trigger] resolve_contacts(contacts, bricks, balls).0[i];
                    a == bricks[i] || (!bricks[i].dying && a == bricks[i].spec_killed())
                } by {
                    assert(resolve_contacts(contacts, bricks, balls).0[i] == after[i]);
                    let x = resolve_contacts(contacts.drop_last(), bricks, balls).0[i];
                    assert(x == b0[i]);
                }
            },
        }
    }
}

/// Whether one of the balls' colliders is `h1` or `h2`.
fn ball_touches(balls: &Vec<usize>, h1: usize, h2: usize) -> (t: bool)
    ensures
        t == ball_in_contact(balls@, h1, h2),
{
    let mut m: usize = 0;
    while m < balls.len()
        invariant
            m <= balls.len(),
            forall|n: int| 0 <= n < m ==> balls@[n] != h1 && balls@[n] != h2,
        decreases balls.len() - m,
    {
        if balls[m] == h1 || balls[m] == h2 {
            return true;
        }
        m += 1;
    }
    false
}

/// Whether a brick stays after its update.
fn survives_update(brick: &Brick) -> (keep: bool)
    ensures
        keep == (brick.spec_update() != SpriteAction::Kill),
{
    match brick.update() {
        SpriteAction::Kill => false,
        _ => true,
    }
}

/// Keeps the bricks that survive their update, in their order, through
/// `retain_mut::RetainMut::retain_mut`. The contract claims what that
/// method's documentation states: it visits each element once, in order,
/// removes those for which the predicate returns `false` and keeps the order
/// of the rest; the predicate here only reads the brick.
#[verifier::external_body]
fn retain_surviving(bricks: &mut Vec<Brick>)
    ensures
        final(bricks)@ == old(bricks)@.filter(|b: Brick| b.spec_update() != SpriteAction::Kill),
{
    #[allow(deprecated)]
    retain_mut::RetainMut::retain_mut(bricks, |brick: &mut Brick| survives_update(brick));
}

/// The frame's contacts taken in order against `bricks`: the bricks they
/// kill start dying, and what is to be removed and played is returned.
fn resolve_frame(bricks: &mut Vec<Brick>, contacts: &Vec<Contact>, balls: &Vec<usize>) -> (report: CollisionReport)
    ensures
        final(bricks)@ == resolve_contacts(contacts@, old(bricks)@, balls@).0,
        report.removed@ == resolve_contacts(contacts@, old(bricks)@, balls@).1,
        report.sounds@ == resolve_contacts(contacts@, old(bricks)@, balls@).2,
{
    let ghost b_start = old(bricks)@;
    let mut removed: Vec<usize> = Vec::new();
    let mut sounds: Vec<SoundCue> = Vec::new();
    let mut k: usize = 0;
    while k < contacts.len()
        invariant
            k <= contacts@.len(),
            (bricks@, removed@, sounds@) == resolve_contacts(contacts@.take(k as int), b_start, balls@),
        decreases contacts.len() - k,
    {
        proof {
            lemma_take_step(contacts@, k as int);
        }
        match contacts[k] {
            Contact::Started(_, _) => {},
            Contact::Stopped(h1, h2) => {
                let ghost before = bricks@;
                let ghost removed_before = removed@;
                let ghost sounds_before = sounds@;
                let ghost ball = ball_in_contact(balls@, h1, h2);
                let mut brick_death = false;
                let mut j: usize = 0;
                while j < bricks.len()
                    invariant
                        j <= bricks@.len(),
                        bricks@.len() == before.len(),
                        forall|i: int|
                            0 <= i < j ==> #[trigger] bricks@[i] == bricks_after_contact(
                                before,
                                h1,
                                h2,
                                ball,
                            )[i],
                        forall|i: int| j <= i < before.len() ==> #[trigger] bricks@[i] == before[i],
                        removed@ == removed_before + handles_hit(before.take(j as int), h1, h2, ball),
                        sounds@ == sounds_before + death_cues(
                            handles_hit(before.take(j as int), h1, h2, ball).len(),
                        ),
                        brick_death == (handles_hit(before.take(j as int), h1, h2, ball).len() > 0),
                        ball == ball_in_contact(balls@, h1, h2),
                    decreases before.len() - j,
                {
                    proof {
                        lemma_take_step(before, j as int);
                    }
                    let brick = bricks[j];
                    if !brick.dying() && (h2 == brick.handle() || h1 == brick.handle()) && ball_touches(
                        balls,
                        h1,
                        h2,
                    ) {
                        removed.push(brick.handle());
                        let mut killed = brick;
                        killed.kill();
                        bricks.set(j, killed);
                        sounds.push(SoundCue::BrickDeath);
                        brick_death = true;
                        assert(sounds@ =~= sounds_before + death_cues(
                            handles_hit(before.take(j + 1), h1, h2, ball).len(),
                        ));
                    }
                    j += 1;
                }
                assert(before.take(j as int) =~= before);
                assert(bricks@ =~= bricks_after_contact(before, h1, h2, ball));
                if !brick_death {
                    sounds.push(SoundCue::Bounce);
                }
                assert(sounds@ =~= sounds_before + contact_sounds(handles_hit(before, h1, h2, ball).len()));
            },
        }
        k += 1;
    }
    assert(contacts@.take(contacts@.len() as int) =~= contacts@);
    CollisionReport { removed, sounds }
}

/// The state of a level that its rules read and change: the maps, the
/// bricks of the level in play, the paddle and the running score.
pub struct Level {
    pub map_levels: Vec<Vec<Vec<char>>>,
    pub bricks: Vec<Brick>,
    pub paddle: Paddle,
    pub total_score: i32,
}

/// The paddle a level starts with: 48 by 16, centred low on the playfield,
/// free to move across the whole playfield.
pub open spec fn initial_paddle() -> Paddle {
    Paddle {
        region: VRect { x: 160, y: 40, x_radius: 24, y_radius: 8 },
        bounds: VRect { x: 160, y: 208, x_radius: 160, y_radius: 208 },
    }
}

impl Level {
    /// The maps are the game's maps and the paddle can be clamped.
    pub open spec fn wf(&self) -> bool {
        &&& self.map_levels.deep_view() == spec_map_levels()
        &&& self.paddle.wf()
    }

    /// A level before any map is laid out: no bricks, the starting paddle and
    /// the score carried over.
    pub fn new(total_score: i32) -> (l: Level)
        ensures
            l.wf(),
            l.bricks@.len() == 0,
            l.paddle == initial_paddle(),
            l.total_score == total_score,
    {
        let paddle = Paddle::new(VRect::new(160, 40, 24, 8), VRect::new(160, 208, 160, 208));
        Level { map_levels: map_levels(), bricks: Vec::new(), paddle, total_score }
    }

    /// How many maps the game has.
    pub fn level_count(&self) -> (n: usize)
        requires
            self.wf(),
        ensures
            n == spec_map_levels().len(),
            n == 4,
    {
        proof {
            lemma_maps_fit();
        }
        self.map_levels.len()
    }

    /// The bricks of map `level_number`, or `None` past the last map.
    pub fn brick_plan(&self, level_number: usize) -> (plan: Option<Vec<BrickPlan>>)
        requires
            self.wf(),
        ensures
            level_number >= spec_map_levels().len() <==> plan is None,
            plan matches Some(p) ==> p@ == level_plan(spec_map_levels()[level_number as int]),
    {
        proof {
            lemma_maps_fit();
        }
        if level_number >= self.map_levels.len() {
            return None;
        }
        assert(self.map_levels[level_number as int].deep_view() == spec_map_levels()[level_number as int]);
        Some(brick_layout(&self.map_levels[level_number]))
    }

    /// Lays out the planned bricks, the `i`th standing on collider `handles[i]`,
    /// in place of the bricks there were.
    pub fn place_bricks(&mut self, plan: &Vec<BrickPlan>, handles: &Vec<usize>)
        requires
            plan@.len() == handles@.len(),
        ensures
            final(self).bricks@.len() == plan@.len(),
            forall|i: int|
                0 <= i < plan@.len() ==> #[trigger] final(self).bricks@[i] == (Brick {
                    handle: handles@[i],
                    region: plan@[i].region,
                    dying: false,
                    animation_ended: false,
                }),
            final(self).map_levels == old(self).map_levels,
            final(self).paddle == old(self).paddle,
            final(self).total_score == old(self).total_score,
    {
        let mut bricks: Vec<Brick> = Vec::new();
        let mut i: usize = 0;
        while i < plan.len()
            invariant
                plan@.len() == handles@.len(),
                i <= plan@.len(),
                bricks@.len() == i,
                forall|k: int|
                    0 <= k < i ==> #[trigger] bricks@[k] == (Brick {
                        handle: handles@[k],
                        region: plan@[k].region,
                        dying: false,
                        animation_ended: false,
                    }),
            decreases plan.len() - i,
        {
            bricks.push(Brick::new(plan[i].region, handles[i]));
            i += 1;
        }
        self.bricks = bricks;
    }

    /// Updates each brick and removes those that asked to be removed.
    pub fn remove_finished_bricks(&mut self)
        ensures
            final(self).bricks@ == old(self).bricks@.filter(|b: Brick| b.spec_update() != SpriteAction::Kill),
            final(self).map_levels == old(self).map_levels,
            final(self).paddle == old(self).paddle,
            final(self).total_score == old(self).total_score,
    {
        retain_surviving(&mut self.bricks);
    }

    /// Moves the paddle after the pointer.
    pub fn on_mouse_move(&mut self, x: i32, _y: i32)
        requires
            old(self).wf(),
        ensures
            final(self).wf(),
            final(self).paddle.region.x == clamp_x(
                x as int,
                old(self).paddle.region.x_radius as int,
                old(self).paddle.bounds,
            ),
            final(self).paddle.region.y == old(self).paddle.region.y,
            final(self).paddle.region.x_radius == old(self).paddle.region.x_radius,
            final(self).paddle.region.y_radius == old(self).paddle.region.y_radius,
            final(self).paddle.bounds == old(self).paddle.bounds,
            final(self).map_levels == old(self).map_levels,
            final(self).bricks == old(self).bricks,
            final(self).total_score == old(self).total_score,
    {
        self.paddle.set_position(x);
    }

    /// The level's part of a frame, once the world has reported the frame's
    /// contacts and the balls' colliders: the bricks whose death animation
    /// ended are removed, the paddle is updated, then the contacts are taken
    /// in order against the remaining bricks.
    pub fn update(&mut self, contacts: &Vec<Contact>, balls: &Vec<usize>) -> (report: CollisionReport)
        requires
            old(self).total_score + 100 * resolve_contacts(
                contacts@,
                old(self).bricks@.filter(|b: Brick| b.spec_update() != SpriteAction::Kill),
                balls@,
            ).1.len() <= i32::MAX,
        ensures
            ({
                let standing = old(self).bricks@.filter(|b: Brick| b.spec_update() != SpriteAction::Kill);
                let r = resolve_contacts(contacts@, standing, balls@);
                &&& final(self).bricks@ == r.0
                &&& report.removed@ == r.1
                &&& report.sounds@ == r.2
                &&& final(self).total_score == old(self).total_score + 100 * r.1.len()
            }),
            final(self).map_levels == old(self).map_levels,
            final(self).paddle == old(self).paddle,
    {
        self.remove_finished_bricks();
        let _action = self.paddle.update();
        self.check_sprite_collision(contacts, balls)
    }

    /// Takes the frame's contacts in order. A contact that stopped and in
    /// which a ball took part kills each brick, not already dying, whose
    /// collider is one of the two: its collider is to be removed, 100 points
    /// are scored and a brick-death sound plays; a stopped contact that kills
    /// no brick plays a bounce. The score thus never falls and rises by 100
    /// for each brick that was standing and now dies.
    pub fn check_sprite_collision(&mut self, contacts: &Vec<Contact>, balls: &Vec<usize>) -> (report:
        CollisionReport)
        requires
            old(self).total_score + 100 * resolve_contacts(contacts@, old(self).bricks@, balls@).1.len()
                <= i32::MAX,
        ensures
            final(self).bricks@ == resolve_contacts(contacts@, old(self).bricks@, balls@).0,
            report.removed@ == resolve_contacts(contacts@, old(self).bricks@, balls@).1,
            report.sounds@ == resolve_contacts(contacts@, old(self).bricks@, balls@).2,
            final(self).total_score == old(self).total_score + 100 * report.removed@.len(),
            old(self).total_score <= final(self).total_score <= old(self).total_score + 100 * count_standing(
                old(self).bricks@,
            ),
            final(self).map_levels == old(self).map_levels,
            final(self).paddle == old(self).paddle,
    {
        proof {
            lemma_contacts_only_kill(contacts@, self.bricks@, balls@);
        }
        let report = resolve_frame(&mut self.bricks, contacts, balls);
        self.total_score = (self.total_score as i64 + 100 * (report.removed.len() as i64)) as i32;
        report
    }

    /// Whether the score of the frame that `update` would run with these
    /// contacts and balls still fits: the bound that `update` needs.
    pub fn update_fits(&self, contacts: &Vec<Contact>, balls: &Vec<usize>) -> (fits: bool)
        ensures
            fits == (self.total_score + 100 * resolve_contacts(
                contacts@,
                self.bricks@.filter(|b: Brick| b.spec_update() != SpriteAction::Kill),
                balls@,
            ).1.len() <= i32::MAX),
    {
        let mut scratch: Vec<Brick> = Vec::new();
        let mut i: usize = 0;
        while i < self.bricks.len()
            invariant
                i <= self.bricks@.len(),
                scratch@ == self.bricks@.take(i as int),
            decreases self.bricks.len() - i,
        {
            scratch.push(self.bricks[i]);
            i += 1;
            assert(scratch@ =~= self.bricks@.take(i as int));
        }
        assert(scratch@ =~= self.bricks@);
        retain_surviving(&mut scratch);
        let report = resolve_frame(&mut scratch, contacts, balls);
        (self.total_score as i128) + 100 * (report.removed.len() as i128) <= i32::MAX as i128
    }
}

} // verus!
