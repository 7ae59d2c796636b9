//! The bird: gravity, flapping and vertical motion.

use super::{
    scaled, BIRD_ANIMATION_SPEED, BIRD_FRAMES, FALL_SPEED, FALL_VELOCITY_LIMIT, JUMP_AMOUNT, MOVE_SPEED,
};
use vstd::prelude::*;

verus! {

/// The bird as mathematics sees it.
pub struct BirdModel {
    pub velocity: int,
    pub x: int,
    pub y: int,
}

impl BirdModel {
    /// A flap replaces the velocity; it does not add to it.
    pub open spec fn jump(self) -> BirdModel {
        BirdModel { velocity: JUMP_AMOUNT as int, ..self }
    }

    /// Gravity acting for `dt` milliseconds, stopped at the terminal velocity.
    pub open spec fn fall(self, dt: int) -> BirdModel {
        let v = self.velocity - FALL_SPEED * dt;
        BirdModel {
            velocity: if v < FALL_VELOCITY_LIMIT {
                FALL_VELOCITY_LIMIT as int
            } else {
                v
            },
            ..self
        }
    }

    /// The bird carried by its velocity for `dt` milliseconds.
    pub open spec fn advance(self, dt: int) -> BirdModel {
        BirdModel { y: self.y + self.velocity * MOVE_SPEED * dt, ..self }
    }

    /// Gravity acting through a series of ticks, first to last.
    pub open spec fn fall_all(self, dts: Seq<nat>) -> BirdModel
        decreases dts.len(),
    {
        if dts.len() == 0 {
            self
        } else {
            self.fall_all(dts.drop_last()).fall(dts.last() as int)
        }
    }

    /// Whether the position and the velocity fit the machine representation.
    pub open spec fn representable(self) -> bool {
        &&& i64::MIN <= self.velocity <= i64::MAX
        &&& i64::MIN <= self.x <= i64::MAX
        &&& i64::MIN <= self.y <= i64::MAX
    }
}

/// Total length of a series of ticks.
pub open spec fn total_time(dts: Seq<nat>) -> int
    decreases dts.len(),
{
    if dts.len() == 0 {
        0
    } else {
        total_time(dts.drop_last()) + dts.last()
    }
}

/// Frame of the animation shown `elapsed_ms` milliseconds after the start.
pub open spec fn animation_frame(elapsed_ms: int) -> int {
    (elapsed_ms * BIRD_ANIMATION_SPEED / 1000) % (BIRD_FRAMES as int)
}

/// The bird: where it is and how fast it rises.
#[derive(Clone, Copy, Debug, PartialEq, Eq, Structural)]
pub struct Bird {
    pub velocity: i64,
    pub x: i64,
    pub y: i64,
}

impl View for Bird {
    type V = BirdModel;

    open spec fn view(&self) -> BirdModel {
        BirdModel { velocity: self.velocity as int, x: self.x as int, y: self.y as int }
    }
}

impl Default for Bird {
    /// A bird at rest at the origin.
    fn default() -> (bird: Bird)
        ensures
            bird@ == (BirdModel { velocity: 0, x: 0, y: 0 }),
    {
        Bird { velocity: 0, x: 0, y: 0 }
    }
}

/// Flaps: the velocity becomes `JUMP_AMOUNT`, whatever it was.
pub fn jump(bird: &mut Bird)
    ensures
        final(bird)@ == old(bird)@.jump(),
        final(bird).velocity == JUMP_AMOUNT,
{
    bird.velocity = JUMP_AMOUNT;
}

/// Lets the bird fall for `dt` milliseconds.
pub fn fall(bird: &mut Bird, dt: u32)
    ensures
        final(bird)@ == old(bird)@.fall(dt as int),
        final(bird).velocity >= FALL_VELOCITY_LIMIT,
{
    let v: i128 = bird.velocity as i128 - scaled(FALL_SPEED, dt);
    if v < FALL_VELOCITY_LIMIT as i128 {
        bird.velocity = FALL_VELOCITY_LIMIT;
    } else {
        bird.velocity = v as i64;
    }
}

/// Distance covered at `velocity` in `dt` milliseconds.
fn displacement(velocity: i64, dt: u32) -> (step: i128)
    ensures
        step == velocity * MOVE_SPEED * dt,
        -0x100_0000_0000_0000_0000_0000_0000 <= step <= 0x100_0000_0000_0000_0000_0000_0000,
{
    let unit: i128 = scaled(velocity, dt);
    assert(unit * MOVE_SPEED == velocity * MOVE_SPEED * dt
        && -0x100_0000_0000_0000_0000_0000_0000 <= unit * MOVE_SPEED
        <= 0x100_0000_0000_0000_0000_0000_0000) by (nonlinear_arith)
        requires
            unit == velocity * dt,
            -0x8000_0000_0000_0000_0000_0000 <= unit <= 0x8000_0000_0000_0000_0000_0000,
            MOVE_SPEED == 200,
    ;
    unit * (MOVE_SPEED as i128)
}

/// Moves the bird by its velocity for `dt` milliseconds.
pub fn move_bird(bird: &mut Bird, dt: u32)
    requires
        old(bird)@.advance(dt as int).representable(),
    ensures
        final(bird)@ == old(bird)@.advance(dt as int),
        final(bird).y == old(bird).y + old(bird).velocity * MOVE_SPEED * dt,
{
    let step: i128 = displacement(bird.velocity, dt);
    bird.y = (bird.y as i128 + step) as i64;
}

/// Whether `move_bird` can be called: the new height fits an `i64`.
pub fn can_move_bird(bird: &Bird, dt: u32) -> (fits: bool)
    ensures
        fits == bird@.advance(dt as int).representable(),
{
    let y: i128 = bird.y as i128 + displacement(bird.velocity, dt);
    i64::MIN as i128 <= y && y <= i64::MAX as i128
}

/// Index of the animation frame to show `elapsed_ms` milliseconds after the
/// start of the game.
pub fn animate_bird(elapsed_ms: u64) -> (frame: usize)
    ensures
        frame == animation_frame(elapsed_ms as int),
        frame < BIRD_FRAMES,
{
    let ticks: u128 = (elapsed_ms as u128) * (BIRD_ANIMATION_SPEED as u128) / 1000;
    (ticks % (BIRD_FRAMES as u128)) as usize
}

/// Terminal velocity. However long and in however many ticks the bird falls
/// without a flap, once it has fallen at all its velocity is not below
/// `FALL_VELOCITY_LIMIT`. If it started at or above that limit, it never
/// rises, it never drops below it in between, it ends at exactly
/// `velocity - FALL_SPEED * total_time`, capped below by the limit: so it
/// reaches the limit once enough time has passed, and stays there. Falling
/// moves nothing but the velocity.
pub proof fn lemma_fall_reaches_limit(bird: BirdModel, dts: Seq<nat>)
    ensures
        total_time(dts) >= 0,
        dts.len() > 0 ==> bird.fall_all(dts).velocity >= FALL_VELOCITY_LIMIT,
        bird.velocity >= FALL_VELOCITY_LIMIT ==> {
            let fallen = bird.velocity - FALL_SPEED * total_time(dts);
            &&& FALL_VELOCITY_LIMIT <= bird.fall_all(dts).velocity <= bird.velocity
            &&& bird.fall_all(dts).velocity == if fallen < FALL_VELOCITY_LIMIT {
                FALL_VELOCITY_LIMIT as int
            } else {
                fallen
            }
        },
        bird.velocity >= FALL_VELOCITY_LIMIT && FALL_SPEED * total_time(dts) >= bird.velocity
            - FALL_VELOCITY_LIMIT ==> bird.fall_all(dts).velocity == FALL_VELOCITY_LIMIT,
        bird.fall_all(dts).x == bird.x,
        bird.fall_all(dts).y == bird.y,
    decreases dts.len(),
{
    if dts.len() > 0 {
        let before = dts.drop_last();
        let last = dts.last() as int;
        lemma_fall_reaches_limit(bird, before);
        assert(FALL_SPEED * (total_time(before) + last) == FALL_SPEED * total_time(before)
            + FALL_SPEED * last && FALL_SPEED * last >= 0) by (nonlinear_arith)
            requires
                FALL_SPEED == 5,
                last >= 0,
        ;
    } else {
        assert(FALL_SPEED * 0 == 0);
    }
}

} // verus!
