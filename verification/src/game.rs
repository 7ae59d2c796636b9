//! The rules of one round: constants, the bird, the pipes and the score.

use self::bird::{Bird, BirdModel};
use self::pipes::{pipe_models, Pipe, PipeModel};
use self::timer::SpawnTimer;
use crate::{GameState, GROUND_WIDTH};
use vstd::prelude::*;

pub mod bird;
pub mod pipes;
pub mod timer;

verus! {

/// Distance the world scrolls per millisecond.
pub const SCROLL_SPEED: i64 = 50_000;

/// Velocity of the bird right after a flap.
pub const JUMP_AMOUNT: i64 = 1_500;

/// Velocity the bird loses per millisecond of falling.
pub const FALL_SPEED: i64 = 5;

/// Terminal velocity of the falling bird.
pub const FALL_VELOCITY_LIMIT: i64 = -2_000;

/// Distance the bird moves per millisecond and unit of velocity.
pub const MOVE_SPEED: i64 = 200;

/// Height below which the round is lost.
pub const DEATH_HEIGHT: i64 = -125_000_000;

/// Horizontal distance from the bird at which pipes appear, and beyond which,
/// behind the bird, they are removed.
pub const PIPE_SPAWN_OFFSET: i64 = 180_000_000;

/// Milliseconds between two pairs of pipes.
pub const PIPE_SPAWN_TIME: u32 = 4_000;

/// Height of the opening between the two pipes of a pair.
pub const GAP_HEIGHT: i64 = 100_000_000;

/// Largest distance of the centre of a gap from the height at which the
/// bird starts.
pub const GAP_CENTER_RANGE: i64 = 50_000_000;

/// Frames of the bird's animation shown per second.
pub const BIRD_ANIMATION_SPEED: u64 = 10;

/// Number of frames in the bird's animation.
pub const BIRD_FRAMES: u64 = 4;

/// State of a round in play.
#[derive(Debug, Clone, Copy, PartialEq, Eq, Structural, Hash)]
pub enum PlayState {
    /// The bird flies and the world scrolls.
    Normal,
    /// The bird has hit a pipe: the world stands still and the bird falls.
    HitPipe,
}

impl Default for PlayState {
    fn default() -> (state: PlayState)
        ensures
            state == PlayState::Normal,
    {
        PlayState::Normal
    }
}

/// Number of pipes passed in the round.
#[derive(Debug, Clone, Copy)]
pub struct Score(usize);

impl View for Score {
    type V = nat;

    closed spec fn view(&self) -> nat {
        self.0 as nat
    }
}

impl Default for Score {
    fn default() -> (score: Score)
        ensures
            score@ == 0,
    {
        Score(0)
    }
}

impl Score {
    /// The score as a number.
    pub fn value(&self) -> (value: usize)
        ensures
            value == self@,
    {
        self.0
    }

    /// Counts one more pipe.
    pub fn increment(&mut self)
        requires
            old(self)@ < usize::MAX,
        ensures
            final(self)@ == old(self)@ + 1,
    {
        self.0 = self.0 + 1;
    }
}

/// Sets the score back to zero.
pub fn reset_score(score: &mut Score)
    ensures
        final(score)@ == 0,
{
    score.0 = 0;
}

/// Starts the period of the spawn timer over.
pub fn reset_timer(timer: &mut SpawnTimer)
    ensures
        final(timer)@ == old(timer)@.reset(),
{
    timer.reset();
}

/// Distance the world scrolls in `dt` milliseconds.
pub open spec fn scroll_distance(dt: nat) -> int {
    SCROLL_SPEED * dt
}

/// The pipes after the world has scrolled for `dt` milliseconds.
pub open spec fn scrolled_pipes(pipes: Seq<PipeModel>, dt: nat) -> Seq<PipeModel> {
    pipes.map_values(|p: PipeModel| p.shifted(scroll_distance(dt)))
}

/// The ground tiles after the world has scrolled for `dt` milliseconds.
pub open spec fn scrolled_ground(ground: Seq<int>, dt: nat) -> Seq<int> {
    ground.map_values(|x: int| x - scroll_distance(dt))
}

/// Where a ground tile at `x` goes when the strip is recycled: a tile more
/// than its width behind the origin moves two widths ahead.
pub open spec fn reused_tile(x: int) -> int {
    if x < -GROUND_WIDTH {
        x + 2 * GROUND_WIDTH
    } else {
        x
    }
}

/// The ground tiles after the strip has been recycled.
pub open spec fn reused_ground(ground: Seq<int>) -> Seq<int> {
    ground.map_values(|x: int| reused_tile(x))
}

/// The positions of a sequence of ground tiles.
pub open spec fn ground_positions(ground: Seq<i64>) -> Seq<int> {
    ground.map_values(|x: i64| x as int)
}

/// Whether every pipe of the sequence fits the machine representation.
pub open spec fn pipes_representable(pipes: Seq<PipeModel>) -> bool {
    forall|i: int| 0 <= i < pipes.len() ==> (#[trigger] pipes[i]).representable()
}

/// Whether every position of the sequence fits the machine representation.
pub open spec fn ground_representable(ground: Seq<int>) -> bool {
    forall|i: int| 0 <= i < ground.len() ==> i64::MIN <= #[trigger] ground[i] <= i64::MAX
}

/// Whether the bird at this height has lost the round.
pub open spec fn below_death_height(bird: BirdModel) -> bool {
    bird.y < DEATH_HEIGHT
}

/// The product `rate * dt`, which always fits an `i128`.
pub(crate) fn scaled(rate: i64, dt: u32) -> (product: i128)
    ensures
        product == rate * dt,
        rate >= 0 ==> product >= 0,
        -0x8000_0000_0000_0000_0000_0000 <= product <= 0x8000_0000_0000_0000_0000_0000,
{
    assert(-0x8000_0000_0000_0000_0000_0000 <= rate * dt <= 0x8000_0000_0000_0000_0000_0000 && (
    rate >= 0 ==> rate * dt >= 0)) by (nonlinear_arith)
        requires
            -0x8000_0000_0000_0000 <= rate <= 0x8000_0000_0000_0000,
            0 <= dt <= 0x1_0000_0000,
    ;
    (rate as i128) * (dt as i128)
}

/// Moves every scrolling thing, the pipes and the ground tiles, towards
/// the bird by the distance the world scrolls in `dt` milliseconds.
pub fn scroll(pipes: &mut Vec<Pipe>, ground: &mut Vec<i64>, dt: u32)
    requires
        pipes_representable(scrolled_pipes(pipe_models(old(pipes)@), dt as nat)),
        ground_representable(scrolled_ground(ground_positions(old(ground)@), dt as nat)),
    ensures
        pipe_models(final(pipes)@) == scrolled_pipes(pipe_models(old(pipes)@), dt as nat),
        ground_positions(final(ground)@) == scrolled_ground(
            ground_positions(old(ground)@),
            dt as nat,
        ),
{
    let distance: i128 = scaled(SCROLL_SPEED, dt);
    let ghost pipes_before = pipes@;
    let ghost ground_before = ground@;
    let mut i: usize = 0;
    while i < pipes.len()
        invariant
            distance == scroll_distance(dt as nat),
            pipes_before == old(pipes)@,
            pipes_representable(scrolled_pipes(pipe_models(pipes_before), dt as nat)),
            pipes@.len() == pipes_before.len(),
            i <= pipes@.len(),
            forall|j: int|
                0 <= j < i ==> (#[trigger] pipes@[j])@ == pipes_before[j]@.shifted(distance as int),
            forall|j: int| i <= j < pipes@.len() ==> #[trigger] pipes@[j] == pipes_before[j],
        decreases pipes@.len() - i,
    {
        let pipe = pipes[i];
        assert(scrolled_pipes(pipe_models(pipes_before), dt as nat)[i as int].representable());
        pipes.set(i, Pipe { x: (pipe.x as i128 - distance) as i64, ..pipe });
        i += 1;
    }
    assert(pipe_models(pipes@) =~= scrolled_pipes(pipe_models(pipes_before), dt as nat));
    let mut k: usize = 0;
    while k < ground.len()
        invariant
            distance == scroll_distance(dt as nat),
            ground_before == old(ground)@,
            ground_representable(scrolled_ground(ground_positions(ground_before), dt as nat)),
            ground@.len() == ground_before.len(),
            k <= ground@.len(),
            forall|j: int| 0 <= j < k ==> #[trigger] ground@[j] == ground_before[j] - distance,
            forall|j: int| k <= j < ground@.len() ==> #[trigger] ground@[j] == ground_before[j],
        decreases ground@.len() - k,
    {
        let x = ground[k];
        assert(i64::MIN <= scrolled_ground(ground_positions(ground_before), dt as nat)[k as int]
            <= i64::MAX);
        ground.set(k, (x as i128 - distance) as i64);
        k += 1;
    }
    assert(ground_positions(ground@) =~= scrolled_ground(
        ground_positions(ground_before),
        dt as nat,
    ));
}

/// Whether `scroll` can be called: every scrolled position fits an `i64`.
pub fn can_scroll(pipes: &Vec<Pipe>, ground: &Vec<i64>, dt: u32) -> (fits: bool)
    ensures
        fits == (pipes_representable(scrolled_pipes(pipe_models(pipes@), dt as nat))
            && ground_representable(scrolled_ground(ground_positions(ground@), dt as nat))),
{
    let distance: i128 = scaled(SCROLL_SPEED, dt);
    let ghost moved_pipes = scrolled_pipes(pipe_models(pipes@), dt as nat);
    let ghost moved_ground = scrolled_ground(ground_positions(ground@), dt as nat);
    let mut i: usize = 0;
    while i < pipes.len()
        invariant
            0 <= distance == scroll_distance(dt as nat),
            moved_pipes == scrolled_pipes(pipe_models(pipes@), dt as nat),
            i <= pipes@.len(),
            forall|j: int| 0 <= j < i ==> (#[trigger] moved_pipes[j]).representable(),
        decreases pipes@.len() - i,
    {
        if (pipes[i].x as i128) - distance < i64::MIN as i128 {
            assert(!moved_pipes[i as int].representable());
            return false;
        }
        assert(moved_pipes[i as int].representable());
        i += 1;
    }
    let mut k: usize = 0;
    while k < ground.len()
        invariant
            0 <= distance == scroll_distance(dt as nat),
            moved_ground == scrolled_ground(ground_positions(ground@), dt as nat),
            pipes_representable(moved_pipes),
            k <= ground@.len(),
            forall|j: int| 0 <= j < k ==> i64::MIN <= #[trigger] moved_ground[j] <= i64::MAX,
        decreases ground@.len() - k,
    {
        if (ground[k] as i128) - distance < i64::MIN as i128 {
            assert(moved_ground[k as int] < i64::MIN);
            return false;
        }
        assert(i64::MIN <= moved_ground[k as int] <= i64::MAX);
        k += 1;
    }
    true
}

/// Recycles the ground: every tile that lies more than its width behind
/// the origin moves two widths ahead, so that two tiles make an endless
/// strip.
pub fn reuse_ground(ground: &mut Vec<i64>)
    ensures
        ground_positions(final(ground)@) == reused_ground(ground_positions(old(ground)@)),
{
    let ghost before = ground@;
    let mut i: usize = 0;
    while i < ground.len()
        invariant
            ground@.len() == before.len(),
            i <= ground@.len(),
            forall|j: int| 0 <= j < i ==> #[trigger] ground@[j] == reused_tile(before[j] as int),
            forall|j: int| i <= j < ground@.len() ==> #[trigger] ground@[j] == before[j],
        decreases ground@.len() - i,
    {
        let x = ground[i];
        if x < -GROUND_WIDTH {
            ground.set(i, x + 2 * GROUND_WIDTH);
        }
        i += 1;
    }
    assert(ground_positions(ground@) =~= reused_ground(ground_positions(before)));
}

/// Ends the game if the bird is below the death height: the state becomes
/// `GameState::GameOver`; otherwise it is left as it is. Says whether the
/// bird was below.
pub fn check_death(state: &mut GameState, bird: &Bird) -> (dead: bool)
    ensures
        dead == below_death_height(bird@),
        *final(state) == if dead {
            GameState::GameOver
        } else {
            *old(state)
        },
{
    let dead = bird.y < DEATH_HEIGHT;
    if dead {
        *state = GameState::GameOver;
    }
    dead
}

} // verus!
