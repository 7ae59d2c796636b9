//! The pipes: how pairs appear and leave, when a pipe counts as passed, and
//! when the bird has hit one.

use super::bird::{Bird, BirdModel};
use super::timer::{SpawnTimer, TimerModel};
use super::{PlayState, Score, GAP_CENTER_RANGE, GAP_HEIGHT, PIPE_SPAWN_OFFSET};
use crate::{BIRD_HEIGHT, BIRD_WIDTH, PIPE_HEIGHT, PIPE_WIDTH};
use rand::Rng;
use vstd::prelude::*;

verus! {

/// An axis-aligned box, given by its edges.
pub struct BoxModel {
    pub min_x: int,
    pub max_x: int,
    pub min_y: int,
    pub max_y: int,
}

impl BoxModel {
    /// The box of the given size whose centre is `(x, y)`.
    pub open spec fn around(x: int, y: int, width: int, height: int) -> BoxModel {
        BoxModel {
            min_x: x - width / 2,
            max_x: x + width / 2,
            min_y: y - height / 2,
            max_y: y + height / 2,
        }
    }

    /// Whether two boxes share a point. Boxes that only touch do.
    pub open spec fn intersects(self, other: BoxModel) -> bool {
        &&& self.min_x <= other.max_x
        &&& self.max_x >= other.min_x
        &&& self.min_y <= other.max_y
        &&& self.max_y >= other.min_y
    }
}

/// A pipe as mathematics sees it.
pub struct PipeModel {
    pub x: int,
    pub y: int,
    pub approaching: bool,
    pub flipped: bool,
}

impl PipeModel {
    /// The pipe after the world has scrolled by `distance`.
    pub open spec fn shifted(self, distance: int) -> PipeModel {
        PipeModel { x: self.x - distance, ..self }
    }

    /// Whether the pipe has not yet scrolled off behind the bird.
    pub open spec fn on_screen(self) -> bool {
        self.x >= -PIPE_SPAWN_OFFSET
    }

    /// Whether the pipe is still to be credited and its trailing edge lies
    /// strictly behind the leading edge of a bird at `bird_x`.
    pub open spec fn passed_by(self, bird_x: int) -> bool {
        self.approaching && self.x + PIPE_WIDTH / 2 < bird_x - BIRD_WIDTH / 2
    }

    /// The pipe once it has been credited.
    pub open spec fn credited(self) -> PipeModel {
        PipeModel { approaching: false, ..self }
    }

    /// The space the pipe takes up.
    pub open spec fn bounds(self) -> BoxModel {
        BoxModel::around(self.x, self.y, PIPE_WIDTH as int, PIPE_HEIGHT as int)
    }

    /// Whether the pipe and the bird overlap.
    pub open spec fn hit_by(self, bird: BirdModel) -> bool {
        BoxModel::around(bird.x, bird.y, BIRD_WIDTH as int, BIRD_HEIGHT as int).intersects(
            self.bounds(),
        )
    }

    /// Whether the position fits the machine representation.
    pub open spec fn representable(self) -> bool {
        &&& i64::MIN <= self.x <= i64::MAX
        &&& i64::MIN <= self.y <= i64::MAX
    }
}

/// The two pipes that appear together on the spawn line, both still to
/// be credited. The opening between them reaches from `gap_center` up by
/// `GAP_HEIGHT`: the first pipe ends at `gap_center`; the second begins
/// above the opening and is drawn upside down.
pub open spec fn pipe_pair(gap_center: int) -> Seq<PipeModel> {
    seq![
        PipeModel {
            x: PIPE_SPAWN_OFFSET as int,
            y: gap_center - PIPE_HEIGHT / 2,
            approaching: true,
            flipped: false,
        },
        PipeModel {
            x: PIPE_SPAWN_OFFSET as int,
            y: gap_center + PIPE_HEIGHT / 2 + GAP_HEIGHT,
            approaching: true,
            flipped: true,
        },
    ]
}

/// Whether a gap may be centred at `gap_center`.
pub open spec fn gap_center_in_range(gap_center: int) -> bool {
    -GAP_CENTER_RANGE <= gap_center <= GAP_CENTER_RANGE
}

/// The pipes after a tick of the spawn timer: a completed period adds one
/// pair at the end.
pub open spec fn spawned(
    pipes: Seq<PipeModel>,
    timer: TimerModel,
    dt: nat,
    gap_center: int,
) -> Seq<PipeModel> {
    if timer.finishes(dt) {
        pipes + pipe_pair(gap_center)
    } else {
        pipes
    }
}

/// The pipes that stay when those off screen are removed, in their order.
pub open spec fn kept(pipes: Seq<PipeModel>) -> Seq<PipeModel> {
    pipes.filter(|p: PipeModel| p.on_screen())
}

/// Index of the first pipe that a bird at `bird_x` has passed, or the number
/// of pipes if it has passed none.
pub open spec fn first_passed(pipes: Seq<PipeModel>, bird_x: int) -> int
    decreases pipes.len(),
{
    if pipes.len() == 0 {
        0
    } else if pipes[0].passed_by(bird_x) {
        0
    } else {
        1 + first_passed(pipes.skip(1), bird_x)
    }
}

/// Whether a bird at `bird_x` has passed a pipe that is still to be credited.
pub open spec fn any_passed(pipes: Seq<PipeModel>, bird_x: int) -> bool {
    first_passed(pipes, bird_x) < pipes.len()
}

/// The pipes after the first one passed, if there is one, has been credited.
pub open spec fn credit(pipes: Seq<PipeModel>, bird_x: int) -> Seq<PipeModel> {
    let i = first_passed(pipes, bird_x);
    if i < pipes.len() {
        pipes.update(i, pipes[i].credited())
    } else {
        pipes
    }
}

/// Whether the bird overlaps one of the pipes.
pub open spec fn hits_any(bird: BirdModel, pipes: Seq<PipeModel>) -> bool {
    exists|i: int| 0 <= i < pipes.len() && #[trigger] pipes[i].hit_by(bird)
}

/// One pipe of a pair.
#[derive(Clone, Copy, Debug, PartialEq, Eq, Structural)]
pub struct Pipe {
    /// Where the centre of the pipe is along the scrolling axis.
    pub x: i64,
    /// How high the centre of the pipe is.
    pub y: i64,
    /// Whether passing the pipe is still to be credited.
    pub approaching: bool,
    /// Whether the pipe is drawn upside down: it hangs from above the gap.
    pub flipped: bool,
}

impl View for Pipe {
    type V = PipeModel;

    open spec fn view(&self) -> PipeModel {
        PipeModel {
            x: self.x as int,
            y: self.y as int,
            approaching: self.approaching,
            flipped: self.flipped,
        }
    }
}

/// The models of a sequence of pipes.
pub open spec fn pipe_models(pipes: Seq<Pipe>) -> Seq<PipeModel> {
    pipes.map_values(|p: Pipe| p@)
}

/// `first_passed` is the least index of a passed pipe: it is in range or the
/// length, no pipe before it is passed, and the pipe at it, if any, is.
pub proof fn lemma_first_passed(pipes: Seq<PipeModel>, bird_x: int)
    ensures
        0 <= first_passed(pipes, bird_x) <= pipes.len(),
        forall|j: int|
            0 <= j < first_passed(pipes, bird_x) ==> !(#[trigger] pipes[j]).passed_by(bird_x),
        any_passed(pipes, bird_x) ==> pipes[first_passed(pipes, bird_x)].passed_by(bird_x),
    decreases pipes.len(),
{
    if pipes.len() > 0 && !pipes[0].passed_by(bird_x) {
        let rest = pipes.skip(1);
        lemma_first_passed(rest, bird_x);
        assert forall|j: int| 0 <= j < first_passed(pipes, bird_x) implies !(
        #[trigger] pipes[j]).passed_by(bird_x) by {
            if j > 0 {
                assert(pipes[j] == rest[j - 1]);
            }
        }
    }
}

/// The least index of a passed pipe is `first_passed`.
pub proof fn lemma_first_passed_unique(pipes: Seq<PipeModel>, bird_x: int, i: int)
    requires
        0 <= i <= pipes.len(),
        forall|j: int| 0 <= j < i ==> !(#[trigger] pipes[j]).passed_by(bird_x),
        i < pipes.len() ==> pipes[i].passed_by(bird_x),
    ensures
        first_passed(pipes, bird_x) == i,
{
    lemma_first_passed(pipes, bird_x);
    let k = first_passed(pipes, bird_x);
    if k < i {
        assert(!pipes[k].passed_by(bird_x));
    }
}

/// The two pipes of a pair appear on the spawn line, both still to be
/// credited, and their centres are one pipe's height and one gap apart,
/// wherever the gap is centred.
pub proof fn lemma_pipe_pair_gap(gap_center: int)
    ensures
        pipe_pair(gap_center).len() == 2,
        pipe_pair(gap_center)[0].approaching,
        pipe_pair(gap_center)[1].approaching,
        pipe_pair(gap_center)[0].x == PIPE_SPAWN_OFFSET,
        pipe_pair(gap_center)[1].x == PIPE_SPAWN_OFFSET,
        pipe_pair(gap_center)[1].y - pipe_pair(gap_center)[0].y == PIPE_HEIGHT + GAP_HEIGHT,
        pipe_pair(gap_center)[0].bounds().max_y == gap_center,
        pipe_pair(gap_center)[1].bounds().min_y == gap_center + GAP_HEIGHT,
{
}

/// A pipe is credited once. Crediting keeps the number of pipes and where
/// they are; it never marks a pipe as approaching; it changes the one pipe
/// at `first_passed`, which was approaching and is no longer; and a pipe
/// that is not approaching is passed by no bird, so it is never credited
/// again.
pub proof fn lemma_credit_once(pipes: Seq<PipeModel>, bird_x: int)
    ensures
        credit(pipes, bird_x).len() == pipes.len(),
        forall|i: int|
            0 <= i < pipes.len() ==> {
                let after = #[trigger] credit(pipes, bird_x)[i];
                &&& after.x == pipes[i].x
                &&& after.y == pipes[i].y
                &&& after.flipped == pipes[i].flipped
                &&& after.approaching ==> pipes[i].approaching
                &&& i != first_passed(pipes, bird_x) ==> after == pipes[i]
            },
        any_passed(pipes, bird_x) ==> {
            let i = first_passed(pipes, bird_x);
            &&& pipes[i].approaching
            &&& !credit(pipes, bird_x)[i].approaching
        },
        forall|i: int, x: int|
            0 <= i < pipes.len() && !pipes[i].approaching ==> !(#[trigger] pipes[i].passed_by(x)),
{
    lemma_first_passed(pipes, bird_x);
}

/// Which pipe is the first one passed depends only on where the pipes are
/// along the scrolling axis and on which are still to be credited.
pub proof fn lemma_first_passed_ignores_height(a: Seq<PipeModel>, b: Seq<PipeModel>, bird_x: int)
    requires
        a.len() == b.len(),
        forall|i: int|
            0 <= i < a.len() ==> (#[trigger] a[i]).x == b[i].x && a[i].approaching
                == b[i].approaching,
    ensures
        first_passed(a, bird_x) == first_passed(b, bird_x),
{
    lemma_first_passed(a, bird_x);
    let k = first_passed(a, bird_x);
    assert forall|j: int| 0 <= j < k implies !(#[trigger] b[j]).passed_by(bird_x) by {
        assert(!a[j].passed_by(bird_x));
    }
    if k < a.len() {
        assert(a[k].passed_by(bird_x));
    }
    lemma_first_passed_unique(b, bird_x, k);
}

/// What is kept of a sequence with one more pipe at its end.
proof fn lemma_kept_push(pipes: Seq<PipeModel>, p: PipeModel)
    ensures
        kept(pipes.push(p)) == if p.on_screen() {
            kept(pipes).push(p)
        } else {
            kept(pipes)
        },
{
    reveal(Seq::filter);
    assert(pipes.push(p).drop_last() =~= pipes);
}

/// Removes the pipes that have scrolled off behind the bird and returns how
/// many they were.
pub fn despawn_pipe(pipes: &mut Vec<Pipe>) -> (removed: usize)
    ensures
        pipe_models(final(pipes)@) == kept(pipe_models(old(pipes)@)),
        removed == old(pipes)@.len() - final(pipes)@.len(),
{
    let ghost before = pipes@;
    let mut remaining: Vec<Pipe> = Vec::new();
    let mut i: usize = 0;
    proof {
        reveal(Seq::filter);
        assert(pipe_models(before.take(0)) =~= Seq::empty());
    }
    while i < pipes.len()
        invariant
            pipes@ == before,
            i <= before.len(),
            remaining@.len() <= i,
            pipe_models(remaining@) == kept(pipe_models(before.take(i as int))),
        decreases before.len() - i,
    {
        let pipe = pipes[i];
        proof {
            lemma_kept_push(pipe_models(before.take(i as int)), pipe@);
            assert(pipe_models(before.take(i as int + 1)) =~= pipe_models(
                before.take(i as int),
            ).push(pipe@));
        }
        if pipe.x >= -PIPE_SPAWN_OFFSET {
            let ghost shorter = remaining@;
            remaining.push(pipe);
            assert(pipe_models(remaining@) =~= pipe_models(shorter).push(pipe@));
        }
        i += 1;
    }
    assert(before.take(i as int) =~= before);
    let removed = pipes.len() - remaining.len();
    *pipes = remaining;
    removed
}

/// Builds the two pipes of the pair around a gap centred at `gap_center`.
pub fn new_pipe_pair(gap_center: i64) -> (pair: (Pipe, Pipe))
    requires
        gap_center_in_range(gap_center as int),
    ensures
        seq![pair.0@, pair.1@] == pipe_pair(gap_center as int),
{
    let upper = Pipe {
        x: PIPE_SPAWN_OFFSET,
        y: gap_center - PIPE_HEIGHT / 2,
        approaching: true,
        flipped: false,
    };
    let lower = Pipe {
        x: PIPE_SPAWN_OFFSET,
        y: gap_center + PIPE_HEIGHT / 2 + GAP_HEIGHT,
        approaching: true,
        flipped: true,
    };
    assert(seq![upper@, lower@] =~= pipe_pair(gap_center as int));
    (upper, lower)
}

/// Advances the spawn timer by `dt` milliseconds and, if that completes a
/// period, adds the pair of pipes around a gap centred at `gap_center`.
/// Says whether it added one.
pub fn spawn_pipe_at(
    pipes: &mut Vec<Pipe>,
    timer: &mut SpawnTimer,
    dt: u32,
    gap_center: i64,
) -> (added: bool)
    requires
        gap_center_in_range(gap_center as int),
    ensures
        added == old(timer)@.finishes(dt as nat),
        final(timer)@ == old(timer)@.tick(dt as nat),
        pipe_models(final(pipes)@) == spawned(
            pipe_models(old(pipes)@),
            old(timer)@,
            dt as nat,
            gap_center as int,
        ),
{
    let finished = timer.tick(dt);
    if finished {
        let ghost before = pipes@;
        let (upper, lower) = new_pipe_pair(gap_center);
        pipes.push(upper);
        pipes.push(lower);
        assert(pipe_models(pipes@) =~= pipe_models(before) + seq![upper@, lower@]);
    }
    finished
}

/// A number drawn by `rand::Rng::gen_range` from the thread-local generator
/// `rand::thread_rng()`. All that is claimed of it is that it lies in the
/// half-open range from `low` to `high`, which the caller keeps non-empty;
/// two draws need not agree.
#[verifier::external_body]
fn random_between(low: i64, high: i64) -> (drawn: i64)
    requires
        low < high,
    ensures
        low <= drawn < high,
{
    rand::thread_rng().gen_range(low..high)
}

/// Draws the height at which the gap of a new pair of pipes is centred.
pub fn random_gap_center() -> (gap_center: i64)
    ensures
        -GAP_CENTER_RANGE <= gap_center < GAP_CENTER_RANGE,
{
    random_between(-GAP_CENTER_RANGE, GAP_CENTER_RANGE)
}

/// Advances the spawn timer by `dt` milliseconds and, if that completes a
/// period, adds a pair of pipes around a gap whose centre is drawn at random.
/// Returns the centre drawn, if a pair was added.
pub fn spawn_pipe(
    pipes: &mut Vec<Pipe>,
    timer: &mut SpawnTimer,
    dt: u32,
) -> (gap_center: Option<i64>)
    ensures
        gap_center is Some <==> old(timer)@.finishes(dt as nat),
        gap_center is Some ==> -GAP_CENTER_RANGE <= gap_center->0 < GAP_CENTER_RANGE,
        final(timer)@ == old(timer)@.tick(dt as nat),
        pipe_models(final(pipes)@) == spawned(
            pipe_models(old(pipes)@),
            old(timer)@,
            dt as nat,
            match gap_center {
                Some(y) => y as int,
                None => 0,
            },
        ),
{
    if timer.finishes(dt) {
        let y = random_gap_center();
        spawn_pipe_at(pipes, timer, dt, y);
        Some(y)
    } else {
        spawn_pipe_at(pipes, timer, dt, 0);
        None
    }
}

/// Whether `pipe` is still to be credited and lies behind a bird at `bird_x`.
fn is_passed(pipe: &Pipe, bird_x: i64) -> (passed: bool)
    ensures
        passed == pipe@.passed_by(bird_x as int),
{
    let trailing_edge: i128 = pipe.x as i128 + (PIPE_WIDTH / 2) as i128;
    let leading_edge: i128 = bird_x as i128 - (BIRD_WIDTH / 2) as i128;
    pipe.approaching && trailing_edge < leading_edge
}

/// Whether the bird has passed a pipe that is still to be credited.
pub fn any_pipe_passed(pipes: &Vec<Pipe>, bird: &Bird) -> (passed: bool)
    ensures
        passed == any_passed(pipe_models(pipes@), bird@.x),
{
    let mut i: usize = 0;
    while i < pipes.len()
        invariant
            i <= pipes@.len(),
            forall|j: int| 0 <= j < i ==> !(#[trigger] pipe_models(pipes@)[j]).passed_by(bird@.x),
        decreases pipes@.len() - i,
    {
        if is_passed(&pipes[i], bird.x) {
            proof {
                lemma_first_passed_unique(pipe_models(pipes@), bird@.x, i as int);
            }
            return true;
        }
        i += 1;
    }
    proof {
        lemma_first_passed_unique(pipe_models(pipes@), bird@.x, pipes@.len() as int);
    }
    false
}

/// Credits the first pipe that the bird has passed, if there is one: the
/// pipe stops being marked as approaching and the score goes up by one.
/// At most one pipe is credited per call. Says whether one was.
pub fn check_passed_pipe(pipes: &mut Vec<Pipe>, score: &mut Score, bird: &Bird) -> (scored: bool)
    requires
        any_passed(pipe_models(old(pipes)@), bird@.x) ==> old(score)@ < usize::MAX,
    ensures
        scored == any_passed(pipe_models(old(pipes)@), bird@.x),
        pipe_models(final(pipes)@) == credit(pipe_models(old(pipes)@), bird@.x),
        final(score)@ == old(score)@ + if scored {
            1nat
        } else {
            0nat
        },
{
    let ghost before = pipes@;
    let mut i: usize = 0;
    while i < pipes.len()
        invariant
            pipes@ == before,
            before == old(pipes)@,
            *score == *old(score),
            any_passed(pipe_models(before), bird@.x) ==> old(score)@ < usize::MAX,
            i <= before.len(),
            forall|j: int| 0 <= j < i ==> !(#[trigger] pipe_models(before)[j]).passed_by(bird@.x),
        decreases before.len() - i,
    {
        let pipe = pipes[i];
        if is_passed(&pipe, bird.x) {
            proof {
                lemma_first_passed_unique(pipe_models(before), bird@.x, i as int);
            }
            pipes.set(i, Pipe { approaching: false, ..pipe });
            score.increment();
            assert(pipe_models(pipes@) =~= credit(pipe_models(before), bird@.x));
            return true;
        }
        i += 1;
    }
    proof {
        lemma_first_passed_unique(pipe_models(before), bird@.x, before.len() as int);
    }
    false
}

/// Whether the boxes of `bird` and `pipe` overlap.
fn overlaps(bird: &Bird, pipe: &Pipe) -> (hit: bool)
    ensures
        hit == pipe@.hit_by(bird@),
{
    let bird_left: i128 = bird.x as i128 - (BIRD_WIDTH / 2) as i128;
    let bird_right: i128 = bird.x as i128 + (BIRD_WIDTH / 2) as i128;
    let bird_bottom: i128 = bird.y as i128 - (BIRD_HEIGHT / 2) as i128;
    let bird_top: i128 = bird.y as i128 + (BIRD_HEIGHT / 2) as i128;
    let pipe_left: i128 = pipe.x as i128 - (PIPE_WIDTH / 2) as i128;
    let pipe_right: i128 = pipe.x as i128 + (PIPE_WIDTH / 2) as i128;
    let pipe_bottom: i128 = pipe.y as i128 - (PIPE_HEIGHT / 2) as i128;
    let pipe_top: i128 = pipe.y as i128 + (PIPE_HEIGHT / 2) as i128;
    bird_left <= pipe_right && bird_right >= pipe_left && bird_bottom <= pipe_top && bird_top
        >= pipe_bottom
}

/// Looks for a pipe that the bird overlaps. If there is one, the round
/// enters `PlayState::HitPipe`; otherwise the state is left as it is.
pub fn check_pipe_collision(play_state: &mut PlayState, bird: &Bird, pipes: &Vec<Pipe>) -> (hit: bool)
    ensures
        hit == hits_any(bird@, pipe_models(pipes@)),
        *final(play_state) == if hit {
            PlayState::HitPipe
        } else {
            *old(play_state)
        },
{
    let mut i: usize = 0;
    while i < pipes.len()
        invariant
            *play_state == *old(play_state),
            i <= pipes.len(),
            forall|j: int| 0 <= j < i ==> !(#[trigger] pipe_models(pipes@)[j]).hit_by(bird@),
        decreases pipes.len() - i,
    {
        if overlaps(bird, &pipes[i]) {
            assert(pipe_models(pipes@)[i as int].hit_by(bird@));
            *play_state = PlayState::HitPipe;
            return true;
        }
        i += 1;
    }
    false
}

} // verus!
