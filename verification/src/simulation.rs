//! The whole game as one state that advances tick by tick: the menu, the
//! round in play and the game-over screen, and within a round the order in
//! which the rules apply.

use crate::game::bird::{
    animate_bird, animation_frame, can_move_bird, fall, jump, move_bird, Bird, BirdModel,
};
use crate::game::pipes::{
    any_passed, any_pipe_passed, check_passed_pipe, check_pipe_collision, credit, despawn_pipe,
    gap_center_in_range, hits_any, kept, lemma_first_passed, lemma_first_passed_ignores_height,
    pipe_models, pipe_pair, random_gap_center, spawn_pipe_at, spawned, Pipe, PipeModel,
};
use crate::game::timer::{SpawnTimer, TimerModel};
use crate::game::{
    below_death_height, can_scroll, check_death, ground_positions, ground_representable,
    reset_score, reset_timer, reuse_ground, reused_ground, scroll, scroll_distance,
    scrolled_ground, scrolled_pipes, PlayState, Score, DEATH_HEIGHT, GAP_CENTER_RANGE,
    PIPE_SPAWN_OFFSET, PIPE_SPAWN_TIME, SCROLL_SPEED,
};
use crate::{cleanup, initial_ground, scene_setup, GameState};
use vstd::prelude::*;

verus! {

/// What happened in a tick that the outside has to act on: sounds to play
/// and a score to show.
#[derive(Clone, Copy, Debug, PartialEq, Eq, Structural)]
pub struct Events {
    /// The bird flapped.
    pub flapped: bool,
    /// A pipe was credited: the score went up by one.
    pub scored: bool,
    /// The bird ran into a pipe.
    pub hit_pipe: bool,
    /// The bird fell below the death height: the round is over.
    pub round_over: bool,
}

/// Whether every pipe lies between the line where pipes leave and the line
/// where they appear.
pub open spec fn pipes_in_range(pipes: Seq<PipeModel>) -> bool {
    forall|i: int|
        0 <= i < pipes.len() ==> -PIPE_SPAWN_OFFSET <= (#[trigger] pipes[i]).x <= PIPE_SPAWN_OFFSET
}

/// The game as mathematics sees it.
pub struct SimulationModel {
    pub state: GameState,
    pub play_state: PlayState,
    pub bird: Option<BirdModel>,
    pub pipes: Seq<PipeModel>,
    pub ground: Seq<int>,
    pub score: nat,
    pub timer: TimerModel,
}

impl SimulationModel {
    /// What holds of the game at all times: there is a bird exactly while a
    /// round is in play; every pipe lies between the line where pipes leave
    /// and the line where they appear; outside a round there are no pipes,
    /// no score and no time on the spawn timer.
    pub open spec fn wf(self) -> bool {
        &&& self.state == GameState::Playing <==> self.bird is Some
        &&& pipes_in_range(self.pipes)
        &&& self.state != GameState::Playing ==> self.pipes.len() == 0 && self.score == 0
            && self.timer.elapsed == 0
    }

    /// Whether the round has not been stopped by a collision.
    pub open spec fn normal(self) -> bool {
        self.play_state == PlayState::Normal
    }

    /// The game when a round starts: a fresh bird at the origin, no pipes,
    /// no score, the spawn timer at the start of its period.
    pub open spec fn started(self) -> SimulationModel {
        SimulationModel {
            state: GameState::Playing,
            play_state: PlayState::Normal,
            bird: Some(BirdModel { velocity: 0, x: 0, y: 0 }),
            pipes: Seq::empty(),
            score: 0,
            timer: self.timer.reset(),
            ..self
        }
    }

    /// The game when a round has ended: everything that belonged to the
    /// round is gone.
    pub open spec fn ended(self) -> SimulationModel {
        SimulationModel {
            state: GameState::GameOver,
            bird: None,
            pipes: Seq::empty(),
            score: 0,
            timer: self.timer.reset(),
            ..self
        }
    }

    /// The bird after the physics of one tick: it falls, then flaps if there
    /// is input and the round has not been stopped, then moves.
    pub open spec fn flown(self, input: bool, dt: nat) -> BirdModel
        recommends
            self.bird is Some,
    {
        let fallen = self.bird->0.fall(dt as int);
        let flapped = if self.normal() && input {
            fallen.jump()
        } else {
            fallen
        };
        flapped.advance(dt as int)
    }

    /// The pipes in front of the bird after one tick of an unstopped round:
    /// they scroll, those off screen leave, and a pair may appear.
    pub open spec fn pipes_ahead(self, dt: nat, gap_center: int) -> Seq<PipeModel> {
        spawned(kept(scrolled_pipes(self.pipes, dt)), self.timer, dt, gap_center)
    }

    /// Whether the bird is below the death height after the physics of this
    /// tick.
    pub open spec fn dies(self, input: bool, dt: nat) -> bool
        recommends
            self.bird is Some,
    {
        below_death_height(self.flown(input, dt))
    }

    /// One tick of a round in play, up to but not including the check for
    /// the end of the round. A stopped round only moves the bird.
    pub open spec fn played(self, input: bool, dt: nat, gap_center: int) -> SimulationModel
        recommends
            self.bird is Some,
    {
        let bird = self.flown(input, dt);
        if self.normal() {
            let ahead = self.pipes_ahead(dt, gap_center);
            let pipes = credit(ahead, bird.x);
            SimulationModel {
                play_state: if hits_any(bird, pipes) {
                    PlayState::HitPipe
                } else {
                    PlayState::Normal
                },
                bird: Some(bird),
                pipes,
                ground: reused_ground(scrolled_ground(self.ground, dt)),
                score: if any_passed(ahead, bird.x) {
                    self.score + 1
                } else {
                    self.score
                },
                timer: self.timer.tick(dt),
                ..self
            }
        } else {
            SimulationModel { bird: Some(bird), ..self }
        }
    }

    /// The game one tick of `dt` milliseconds later. In the menu and on the
    /// game-over screen only input matters: it starts a round, or leads back
    /// to the menu. A round in play advances and ends when the bird has
    /// fallen below the death height. `gap_center` is where the gap of a
    /// pair of pipes is centred, should one appear in this tick.
    pub open spec fn step(self, input: bool, dt: nat, gap_center: int) -> SimulationModel {
        match self.state {
            GameState::Menu => if input {
                self.started()
            } else {
                self
            },
            GameState::GameOver => if input {
                SimulationModel { state: GameState::Menu, ..self }
            } else {
                self
            },
            GameState::Playing => if self.dies(input, dt) {
                self.played(input, dt, gap_center).ended()
            } else {
                self.played(input, dt, gap_center)
            },
        }
    }

    /// What the outside is told of the tick.
    pub open spec fn events(self, input: bool, dt: nat, gap_center: int) -> Events {
        let playing = self.state == GameState::Playing;
        let active = playing && self.normal();
        Events {
            flapped: active && input,
            scored: active && any_passed(
                self.pipes_ahead(dt, gap_center),
                self.flown(input, dt).x,
            ),
            hit_pipe: active && self.played(input, dt, gap_center).play_state
                == PlayState::HitPipe,
            round_over: playing && self.dies(input, dt),
        }
    }

    /// Whether the tick of an unstopped round credits a pipe. Where the gap
    /// of a new pair is centred does not matter to that.
    pub open spec fn scores(self, input: bool, dt: nat) -> bool
        recommends
            self.bird is Some,
    {
        any_passed(self.pipes_ahead(dt, 0), self.flown(input, dt).x)
    }

    /// Whether the tick is within the machine's limits: in a round, the
    /// bird's new height fits an `i64`, and while the round is not stopped
    /// the scrolled ground tiles fit as well and the score, if it rises,
    /// fits a `usize`.
    pub open spec fn step_fits(self, input: bool, dt: nat) -> bool {
        self.state == GameState::Playing ==> {
            &&& self.bird is Some ==> self.flown(input, dt).representable()
            &&& self.normal() ==> ground_representable(scrolled_ground(self.ground, dt))
            &&& self.normal() && self.scores(input, dt) ==> self.score < usize::MAX
        }
    }
}

/// The game: its state, the bird, the pipes, the ground, the score and the
/// spawn timer.
pub struct Simulation {
    state: GameState,
    play_state: PlayState,
    bird: Option<Bird>,
    pipes: Vec<Pipe>,
    ground: Vec<i64>,
    score: Score,
    timer: SpawnTimer,
}

impl View for Simulation {
    type V = SimulationModel;

    closed spec fn view(&self) -> SimulationModel {
        SimulationModel {
            state: self.state,
            play_state: self.play_state,
            bird: match self.bird {
                Some(bird) => Some(bird@),
                None => None,
            },
            pipes: pipe_models(self.pipes@),
            ground: ground_positions(self.ground@),
            score: self.score@,
            timer: self.timer@,
        }
    }
}

/// Whether every pipe lies no further behind the line where pipes leave
/// than one tick can carry it, and not ahead of the line where they appear.
spec fn pipes_shifted_in_range(pipes: Seq<PipeModel>) -> bool {
    forall|i: int|
        0 <= i < pipes.len() ==> -PIPE_SPAWN_OFFSET - 50_000 * 0x1_0000_0000 <= (
        #[trigger] pipes[i]).x <= PIPE_SPAWN_OFFSET
}

/// The scrolled distance is never negative and at most what a tick of the
/// greatest length gives.
proof fn lemma_scroll_distance(dt: nat)
    requires
        dt <= u32::MAX,
    ensures
        0 <= scroll_distance(dt) <= 50_000 * 0x1_0000_0000,
{
    assert(0 <= SCROLL_SPEED * dt <= 50_000 * 0x1_0000_0000) by (nonlinear_arith)
        requires
            SCROLL_SPEED == 50_000,
            0 <= dt <= 0xffff_ffff,
    ;
}

/// Pipes between the two lines stay between them through one tick.
proof fn lemma_pipes_ahead_in_range(s: SimulationModel, dt: nat, gap_center: int)
    requires
        s.wf(),
        dt <= u32::MAX,
    ensures
        pipes_in_range(s.pipes_ahead(dt, gap_center)),
        pipes_shifted_in_range(scrolled_pipes(s.pipes, dt)),
{
    lemma_scroll_distance(dt);
    let scrolled = scrolled_pipes(s.pipes, dt);
    let on_screen = |p: PipeModel| p.on_screen();
    let rest = kept(scrolled);
    assert forall|i: int| 0 <= i < rest.len() implies -PIPE_SPAWN_OFFSET <= (#[trigger] rest[i]).x
        <= PIPE_SPAWN_OFFSET by {
        scrolled.lemma_filter_pred(on_screen, i);
        assert(rest.contains(rest[i]));
        scrolled.lemma_filter_contains_rev(on_screen, rest[i]);
        let k = choose|k: int| 0 <= k < scrolled.len() && scrolled[k] == rest[i];
        assert(scrolled[k] == s.pipes[k].shifted(scroll_distance(dt)));
    }
}

/// Whether a tick credits a pipe does not depend on where the gap of a new
/// pair is centred.
pub proof fn lemma_scores_whatever_the_gap(
    s: SimulationModel,
    input: bool,
    dt: nat,
    gap_center: int,
)
    ensures
        any_passed(s.pipes_ahead(dt, gap_center), s.flown(input, dt).x) == s.scores(input, dt),
{
    lemma_first_passed_ignores_height(
        s.pipes_ahead(dt, gap_center),
        s.pipes_ahead(dt, 0),
        s.flown(input, dt).x,
    );
}

/// Invariant of the game: a tick of a well-formed game gives a well-formed
/// game.
pub proof fn lemma_step_preserves_wf(s: SimulationModel, input: bool, dt: nat, gap_center: int)
    requires
        s.wf(),
        dt <= u32::MAX,
    ensures
        s.step(input, dt, gap_center).wf(),
{
    if s.state == GameState::Playing && s.normal() {
        let ahead = s.pipes_ahead(dt, gap_center);
        let x = s.flown(input, dt).x;
        lemma_pipes_ahead_in_range(s, dt, gap_center);
        lemma_first_passed(ahead, x);
        assert(pipes_in_range(credit(ahead, x)));
    }
}

/// Within a round the score never goes down. A tick that does not end the
/// round raises it by one if the round is not stopped and the bird, after
/// this tick's motion, has passed a pipe still to be credited; otherwise
/// the tick leaves it as it is.
pub proof fn lemma_score_monotonic(s: SimulationModel, input: bool, dt: nat, gap_center: int)
    requires
        s.state == GameState::Playing,
        s.step(input, dt, gap_center).state == GameState::Playing,
    ensures
        s.score <= s.step(input, dt, gap_center).score <= s.score + 1,
        s.step(input, dt, gap_center).score == s.score + 1 <==> s.normal() && any_passed(
            s.pipes_ahead(dt, gap_center),
            s.flown(input, dt).x,
        ),
        s.step(input, dt, gap_center).score != s.score <==> s.events(
            input,
            dt,
            gap_center,
        ).scored,
{
}

/// A collision stops the round for good: a tick of a round in
/// `PlayState::HitPipe` leaves it there, and until the round ends it moves
/// nothing but the bird.
pub proof fn lemma_hit_pipe_is_final(s: SimulationModel, input: bool, dt: nat, gap_center: int)
    requires
        s.state == GameState::Playing,
        s.play_state == PlayState::HitPipe,
    ensures
        s.step(input, dt, gap_center).play_state == PlayState::HitPipe,
        !s.dies(input, dt) ==> s.step(input, dt, gap_center) == (SimulationModel {
            bird: Some(s.flown(input, dt)),
            ..s
        }),
        s.bird is Some ==> s.flown(input, dt) == s.bird->0.fall(dt as int).advance(dt as int),
{
}

/// A pipe's mark only ever goes away. After a tick of a round that goes on,
/// a pipe that is marked as approaching is either one of the pair that
/// appeared in this tick, or a pipe that was there before the tick, marked
/// then already, and has since only scrolled.
pub proof fn lemma_approaching_never_returns(
    s: SimulationModel,
    input: bool,
    dt: nat,
    gap_center: int,
)
    requires
        s.state == GameState::Playing,
        !s.dies(input, dt),
    ensures
        forall|j: int|
            0 <= j < s.step(input, dt, gap_center).pipes.len() && (#[trigger] s.step(
                input,
                dt,
                gap_center,
            ).pipes[j]).approaching ==> {
                let pipe = s.step(input, dt, gap_center).pipes[j];
                let distance = if s.normal() {
                    scroll_distance(dt)
                } else {
                    0
                };
                ||| s.normal() && s.timer.finishes(dt) && pipe == pipe_pair(gap_center)[0]
                ||| s.normal() && s.timer.finishes(dt) && pipe == pipe_pair(gap_center)[1]
                ||| exists|i: int|
                    0 <= i < s.pipes.len() && (#[trigger] s.pipes[i]).approaching && pipe
                        == s.pipes[i].shifted(distance)
            },
{
    let next = s.step(input, dt, gap_center);
    let distance = if s.normal() {
        scroll_distance(dt)
    } else {
        0
    };
    assert forall|j: int|
        0 <= j < next.pipes.len() && (#[trigger] next.pipes[j]).approaching implies {
        ||| s.normal() && s.timer.finishes(dt) && next.pipes[j] == pipe_pair(gap_center)[0]
        ||| s.normal() && s.timer.finishes(dt) && next.pipes[j] == pipe_pair(gap_center)[1]
        ||| exists|i: int|
            0 <= i < s.pipes.len() && (#[trigger] s.pipes[i]).approaching && next.pipes[j]
                == s.pipes[i].shifted(distance)
    } by {
        if s.normal() {
            let scrolled = scrolled_pipes(s.pipes, dt);
            let rest = kept(scrolled);
            let ahead = s.pipes_ahead(dt, gap_center);
            lemma_first_passed(ahead, s.flown(input, dt).x);
            assert(next.pipes[j] == ahead[j]);
            if j < rest.len() {
                assert(rest.contains(rest[j]));
                scrolled.lemma_filter_contains_rev(|p: PipeModel| p.on_screen(), rest[j]);
                let i = choose|i: int| 0 <= i < scrolled.len() && scrolled[i] == rest[j];
                assert(s.pipes[i].approaching && rest[j] == s.pipes[i].shifted(distance));
            } else {
                assert(ahead[j] == pipe_pair(gap_center)[j - rest.len()]);
            }
        } else {
            assert(s.pipes[j].approaching && next.pipes[j] == s.pipes[j].shifted(0));
        }
    }
}

/// The round ends when, and only when, the bird is below the death height:
/// a tick of a round in play leads to `GameState::GameOver` if the bird's
/// height after this tick's motion is below `DEATH_HEIGHT`, and leaves the
/// round in play otherwise; and no tick leads from the menu to
/// `GameState::GameOver`.
pub proof fn lemma_round_ends_below_death_height(
    s: SimulationModel,
    input: bool,
    dt: nat,
    gap_center: int,
)
    ensures
        s.state == GameState::Playing ==> (s.step(input, dt, gap_center).state
            == GameState::GameOver <==> s.flown(input, dt).y < DEATH_HEIGHT),
        s.state == GameState::Playing ==> (s.step(input, dt, gap_center).state
            == GameState::Playing <==> s.flown(input, dt).y >= DEATH_HEIGHT),
        s.state == GameState::Menu ==> s.step(input, dt, gap_center).state != GameState::GameOver,
{
}

impl Simulation {
    /// The game as it starts: in the menu, with the ground laid out and
    /// nothing else.
    pub fn new() -> (game: Simulation)
        ensures
            game@.wf(),
            game@ == (SimulationModel {
                state: GameState::Menu,
                play_state: PlayState::Normal,
                bird: None,
                pipes: Seq::empty(),
                ground: initial_ground(),
                score: 0,
                timer: TimerModel { period: PIPE_SPAWN_TIME as nat, elapsed: 0 },
            }),
    {
        let game = Simulation {
            state: GameState::Menu,
            play_state: PlayState::Normal,
            bird: None,
            pipes: Vec::new(),
            ground: scene_setup(),
            score: Score::default(),
            timer: SpawnTimer::new(PIPE_SPAWN_TIME),
        };
        assert(pipe_models(game.pipes@) =~= Seq::empty());
        game
    }

    /// The state of the game.
    pub fn state(&self) -> (state: GameState)
        ensures
            state == self@.state,
    {
        self.state
    }

    /// The state of the round. It means something only while a round is in
    /// play.
    pub fn play_state(&self) -> (play_state: PlayState)
        ensures
            play_state == self@.play_state,
    {
        self.play_state
    }

    /// The bird, while a round is in play.
    pub fn bird(&self) -> (bird: Option<Bird>)
        ensures
            bird is Some <==> self@.bird is Some,
            bird is Some ==> bird->0@ == self@.bird->0,
    {
        self.bird
    }

    /// The pipes, oldest first.
    pub fn pipes(&self) -> (pipes: &Vec<Pipe>)
        ensures
            pipe_models(pipes@) == self@.pipes,
    {
        &self.pipes
    }

    /// The positions of the ground tiles.
    pub fn ground(&self) -> (ground: &Vec<i64>)
        ensures
            ground_positions(ground@) == self@.ground,
    {
        &self.ground
    }

    /// The score of the round.
    pub fn score(&self) -> (score: usize)
        ensures
            score == self@.score,
    {
        self.score.value()
    }

    /// Milliseconds elapsed since the spawn timer last completed a period.
    pub fn spawn_timer_elapsed(&self) -> (elapsed: u32)
        ensures
            elapsed == self@.timer.elapsed,
    {
        self.timer.elapsed()
    }

    /// The frame of the bird's animation to show `elapsed_ms` milliseconds
    /// after the start of the game. The bird beats its wings only in a
    /// round that has not been stopped; at any other time there is no new
    /// frame, and what is shown stays as it is.
    pub fn bird_frame(&self, elapsed_ms: u64) -> (frame: Option<usize>)
        ensures
            frame is Some <==> self@.state == GameState::Playing && self@.normal(),
            frame is Some ==> frame->0 == animation_frame(elapsed_ms as int),
    {
        match (self.state, self.play_state) {
            (GameState::Playing, PlayState::Normal) => Some(animate_bird(elapsed_ms)),
            _ => None,
        }
    }

    /// Whether a tick of `dt` milliseconds would bring a new pair of pipes.
    pub fn spawn_due(&self, dt: u32) -> (due: bool)
        ensures
            due == (self@.state == GameState::Playing && self@.normal() && self@.timer.finishes(
                dt as nat,
            )),
    {
        let playing = match self.state {
            GameState::Playing => true,
            _ => false,
        };
        let normal = match self.play_state {
            PlayState::Normal => true,
            PlayState::HitPipe => false,
        };
        playing && normal && self.timer.finishes(dt)
    }

    /// Whether `step` and `tick` can be called with this input and tick
    /// length: whether the tick is within the machine's limits.
    pub fn can_step(&self, input: bool, dt: u32) -> (fits: bool)
        requires
            self@.wf(),
        ensures
            fits == self@.step_fits(input, dt as nat),
    {
        match self.state {
            GameState::Playing => {
                let normal = match self.play_state {
                    PlayState::Normal => true,
                    PlayState::HitPipe => false,
                };
                let mut bird = self.bird.unwrap();
                fall(&mut bird, dt);
                if normal && input {
                    jump(&mut bird);
                }
                if !can_move_bird(&bird, dt) {
                    return false;
                }
                if !normal {
                    return true;
                }
                proof {
                    lemma_pipes_ahead_in_range(self@, dt as nat, 0);
                }
                if !can_scroll(&self.pipes, &self.ground, dt) {
                    return false;
                }
                if self.score.value() < usize::MAX {
                    return true;
                }
                // The score is at its limit: the tick fits only if it credits no pipe.
                let mut pipes = self.pipes.clone();
                let mut ground = self.ground.clone();
                let mut timer = self.timer;
                assert(pipes@ =~= self.pipes@);
                assert(ground@ =~= self.ground@);
                scroll(&mut pipes, &mut ground, dt);
                despawn_pipe(&mut pipes);
                spawn_pipe_at(&mut pipes, &mut timer, dt, 0);
                !any_pipe_passed(&pipes, &bird)
            },
            _ => true,
        }
    }

    /// Starts a round: a fresh bird at the origin, no score, the spawn
    /// timer at the start of its period, the round not stopped.
    fn game_setup(&mut self)
        requires
            old(self)@.pipes.len() == 0,
        ensures
            final(self)@ == old(self)@.started(),
    {
        self.bird = Some(Bird::default());
        reset_score(&mut self.score);
        reset_timer(&mut self.timer);
        self.play_state = PlayState::Normal;
        self.state = GameState::Playing;
        assert(self@.pipes =~= Seq::empty());
    }

    /// Advances the game by one tick of `dt` milliseconds. `input` says
    /// whether the player gave input on this tick; `gap_center` is where the
    /// gap of a new pair of pipes is centred, should one appear.
    pub fn step(&mut self, input: bool, dt: u32, gap_center: i64) -> (events: Events)
        requires
            old(self)@.wf(),
            old(self)@.step_fits(input, dt as nat),
            gap_center_in_range(gap_center as int),
        ensures
            final(self)@ == old(self)@.step(input, dt as nat, gap_center as int),
            events == old(self)@.events(input, dt as nat, gap_center as int),
            final(self)@.wf(),
    {
        let ghost before = self@;
        proof {
            lemma_step_preserves_wf(before, input, dt as nat, gap_center as int);
        }
        let mut events = Events { flapped: false, scored: false, hit_pipe: false, round_over: false };
        match self.state {
            GameState::Menu => {
                if input {
                    self.game_setup();
                }
            },
            GameState::GameOver => {
                if input {
                    self.state = GameState::Menu;
                }
            },
            GameState::Playing => {
                let normal = match self.play_state {
                    PlayState::Normal => true,
                    PlayState::HitPipe => false,
                };
                let mut bird = self.bird.unwrap();
                fall(&mut bird, dt);
                if normal && input {
                    jump(&mut bird);
                    events.flapped = true;
                }
                move_bird(&mut bird, dt);
                self.bird = Some(bird);
                if normal {
                    proof {
                        lemma_pipes_ahead_in_range(before, dt as nat, gap_center as int);
                        lemma_scores_whatever_the_gap(before, input, dt as nat, gap_center as int);
                    }
                    scroll(&mut self.pipes, &mut self.ground, dt);
                    reuse_ground(&mut self.ground);
                    despawn_pipe(&mut self.pipes);
                    spawn_pipe_at(&mut self.pipes, &mut self.timer, dt, gap_center);
                    events.scored = check_passed_pipe(&mut self.pipes, &mut self.score, &bird);
                    events.hit_pipe = check_pipe_collision(&mut self.play_state, &bird, &self.pipes);
                }
                events.round_over = check_death(&mut self.state, &bird);
                if events.round_over {
                    reset_score(&mut self.score);
                    reset_timer(&mut self.timer);
                    cleanup(&mut self.bird, &mut self.pipes);
                    assert(self@.pipes =~= Seq::empty());
                }
            },
        }
        events
    }

    /// Advances the game by one tick of `dt` milliseconds, as `step` does,
    /// with the gap of a new pair of pipes centred at a height drawn at
    /// random.
    pub fn tick(&mut self, input: bool, dt: u32) -> (events: Events)
        requires
            old(self)@.wf(),
            old(self)@.step_fits(input, dt as nat),
        ensures
            exists|gap_center: int|
                {
                    &&& -GAP_CENTER_RANGE <= gap_center < GAP_CENTER_RANGE
                    &&& final(self)@ == #[trigger] old(self)@.step(input, dt as nat, gap_center)
                    &&& events == old(self)@.events(input, dt as nat, gap_center)
                },
            final(self)@.wf(),
    {
        let gap_center = if self.spawn_due(dt) {
            random_gap_center()
        } else {
            0
        };
        self.step(input, dt, gap_center)
    }
}

} // verus!
