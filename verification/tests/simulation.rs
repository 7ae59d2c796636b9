use flappy_bird::game::bird::Bird;
use flappy_bird::game::pipes::{new_pipe_pair, Pipe};
use flappy_bird::game::PlayState;
use flappy_bird::simulation::{Events, Simulation};
use flappy_bird::GameState;

const QUIET: Events = Events { flapped: false, scored: false, hit_pipe: false, round_over: false };

fn pipe(x: i64, y: i64, approaching: bool) -> Pipe {
    Pipe { x, y, approaching, flipped: false }
}

fn flipped_pipe(x: i64, y: i64, approaching: bool) -> Pipe {
    Pipe { x, y, approaching, flipped: true }
}

/// A game whose round has just started.
fn started() -> Simulation {
    let mut game = Simulation::new();
    assert_eq!(game.step(true, 20, 0), QUIET);
    game
}

/// Flaps whenever the bird sinks below thirty pixels.
fn pilot(game: &Simulation) -> bool {
    match game.bird() {
        Some(bird) => bird.y < 30_000_000 && bird.velocity <= 0,
        None => false,
    }
}

/// Advances the piloted game by `ticks` ticks of twenty milliseconds.
fn fly(game: &mut Simulation, ticks: usize, gap_center: i64) -> Vec<Events> {
    let mut events = Vec::new();
    for _ in 0..ticks {
        let input = pilot(game);
        assert!(game.can_step(input, 20));
        events.push(game.step(input, 20, gap_center));
    }
    events
}

#[test]
fn new_game_waits_in_the_menu() {
    let game = Simulation::new();
    assert_eq!(game.state(), GameState::Menu);
    assert_eq!(game.play_state(), PlayState::Normal);
    assert_eq!(game.bird(), None);
    assert!(game.pipes().is_empty());
    assert_eq!(game.ground(), &vec![0, 336_000_000]);
    assert_eq!(game.score(), 0);
    assert_eq!(game.spawn_timer_elapsed(), 0);
    assert!(!game.spawn_due(u32::MAX));
}

#[test]
fn nothing_moves_in_the_menu() {
    let mut game = Simulation::new();
    for dt in [0u32, 16, 4_000, u32::MAX] {
        assert!(game.can_step(false, dt));
        assert_eq!(game.step(false, dt, 0), QUIET);
        assert_eq!(game.state(), GameState::Menu);
        assert_eq!(game.bird(), None);
        assert!(game.pipes().is_empty());
        assert_eq!(game.ground(), &vec![0, 336_000_000]);
        assert_eq!(game.spawn_timer_elapsed(), 0);
    }
}

#[test]
fn input_in_the_menu_starts_a_round() {
    let mut game = Simulation::new();
    assert_eq!(game.step(true, 16, 0), QUIET);
    assert_eq!(game.state(), GameState::Playing);
    assert_eq!(game.play_state(), PlayState::Normal);
    assert_eq!(game.bird(), Some(Bird { velocity: 0, x: 0, y: 0 }));
    assert!(game.pipes().is_empty());
    assert_eq!(game.score(), 0);
    assert_eq!(game.spawn_timer_elapsed(), 0);
    assert_eq!(game.ground(), &vec![0, 336_000_000]);
}

#[test]
fn a_tick_falls_then_flaps_then_moves() {
    let mut game = started();
    let events = game.step(true, 20, 0);
    assert_eq!(events, Events { flapped: true, ..QUIET });
    assert_eq!(game.bird(), Some(Bird { velocity: 1_500, x: 0, y: 6_000_000 }));
    let events = game.step(false, 20, 0);
    assert_eq!(events, QUIET);
    assert_eq!(game.bird(), Some(Bird { velocity: 1_400, x: 0, y: 11_600_000 }));
    assert_eq!(game.ground(), &vec![-2_000_000, 334_000_000]);
    assert_eq!(game.spawn_timer_elapsed(), 40);
}

#[test]
fn a_bird_that_never_flaps_falls_to_its_death() {
    let mut game = started();
    for tick in 1..=25i64 {
        assert_eq!(game.step(false, 20, 0), QUIET);
        assert_eq!(game.state(), GameState::Playing);
        let bird = game.bird().unwrap();
        assert_eq!(bird.velocity, (-100 * tick).max(-2_000));
        if tick <= 20 {
            assert_eq!(bird.y, -200_000 * tick * (tick + 1));
        }
    }
    assert_eq!(game.bird(), Some(Bird { velocity: -2_000, x: 0, y: -124_000_000 }));
    let events = game.step(false, 20, 0);
    assert_eq!(events, Events { round_over: true, ..QUIET });
    assert_eq!(game.state(), GameState::GameOver);
    assert_eq!(game.bird(), None);
    assert!(game.pipes().is_empty());
    assert_eq!(game.score(), 0);
    assert_eq!(game.spawn_timer_elapsed(), 0);
}

#[test]
fn the_round_ends_strictly_below_the_death_height() {
    // 125 ticks of five milliseconds at terminal velocity cover exactly 125 pixels.
    let mut game = started();
    assert_eq!(game.step(false, 400, 0), Events { round_over: true, ..QUIET });
    let mut game = started();
    game.step(false, 0, 0);
    assert_eq!(game.bird(), Some(Bird { velocity: 0, x: 0, y: 0 }));
    game.step(false, 312, 0);
    assert_eq!(game.bird(), Some(Bird { velocity: -1_560, x: 0, y: -97_344_000 }));
    game.step(true, 0, 0);
    game.step(false, 88, 0);
    assert_eq!(game.bird(), Some(Bird { velocity: 1_060, x: 0, y: -78_688_000 }));
    game.step(false, 612, 0);
    assert_eq!(game.state(), GameState::GameOver);
}

#[test]
fn the_death_height_itself_is_survived() {
    let mut game = started();
    game.step(false, 400, 0);
    assert_eq!(game.state(), GameState::GameOver);
    let mut game = started();
    // Fall to terminal velocity without moving far, then sink to the line.
    for _ in 0..400 {
        game.step(false, 1, 0);
    }
    let bird = game.bird().unwrap();
    assert_eq!(bird.velocity, -2_000);
    assert_eq!(bird.y, -200 * 5 * 400 * 401 / 2);
    let left = bird.y + 125_000_000;
    assert_eq!(left % 400_000, 0);
    for _ in 0..left / 400_000 {
        assert_eq!(game.step(false, 1, 0), QUIET);
    }
    assert_eq!(game.bird(), Some(Bird { velocity: -2_000, x: 0, y: -125_000_000 }));
    assert_eq!(game.state(), GameState::Playing);
    assert_eq!(game.step(false, 1, 0), Events { round_over: true, ..QUIET });
    assert_eq!(game.state(), GameState::GameOver);
}

#[test]
fn the_bird_beats_its_wings_only_in_an_unstopped_round() {
    let mut game = Simulation::new();
    assert_eq!(game.bird_frame(250), None);
    game.step(true, 20, 0);
    assert_eq!(game.bird_frame(0), Some(0));
    assert_eq!(game.bird_frame(250), Some(2));
    assert_eq!(game.bird_frame(399), Some(3));
    assert_eq!(game.bird_frame(400), Some(0));
    fly(&mut game, 339, -50_000_000);
    assert_eq!(game.play_state(), PlayState::HitPipe);
    assert_eq!(game.bird_frame(250), None);
    while game.state() == GameState::Playing {
        game.step(false, 20, 0);
    }
    assert_eq!(game.bird_frame(250), None);
}

#[test]
fn input_on_the_game_over_screen_leads_to_the_menu() {
    let mut game = started();
    game.step(false, 1_000, 0);
    assert_eq!(game.state(), GameState::GameOver);
    assert_eq!(game.step(false, 16, 0), QUIET);
    assert_eq!(game.state(), GameState::GameOver);
    assert_eq!(game.step(true, 16, 0), QUIET);
    assert_eq!(game.state(), GameState::Menu);
    assert_eq!(game.step(true, 16, 0), QUIET);
    assert_eq!(game.state(), GameState::Playing);
    assert_eq!(game.play_state(), PlayState::Normal);
    assert_eq!(game.bird(), Some(Bird { velocity: 0, x: 0, y: 0 }));
}

#[test]
fn a_pair_of_pipes_appears_every_four_seconds() {
    let mut game = started();
    fly(&mut game, 199, 0);
    assert!(game.pipes().is_empty());
    assert_eq!(game.spawn_timer_elapsed(), 3_980);
    assert!(!game.spawn_due(19));
    assert!(game.spawn_due(20));
    assert_eq!(game.ground(), &vec![-199_000_000, 137_000_000]);
    fly(&mut game, 1, 0);
    assert_eq!(
        game.pipes(),
        &vec![pipe(180_000_000, -160_000_000, true), flipped_pipe(180_000_000, 260_000_000, true)]
    );
    assert_eq!(game.spawn_timer_elapsed(), 0);
    assert_eq!(game.bird(), Some(Bird { velocity: -300, x: 0, y: 71_600_000 }));
    fly(&mut game, 1, 0);
    assert_eq!(
        game.pipes(),
        &vec![pipe(179_000_000, -160_000_000, true), flipped_pipe(179_000_000, 260_000_000, true)]
    );
    fly(&mut game, 199, 25_000_000);
    assert_eq!(game.pipes().len(), 4);
    assert_eq!(game.pipes()[0], pipe(-20_000_000, -160_000_000, true));
    assert_eq!(game.pipes()[2], pipe(180_000_000, -135_000_000, true));
    assert_eq!(game.pipes()[3], flipped_pipe(180_000_000, 285_000_000, true));
    assert_eq!(game.ground(), &vec![272_000_000, -64_000_000]);
}

#[test]
fn passing_a_pair_scores_a_point_for_each_pipe_one_per_tick() {
    let mut game = started();
    let events = fly(&mut game, 423, 0);
    assert!(events.iter().all(|e| !e.scored && !e.hit_pipe && !e.round_over));
    assert_eq!(game.score(), 0);
    assert_eq!(game.pipes()[0], pipe(-43_000_000, -160_000_000, true));
    assert_eq!(game.pipes()[1], flipped_pipe(-43_000_000, 260_000_000, true));

    // The tick on which the trailing edge is behind the bird credits the first pipe.
    let events = fly(&mut game, 1, 0);
    assert_eq!(events, vec![Events { scored: true, ..QUIET }]);
    assert_eq!(game.score(), 1);
    assert_eq!(game.pipes().len(), 4);
    assert_eq!(game.pipes()[0], pipe(-44_000_000, -160_000_000, false));
    assert_eq!(game.pipes()[1], flipped_pipe(-44_000_000, 260_000_000, true));
    assert_eq!(game.bird(), Some(Bird { velocity: -1_000, x: 0, y: 52_000_000 }));
    assert_eq!(game.spawn_timer_elapsed(), 480);

    // The next tick credits the second.
    let events = fly(&mut game, 1, 0);
    assert_eq!(events, vec![Events { scored: true, ..QUIET }]);
    assert_eq!(game.score(), 2);
    assert_eq!(game.pipes()[0], pipe(-45_000_000, -160_000_000, false));
    assert_eq!(game.pipes()[1], flipped_pipe(-45_000_000, 260_000_000, false));
    assert_eq!(game.pipes()[2], pipe(155_000_000, -160_000_000, true));
    assert_eq!(game.bird(), Some(Bird { velocity: -1_100, x: 0, y: 47_600_000 }));

    // Nothing more is credited until the next pair has gone by.
    let events = fly(&mut game, 198, 0);
    assert!(events.iter().all(|e| !e.scored));
    assert_eq!(game.score(), 2);
    let events = fly(&mut game, 2, 0);
    assert!(events[0].scored && events[1].scored);
    assert_eq!(game.score(), 4);
}

#[test]
fn the_score_never_goes_down_within_a_round() {
    let mut game = started();
    let mut before = 0;
    let mut points = Vec::new();
    for tick in 1..=1_299usize {
        let events = fly(&mut game, 1, 0);
        assert_eq!(game.state(), GameState::Playing);
        let score = game.score();
        assert!(score == before || score == before + 1);
        assert_eq!(events[0].scored, score == before + 1);
        if score != before {
            points.push(tick);
        }
        before = score;
    }
    assert_eq!(points, vec![424, 425, 624, 625, 824, 825, 1_024, 1_025, 1_224, 1_225]);
    assert_eq!(game.score(), 10);
}

#[test]
fn pipes_leave_behind_the_line() {
    let mut game = started();
    fly(&mut game, 560, 0);
    assert_eq!(game.pipes().len(), 4);
    assert_eq!(game.pipes()[0], pipe(-180_000_000, -160_000_000, false));
    assert_eq!(game.pipes()[1], flipped_pipe(-180_000_000, 260_000_000, false));
    fly(&mut game, 1, 0);
    assert_eq!(
        game.pipes(),
        &vec![pipe(19_000_000, -160_000_000, true), flipped_pipe(19_000_000, 260_000_000, true)]
    );
    assert_eq!(game.score(), 2);
    assert_eq!(game.ground(), &vec![111_000_000, -225_000_000]);
}

#[test]
fn hitting_a_pipe_stops_the_round_until_the_bird_has_fallen() {
    let mut game = started();
    let events = fly(&mut game, 338, -50_000_000);
    assert!(events.iter().all(|e| !e.scored && !e.hit_pipe && !e.round_over));
    assert_eq!(game.play_state(), PlayState::Normal);
    let events = fly(&mut game, 1, -50_000_000);
    assert_eq!(events, vec![Events { hit_pipe: true, ..QUIET }]);
    assert_eq!(game.state(), GameState::Playing);
    assert_eq!(game.play_state(), PlayState::HitPipe);
    assert_eq!(game.bird(), Some(Bird { velocity: 1_300, x: 0, y: 42_800_000 }));
    let pipes =
        vec![pipe(41_000_000, -210_000_000, true), flipped_pipe(41_000_000, 210_000_000, true)];
    assert_eq!(game.pipes(), &pipes);
    assert_eq!(game.ground(), &vec![333_000_000, -3_000_000]);
    assert_eq!(game.spawn_timer_elapsed(), 2_780);
    assert!(!game.spawn_due(u32::MAX));

    // The round is stopped: input is ignored and only the bird moves.
    let mut height = 42_800_000;
    let mut velocity = 1_300;
    for tick in 340..387 {
        assert!(game.can_step(true, 20));
        assert_eq!(game.step(true, 20, 0), QUIET, "tick {}", tick);
        velocity = (velocity - 100).max(-2_000);
        height += velocity * 4_000;
        assert_eq!(game.bird(), Some(Bird { velocity, x: 0, y: height }));
        assert_eq!(game.state(), GameState::Playing);
        assert_eq!(game.play_state(), PlayState::HitPipe);
        assert_eq!(game.pipes(), &pipes);
        assert_eq!(game.ground(), &vec![333_000_000, -3_000_000]);
        assert_eq!(game.spawn_timer_elapsed(), 2_780);
        assert_eq!(game.score(), 0);
    }
    assert_eq!(game.step(true, 20, 0), Events { round_over: true, ..QUIET });
    assert_eq!(game.state(), GameState::GameOver);
    assert_eq!(game.play_state(), PlayState::HitPipe);
    assert_eq!(game.bird(), None);
    assert!(game.pipes().is_empty());
    assert_eq!(game.spawn_timer_elapsed(), 0);

    // The next round starts unstopped.
    game.step(true, 20, 0);
    game.step(true, 20, 0);
    assert_eq!(game.state(), GameState::Playing);
    assert_eq!(game.play_state(), PlayState::Normal);
    assert_eq!(game.step(true, 20, 0), Events { flapped: true, ..QUIET });
}

#[test]
fn the_score_is_reset_when_the_round_ends() {
    let mut game = started();
    fly(&mut game, 700, 0);
    assert_eq!(game.score(), 4);
    let mut ticks = 0;
    while game.state() == GameState::Playing {
        game.step(false, 20, 0);
        ticks += 1;
        assert!(ticks < 100);
    }
    assert_eq!(game.state(), GameState::GameOver);
    assert_eq!(game.score(), 0);
    assert!(game.pipes().is_empty());
}

#[test]
fn tick_draws_the_gap_at_random() {
    let mut game = Simulation::new();
    assert_eq!(game.tick(true, 20), QUIET);
    assert_eq!(game.state(), GameState::Playing);
    let mut centers = Vec::new();
    for _ in 0..40 {
        for _ in 0..199 {
            let input = pilot(&game);
            game.tick(input, 1);
        }
        assert!(game.pipes().is_empty());
        // Spend the rest of the period in one tick, with a flap to stay clear of the ground.
        assert!(game.spawn_due(3_801));
        game.tick(true, 3_801);
        assert_eq!(game.state(), GameState::Playing);
        assert_eq!(game.pipes().len(), 2);
        let upper = game.pipes()[0];
        let lower = game.pipes()[1];
        let gap_center = upper.y + 160_000_000;
        assert!(-50_000_000 <= gap_center && gap_center < 50_000_000);
        assert_eq!((upper, lower), new_pipe_pair(gap_center));
        centers.push(gap_center);
        // Bring the bird back down before the next period, and the pipes away.
        restart(&mut game);
    }
    assert!(centers.iter().any(|y| *y != centers[0]));
}

/// Lets the bird fall to its death and starts the next round.
fn restart(game: &mut Simulation) {
    let mut ticks = 0;
    while game.state() == GameState::Playing {
        game.tick(false, 100);
        ticks += 1;
        assert!(ticks < 10_000);
    }
    game.tick(true, 20);
    game.tick(true, 20);
    assert_eq!(game.state(), GameState::Playing);
    assert!(game.pipes().is_empty());
}

#[test]
fn can_step_tells_when_the_bird_would_leave_the_range() {
    let mut game = Simulation::new();
    game.step(true, 0, 0);
    let mut ticks = 0;
    while game.can_step(true, u32::MAX) {
        game.step(true, u32::MAX, 0);
        ticks += 1;
        assert!(ticks < 10_000);
        assert_eq!(game.state(), GameState::Playing);
        assert_eq!(game.play_state(), PlayState::Normal);
    }
    assert_eq!(ticks, 7_158);
    assert_eq!(game.bird(), Some(Bird { velocity: 1_500, x: 0, y: 9_223_012_769_283_000_000 }));
    assert_eq!(game.ground(), &vec![-1_537_163_984_704_500_000, -1_537_163_984_368_500_000]);
    assert_eq!(game.score(), 0);
    // Without the flap the bird falls, and that still fits.
    assert!(game.can_step(false, u32::MAX));
    assert!(game.can_step(true, 0));
}
