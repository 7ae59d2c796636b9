use flappy_bird::game::bird::Bird;
use flappy_bird::game::pipes::Pipe;
use flappy_bird::game::{
    can_scroll, check_death, reset_score, reuse_ground, scroll, PlayState, Score, DEATH_HEIGHT,
};
use flappy_bird::{cleanup, has_user_input, scene_setup, GameState, GROUND_WIDTH, PIXEL};

fn pipe(x: i64, y: i64, approaching: bool) -> Pipe {
    Pipe { x, y, approaching, flipped: false }
}

fn flipped_pipe(x: i64, y: i64, approaching: bool) -> Pipe {
    Pipe { x, y, approaching, flipped: true }
}

#[test]
fn the_game_starts_in_the_menu_and_a_round_unstopped() {
    assert_eq!(GameState::default(), GameState::Menu);
    assert_eq!(PlayState::default(), PlayState::Normal);
    assert_eq!(Score::default().value(), 0);
}

#[test]
fn any_of_the_three_inputs_counts() {
    assert!(!has_user_input(false, false, false));
    assert!(has_user_input(true, false, false));
    assert!(has_user_input(false, true, false));
    assert!(has_user_input(false, false, true));
    assert!(has_user_input(true, true, true));
}

#[test]
fn the_scene_has_two_ground_tiles_side_by_side() {
    assert_eq!(scene_setup(), vec![0, 336_000_000]);
    assert_eq!(GROUND_WIDTH, 336 * PIXEL);
}

#[test]
fn cleanup_discards_the_bird_and_the_pipes() {
    let mut bird = Some(Bird { velocity: 1, x: 2, y: 3 });
    let mut pipes = vec![pipe(1, 2, true), pipe(3, 4, false)];
    cleanup(&mut bird, &mut pipes);
    assert_eq!(bird, None);
    assert!(pipes.is_empty());
    cleanup(&mut bird, &mut pipes);
    assert_eq!(bird, None);
    assert!(pipes.is_empty());
}

#[test]
fn scroll_moves_pipes_and_ground_alike() {
    let mut pipes =
        vec![pipe(180_000_000, -160_000_000, true), flipped_pipe(0, 260_000_000, false)];
    let mut ground = vec![0, 336_000_000];
    assert!(can_scroll(&pipes, &ground, 16));
    scroll(&mut pipes, &mut ground, 16);
    assert_eq!(
        pipes,
        vec![pipe(179_200_000, -160_000_000, true), flipped_pipe(-800_000, 260_000_000, false)]
    );
    assert_eq!(ground, vec![-800_000, 335_200_000]);
    scroll(&mut pipes, &mut ground, 1_000);
    assert_eq!(pipes[0].x, 129_200_000);
    assert_eq!(ground[1], 285_200_000);
    scroll(&mut pipes, &mut ground, 0);
    assert_eq!(pipes[0].x, 129_200_000);
    assert_eq!(ground[0], -50_800_000);
}

#[test]
fn can_scroll_tells_when_a_position_would_not_fit() {
    let far = vec![pipe(i64::MIN + 49_999, 0, true)];
    let near = vec![pipe(i64::MIN + 50_000, 0, true)];
    let ground = vec![0, 336_000_000];
    assert!(!can_scroll(&far, &ground, 1));
    assert!(can_scroll(&far, &ground, 0));
    assert!(can_scroll(&near, &ground, 1));
    let none: Vec<Pipe> = Vec::new();
    assert!(!can_scroll(&none, &vec![0, i64::MIN], 1));
    assert!(can_scroll(&none, &vec![0, i64::MIN + 50_000], 1));
    assert!(can_scroll(&none, &vec![i64::MAX], u32::MAX));
}

#[test]
fn ground_tile_behind_its_width_moves_two_widths_ahead() {
    let mut ground = vec![-336_000_001, -336_000_000, 0, -1_000_000_000, 335_999_999];
    reuse_ground(&mut ground);
    assert_eq!(ground, vec![335_999_999, -336_000_000, 0, -328_000_000, 335_999_999]);
}

#[test]
fn two_tiles_make_an_endless_strip() {
    let mut ground = scene_setup();
    let mut pipes: Vec<Pipe> = Vec::new();
    for _ in 0..10_000 {
        scroll(&mut pipes, &mut ground, 16);
        reuse_ground(&mut ground);
        let (left, right) = (ground[0].min(ground[1]), ground[0].max(ground[1]));
        assert_eq!(right - left, 336_000_000);
        assert!(-336_000_000 <= left && left <= 0);
    }
}

#[test]
fn death_is_strictly_below_the_death_height() {
    let mut state = GameState::Playing;
    assert!(!check_death(&mut state, &Bird { velocity: -2_000, x: 0, y: -125_000_000 }));
    assert_eq!(state, GameState::Playing);
    assert!(!check_death(&mut state, &Bird { velocity: -2_000, x: 0, y: 0 }));
    assert_eq!(state, GameState::Playing);
    assert!(check_death(&mut state, &Bird { velocity: 1_500, x: 0, y: -125_000_001 }));
    assert_eq!(state, GameState::GameOver);
    assert_eq!(DEATH_HEIGHT, -125 * PIXEL);
}

#[test]
fn score_counts_up_and_resets() {
    let mut score = Score::default();
    score.increment();
    score.increment();
    assert_eq!(score.value(), 2);
    reset_score(&mut score);
    assert_eq!(score.value(), 0);
}
