use flappy_bird::game::timer::SpawnTimer;
use flappy_bird::game::{reset_timer, PIPE_SPAWN_TIME};

#[test]
fn new_timer_starts_its_period() {
    let timer = SpawnTimer::new(PIPE_SPAWN_TIME);
    assert_eq!(timer.period(), 4_000);
    assert_eq!(timer.elapsed(), 0);
}

#[test]
fn tick_short_of_the_period_accumulates() {
    let mut timer = SpawnTimer::new(4_000);
    assert!(!timer.tick(1_500));
    assert_eq!(timer.elapsed(), 1_500);
    assert!(!timer.tick(2_499));
    assert_eq!(timer.elapsed(), 3_999);
}

#[test]
fn tick_that_completes_the_period_wraps_around() {
    let mut timer = SpawnTimer::new(4_000);
    assert!(!timer.tick(3_990));
    assert!(timer.tick(10));
    assert_eq!(timer.elapsed(), 0);
    assert!(!timer.tick(3_990));
    assert!(timer.tick(25));
    assert_eq!(timer.elapsed(), 15);
}

#[test]
fn tick_over_several_periods_finishes_once_and_keeps_the_rest() {
    let mut timer = SpawnTimer::new(4_000);
    assert!(timer.tick(9_000));
    assert_eq!(timer.elapsed(), 1_000);
    assert_eq!(timer.period(), 4_000);
}

#[test]
fn tick_of_the_greatest_length_fits() {
    let mut timer = SpawnTimer::new(u32::MAX);
    assert!(!timer.tick(u32::MAX - 1));
    assert!(timer.tick(u32::MAX));
    assert_eq!(timer.elapsed(), u32::MAX - 1);
}

#[test]
fn timer_without_a_period_finishes_on_every_tick() {
    let mut timer = SpawnTimer::new(0);
    assert!(timer.finishes(0));
    assert!(timer.tick(0));
    assert_eq!(timer.elapsed(), 0);
    assert!(timer.tick(17));
    assert_eq!(timer.elapsed(), 0);
}

#[test]
fn finishes_foretells_the_tick() {
    let mut timer = SpawnTimer::new(4_000);
    timer.tick(3_000);
    assert!(!timer.finishes(999));
    assert!(timer.finishes(1_000));
    assert!(timer.finishes(1_001));
    assert_eq!(timer.elapsed(), 3_000);
}

#[test]
fn reset_starts_the_period_over() {
    let mut timer = SpawnTimer::new(4_000);
    timer.tick(3_999);
    timer.reset();
    assert_eq!(timer.elapsed(), 0);
    assert_eq!(timer.period(), 4_000);
    assert!(!timer.tick(3_999));
    reset_timer(&mut timer);
    assert_eq!(timer.elapsed(), 0);
    assert_eq!(timer.period(), 4_000);
}
