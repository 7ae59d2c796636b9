//! A side-scrolling arcade round in fixed-point arithmetic: a bird falls under
//! gravity, flaps on input, and scores by passing the pipes that scroll
//! towards it in pairs.
//!
//! Every quantity is an integer, so that each rule of the game is an exact
//! equation:
//!
//! * time is counted in milliseconds (`u32` for the length of one tick);
//! * lengths and positions are counted in millionths of a pixel (`i64`);
//! * the bird's vertical velocity is counted in thousandths (`i64`).
//!
//! The speeds are scaled to match: a velocity `v` held for `dt` milliseconds
//! moves the bird by `v * MOVE_SPEED * dt` millionths of a pixel.
//!
//! Each data type has a view into a model over `int` and `Seq`; the rules are
//! spec functions on the models, and the executable functions are proved to
//! compute them.

use crate::game::bird::Bird;
use crate::game::ground_positions;
use crate::game::pipes::Pipe;
use vstd::prelude::*;

pub mod game;
pub mod simulation;

verus! {

/// Number of position units in one pixel.
pub const PIXEL: i64 = 1_000_000;

/// Width of the bird's bounding box.
pub const BIRD_WIDTH: i64 = 34_000_000;

/// Height of the bird's bounding box.
pub const BIRD_HEIGHT: i64 = 24_000_000;

/// Width of a pipe's bounding box.
pub const PIPE_WIDTH: i64 = 52_000_000;

/// Height of a pipe's bounding box.
pub const PIPE_HEIGHT: i64 = 320_000_000;

/// Width of one ground tile.
pub const GROUND_WIDTH: i64 = 336_000_000;

/// Number of ground tiles that make the endless strip.
pub const GROUND_TILES: usize = 2;

/// Top-level state of the game.
#[derive(Debug, Clone, Copy, PartialEq, Eq, Structural, Hash)]
pub enum GameState {
    /// Waiting for the player to start a round.
    Menu,
    /// A round is in play.
    Playing,
    /// The round is lost; waiting for the player to go back to the menu.
    GameOver,
}

impl Default for GameState {
    fn default() -> (state: GameState)
        ensures
            state == GameState::Menu,
    {
        GameState::Menu
    }
}

/// Whether the player gave the one input the game knows on this tick: the
/// space bar, the left mouse button, or a touch, each as "just pressed".
pub fn has_user_input(space_pressed: bool, mouse_pressed: bool, touched: bool) -> (input: bool)
    ensures
        input == (space_pressed || mouse_pressed || touched),
{
    space_pressed || mouse_pressed || touched
}

/// Where the ground tiles lie at the start: side by side from the origin.
pub open spec fn initial_ground() -> Seq<int> {
    Seq::new(GROUND_TILES as nat, |i: int| i * GROUND_WIDTH)
}

/// Lays out the scene: the positions of the ground tiles.
pub fn scene_setup() -> (ground: Vec<i64>)
    ensures
        ground_positions(ground@) == initial_ground(),
{
    let mut ground: Vec<i64> = Vec::new();
    let mut i: usize = 0;
    while i < GROUND_TILES
        invariant
            i <= GROUND_TILES,
            ground@.len() == i,
            forall|j: int| 0 <= j < i ==> #[trigger] ground@[j] == j * GROUND_WIDTH,
        decreases GROUND_TILES - i,
    {
        ground.push((i as i64) * GROUND_WIDTH);
        i += 1;
    }
    assert(ground_positions(ground@) =~= initial_ground());
    ground
}

/// Discards what belongs to a round: the bird and every pipe.
pub fn cleanup(bird: &mut Option<Bird>, pipes: &mut Vec<Pipe>)
    ensures
        *final(bird) is None,
        final(pipes)@.len() == 0,
{
    *bird = None;
    pipes.clear();
}

} // verus!
