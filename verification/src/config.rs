//! The constants of a game, gathered so that a server can tune them.

use vstd::prelude::*;

verus! {

/// Cells a snake has when it enters the board.
pub const INITIAL_LENGTH: u32 = 3;

/// Cells that one apple adds to the tail.
pub const APPLE_GROWTH: u32 = 2;

/// Cells that the add-length power-up adds to the tail.
pub const ADD_LENGTH_GROWTH: u32 = 10;

/// Cells that the shrink power-up takes from the tail.
pub const SHRINK_AMOUNT: u32 = 10;

/// The length below which the shrink power-up never trims the last segment
/// of a snake.
pub const SHRINK_FLOOR: u32 = 3;

/// Placements tried for one missing apple before it is left for the next tick.
pub const APPLE_ATTEMPTS: u32 = 5;

/// What a server may tune about a game.
#[derive(Clone, Copy, Debug, PartialEq, Eq)]
pub struct GameConfig {
    /// Milliseconds between two ticks.
    pub tick_time_ms: u64,
    /// Cells across the board; the board wraps round on both axes.
    pub board_width: u32,
    /// Cells down the board.
    pub board_height: u32,
    /// Apples that the board is filled up to.
    pub num_apples: u32,
    /// Snakes move on every tick whose count this number divides.
    pub move_every_ticks: u32,
    /// Ticks a snake stays dead before it may be revived.
    pub revive_ticks: u64,
    /// Milliseconds that a freeze or an invulnerability lasts.
    pub effect_time_ms: u64,
}

impl GameConfig {
    /// A configuration that the engine can run on: time passes and the board
    /// has cells.
    pub open spec fn wf(self) -> bool {
        &&& self.tick_time_ms > 0
        &&& self.board_width > 0
        &&& self.board_height > 0
        &&& self.move_every_ticks > 0
    }

    /// Ticks that a freeze or an invulnerability lasts.
    pub open spec fn spec_effect_ticks(self) -> u64 {
        (self.effect_time_ms / self.tick_time_ms) as u64
    }

    /// Tells whether the engine can run on this configuration.
    pub fn is_valid(&self) -> (r: bool)
        ensures
            r == self.wf(),
    {
        self.tick_time_ms > 0 && self.board_width > 0 && self.board_height > 0
            && self.move_every_ticks > 0
    }

    /// Ticks that a freeze or an invulnerability lasts.
    #[verifier::when_used_as_spec(spec_effect_ticks)]
    pub fn effect_ticks(self) -> (r: u64)
        requires
            self.wf(),
        ensures
            r == self.spec_effect_ticks(),
    {
        self.effect_time_ms / self.tick_time_ms
    }

    /// The board centre, where a revived snake enters.
    pub open spec fn centre(self) -> (u32, u32) {
        ((self.board_width / 2) as u32, (self.board_height / 2) as u32)
    }
}

impl Default for GameConfig {
    /// A 100 by 50 board with 40 apples, ten ticks a second, a move on every
    /// tick, 100 ticks of death and three seconds of freeze or
    /// invulnerability.
    fn default() -> (r: GameConfig)
        ensures
            r.wf(),
            r.tick_time_ms == 100,
            r.board_width == 100,
            r.board_height == 50,
            r.num_apples == 40,
            r.move_every_ticks == 1,
            r.revive_ticks == 100,
            r.effect_time_ms == 3000,
            r.effect_ticks() == 30,
    {
        GameConfig {
            tick_time_ms: 100,
            board_width: 100,
            board_height: 50,
            num_apples: 40,
            move_every_ticks: 1,
            revive_ticks: 100,
            effect_time_ms: 3000,
        }
    }
}

} // verus!
