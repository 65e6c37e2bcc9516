//! The simulation core of a multiplayer snake-and-apple game server.
//!
//! A game is a value of [`game_state::GameState`]: a lobby, a game in play or
//! a game that is over. Once per tick the server hands the commands that
//! arrived since the last tick to [`game_runner::tick`], which moves the game
//! one step forward and returns the events to send to the players.
//! [`routing`] says what goes to whom, [`management_server`] sets a game up,
//! and [`all_games_state`] keeps the games of a server and admits the
//! connections of their players. Sockets, timers, locks and the reckoning of
//! prices stay with the caller.
//!
//! # Contracts
//!
//! Each type has a view, a value made of sequences and numbers, and each
//! function says in its contract what it does to the views. The rules of the
//! game are written down once, as `spec` functions on views: [`snake`] for one
//! snake, [`commands`], [`apples`], [`collisions`] and [`winner`] for the
//! phases of a tick, [`game_runner::tick_outcome`] for the tick as a whole.
//! The `proof` functions beside them state what follows from the rules.
//!
//! A game that the engine works on is well formed
//! ([`game_state::GameStateView::wf`]); the engine keeps it so.
//! [`validity::try_tick`] tests at run time what [`game_runner::tick`] asks
//! of its caller.
//!
//! # Conventions
//!
//! - The board wraps round on both axes, and the body of a snake is the
//!   trail of its head: it goes round the edges of the board as the head
//!   did ([`snake::body_is_trail_of_head`]).
//! - Players stand in lists, in the order in which they came in, and no
//!   player stands twice in a list. Where several players could be meant, the
//!   first in the list is: the snake that eats an apple on which two heads
//!   lie, the winner of a game in which nobody is left.
//! - A command of a player who has no snake, or one aimed at such a player,
//!   is passed over.
//! - The engine records what each player has bought, not what it cost;
//!   [`power_ups::PowerUpCosts`] tells the cost of each purchase.
//! - Two things are left to chance and to other crates: the cells that are
//!   drawn for new apples (`rand`) and the identifier of a new game (`uuid`).
//!   Nothing is claimed of either; the contracts say what holds whatever was
//!   drawn.

pub mod all_games_state;
pub mod apples;
pub mod client_message;
pub mod collisions;
pub mod commands;
pub mod config;
pub mod game_runner;
pub mod game_state;
pub mod lobby;
pub mod management_server;
pub mod overlap_detector;
pub mod power_ups;
pub mod roster;
pub mod routing;
pub mod server_message;
pub mod snake;
pub mod validity;
pub mod winner;
