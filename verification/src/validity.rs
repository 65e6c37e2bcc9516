//! Run-time tests of what the engine asks of a game before a tick, for
//! callers that cannot know it otherwise.

use vstd::prelude::*;
use crate::config::{GameConfig, ADD_LENGTH_GROWTH, APPLE_GROWTH, INITIAL_LENGTH};
use crate::client_message::GameIncomingMessage;
use crate::game_runner::{tick, tick_fits, tick_outcome, ticked};
use crate::game_state::{views, GameState, Snake, SnakeView};
use crate::power_ups::Purchases;
use crate::roster::{lemma_longest_covers, longest, purchase_ids, ready_ids, snake_ids,
    snakes_wf};
use crate::server_message::{ReadyStatus, ServerMessage};

verus! {

/// Tells whether no name stands twice in a list.
pub fn are_distinct(names: &Vec<String>) -> (r: bool)
    ensures
        r == views(names@).no_duplicates(),
{
    let ghost all = views(names@);
    let mut i: usize = 0;
    while i < names.len()
        invariant
            i <= names.len(),
            all == views(names@),
            forall|a: int, b: int| 0 <= a < b < i ==> all[a] != all[b],
        decreases names.len() - i,
    {
        let mut j: usize = 0;
        while j < i
            invariant
                j <= i,
                i < names.len(),
                all == views(names@),
                forall|a: int| 0 <= a < j ==> all[a] != all[i as int],
            decreases i - j,
        {
            if names[j] == names[i] {
                assert(all[j as int] == all[i as int]);
                return false;
            }
            j += 1;
        }
        i += 1;
    }
    true
}

/// The players of a list of snakes.
pub fn snake_names(snakes: &Vec<Snake>) -> (r: Vec<String>)
    ensures
        views(r@) == snake_ids(views(snakes@)),
{
    let mut names: Vec<String> = Vec::new();
    let mut i: usize = 0;
    while i < snakes.len()
        invariant
            i <= snakes.len(),
            names.len() == i,
            forall|k: int| 0 <= k < i ==> names@[k]@ == snakes@[k]@.user_id(),
        decreases snakes.len() - i,
    {
        names.push(snakes[i].user_id().clone());
        i += 1;
    }
    assert(views(names@) =~= snake_ids(views(snakes@)));
    names
}

/// The players of a lobby.
pub fn ready_names(status: &Vec<ReadyStatus>) -> (r: Vec<String>)
    ensures
        views(r@) == ready_ids(views(status@)),
{
    let mut names: Vec<String> = Vec::new();
    let mut i: usize = 0;
    while i < status.len()
        invariant
            i <= status.len(),
            names.len() == i,
            forall|k: int| 0 <= k < i ==> names@[k]@ == status@[k].user_id@,
        decreases status.len() - i,
    {
        names.push(status[i].user_id.clone());
        i += 1;
    }
    assert(views(names@) =~= ready_ids(views(status@)));
    names
}

/// The players of a record of purchases.
pub fn purchase_names(purchases: &Vec<Purchases>) -> (r: Vec<String>)
    ensures
        views(r@) == purchase_ids(views(purchases@)),
{
    let mut names: Vec<String> = Vec::new();
    let mut i: usize = 0;
    while i < purchases.len()
        invariant
            i <= purchases.len(),
            names.len() == i,
            forall|k: int| 0 <= k < i ==> names@[k]@ == purchases@[k].user_id@,
        decreases purchases.len() - i,
    {
        names.push(purchases[i].user_id.clone());
        i += 1;
    }
    assert(views(names@) =~= purchase_ids(views(purchases@)));
    names
}

/// Tells whether the engine can work on a list of snakes.
pub fn are_well_formed(snakes: &Vec<Snake>, cfg: &GameConfig) -> (r: bool)
    ensures
        r == snakes_wf(views(snakes@), *cfg),
{
    if !are_distinct(&snake_names(snakes)) {
        return false;
    }
    let mut i: usize = 0;
    while i < snakes.len()
        invariant
            i <= snakes.len(),
            forall|k: int| 0 <= k < i ==> (#[trigger] views(snakes@)[k]).wf(*cfg),
        decreases snakes.len() - i,
    {
        if !snakes[i].is_well_formed(cfg) {
            assert(!views(snakes@)[i as int].wf(*cfg));
            return false;
        }
        i += 1;
    }
    true
}

/// The length of the longest snake, or `None` if it does not fit in `u32`.
pub fn longest_snake(snakes: &Vec<Snake>) -> (r: Option<u32>)
    ensures
        match r {
            Some(length) => length == longest(views(snakes@)),
            None => longest(views(snakes@)) > u32::MAX,
        },
{
    let ghost all = views(snakes@);
    let mut most: u32 = INITIAL_LENGTH;
    let mut i: usize = 0;
    assert(all.take(0) =~= Seq::<SnakeView>::empty());
    while i < snakes.len()
        invariant
            i <= snakes.len(),
            all == views(snakes@),
            most == longest(all.take(i as int)),
        decreases snakes.len() - i,
    {
        proof {
            assert(all.take(i + 1).drop_last() =~= all.take(i as int));
            assert(all.take(i + 1).last() == snakes@[i as int]@);
        }
        match &snakes[i] {
            Snake::Alive(snake) => {
                match snake.length() {
                    Some(length) => {
                        if length > most {
                            most = length;
                        }
                    },
                    None => {
                        proof {
                            lemma_longest_covers(all, i as int);
                        }
                        return None;
                    },
                }
            },
            Snake::Dead { .. } => {},
        }
        i += 1;
    }
    assert(all.take(i as int) =~= all);
    Some(most)
}

impl GameState {
    /// Tells whether the engine can work on the game.
    pub fn is_well_formed(&self, cfg: &GameConfig) -> (r: bool)
        ensures
            r == self@.wf(*cfg),
    {
        match self {
            GameState::WaitingForPlayers { ready_status } => are_distinct(
                &ready_names(ready_status),
            ),
            GameState::Playing { snakes, apples, purchases } => snakes.len() > 0
                && are_well_formed(snakes, cfg) && are_distinct(&purchase_names(purchases)),
            GameState::GameOver { winner, purchases } => are_distinct(&purchase_names(purchases)),
        }
    }

    /// Tells whether the numbers of a tick with `commands` commands, for a
    /// game of `players` players, fit the machine.
    pub fn fits_tick(&self, cfg: &GameConfig, players: usize, commands: usize) -> (r: bool)
        ensures
            r == tick_fits(self@, *cfg, players as nat, commands as nat),
    {
        match self {
            GameState::WaitingForPlayers { .. } => 0 < players && players as u128
                <= u32::MAX as u128,
            GameState::Playing { snakes, apples, .. } => {
                match longest_snake(snakes) {
                    Some(most) => {
                        let apple_count = if apples.len() > cfg.num_apples as usize {
                            apples.len() as u128
                        } else {
                            cfg.num_apples as u128
                        };
                        let by_commands: u128 = ADD_LENGTH_GROWTH as u128 * (commands as u128);
                        let by_apples: u128 = APPLE_GROWTH as u128 * apple_count;
                        most as u128 + by_commands + by_apples <= u32::MAX as u128
                    },
                    None => false,
                }
            },
            GameState::GameOver { .. } => true,
        }
    }

    /// Tells whether [`crate::game_runner::tick`] may be called on the game:
    /// whether the configuration and the game are well formed and the
    /// numbers of the tick fit the machine.
    pub fn can_tick(&self, cfg: &GameConfig, players: usize, commands: usize) -> (r: bool)
        ensures
            r == (cfg.wf() && self@.wf(*cfg) && tick_fits(
                self@,
                *cfg,
                players as nat,
                commands as nat,
            )),
    {
        cfg.is_valid() && self.is_well_formed(cfg) && self.fits_tick(cfg, players, commands)
    }
}

/// Runs one tick if the game can take it, and tells with `None` that it
/// cannot; the game is then left as it was.
pub fn try_tick(
    game: &mut GameState,
    all_players: &Vec<String>,
    cfg: &GameConfig,
    tick_count: u32,
    player_messages: Vec<GameIncomingMessage>,
) -> (r: Option<Vec<ServerMessage>>)
    ensures
        r is Some <==> cfg.wf() && old(game)@.wf(*cfg) && tick_fits(
            old(game)@,
            *cfg,
            all_players.len() as nat,
            player_messages.len() as nat,
        ),
        r matches Some(send_to_all) ==> final(game)@.wf(*cfg) && tick_outcome(
            old(game)@,
            *cfg,
            views(all_players@),
            tick_count,
            views(player_messages@),
            ticked(*final(game), send_to_all@),
        ),
        r is None ==> *final(game) == *old(game),
{
    if game.can_tick(cfg, all_players.len(), player_messages.len()) {
        Some(tick(game, all_players, cfg, tick_count, player_messages))
    } else {
        None
    }
}

} // verus!
