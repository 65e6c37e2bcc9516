//! The engine: what one tick does to a game, phase by phase.

use vstd::prelude::*;
use crate::apples::{after_meal, eat_apples, lemma_meal_keeps_heads, replenish_apples, replenished};
use crate::client_message::{GameIncomingMessage, GameIncomingMessageView};
use crate::collisions::{after_collisions, resolve_collisions};
use crate::commands::{after_commands, apply_commands, commanded, Commanded};
use crate::config::{GameConfig, ADD_LENGTH_GROWTH, APPLE_GROWTH};
use crate::game_state::{clone_items, copy_items, views, GameState, GameStateView, Snake,
    SnakeView};
use crate::lobby::{after_ready_commands, all_ready, apply_ready_commands, is_all_ready,
    start_game, starting_state};
use crate::power_ups::PurchasesView;
use crate::roster::{cells, lemma_longest_bound, lemma_longest_covers, lemma_longest_least,
    longest, purchase_ids, ready_ids, snake_ids, snakes_wf};
use crate::server_message::{sent_snake, ReadyStatusView, RecentPowerUp, RecentPowerUpView,
    SentSnake, SentSnakeView, ServerMessage, ServerMessageView};
use crate::winner::{find_winner, winner};

verus! {

impl GameStateView {
    /// A game that the engine can work on: no player stands twice in a list,
    /// every snake is well formed, and a game that is being played has a
    /// snake.
    pub open spec fn wf(self, cfg: GameConfig) -> bool {
        match self {
            GameStateView::WaitingForPlayers { ready_status } => ready_ids(
                ready_status,
            ).no_duplicates(),
            GameStateView::Playing { snakes, apples, purchases } => {
                &&& snakes.len() > 0
                &&& snakes_wf(snakes, cfg)
                &&& purchase_ids(purchases).no_duplicates()
            },
            GameStateView::GameOver { winner, purchases } => purchase_ids(
                purchases,
            ).no_duplicates(),
        }
    }
}

/// Whether the numbers of a tick fit the machine: a lobby has at least one
/// player and no more than `u32` counts, and in play the longest snake can
/// take every growth that the tick may bring.
pub open spec fn tick_fits(
    state: GameStateView,
    cfg: GameConfig,
    players: nat,
    commands: nat,
) -> bool {
    match state {
        GameStateView::WaitingForPlayers { .. } => 0 < players <= u32::MAX,
        GameStateView::Playing { snakes, apples, .. } => longest(snakes) + ADD_LENGTH_GROWTH
            * commands + APPLE_GROWTH * (if apples.len() > cfg.num_apples {
            apples.len()
        } else {
            cfg.num_apples as nat
        }) <= u32::MAX,
        GameStateView::GameOver { .. } => true,
    }
}

/// The snakes after their timers have run for one tick.
pub open spec fn decayed_all(snakes: Seq<SnakeView>) -> Seq<SnakeView> {
    snakes.map_values(|snake: SnakeView| snake.decayed())
}

/// The snakes after one tick of movement.
pub open spec fn advanced_all(snakes: Seq<SnakeView>, cfg: GameConfig) -> Seq<SnakeView> {
    snakes.map_values(|snake: SnakeView| snake.advanced(cfg))
}

/// What the players see of the snakes.
pub open spec fn sent_snakes(snakes: Seq<SnakeView>) -> Seq<SentSnakeView> {
    snakes.map_values(|snake: SnakeView| sent_snake(snake))
}

/// A game and the events of a tick.
pub struct Ticked {
    pub state: GameStateView,
    pub events: Seq<ServerMessageView>,
}

/// A game and the events of a tick, seen from the engine's own values.
pub open spec fn ticked(state: GameState, events: Seq<ServerMessage>) -> Ticked {
    Ticked { state: state@, events: views(events) }
}

/// A tick in the lobby: the commands are taken, the lobby is reported, and
/// once every player is ready the game starts.
pub open spec fn lobby_tick(
    cfg: GameConfig,
    players: Seq<Seq<char>>,
    status: Seq<ReadyStatusView>,
    commands: Seq<GameIncomingMessageView>,
) -> Ticked {
    let status = after_ready_commands(status, commands);
    let report = ServerMessageView::ReadyStatus { status };
    if all_ready(status) {
        Ticked {
            state: starting_state(cfg, players),
            events: seq![report, ServerMessageView::StartGame],
        }
    } else {
        Ticked {
            state: GameStateView::WaitingForPlayers { ready_status: status },
            events: seq![report],
        }
    }
}

/// The rest of a tick of play, once the commands are taken and the board is
/// filled up with apples: collisions, the meal, the timers, the decision,
/// the move on a tick that has one, and the report. The game is decided on
/// the snakes as they are before the move, and the tick that decides it still
/// reports the board.
pub open spec fn play_tick(
    cfg: GameConfig,
    tick_count: u32,
    state: Commanded,
    apples: Seq<(u32, u32)>,
) -> Ticked {
    let fed = after_meal(after_collisions(state.snakes, cfg), apples);
    let decayed = decayed_all(fed.snakes);
    let moved = if tick_count % cfg.move_every_ticks == 0 {
        advanced_all(decayed, cfg)
    } else {
        decayed
    };
    let report = ServerMessageView::GameState {
        apples: fed.apples,
        snakes: sent_snakes(moved),
        just_ate_apple: Seq::empty(),
        recent_power_ups: state.recent,
    };
    Ticked {
        state: match winner(decayed) {
            Some(player) => GameStateView::GameOver { winner: player, purchases: state.purchases },
            None => GameStateView::Playing {
                snakes: moved,
                apples: fed.apples,
                purchases: state.purchases,
            },
        },
        events: seq![report],
    }
}

/// A tick after the end: the result is reported once more and nothing
/// changes.
pub open spec fn game_over_tick(winner: Seq<char>, purchases: Seq<PurchasesView>) -> Ticked {
    Ticked {
        state: GameStateView::GameOver { winner, purchases },
        events: seq![ServerMessageView::GameOver { winner, purchases }],
    }
}

/// What a tick may make of a game. In the lobby and after the end the
/// outcome is fixed by the game and the commands. In play it is fixed by
/// them and by the apples that the board was filled up with, of which
/// `replenished` says what holds however the numbers were drawn.
pub open spec fn tick_outcome(
    before: GameStateView,
    cfg: GameConfig,
    players: Seq<Seq<char>>,
    tick_count: u32,
    commands: Seq<GameIncomingMessageView>,
    after: Ticked,
) -> bool {
    match before {
        GameStateView::WaitingForPlayers { ready_status } => after == lobby_tick(
            cfg,
            players,
            ready_status,
            commands,
        ),
        GameStateView::Playing { snakes, apples, purchases } => {
            let state = after_commands(
                Commanded { snakes, purchases, recent: Seq::empty() },
                cfg,
                commands,
            );
            exists|filled: Seq<(u32, u32)>| #[trigger]
                replenished(cfg, state.snakes, apples, filled) && after == play_tick(
                    cfg,
                    tick_count,
                    state,
                    filled,
                )
        },
        GameStateView::GameOver { winner, purchases } => after == game_over_tick(
            winner,
            purchases,
        ),
    }
}

/// Lets the timers of every snake run for one tick.
pub fn decay_all(snakes: &mut Vec<Snake>, cfg: &GameConfig)
    ensures
        views(final(snakes)@) == decayed_all(views(old(snakes)@)),
        snakes_wf(views(old(snakes)@), *cfg) ==> snakes_wf(views(final(snakes)@), *cfg),
        snake_ids(views(final(snakes)@)) == snake_ids(views(old(snakes)@)),
        longest(views(final(snakes)@)) <= longest(views(old(snakes)@)),
{
    let ghost before = views(snakes@);
    let mut n: usize = 0;
    while n < snakes.len()
        invariant
            n <= snakes.len(),
            snakes.len() == before.len(),
            forall|k: int| 0 <= k < n ==> views(snakes@)[k] == before[k].decayed(),
            forall|k: int| n <= k < before.len() ==> views(snakes@)[k] == before[k],
        decreases snakes.len() - n,
    {
        let ghost current = views(snakes@);
        snakes[n].decay();
        proof {
            let after = views(snakes@);
            assert forall|k: int| 0 <= k < n + 1 implies after[k] == before[k].decayed() by {
                if k < n {
                    assert(after[k] == current[k]);
                }
            }
            assert forall|k: int| n + 1 <= k < before.len() implies after[k] == before[k] by {
                assert(after[k] == current[k]);
            }
        }
        n += 1;
    }
    proof {
        let after = views(snakes@);
        assert(after =~= decayed_all(before));
        assert(snake_ids(after) =~= snake_ids(before));
        lemma_longest_least(before);
        assert forall|k: int| 0 <= k < after.len() implies cells(#[trigger] after[k]) <= longest(
            before,
        ) by {
            lemma_longest_covers(before, k);
        }
        lemma_longest_bound(after, longest(before));
        if snakes_wf(before, *cfg) {
            assert forall|k: int| 0 <= k < after.len() implies (#[trigger] after[k]).wf(*cfg) by {
                assert(before[k].wf(*cfg));
            }
        }
    }
}

/// Moves every living snake that is not frozen by one cell.
pub fn advance_all(snakes: &mut Vec<Snake>, cfg: &GameConfig)
    requires
        cfg.wf(),
        snakes_wf(views(old(snakes)@), *cfg),
    ensures
        views(final(snakes)@) == advanced_all(views(old(snakes)@), *cfg),
        snakes_wf(views(final(snakes)@), *cfg),
        snake_ids(views(final(snakes)@)) == snake_ids(views(old(snakes)@)),
{
    let ghost before = views(snakes@);
    let mut n: usize = 0;
    while n < snakes.len()
        invariant
            n <= snakes.len(),
            cfg.wf(),
            snakes.len() == before.len(),
            snakes_wf(before, *cfg),
            forall|k: int| 0 <= k < n ==> views(snakes@)[k] == before[k].advanced(*cfg),
            forall|k: int| 0 <= k < n ==> (#[trigger] views(snakes@)[k]).wf(*cfg),
            forall|k: int| n <= k < before.len() ==> views(snakes@)[k] == before[k],
        decreases snakes.len() - n,
    {
        let ghost current = views(snakes@);
        assert(before[n as int].wf(*cfg));
        snakes[n].advance(cfg);
        proof {
            let after = views(snakes@);
            assert forall|k: int| 0 <= k < n + 1 implies after[k] == before[k].advanced(*cfg)
                && after[k].wf(*cfg) by {
                if k < n {
                    assert(after[k] == current[k]);
                    assert(current[k].wf(*cfg));
                }
            }
            assert forall|k: int| n + 1 <= k < before.len() implies after[k] == before[k] by {
                assert(after[k] == current[k]);
            }
        }
        n += 1;
    }
    proof {
        let after = views(snakes@);
        assert(after =~= advanced_all(before, *cfg));
        assert(snake_ids(after) =~= snake_ids(before));
    }
}

/// What the players see of the snakes.
pub fn snapshot(snakes: &Vec<Snake>) -> (r: Vec<SentSnake>)
    ensures
        views(r@) == sent_snakes(views(snakes@)),
{
    let mut sent: Vec<SentSnake> = Vec::new();
    let mut i: usize = 0;
    while i < snakes.len()
        invariant
            i <= snakes.len(),
            sent.len() == i,
            forall|k: int| 0 <= k < i ==> sent@[k]@ == sent_snake(snakes@[k]@),
        decreases snakes.len() - i,
    {
        let one = SentSnake::from(&snakes[i]);
        sent.push(one);
        i += 1;
    }
    assert(views(sent@) =~= sent_snakes(views(snakes@)));
    sent
}

/// Runs one tick: takes the commands that came in since the last tick,
/// moves the game one step forward and returns the events to send to every
/// player, in their order.
///
/// `tick_count` is the number of ticks that the game has had; it decides
/// whether this tick has a move.
pub fn tick(
    game: &mut GameState,
    all_players: &Vec<String>,
    cfg: &GameConfig,
    tick_count: u32,
    player_messages: Vec<GameIncomingMessage>,
) -> (send_to_all: Vec<ServerMessage>)
    requires
        cfg.wf(),
        old(game)@.wf(*cfg),
        tick_fits(old(game)@, *cfg, all_players.len() as nat, player_messages.len() as nat),
    ensures
        final(game)@.wf(*cfg),
        tick_outcome(
            old(game)@,
            *cfg,
            views(all_players@),
            tick_count,
            views(player_messages@),
            ticked(*final(game), send_to_all@),
        ),
{
    let mut current = GameState::WaitingForPlayers { ready_status: Vec::new() };
    core::mem::swap(game, &mut current);
    let mut send_to_all: Vec<ServerMessage> = Vec::new();
    match current {
        GameState::WaitingForPlayers { ready_status } => {
            let mut ready_status = ready_status;
            apply_ready_commands(&mut ready_status, &player_messages);
            send_to_all.push(ServerMessage::ReadyStatus { status: clone_items(&ready_status) });
            if is_all_ready(&ready_status) {
                *game = start_game(all_players, cfg);
                send_to_all.push(ServerMessage::StartGame);
                assert(views(send_to_all@) =~= seq![
                    ServerMessageView::ReadyStatus { status: views(ready_status@) },
                    ServerMessageView::StartGame,
                ]);
            } else {
                assert(views(send_to_all@) =~= seq![
                    ServerMessageView::ReadyStatus { status: views(ready_status@) },
                ]);
                *game = GameState::WaitingForPlayers { ready_status };
            }
        },
        GameState::Playing { snakes, apples, purchases } => {
            let mut snakes = snakes;
            let mut apples = apples;
            let mut purchases = purchases;
            let ghost board = apples@;
            let recent_power_ups = apply_commands(
                &mut snakes,
                &mut purchases,
                cfg,
                &player_messages,
            );
            let ghost state = commanded(snakes@, purchases@, recent_power_ups@);
            replenish_apples(&mut apples, &snakes, cfg);
            let ghost filled = apples@;
            resolve_collisions(&mut snakes, cfg);
            eat_apples(&mut snakes, &mut apples, cfg);
            decay_all(&mut snakes, cfg);
            let decided = find_winner(&snakes);
            if tick_count % cfg.move_every_ticks == 0 {
                advance_all(&mut snakes, cfg);
            }
            send_to_all.push(
                ServerMessage::GameState {
                    apples: copy_items(&apples),
                    snakes: snapshot(&snakes),
                    just_ate_apple: Vec::new(),
                    recent_power_ups,
                },
            );
            proof {
                assert(views(Seq::<String>::empty()) =~= Seq::<Seq<char>>::empty());
                assert(views(send_to_all@) =~= play_tick(*cfg, tick_count, state, filled).events);
            }
            match decided {
                Some(winner) => {
                    *game = GameState::GameOver { winner, purchases };
                },
                None => {
                    *game = GameState::Playing { snakes, apples, purchases };
                },
            }
            proof {
                assert(views(Seq::<RecentPowerUp>::empty()) =~= Seq::<RecentPowerUpView>::empty());
                assert(replenished(*cfg, state.snakes, board, filled));
                assert(ticked(*game, send_to_all@) == play_tick(*cfg, tick_count, state, filled));
            }
        },
        GameState::GameOver { winner, purchases } => {
            send_to_all.push(
                ServerMessage::GameOver {
                    winner: winner.clone(),
                    purchases: clone_items(&purchases),
                },
            );
            assert(views(send_to_all@) =~= game_over_tick(winner@, views(purchases@)).events);
            *game = GameState::GameOver { winner, purchases };
        },
    }
    send_to_all
}

/// After the end nothing changes any more: whatever the commands and the
/// count of the tick, a tick leaves the game as it is and reports the same
/// winner and the same purchases.
pub proof fn game_over_is_final(
    cfg: GameConfig,
    players: Seq<Seq<char>>,
    tick_count: u32,
    commands: Seq<GameIncomingMessageView>,
    winner: Seq<char>,
    purchases: Seq<PurchasesView>,
    after: Ticked,
)
    requires
        tick_outcome(
            GameStateView::GameOver { winner, purchases },
            cfg,
            players,
            tick_count,
            commands,
            after,
        ),
    ensures
        after.state == (GameStateView::GameOver { winner, purchases }),
        after.events == seq![ServerMessageView::GameOver { winner, purchases }],
{
}

/// The game that ends a tick of play carries the tick's winner and the
/// purchases as they stand after the tick's commands.
pub proof fn decided_game_is_over(
    cfg: GameConfig,
    tick_count: u32,
    state: Commanded,
    apples: Seq<(u32, u32)>,
)
    ensures
        match winner(decayed_all(after_meal(after_collisions(state.snakes, cfg), apples).snakes)) {
            Some(player) => play_tick(cfg, tick_count, state, apples).state
                == (GameStateView::GameOver { winner: player, purchases: state.purchases }),
            None => play_tick(cfg, tick_count, state, apples).state is Playing,
        },
{
}

/// A tick of play changes no player: while the game goes on, the snakes
/// after the tick belong to the players that they belonged to, in the same
/// order.
pub proof fn play_keeps_players(
    cfg: GameConfig,
    tick_count: u32,
    state: Commanded,
    apples: Seq<(u32, u32)>,
)
    ensures
        play_tick(cfg, tick_count, state, apples).state matches GameStateView::Playing {
            snakes,
            ..
        } ==> snake_ids(snakes) == snake_ids(state.snakes),
{
    let struck = after_collisions(state.snakes, cfg);
    let fed = after_meal(struck, apples);
    let decayed = decayed_all(fed.snakes);
    let moved = advanced_all(decayed, cfg);
    assert(snake_ids(struck) =~= snake_ids(state.snakes));
    lemma_meal_keeps_heads(struck, apples);
    assert(snake_ids(decayed) =~= snake_ids(fed.snakes));
    assert(snake_ids(moved) =~= snake_ids(decayed));
}

} // verus!
