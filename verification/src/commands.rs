//! The commands of one tick: turns and power-ups, taken in the order in
//! which they arrived.

use vstd::prelude::*;
use crate::client_message::{ClientMessage, ClientMessageView, GameIncomingMessage,
    GameIncomingMessageView};
use crate::config::{GameConfig, ADD_LENGTH_GROWTH, INITIAL_LENGTH, SHRINK_AMOUNT};
use crate::game_state::{views, AliveSnakeView, Direction, Snake, SnakeView};
use crate::power_ups::{PowerUps, PowerUpsView, Purchases, PurchasesView};
use crate::roster::{cells, find_snake, lemma_longest_covers, lemma_longest_update, lemma_position,
    lemma_update_keeps_wf, longest, position, purchase_ids,
    record_purchase, snake_ids, snakes_wf, with_purchase};
use crate::server_message::{RecentPowerUp, RecentPowerUpView};
use crate::snake::{lemma_body_length_least, lemma_shrunk_length};

verus! {

/// The place of a player's snake, if the player has one and it is alive.
pub open spec fn living(snakes: Seq<SnakeView>, id: Seq<char>) -> Option<int> {
    match position(snake_ids(snakes), id) {
        Some(i) => if snakes[i] is Alive {
            Some(i)
        } else {
            None
        },
        None => None,
    }
}

/// The place of a player's snake, if the player has one and it is dead.
pub open spec fn fallen(snakes: Seq<SnakeView>, id: Seq<char>) -> Option<int> {
    match position(snake_ids(snakes), id) {
        Some(i) => if snakes[i] is Dead {
            Some(i)
        } else {
            None
        },
        None => None,
    }
}

/// The snakes after `player` has used `power_up`, or `None` where the
/// power-up has no effect and is not charged: the buyer of an extra life or
/// of more length has to be alive, the target of a freeze or a shrink has to
/// be alive, and only a dead player can be revived. A player who has no
/// snake is neither alive nor dead. Who buys a freeze or a shrink does not
/// matter, and a freeze replaces the freeze that the target is under.
pub open spec fn power_up_effect(
    snakes: Seq<SnakeView>,
    cfg: GameConfig,
    player: Seq<char>,
    power_up: PowerUpsView,
) -> Option<Seq<SnakeView>> {
    match power_up {
        PowerUpsView::ExtraLife => match living(snakes, player) {
            Some(i) => Some(
                snakes.update(
                    i,
                    SnakeView::Alive(
                        AliveSnakeView { has_extra_life: true, ..snakes[i]->Alive_0 },
                    ),
                ),
            ),
            None => None,
        },
        PowerUpsView::AddLength => match living(snakes, player) {
            Some(i) => Some(
                snakes.update(i, SnakeView::Alive(snakes[i]->Alive_0.grown(ADD_LENGTH_GROWTH))),
            ),
            None => None,
        },
        PowerUpsView::FreezeOpponent { opponent } => match living(snakes, opponent) {
            Some(i) => Some(
                snakes.update(
                    i,
                    SnakeView::Alive(
                        AliveSnakeView {
                            frozen_for: Some(cfg.effect_ticks()),
                            ..snakes[i]->Alive_0
                        },
                    ),
                ),
            ),
            None => None,
        },
        PowerUpsView::ShrinkOpponent { opponent } => match living(snakes, opponent) {
            Some(i) => Some(
                snakes.update(i, SnakeView::Alive(snakes[i]->Alive_0.shrunk(SHRINK_AMOUNT))),
            ),
            None => None,
        },
        PowerUpsView::Revive => match fallen(snakes, player) {
            Some(i) => Some(
                snakes.update(i, SnakeView::Alive(AliveSnakeView::revived(player, cfg))),
            ),
            None => None,
        },
    }
}

/// The snakes after `player` has asked to head for `direction`: the snake
/// turns if it is alive and the turn is allowed. The command of a player
/// who has no snake is passed over.
pub open spec fn turn_effect(
    snakes: Seq<SnakeView>,
    player: Seq<char>,
    direction: Direction,
) -> Seq<SnakeView> {
    match living(snakes, player) {
        Some(i) => snakes.update(i, SnakeView::Alive(snakes[i]->Alive_0.turned(direction))),
        None => snakes,
    }
}

/// What the commands of a tick work on and leave behind.
pub struct Commanded {
    pub snakes: Seq<SnakeView>,
    pub purchases: Seq<PurchasesView>,
    /// The power-ups that took effect in this tick, in their order.
    pub recent: Seq<RecentPowerUpView>,
}

/// What the commands work on, seen from the engine's own lists.
pub open spec fn commanded(
    snakes: Seq<Snake>,
    purchases: Seq<Purchases>,
    recent: Seq<RecentPowerUp>,
) -> Commanded {
    Commanded { snakes: views(snakes), purchases: views(purchases), recent: views(recent) }
}

/// The game after one command. A power-up that takes effect is charged to
/// the player who sent it and listed; one that does not changes nothing.
pub open spec fn after_command(
    state: Commanded,
    cfg: GameConfig,
    command: GameIncomingMessageView,
) -> Commanded {
    match command.message {
        ClientMessageView::UsePowerUp { power_up } => match power_up_effect(
            state.snakes,
            cfg,
            command.player_id,
            power_up,
        ) {
            Some(snakes) => Commanded {
                snakes,
                purchases: with_purchase(state.purchases, command.player_id, power_up.kind()),
                recent: state.recent.push(
                    RecentPowerUpView { user_id: command.player_id, power_up },
                ),
            },
            None => state,
        },
        ClientMessageView::SetDirection { direction } => Commanded {
            snakes: turn_effect(state.snakes, command.player_id, direction),
            ..state
        },
        _ => state,
    }
}

/// The game after a list of commands, taken one after the other.
pub open spec fn after_commands(
    state: Commanded,
    cfg: GameConfig,
    commands: Seq<GameIncomingMessageView>,
) -> Commanded
    decreases commands.len(),
{
    if commands.len() == 0 {
        state
    } else {
        after_command(after_commands(state, cfg, commands.drop_last()), cfg, commands.last())
    }
}

/// Lets `player_id` use `power_up` and tells whether it took effect and is
/// to be charged.
pub fn use_power_up(
    snakes: &mut Vec<Snake>,
    cfg: &GameConfig,
    player_id: &String,
    power_up: &PowerUps,
) -> (charged: bool)
    requires
        cfg.wf(),
        snakes_wf(views(old(snakes)@), *cfg),
        longest(views(old(snakes)@)) + ADD_LENGTH_GROWTH <= u32::MAX,
    ensures
        match power_up_effect(views(old(snakes)@), *cfg, player_id@, power_up@) {
            Some(after) => charged && views(final(snakes)@) == after,
            None => !charged && views(final(snakes)@) == views(old(snakes)@),
        },
        snakes_wf(views(final(snakes)@), *cfg),
        snake_ids(views(final(snakes)@)) == snake_ids(views(old(snakes)@)),
        longest(views(final(snakes)@)) <= longest(views(old(snakes)@)) + ADD_LENGTH_GROWTH,
{
    let ghost before = views(snakes@);
    let target = match power_up {
        PowerUps::ExtraLife | PowerUps::AddLength | PowerUps::Revive => find_snake(
            snakes,
            player_id,
        ),
        PowerUps::FreezeOpponent { opponent } | PowerUps::ShrinkOpponent { opponent } => find_snake(
            snakes,
            opponent,
        ),
    };
    let i = match target {
        Some(i) => i,
        None => {
            return false;
        },
    };
    proof {
        lemma_longest_covers(before, i as int);
        assert(before[i as int].wf(*cfg));
    }
    let charged = match &mut snakes[i] {
        Snake::Alive(snake) => {
            match power_up {
                PowerUps::ExtraLife => {
                    snake.has_extra_life = true;
                    true
                },
                PowerUps::AddLength => {
                    proof {
                        lemma_body_length_least(
                            snake@.blocks,
                            snake@.blocks.len() - 1,
                        );
                    }
                    snake.grow(ADD_LENGTH_GROWTH);
                    true
                },
                PowerUps::FreezeOpponent { .. } => {
                    snake.frozen_for = Some(cfg.effect_ticks());
                    true
                },
                PowerUps::ShrinkOpponent { .. } => {
                    proof {
                        lemma_shrunk_length(snake@.blocks, SHRINK_AMOUNT as nat);
                    }
                    snake.shrink(SHRINK_AMOUNT);
                    true
                },
                PowerUps::Revive => false,
            }
        },
        Snake::Dead { .. } => {
            match power_up {
                PowerUps::Revive => {
                    snakes[i] = Snake::revived(player_id.clone(), cfg);
                    true
                },
                _ => false,
            }
        },
    };
    proof {
        let after = views(snakes@);
        if charged {
            assert(cells(after[i as int]) <= cells(before[i as int]) + ADD_LENGTH_GROWTH || cells(
                after[i as int],
            ) <= INITIAL_LENGTH);
            assert(after =~= before.update(i as int, after[i as int]));
            lemma_update_keeps_wf(before, *cfg, i as int, after[i as int]);
            lemma_longest_update(before, i as int, after[i as int]);
        } else {
            assert(after =~= before);
        }
    }
    charged
}

/// Lets `player_id` ask to head for `direction`.
pub fn set_direction(
    snakes: &mut Vec<Snake>,
    cfg: &GameConfig,
    player_id: &String,
    direction: Direction,
)
    ensures
        views(final(snakes)@) == turn_effect(views(old(snakes)@), player_id@, direction),
        snakes_wf(views(old(snakes)@), *cfg) ==> snakes_wf(views(final(snakes)@), *cfg),
        snake_ids(views(final(snakes)@)) == snake_ids(views(old(snakes)@)),
        longest(views(final(snakes)@)) <= longest(views(old(snakes)@)),
{
    let ghost before = views(snakes@);
    match find_snake(snakes, player_id) {
        Some(i) => {
            match &mut snakes[i] {
                Snake::Alive(snake) => {
                    snake.set_direction(direction);
                },
                Snake::Dead { .. } => {},
            }
            proof {
                let after = views(snakes@);
                assert(after =~= before.update(i as int, after[i as int]));
                assert(snake_ids(after) =~= snake_ids(before));
                lemma_longest_update(before, i as int, after[i as int]);
                lemma_longest_covers(before, i as int);
                if snakes_wf(before, *cfg) {
                    assert(before[i as int].wf(*cfg));
                    lemma_update_keeps_wf(before, *cfg, i as int, after[i as int]);
                }
            }
        },
        None => {},
    }
}

/// Takes the commands of a tick in their order and returns the power-ups
/// that took effect.
pub fn apply_commands(
    snakes: &mut Vec<Snake>,
    purchases: &mut Vec<Purchases>,
    cfg: &GameConfig,
    commands: &Vec<GameIncomingMessage>,
) -> (recent: Vec<RecentPowerUp>)
    requires
        cfg.wf(),
        snakes_wf(views(old(snakes)@), *cfg),
        longest(views(old(snakes)@)) + ADD_LENGTH_GROWTH * commands.len() <= u32::MAX,
    ensures
        commanded(final(snakes)@, final(purchases)@, recent@) == after_commands(
            commanded(old(snakes)@, old(purchases)@, Seq::empty()),
            *cfg,
            views(commands@),
        ),
        snakes_wf(views(final(snakes)@), *cfg),
        snake_ids(views(final(snakes)@)) == snake_ids(views(old(snakes)@)),
        purchase_ids(views(old(purchases)@)).no_duplicates() ==> purchase_ids(
            views(final(purchases)@),
        ).no_duplicates(),
        longest(views(final(snakes)@)) <= longest(views(old(snakes)@)) + ADD_LENGTH_GROWTH
            * commands.len(),
{
    let ghost start = commanded(snakes@, purchases@, Seq::empty());
    let mut recent: Vec<RecentPowerUp> = Vec::new();
    let mut n: usize = 0;
    assert(views(commands@).take(0) =~= Seq::<GameIncomingMessageView>::empty());
    assert(views(recent@) =~= Seq::<RecentPowerUpView>::empty());
    while n < commands.len()
        invariant
            n <= commands.len(),
            cfg.wf(),
            start.snakes == views(old(snakes)@),
            commanded(snakes@, purchases@, recent@) == after_commands(
                start,
                *cfg,
                views(commands@).take(n as int),
            ),
            snakes_wf(views(snakes@), *cfg),
            snake_ids(views(snakes@)) == snake_ids(start.snakes),
            purchase_ids(start.purchases).no_duplicates() ==> purchase_ids(
                views(purchases@),
            ).no_duplicates(),
            longest(start.snakes) + ADD_LENGTH_GROWTH * commands.len() <= u32::MAX,
            longest(views(snakes@)) <= longest(start.snakes) + ADD_LENGTH_GROWTH * n,
        decreases commands.len() - n,
    {
        let command = &commands[n];
        let ghost before = commanded(snakes@, purchases@, recent@);
        proof {
            assert(views(commands@).take(n + 1).drop_last() =~= views(commands@).take(n as int));
            assert(views(commands@).take(n + 1).last() == command@);
        }
        match &command.message {
            ClientMessage::UsePowerUp { power_up } => {
                if use_power_up(snakes, cfg, &command.player_id, power_up) {
                    record_purchase(purchases, &command.player_id, power_up.kind());
                    recent.push(
                        RecentPowerUp {
                            user_id: command.player_id.clone(),
                            power_up: power_up.clone(),
                        },
                    );
                    assert(views(recent@) =~= before.recent.push(
                        RecentPowerUpView { user_id: command.player_id@, power_up: power_up@ },
                    ));
                }
            },
            ClientMessage::SetDirection { direction } => {
                set_direction(snakes, cfg, &command.player_id, *direction);
            },
            _ => {},
        }
        n += 1;
    }
    assert(views(commands@).take(n as int) =~= views(commands@));
    recent
}

/// A command to head for the opposite of the present heading changes
/// nothing in the game, whoever sends it.
pub proof fn reversal_command_changes_nothing(
    state: Commanded,
    cfg: GameConfig,
    player: Seq<char>,
    direction: Direction,
)
    requires
        living(state.snakes, player) matches Some(i) ==> direction
            == state.snakes[i]->Alive_0.head_direction.opposite(),
    ensures
        after_command(
            state,
            cfg,
            GameIncomingMessageView {
                player_id: player,
                message: ClientMessageView::SetDirection { direction },
            },
        ) == state,
{
    lemma_position(snake_ids(state.snakes), player);
    match living(state.snakes, player) {
        Some(i) => {
            assert(state.snakes.update(i, state.snakes[i]) =~= state.snakes);
        },
        None => {},
    }
}

/// A power-up that has no effect is not charged and not listed: the game is
/// left as it was.
pub proof fn failed_power_up_changes_nothing(
    state: Commanded,
    cfg: GameConfig,
    player: Seq<char>,
    power_up: PowerUpsView,
)
    requires
        power_up_effect(state.snakes, cfg, player, power_up) is None,
    ensures
        after_command(
            state,
            cfg,
            GameIncomingMessageView {
                player_id: player,
                message: ClientMessageView::UsePowerUp { power_up },
            },
        ) == state,
{
}

/// A freeze or a shrink aimed at a player whose snake is dead has no effect.
pub proof fn dead_target_is_spared(
    snakes: Seq<SnakeView>,
    cfg: GameConfig,
    player: Seq<char>,
    opponent: Seq<char>,
)
    requires
        fallen(snakes, opponent) is Some,
    ensures
        power_up_effect(snakes, cfg, player, PowerUpsView::FreezeOpponent { opponent }) is None,
        power_up_effect(snakes, cfg, player, PowerUpsView::ShrinkOpponent { opponent }) is None,
{
}

/// Commands change no player: the snakes after them belong to the players
/// that they belonged to, in the same order.
pub proof fn commands_keep_players(
    state: Commanded,
    cfg: GameConfig,
    commands: Seq<GameIncomingMessageView>,
)
    ensures
        snake_ids(after_commands(state, cfg, commands).snakes) == snake_ids(state.snakes),
    decreases commands.len(),
{
    if commands.len() > 0 {
        commands_keep_players(state, cfg, commands.drop_last());
        let before = after_commands(state, cfg, commands.drop_last());
        let after = after_command(before, cfg, commands.last());
        lemma_position(snake_ids(before.snakes), commands.last().player_id);
        match commands.last().message {
            ClientMessageView::UsePowerUp { power_up } => {
                match power_up {
                    PowerUpsView::FreezeOpponent { opponent } => {
                        lemma_position(snake_ids(before.snakes), opponent);
                    },
                    PowerUpsView::ShrinkOpponent { opponent } => {
                        lemma_position(snake_ids(before.snakes), opponent);
                    },
                    _ => {},
                }
            },
            _ => {},
        }
        assert(snake_ids(after.snakes) =~= snake_ids(before.snakes));
    }
}

} // verus!
