//! The lobby: who is ready, and how a game starts once everybody is.

use vstd::prelude::*;
use vstd::arithmetic::div_mod::lemma_fundamental_div_mod;
use crate::client_message::{ClientMessage, ClientMessageView, GameIncomingMessage,
    GameIncomingMessageView};
use crate::config::{GameConfig, INITIAL_LENGTH};
use crate::game_state::{views, AliveSnake, AliveSnakeView, Direction, GameState, GameStateView,
    Snake, SnakeView};
use crate::overlap_detector::body_length;
use crate::power_ups::{Purchases, PurchasesView};
use crate::roster::{find_purchases, lemma_position, position,
    purchase_ids, put_snake, ready_ids, set_ready, snake_ids, snakes_wf, with_ready, with_snake};
use crate::server_message::{ReadyStatus, ReadyStatusView};

verus! {

/// The lobby after the commands of a tick: each word on being ready is
/// recorded, the last word of a player standing; other commands are passed
/// over.
pub open spec fn after_ready_commands(
    status: Seq<ReadyStatusView>,
    commands: Seq<GameIncomingMessageView>,
) -> Seq<ReadyStatusView>
    decreases commands.len(),
{
    if commands.len() == 0 {
        status
    } else {
        let before = after_ready_commands(status, commands.drop_last());
        match commands.last().message {
            ClientMessageView::SetReady { ready } => with_ready(
                before,
                commands.last().player_id,
                ready,
            ),
            _ => before,
        }
    }
}

/// Whether every player of the lobby is ready. An empty lobby is.
pub open spec fn all_ready(status: Seq<ReadyStatusView>) -> bool {
    forall|i: int| 0 <= i < status.len() ==> (#[trigger] status[i]).ready
}

/// The column in which player `i` of `n` starts: the players stand evenly
/// across the board.
pub open spec fn starting_column(cfg: GameConfig, i: int, n: int) -> int {
    let width = cfg.board_width as int;
    width * i / n + width / (2 * n)
}

/// The snake that player `i` of `n` starts with: on the middle row, heading
/// up.
pub open spec fn starting_snake(cfg: GameConfig, player: Seq<char>, i: int, n: int) -> SnakeView {
    SnakeView::Alive(
        AliveSnakeView {
            user_id: player,
            head: (starting_column(cfg, i, n) as u32, (cfg.board_height / 2) as u32),
            head_direction: Direction::Up,
            blocks: seq![(Direction::Up, INITIAL_LENGTH)],
            invulnerable_for: None,
            frozen_for: None,
            has_extra_life: false,
        },
    )
}

/// The snakes of the first `count` players at the start of a game. A player
/// who is listed twice has one snake, the one of the later listing.
pub open spec fn starting_snakes(cfg: GameConfig, players: Seq<Seq<char>>, count: int) -> Seq<
    SnakeView,
>
    decreases count,
{
    if count <= 0 {
        Seq::empty()
    } else {
        with_snake(
            starting_snakes(cfg, players, count - 1),
            starting_snake(cfg, players[count - 1], count - 1, players.len() as int),
        )
    }
}

/// The record of purchases of the first `count` players at the start of a
/// game: an empty entry for each.
pub open spec fn starting_purchases(players: Seq<Seq<char>>, count: int) -> Seq<PurchasesView>
    decreases count,
{
    if count <= 0 {
        Seq::empty()
    } else {
        let before = starting_purchases(players, count - 1);
        match position(purchase_ids(before), players[count - 1]) {
            Some(_) => before,
            None => before.push(
                PurchasesView { user_id: players[count - 1], power_ups: Seq::empty() },
            ),
        }
    }
}

/// The game as it starts.
pub open spec fn starting_state(cfg: GameConfig, players: Seq<Seq<char>>) -> GameStateView {
    GameStateView::Playing {
        snakes: starting_snakes(cfg, players, players.len() as int),
        apples: Seq::empty(),
        purchases: starting_purchases(players, players.len() as int),
    }
}

/// Takes the commands of a tick in the lobby.
pub fn apply_ready_commands(status: &mut Vec<ReadyStatus>, commands: &Vec<GameIncomingMessage>)
    ensures
        views(final(status)@) == after_ready_commands(views(old(status)@), views(commands@)),
        ready_ids(views(old(status)@)).no_duplicates() ==> ready_ids(
            views(final(status)@),
        ).no_duplicates(),
{
    let ghost start = views(status@);
    let mut n: usize = 0;
    assert(views(commands@).take(0) =~= Seq::<GameIncomingMessageView>::empty());
    while n < commands.len()
        invariant
            n <= commands.len(),
            views(status@) == after_ready_commands(start, views(commands@).take(n as int)),
            ready_ids(start).no_duplicates() ==> ready_ids(views(status@)).no_duplicates(),
        decreases commands.len() - n,
    {
        let command = &commands[n];
        proof {
            assert(views(commands@).take(n + 1).drop_last() =~= views(commands@).take(n as int));
            assert(views(commands@).take(n + 1).last() == command@);
        }
        match &command.message {
            ClientMessage::SetReady { ready } => {
                set_ready(status, command.player_id.clone(), *ready);
            },
            _ => {},
        }
        n += 1;
    }
    assert(views(commands@).take(n as int) =~= views(commands@));
}

/// Tells whether every player of the lobby is ready.
pub fn is_all_ready(status: &Vec<ReadyStatus>) -> (r: bool)
    ensures
        r == all_ready(views(status@)),
{
    let mut i: usize = 0;
    while i < status.len()
        invariant
            i <= status.len(),
            forall|k: int| 0 <= k < i ==> (#[trigger] views(status@)[k]).ready,
        decreases status.len() - i,
    {
        if !status[i].ready {
            assert(!views(status@)[i as int].ready);
            return false;
        }
        i += 1;
    }
    true
}

/// Sets up the game for its players: a snake each, no apples yet, and an
/// empty record of purchases.
pub fn start_game(all_players: &Vec<String>, cfg: &GameConfig) -> (r: GameState)
    requires
        cfg.wf(),
        0 < all_players.len() <= u32::MAX,
    ensures
        r@ == starting_state(*cfg, views(all_players@)),
        r@.wf(*cfg),
{
    let ghost players = views(all_players@);
    let count = all_players.len();
    let mut snakes: Vec<Snake> = Vec::new();
    let mut purchases: Vec<Purchases> = Vec::new();
    let mut i: usize = 0;
    assert(views(snakes@) =~= Seq::<SnakeView>::empty());
    assert(views(purchases@) =~= Seq::<PurchasesView>::empty());
    while i < count
        invariant
            i <= count,
            count == all_players.len(),
            0 < count <= u32::MAX,
            cfg.wf(),
            players == views(all_players@),
            views(snakes@) == starting_snakes(*cfg, players, i as int),
            views(purchases@) == starting_purchases(players, i as int),
            snakes_wf(views(snakes@), *cfg),
            purchase_ids(views(purchases@)).no_duplicates(),
            i > 0 ==> snakes.len() > 0,
        decreases count - i,
    {
        let player = &all_players[i];
        let ghost before = views(snakes@);
        let ghost bought = views(purchases@);
        proof {
            lemma_starting_column_on_board(*cfg, i as int, count as int);
            assert(players[i as int] == player@);
        }
        let width = cfg.board_width as u64;
        assert(width * (i as u64) <= 0xffff_ffff * 0xffff_ffff) by (nonlinear_arith)
            requires
                width <= 0xffff_ffff,
                i <= 0xffff_ffff,
        ;
        let column = (width * (i as u64) / (count as u64) + width / (2 * (count as u64))) as u32;
        let mut blocks: Vec<(Direction, u32)> = Vec::new();
        blocks.push((Direction::Up, INITIAL_LENGTH));
        let snake = Snake::Alive(
            AliveSnake {
                user_id: player.clone(),
                head: (column, cfg.board_height / 2),
                head_direction: Direction::Up,
                blocks,
                invulnerable_for: None,
                frozen_for: None,
                has_extra_life: false,
            },
        );
        proof {
            assert(blocks@ =~= seq![(Direction::Up, INITIAL_LENGTH)]);
            assert(blocks@.drop_last() =~= Seq::<(Direction, u32)>::empty());
            assert(body_length(blocks@.drop_last()) == 0);
            assert(snake@ == starting_snake(*cfg, players[i as int], i as int, count as int));
            assert(snake@.wf(*cfg));
            lemma_position(snake_ids(before), player@);
            lemma_position(purchase_ids(bought), player@);
        }
        put_snake(&mut snakes, snake);
        proof {
            let after = views(snakes@);
            assert forall|j: int| 0 <= j < after.len() implies (#[trigger] after[j]).wf(*cfg) by {
                if j < before.len() && position(snake_ids(before), player@) != Some(j) {
                    assert(before[j].wf(*cfg));
                }
            }
        }
        if find_purchases(&purchases, player).is_none() {
            purchases.push(Purchases { user_id: player.clone(), power_ups: Vec::new() });
            proof {
                let after = views(purchases@);
                assert(after =~= bought.push(
                    PurchasesView { user_id: player@, power_ups: Seq::empty() },
                ));
                assert(purchase_ids(after) =~= purchase_ids(bought).push(player@));
            }
        }
        i += 1;
    }
    GameState::Playing { snakes, apples: Vec::new(), purchases }
}

/// Every starting column is on the board.
pub proof fn lemma_starting_column_on_board(cfg: GameConfig, i: int, n: int)
    requires
        cfg.board_width > 0,
        0 <= i < n,
    ensures
        0 <= starting_column(cfg, i, n) < cfg.board_width,
{
    let w = cfg.board_width as int;
    let q = w * i / n;
    let a = w / (2 * n);
    lemma_fundamental_div_mod(w * i, n);
    lemma_fundamental_div_mod(w, 2 * n);
    assert(0 <= (w * i) % n < n);
    assert(0 <= w % (2 * n) < 2 * n);
    assert(w * i <= w * (n - 1)) by (nonlinear_arith)
        requires
            w > 0,
            0 <= i <= n - 1,
    ;
    assert(0 <= w * i) by (nonlinear_arith)
        requires
            w > 0,
            0 <= i,
    ;
    assert(q >= 0 && a >= 0 && q + a < w) by (nonlinear_arith)
        requires
            w > 0,
            n > 0,
            0 <= w * i <= w * (n - 1),
            w * i == n * q + (w * i) % n,
            0 <= (w * i) % n < n,
            w == (2 * n) * a + w % (2 * n),
            0 <= w % (2 * n) < 2 * n,
    ;
}

/// Where the board has at least as many columns as the game has players, no
/// two players start in the same column.
pub proof fn starting_columns_differ(cfg: GameConfig, i: int, j: int, n: int)
    requires
        0 <= i < j < n <= cfg.board_width,
    ensures
        starting_column(cfg, i, n) < starting_column(cfg, j, n),
{
    let w = cfg.board_width as int;
    lemma_fundamental_div_mod(w * i, n);
    lemma_fundamental_div_mod(w * j, n);
    assert(w * j >= w * i + n) by (nonlinear_arith)
        requires
            w >= n,
            n > 0,
            0 <= i,
            j >= i + 1,
    ;
    assert(w * i / n < w * j / n) by (nonlinear_arith)
        requires
            n > 0,
            w * j >= w * i + n,
            w * i == n * (w * i / n) + (w * i) % n,
            w * j == n * (w * j / n) + (w * j) % n,
            0 <= (w * i) % n < n,
            0 <= (w * j) % n < n,
    ;
}

/// Where no player is listed twice, the game starts with the players' snakes
/// and records in the order of the list: player `i` has the snake and the
/// record at place `i`.
pub proof fn players_start_in_their_order(cfg: GameConfig, players: Seq<Seq<char>>, count: int)
    requires
        players.no_duplicates(),
        0 <= count <= players.len(),
    ensures
        starting_snakes(cfg, players, count) == Seq::new(
            count as nat,
            |i: int| starting_snake(cfg, players[i], i, players.len() as int),
        ),
        starting_purchases(players, count) == Seq::new(
            count as nat,
            |i: int| PurchasesView { user_id: players[i], power_ups: Seq::empty() },
        ),
    decreases count,
{
    if count > 0 {
        players_start_in_their_order(cfg, players, count - 1);
        let snakes = starting_snakes(cfg, players, count - 1);
        let records = starting_purchases(players, count - 1);
        let player = players[count - 1];
        lemma_position(snake_ids(snakes), player);
        lemma_position(purchase_ids(records), player);
        assert forall|j: int| 0 <= j < count - 1 implies snake_ids(snakes)[j] != player
            && purchase_ids(records)[j] != player by {
            assert(snake_ids(snakes)[j] == players[j]);
            assert(purchase_ids(records)[j] == players[j]);
        }
        assert(starting_snakes(cfg, players, count) =~= Seq::new(
            count as nat,
            |i: int| starting_snake(cfg, players[i], i, players.len() as int),
        ));
        assert(starting_purchases(players, count) =~= Seq::new(
            count as nat,
            |i: int| PurchasesView { user_id: players[i], power_ups: Seq::empty() },
        ));
    } else {
        assert(starting_snakes(cfg, players, count) =~= Seq::new(
            count as nat,
            |i: int| starting_snake(cfg, players[i], i, players.len() as int),
        ));
        assert(starting_purchases(players, count) =~= Seq::new(
            count as nat,
            |i: int| PurchasesView { user_id: players[i], power_ups: Seq::empty() },
        ));
    }
}

} // verus!
