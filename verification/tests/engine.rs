use multiplayer::apples::{eat_apples, is_free_cell, replenish_apples, try_place_apple};
use multiplayer::client_message::{ClientMessage, GameIncomingMessage};
use multiplayer::collisions::{detect_struck, resolve_collisions};
use multiplayer::commands::{apply_commands, set_direction, use_power_up};
use multiplayer::config::GameConfig;
use multiplayer::game_runner::{advance_all, decay_all, snapshot, tick};
use multiplayer::lobby::start_game;
use multiplayer::winner::find_winner;
use multiplayer::game_state::{AliveSnake, Direction, GameState, Snake};
use multiplayer::power_ups::{GetPowerUpCost, PowerUpCosts, PowerUpKind, PowerUps, Purchases};
use multiplayer::server_message::{ReadyStatus, RecentPowerUp, SentSnake, ServerMessage};

fn quiet() -> GameConfig {
    GameConfig { num_apples: 0, ..GameConfig::default() }
}

fn alive(player: &str, head: (u32, u32), blocks: Vec<(Direction, u32)>) -> AliveSnake {
    AliveSnake {
        user_id: player.to_string(),
        head,
        head_direction: Direction::Up,
        blocks,
        invulnerable_for: None,
        frozen_for: None,
        has_extra_life: false,
    }
}

fn upright(player: &str, head: (u32, u32)) -> Snake {
    Snake::Alive(alive(player, head, vec![(Direction::Up, 3)]))
}

fn dead(player: &str, ticks: Option<u64>) -> Snake {
    Snake::Dead { user_id: player.to_string(), head: (1, 1), ticks_to_revive: ticks }
}

fn nothing_bought(players: &[&str]) -> Vec<Purchases> {
    players.iter().map(|p| Purchases { user_id: p.to_string(), power_ups: vec![] }).collect()
}

fn command(player: &str, message: ClientMessage) -> GameIncomingMessage {
    GameIncomingMessage { player_id: player.to_string(), message }
}

fn ready(player: &str, ready: bool) -> GameIncomingMessage {
    command(player, ClientMessage::SetReady { ready })
}

fn buys(player: &str, power_up: PowerUps) -> GameIncomingMessage {
    command(player, ClientMessage::UsePowerUp { power_up })
}

fn names(players: &[&str]) -> Vec<String> {
    players.iter().map(|p| p.to_string()).collect()
}

fn lobby(entries: &[(&str, bool)]) -> Vec<ReadyStatus> {
    entries.iter().map(|(p, r)| ReadyStatus { user_id: p.to_string(), ready: *r }).collect()
}

fn playing(game: &GameState) -> (&Vec<Snake>, &Vec<(u32, u32)>, &Vec<Purchases>) {
    match game {
        GameState::Playing { snakes, apples, purchases } => (snakes, apples, purchases),
        other => panic!("the game is not being played: {:?}", other),
    }
}

fn living(snake: &Snake) -> &AliveSnake {
    match snake {
        Snake::Alive(alive) => alive,
        other => panic!("the snake is dead: {:?}", other),
    }
}

#[test]
fn both_players_ready_starts_the_game() {
    let cfg = GameConfig::default();
    let players = names(&["ann", "bob"]);
    let mut game =
        GameState::WaitingForPlayers { ready_status: lobby(&[("ann", false), ("bob", false)]) };
    assert!(game.can_tick(&cfg, players.len(), 2));
    let events = tick(&mut game, &players, &cfg, 0, vec![ready("ann", true), ready("bob", true)]);
    assert_eq!(
        events,
        vec![
            ServerMessage::ReadyStatus { status: lobby(&[("ann", true), ("bob", true)]) },
            ServerMessage::StartGame,
        ]
    );
    let (snakes, apples, purchases) = playing(&game);
    assert!(apples.is_empty());
    assert_eq!(purchases, &nothing_bought(&["ann", "bob"]));
    assert_eq!(snakes.len(), 2);
    assert_eq!(snakes[0], upright("ann", (25, 25)));
    assert_eq!(snakes[1], upright("bob", (75, 25)));
    assert_ne!(living(&snakes[0]).head, living(&snakes[1]).head);
}

#[test]
fn lobby_waits_until_everyone_is_ready() {
    let cfg = GameConfig::default();
    let players = names(&["ann", "bob"]);
    let mut game =
        GameState::WaitingForPlayers { ready_status: lobby(&[("ann", false), ("bob", false)]) };
    let events = tick(&mut game, &players, &cfg, 0, vec![ready("bob", true)]);
    assert_eq!(
        events,
        vec![ServerMessage::ReadyStatus { status: lobby(&[("ann", false), ("bob", true)]) }]
    );
    assert_eq!(
        game,
        GameState::WaitingForPlayers { ready_status: lobby(&[("ann", false), ("bob", true)]) }
    );
}

#[test]
fn lobby_keeps_the_last_word_of_a_player() {
    let cfg = GameConfig::default();
    let players = names(&["ann", "bob"]);
    let mut game =
        GameState::WaitingForPlayers { ready_status: lobby(&[("ann", true), ("bob", false)]) };
    let events = tick(
        &mut game,
        &players,
        &cfg,
        0,
        vec![ready("bob", true), ready("bob", false), ready("ann", true)],
    );
    assert_eq!(
        events,
        vec![ServerMessage::ReadyStatus { status: lobby(&[("ann", true), ("bob", false)]) }]
    );
}

#[test]
fn lobby_passes_over_other_commands_and_adds_newcomers() {
    let cfg = GameConfig::default();
    let players = names(&["ann"]);
    let mut game = GameState::WaitingForPlayers { ready_status: lobby(&[("ann", false)]) };
    let events = tick(
        &mut game,
        &players,
        &cfg,
        0,
        vec![
            command("ann", ClientMessage::SetDirection { direction: Direction::Left }),
            buys("ann", PowerUps::ExtraLife),
            ready("cat", false),
        ],
    );
    assert_eq!(
        events,
        vec![ServerMessage::ReadyStatus { status: lobby(&[("ann", false), ("cat", false)]) }]
    );
}

#[test]
fn four_players_start_evenly_spaced() {
    let cfg = GameConfig::default();
    let game = start_game(&names(&["a", "b", "c", "d"]), &cfg);
    let (snakes, _, _) = playing(&game);
    let heads: Vec<(u32, u32)> = snakes.iter().map(|s| living(s).head).collect();
    assert_eq!(heads, vec![(12, 25), (37, 25), (62, 25), (87, 25)]);
    assert!(game.is_well_formed(&cfg));
}

#[test]
fn a_player_listed_twice_starts_with_one_snake() {
    let cfg = GameConfig::default();
    let game = start_game(&names(&["a", "b", "a"]), &cfg);
    let (snakes, _, purchases) = playing(&game);
    assert_eq!(snakes.len(), 2);
    assert_eq!(living(&snakes[0]).user_id, "a");
    assert_eq!(living(&snakes[0]).head, (82, 25));
    assert_eq!(living(&snakes[1]).head, (49, 25));
    assert_eq!(purchases, &nothing_bought(&["a", "b"]));
}

#[test]
fn extra_life_saves_a_struck_snake() {
    let cfg = quiet();
    let mut ann = alive("ann", (10, 10), vec![(Direction::Up, 3)]);
    ann.has_extra_life = true;
    let mut game = GameState::Playing {
        snakes: vec![Snake::Alive(ann), upright("bob", (10, 9))],
        apples: vec![],
        purchases: nothing_bought(&["ann", "bob"]),
    };
    assert!(game.can_tick(&cfg, 2, 0));
    let events = tick(&mut game, &names(&["ann", "bob"]), &cfg, 0, vec![]);
    let (snakes, _, _) = playing(&game);
    let ann = living(&snakes[0]);
    assert!(!ann.has_extra_life);
    assert_eq!(ann.invulnerable_for, Some(29));
    assert_eq!(ann.head, (10, 9));
    assert_eq!(living(&snakes[1]).head, (10, 8));
    match &events[0] {
        ServerMessage::GameState { snakes, .. } => match &snakes[0] {
            SentSnake::Alive { invulnerable, has_extra_life, .. } => {
                assert!(*invulnerable);
                assert!(!*has_extra_life);
            }
            SentSnake::Dead { .. } => panic!("the snake was saved"),
        },
        other => panic!("unexpected event {:?}", other),
    }
}

#[test]
fn a_struck_snake_without_extra_life_dies() {
    let cfg = quiet();
    let mut snakes = vec![upright("ann", (10, 10)), upright("bob", (10, 9))];
    assert!(detect_struck(&snakes, 0, &cfg));
    assert!(!detect_struck(&snakes, 1, &cfg));
    resolve_collisions(&mut snakes, &cfg);
    assert_eq!(
        snakes[0],
        Snake::Dead { user_id: "ann".to_string(), head: (10, 10), ticks_to_revive: Some(100) }
    );
    assert_eq!(snakes[1], upright("bob", (10, 9)));
}

#[test]
fn head_on_snakes_both_die() {
    let cfg = quiet();
    let mut snakes = vec![upright("ann", (10, 10)), upright("bob", (10, 10))];
    resolve_collisions(&mut snakes, &cfg);
    assert!(matches!(snakes[0], Snake::Dead { .. }));
    assert!(matches!(snakes[1], Snake::Dead { .. }));
}

#[test]
fn protected_snakes_are_not_struck() {
    let cfg = quiet();
    let mut shielded = alive("ann", (10, 10), vec![(Direction::Up, 3)]);
    shielded.invulnerable_for = Some(0);
    let snakes = vec![Snake::Alive(shielded), upright("bob", (10, 9))];
    assert!(!detect_struck(&snakes, 0, &cfg));
    let mut frozen = alive("ann", (10, 10), vec![(Direction::Up, 3)]);
    frozen.frozen_for = Some(5);
    let snakes = vec![Snake::Alive(frozen), upright("bob", (10, 9))];
    assert!(!detect_struck(&snakes, 0, &cfg));
}

#[test]
fn a_snake_does_not_strike_itself_and_the_dead_block_nobody() {
    let cfg = quiet();
    let coiled = alive(
        "ann",
        (10, 10),
        vec![(Direction::Up, 1), (Direction::Left, 1), (Direction::Down, 1), (Direction::Right, 2)],
    );
    let snakes = vec![Snake::Alive(coiled), dead("bob", Some(3))];
    assert!(!detect_struck(&snakes, 0, &cfg));
    assert!(!detect_struck(&snakes, 1, &cfg));
}

#[test]
fn shrink_opponent_floors_the_target_at_three() {
    let cfg = quiet();
    let target = alive("bob", (50, 10), vec![(Direction::Up, 2), (Direction::Left, 3)]);
    let mut game = GameState::Playing {
        snakes: vec![upright("ann", (10, 10)), Snake::Alive(target)],
        apples: vec![],
        purchases: nothing_bought(&["ann", "bob"]),
    };
    let shrink = PowerUps::ShrinkOpponent { opponent: "bob".to_string() };
    let events =
        tick(&mut game, &names(&["ann", "bob"]), &cfg, 0, vec![buys("ann", shrink.clone())]);
    let (snakes, _, purchases) = playing(&game);
    assert_eq!(living(&snakes[1]).blocks, vec![(Direction::Up, 3)]);
    assert_eq!(
        purchases,
        &vec![
            Purchases { user_id: "ann".to_string(), power_ups: vec![PowerUpKind::ShrinkOpponent] },
            Purchases { user_id: "bob".to_string(), power_ups: vec![] },
        ]
    );
    match &events[0] {
        ServerMessage::GameState { recent_power_ups, just_ate_apple, .. } => {
            assert_eq!(
                recent_power_ups,
                &vec![RecentPowerUp { user_id: "ann".to_string(), power_up: shrink }]
            );
            assert!(just_ate_apple.is_empty());
        }
        other => panic!("unexpected event {:?}", other),
    }
}

#[test]
fn freeze_of_a_dead_target_is_not_charged() {
    let cfg = quiet();
    let mut game = GameState::Playing {
        snakes: vec![upright("ann", (10, 10)), dead("bob", Some(50))],
        apples: vec![],
        purchases: nothing_bought(&["ann", "bob"]),
    };
    let freeze = PowerUps::FreezeOpponent { opponent: "bob".to_string() };
    let events = tick(&mut game, &names(&["ann", "bob"]), &cfg, 0, vec![buys("ann", freeze)]);
    let (snakes, _, purchases) = playing(&game);
    assert_eq!(purchases, &nothing_bought(&["ann", "bob"]));
    assert_eq!(snakes[1], dead("bob", Some(49)));
    assert_eq!(snakes[0], upright("ann", (10, 9)));
    match &events[0] {
        ServerMessage::GameState { recent_power_ups, .. } => assert!(recent_power_ups.is_empty()),
        other => panic!("unexpected event {:?}", other),
    }
}

#[test]
fn sole_survivor_wins_and_the_result_stays() {
    let cfg = quiet();
    let players = names(&["ann", "bob"]);
    let mut game = GameState::Playing {
        snakes: vec![dead("ann", Some(0)), upright("bob", (10, 10))],
        apples: vec![],
        purchases: vec![
            Purchases { user_id: "ann".to_string(), power_ups: vec![PowerUpKind::AddLength] },
            Purchases { user_id: "bob".to_string(), power_ups: vec![] },
        ],
    };
    let events = tick(&mut game, &players, &cfg, 0, vec![buys("bob", PowerUps::ExtraLife)]);
    assert_eq!(events.len(), 1);
    assert!(matches!(events[0], ServerMessage::GameState { .. }));
    let ledger = vec![
        Purchases { user_id: "ann".to_string(), power_ups: vec![PowerUpKind::AddLength] },
        Purchases { user_id: "bob".to_string(), power_ups: vec![PowerUpKind::ExtraLife] },
    ];
    let over = GameState::GameOver { winner: "bob".to_string(), purchases: ledger.clone() };
    assert_eq!(game, over);
    for count in 1..4 {
        assert!(game.can_tick(&cfg, 2, 1));
        let events = tick(&mut game, &players, &cfg, count, vec![buys("ann", PowerUps::Revive)]);
        assert_eq!(
            events,
            vec![ServerMessage::GameOver { winner: "bob".to_string(), purchases: ledger.clone() }]
        );
        assert_eq!(game, over);
    }
}

#[test]
fn winner_is_found_as_the_rules_say() {
    assert_eq!(find_winner(&vec![]), None);
    assert_eq!(
        find_winner(&vec![upright("ann", (1, 1)), upright("bob", (2, 2))]),
        None
    );
    assert_eq!(
        find_winner(&vec![dead("ann", Some(0)), upright("bob", (2, 2))]),
        None
    );
    assert_eq!(
        find_winner(&vec![dead("ann", None), upright("bob", (2, 2)), dead("cat", None)]),
        Some("bob".to_string())
    );
    assert_eq!(
        find_winner(&vec![dead("ann", None), dead("bob", Some(7))]),
        Some("bob".to_string())
    );
    assert_eq!(
        find_winner(&vec![dead("ann", None), dead("bob", None)]),
        Some("ann".to_string())
    );
    assert_eq!(find_winner(&vec![upright("ann", (1, 1))]), Some("ann".to_string()));
}

#[test]
fn each_power_up_has_its_effect() {
    let cfg = quiet();
    let ann = "ann".to_string();
    let bob = "bob".to_string();
    let mut snakes = vec![upright("ann", (10, 10)), upright("bob", (50, 10)), dead("cat", None)];
    assert!(use_power_up(&mut snakes, &cfg, &ann, &PowerUps::ExtraLife));
    assert!(living(&snakes[0]).has_extra_life);
    assert!(use_power_up(&mut snakes, &cfg, &ann, &PowerUps::AddLength));
    assert_eq!(living(&snakes[0]).blocks, vec![(Direction::Up, 13)]);
    assert!(use_power_up(&mut snakes, &cfg, &ann, &PowerUps::FreezeOpponent { opponent: bob.clone() }));
    assert_eq!(living(&snakes[1]).frozen_for, Some(30));
    assert!(use_power_up(&mut snakes, &cfg, &bob, &PowerUps::ShrinkOpponent { opponent: ann.clone() }));
    assert_eq!(living(&snakes[0]).blocks, vec![(Direction::Up, 3)]);
    assert!(use_power_up(&mut snakes, &cfg, &"cat".to_string(), &PowerUps::Revive));
    assert_eq!(snakes[2], Snake::revived("cat".to_string(), &cfg));
}

#[test]
fn power_ups_that_fail_change_nothing() {
    let cfg = quiet();
    let start = vec![upright("ann", (10, 10)), dead("bob", Some(9))];
    let mut snakes = start.clone();
    let ann = "ann".to_string();
    let bob = "bob".to_string();
    assert!(!use_power_up(&mut snakes, &cfg, &ann, &PowerUps::Revive));
    assert!(!use_power_up(&mut snakes, &cfg, &bob, &PowerUps::ExtraLife));
    assert!(!use_power_up(&mut snakes, &cfg, &bob, &PowerUps::AddLength));
    assert!(!use_power_up(&mut snakes, &cfg, &ann, &PowerUps::FreezeOpponent { opponent: bob.clone() }));
    assert!(!use_power_up(&mut snakes, &cfg, &ann, &PowerUps::ShrinkOpponent { opponent: bob.clone() }));
    assert!(!use_power_up(
        &mut snakes,
        &cfg,
        &ann,
        &PowerUps::ShrinkOpponent { opponent: "nobody".to_string() }
    ));
    assert!(!use_power_up(&mut snakes, &cfg, &"nobody".to_string(), &PowerUps::ExtraLife));
    assert_eq!(snakes, start);
}

#[test]
fn a_freeze_is_overwritten_not_added_up() {
    let cfg = quiet();
    let mut frozen = alive("bob", (50, 10), vec![(Direction::Up, 3)]);
    frozen.frozen_for = Some(4);
    let mut snakes = vec![upright("ann", (10, 10)), Snake::Alive(frozen)];
    let freeze = PowerUps::FreezeOpponent { opponent: "bob".to_string() };
    assert!(use_power_up(&mut snakes, &cfg, &"ann".to_string(), &freeze));
    assert_eq!(living(&snakes[1]).frozen_for, Some(30));
}

#[test]
fn a_dead_player_can_still_freeze() {
    let cfg = quiet();
    let mut snakes = vec![dead("ann", Some(5)), upright("bob", (50, 10))];
    let mut purchases = nothing_bought(&["ann", "bob"]);
    let freeze = PowerUps::FreezeOpponent { opponent: "bob".to_string() };
    let recent = apply_commands(&mut snakes, &mut purchases, &cfg, &vec![buys("ann", freeze)]);
    assert_eq!(recent.len(), 1);
    assert_eq!(living(&snakes[1]).frozen_for, Some(30));
    assert_eq!(purchases[0].power_ups, vec![PowerUpKind::FreezeOpponent]);
}

#[test]
fn commands_are_taken_in_their_order() {
    let cfg = quiet();
    let mut snakes = vec![upright("ann", (10, 10)), upright("bob", (50, 10))];
    let mut purchases = nothing_bought(&["ann"]);
    let commands = vec![
        command("ann", ClientMessage::SetDirection { direction: Direction::Left }),
        command("ann", ClientMessage::SetDirection { direction: Direction::Right }),
        buys("bob", PowerUps::AddLength),
        buys("ann", PowerUps::ShrinkOpponent { opponent: "bob".to_string() }),
        buys("bob", PowerUps::Revive),
        command("zed", ClientMessage::SetDirection { direction: Direction::Left }),
        ready("ann", true),
        command(
            "ann",
            ClientMessage::Authenticate { access_token: "t".to_string(), game_id: "g".to_string() },
        ),
        buys("bob", PowerUps::ExtraLife),
    ];
    let recent = apply_commands(&mut snakes, &mut purchases, &cfg, &commands);
    assert_eq!(living(&snakes[0]).head_direction, Direction::Left);
    assert_eq!(living(&snakes[1]).blocks, vec![(Direction::Up, 3)]);
    assert!(living(&snakes[1]).has_extra_life);
    assert_eq!(
        purchases,
        vec![
            Purchases { user_id: "ann".to_string(), power_ups: vec![PowerUpKind::ShrinkOpponent] },
            Purchases {
                user_id: "bob".to_string(),
                power_ups: vec![PowerUpKind::AddLength, PowerUpKind::ExtraLife],
            },
        ]
    );
    let bought: Vec<(String, PowerUpKind)> =
        recent.iter().map(|r| (r.user_id.clone(), r.power_up.kind())).collect();
    assert_eq!(
        bought,
        vec![
            ("bob".to_string(), PowerUpKind::AddLength),
            ("ann".to_string(), PowerUpKind::ShrinkOpponent),
            ("bob".to_string(), PowerUpKind::ExtraLife),
        ]
    );
}

#[test]
fn a_reversal_command_is_rejected_in_play() {
    let cfg = quiet();
    let mut snakes = vec![upright("ann", (10, 10))];
    set_direction(&mut snakes, &cfg, &"ann".to_string(), Direction::Down);
    assert_eq!(snakes, vec![upright("ann", (10, 10))]);
    set_direction(&mut snakes, &cfg, &"bob".to_string(), Direction::Left);
    assert_eq!(snakes, vec![upright("ann", (10, 10))]);
}

#[test]
fn apples_are_placed_where_the_numbers_say() {
    let cfg = GameConfig::default();
    let snakes = vec![upright("ann", (10, 10))];
    let mut apples = vec![(1, 1)];
    assert!(try_place_apple(&mut apples, &snakes, &cfg, 205, 151));
    assert_eq!(apples, vec![(1, 1), (5, 1)]);
    assert!(!try_place_apple(&mut apples, &snakes, &cfg, 110, 61));
    assert!(!try_place_apple(&mut apples, &snakes, &cfg, 10, 10));
    assert_eq!(apples, vec![(1, 1), (5, 1)]);
    assert!(try_place_apple(&mut apples, &snakes, &cfg, 5, 1));
    assert_eq!(apples, vec![(1, 1), (5, 1), (5, 1)]);
    assert!(is_free_cell(&snakes, &(10, 13), &cfg));
    assert!(!is_free_cell(&snakes, &(10, 12), &cfg));
    assert!(is_free_cell(&vec![dead("bob", None)], &(1, 1), &cfg));
}

#[test]
fn replenishing_fills_a_free_board_to_the_target() {
    let cfg = GameConfig::default();
    let snakes = vec![upright("ann", (10, 10)), upright("bob", (50, 10))];
    let mut apples = vec![(3, 3), (4, 4)];
    replenish_apples(&mut apples, &snakes, &cfg);
    assert!(apples.len() <= 40);
    assert!(apples.len() > 2);
    assert_eq!(&apples[..2], &[(3, 3), (4, 4)]);
    for apple in &apples[2..] {
        assert!(apple.0 < 100 && apple.1 < 50);
        assert!(is_free_cell(&snakes, apple, &cfg));
    }
    let mut rounds = 0;
    while apples.len() < 40 && rounds < 1000 {
        replenish_apples(&mut apples, &snakes, &cfg);
        rounds += 1;
    }
    assert_eq!(apples.len(), 40);
    replenish_apples(&mut apples, &snakes, &cfg);
    assert_eq!(apples.len(), 40);
}

#[test]
fn replenishing_leaves_a_full_or_blocked_board() {
    let cfg = GameConfig { board_width: 1, board_height: 1, ..GameConfig::default() };
    let blocker = Snake::Alive(alive("ann", (0, 0), vec![(Direction::Up, 1)]));
    let mut apples = vec![];
    replenish_apples(&mut apples, &vec![blocker], &cfg);
    assert!(apples.is_empty());
    let mut many: Vec<(u32, u32)> = (0..45).map(|i| (i, 0)).collect();
    let before = many.clone();
    replenish_apples(&mut many, &vec![], &GameConfig::default());
    assert_eq!(many, before);
}

#[test]
fn the_first_snake_on_an_apple_eats_it() {
    let cfg = GameConfig::default();
    let mut snakes = vec![
        dead("zed", Some(1)),
        upright("ann", (10, 10)),
        upright("bob", (10, 10)),
        upright("cat", (20, 20)),
    ];
    let mut apples = vec![(10, 10), (5, 5), (20, 20), (10, 10), (1, 1)];
    eat_apples(&mut snakes, &mut apples, &cfg);
    assert_eq!(apples, vec![(5, 5), (1, 1)]);
    assert_eq!(living(&snakes[1]).blocks, vec![(Direction::Up, 7)]);
    assert_eq!(living(&snakes[2]).blocks, vec![(Direction::Up, 3)]);
    assert_eq!(living(&snakes[3]).blocks, vec![(Direction::Up, 5)]);
    assert_eq!(snakes[0], dead("zed", Some(1)));
}

#[test]
fn a_tick_of_play_eats_decays_and_moves() {
    let cfg = quiet();
    let mut frozen = alive("bob", (50, 10), vec![(Direction::Up, 3)]);
    frozen.frozen_for = Some(1);
    let mut game = GameState::Playing {
        snakes: vec![upright("ann", (10, 10)), Snake::Alive(frozen), dead("cat", Some(8))],
        apples: vec![(10, 10), (70, 7)],
        purchases: nothing_bought(&["ann", "bob", "cat"]),
    };
    let events = tick(
        &mut game,
        &names(&["ann", "bob", "cat"]),
        &cfg,
        0,
        vec![command("ann", ClientMessage::SetDirection { direction: Direction::Right })],
    );
    let (snakes, apples, _) = playing(&game);
    assert_eq!(apples, &vec![(70, 7)]);
    let ann = living(&snakes[0]);
    assert_eq!(ann.head, (11, 10));
    assert_eq!(ann.blocks, vec![(Direction::Right, 1), (Direction::Up, 4)]);
    let bob = living(&snakes[1]);
    assert_eq!(bob.head, (50, 10));
    assert_eq!(bob.frozen_for, Some(0));
    assert_eq!(snakes[2], dead("cat", Some(7)));
    assert_eq!(
        events,
        vec![ServerMessage::GameState {
            apples: vec![(70, 7)],
            snakes: snapshot(snakes),
            just_ate_apple: vec![],
            recent_power_ups: vec![],
        }]
    );
}

#[test]
fn a_thawed_snake_moves_in_the_tick_that_clears_the_freeze() {
    let cfg = quiet();
    let mut thawing = alive("ann", (10, 10), vec![(Direction::Up, 3)]);
    thawing.frozen_for = Some(0);
    let mut game = GameState::Playing {
        snakes: vec![Snake::Alive(thawing), upright("bob", (50, 10))],
        apples: vec![],
        purchases: vec![],
    };
    tick(&mut game, &names(&["ann", "bob"]), &cfg, 0, vec![]);
    let (snakes, _, _) = playing(&game);
    assert_eq!(living(&snakes[0]).frozen_for, None);
    assert_eq!(living(&snakes[0]).head, (10, 9));
}

#[test]
fn snakes_move_only_on_ticks_that_have_a_move() {
    let cfg = GameConfig { move_every_ticks: 3, ..quiet() };
    let players = names(&["ann", "bob"]);
    let mut game = GameState::Playing {
        snakes: vec![upright("ann", (10, 10)), upright("bob", (50, 10))],
        apples: vec![],
        purchases: vec![],
    };
    let mut heads = vec![];
    for count in 0..7 {
        tick(&mut game, &players, &cfg, count, vec![]);
        let (snakes, _, _) = playing(&game);
        heads.push(living(&snakes[0]).head.1);
    }
    assert_eq!(heads, vec![9, 9, 9, 8, 8, 8, 7]);
}

#[test]
fn a_tick_of_play_fills_the_board_with_apples() {
    let cfg = GameConfig::default();
    let players = names(&["ann", "bob"]);
    let mut game = start_game(&players, &cfg);
    let mut count = 0;
    loop {
        assert!(game.can_tick(&cfg, players.len(), 0));
        let events = tick(&mut game, &players, &cfg, count, vec![]);
        assert_eq!(events.len(), 1);
        let (snakes, apples, _) = playing(&game);
        assert!(apples.len() <= 40);
        assert!(apples.iter().all(|a| a.0 < 100 && a.1 < 50));
        assert_eq!(snakes.len(), 2);
        count += 1;
        if apples.len() >= 38 || count > 20 {
            break;
        }
    }
    let (_, apples, _) = playing(&game);
    assert!(apples.len() >= 38);
}

#[test]
fn the_phases_work_on_whole_lists() {
    let cfg = quiet();
    let mut shielded = alive("ann", (0, 0), vec![(Direction::Up, 3)]);
    shielded.invulnerable_for = Some(3);
    let mut snakes = vec![Snake::Alive(shielded), dead("bob", Some(2)), dead("cat", None)];
    decay_all(&mut snakes, &cfg);
    assert_eq!(living(&snakes[0]).invulnerable_for, Some(2));
    assert_eq!(snakes[1], dead("bob", Some(1)));
    assert_eq!(snakes[2], dead("cat", None));
    advance_all(&mut snakes, &cfg);
    assert_eq!(living(&snakes[0]).head, (0, 49));
    assert_eq!(snakes[1], dead("bob", Some(1)));
}

#[test]
fn the_checks_before_a_tick_tell_what_is_wrong() {
    let cfg = GameConfig::default();
    let good = GameState::Playing {
        snakes: vec![upright("ann", (10, 10))],
        apples: vec![],
        purchases: nothing_bought(&["ann"]),
    };
    assert!(good.can_tick(&cfg, 1, 100));
    assert!(!good.can_tick(&GameConfig { board_width: 0, ..cfg }, 1, 100));
    assert!(!good.can_tick(&cfg, 1, 429_496_730));
    let twice = GameState::Playing {
        snakes: vec![upright("ann", (10, 10)), upright("ann", (20, 10))],
        apples: vec![],
        purchases: vec![],
    };
    assert!(!twice.is_well_formed(&cfg));
    let empty = GameState::Playing { snakes: vec![], apples: vec![], purchases: vec![] };
    assert!(!empty.is_well_formed(&cfg));
    let huge = GameState::Playing {
        snakes: vec![Snake::Alive(alive("ann", (1, 1), vec![(Direction::Up, u32::MAX - 20)]))],
        apples: vec![],
        purchases: vec![],
    };
    assert!(huge.is_well_formed(&cfg));
    assert!(!huge.fits_tick(&cfg, 1, 0));
    let lobby_state = GameState::WaitingForPlayers { ready_status: lobby(&[("a", true)]) };
    assert!(lobby_state.can_tick(&cfg, 1, 0));
    assert!(!lobby_state.can_tick(&cfg, 0, 0));
    let doubled =
        GameState::WaitingForPlayers { ready_status: lobby(&[("a", true), ("a", false)]) };
    assert!(!doubled.is_well_formed(&cfg));
    let over = GameState::GameOver { winner: "a".to_string(), purchases: vec![] };
    assert!(over.can_tick(&cfg, 0, 0));
}

#[test]
fn the_default_configuration_is_the_documented_one() {
    let cfg = GameConfig::default();
    assert_eq!(
        cfg,
        GameConfig {
            tick_time_ms: 100,
            board_width: 100,
            board_height: 50,
            num_apples: 40,
            move_every_ticks: 1,
            revive_ticks: 100,
            effect_time_ms: 3000,
        }
    );
    assert!(cfg.is_valid());
    assert_eq!(cfg.effect_ticks(), 30);
    assert_eq!(GameConfig { tick_time_ms: 250, ..cfg }.effect_ticks(), 12);
    assert!(!GameConfig { tick_time_ms: 0, ..cfg }.is_valid());
    assert!(!GameConfig { board_height: 0, ..cfg }.is_valid());
    assert!(!GameConfig { move_every_ticks: 0, ..cfg }.is_valid());
}

#[test]
fn power_ups_know_their_kind() {
    assert_eq!(PowerUps::ExtraLife.kind(), PowerUpKind::ExtraLife);
    assert_eq!(PowerUps::AddLength.kind(), PowerUpKind::AddLength);
    assert_eq!(PowerUps::Revive.kind(), PowerUpKind::Revive);
    assert_eq!(
        PowerUps::ShrinkOpponent { opponent: "x".to_string() }.kind(),
        PowerUpKind::ShrinkOpponent
    );
    assert_eq!(
        PowerUps::FreezeOpponent { opponent: "x".to_string() }.kind(),
        PowerUpKind::FreezeOpponent
    );
}

#[test]
fn the_catalogue_tells_each_cost() {
    let costs = PowerUpCosts {
        extra_life: 5.0,
        all_length: 1.0,
        revive: 10.0,
        shrink_opponent: 3.0,
        freeze_opponent: 5.5,
    };
    assert_eq!(costs.get_cost(&PowerUps::ExtraLife), 5.0);
    assert_eq!(costs.get_cost(&PowerUps::AddLength), 1.0);
    assert_eq!(costs.get_cost(&PowerUps::Revive), 10.0);
    assert_eq!(costs.get_cost(&PowerUps::ShrinkOpponent { opponent: "x".to_string() }), 3.0);
    assert_eq!(costs.get_cost(&PowerUps::FreezeOpponent { opponent: "x".to_string() }), 5.5);
    assert_eq!(costs.cost(PowerUpKind::FreezeOpponent), 5.5);
    let bought = Purchases {
        user_id: "ann".to_string(),
        power_ups: vec![PowerUpKind::Revive, PowerUpKind::AddLength, PowerUpKind::Revive],
    };
    assert_eq!(costs.charges(&bought), vec![10.0, 1.0, 10.0]);
    assert!(costs.charges(&Purchases { user_id: "bob".to_string(), power_ups: vec![] }).is_empty());
    let credits = PowerUpCosts {
        extra_life: 1u64,
        all_length: 2,
        revive: 3,
        shrink_opponent: 4,
        freeze_opponent: 5,
    };
    let spent: u64 = [PowerUpKind::Revive, PowerUpKind::AddLength, PowerUpKind::Revive]
        .iter()
        .map(|kind| credits.cost(*kind))
        .sum();
    assert_eq!(spent, 8);
}

#[test]
fn a_head_that_runs_into_a_body_across_the_edge_is_struck() {
    let cfg = quiet();
    let crossed = Snake::Alive(AliveSnake {
        head_direction: Direction::Down,
        ..alive("bob", (5, 0), vec![(Direction::Down, 3)])
    });
    let ann = Snake::Alive(alive("ann", (5, 49), vec![(Direction::Down, 2)]));
    let mut snakes = vec![ann, crossed];
    assert!(detect_struck(&snakes, 0, &cfg));
    assert!(!detect_struck(&snakes, 1, &cfg));
    resolve_collisions(&mut snakes, &cfg);
    assert_eq!(
        snakes[0],
        Snake::Dead { user_id: "ann".to_string(), head: (5, 49), ticks_to_revive: Some(100) }
    );
    assert!(matches!(snakes[1], Snake::Alive(_)));
}

#[test]
fn no_apple_is_put_on_a_body_across_the_edge() {
    let cfg = GameConfig::default();
    let crossed = vec![Snake::Alive(alive("bob", (5, 0), vec![(Direction::Down, 3)]))];
    assert!(!is_free_cell(&crossed, &(5, 49), &cfg));
    assert!(!is_free_cell(&crossed, &(5, 48), &cfg));
    assert!(is_free_cell(&crossed, &(5, 47), &cfg));
    let mut apples = vec![];
    assert!(!try_place_apple(&mut apples, &crossed, &cfg, 105, 99));
    assert!(try_place_apple(&mut apples, &crossed, &cfg, 105, 97));
    assert_eq!(apples, vec![(5, 47)]);
}
