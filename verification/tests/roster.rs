use multiplayer::client_message::{ClientMessage, GameIncomingMessage};
use multiplayer::config::GameConfig;
use multiplayer::lobby::{apply_ready_commands, is_all_ready};
use multiplayer::game_state::{clone_items, copy_items, AliveSnake, Direction,
    GameState, Snake};
use multiplayer::power_ups::{PowerUpKind, Purchases};
use multiplayer::roster::{find_purchases, find_ready, find_snake, put_snake, record_purchase,
    set_ready};
use multiplayer::server_message::{ReadyStatus, ServerMessage};
use multiplayer::validity::{are_distinct, are_well_formed, longest_snake, purchase_names,
    ready_names, snake_names, try_tick};

fn entry(player: &str, ready: bool) -> ReadyStatus {
    ReadyStatus { user_id: player.to_string(), ready }
}

fn gone(player: &str) -> Snake {
    Snake::Dead { user_id: player.to_string(), head: (0, 0), ticks_to_revive: None }
}

fn long_snake(player: &str, cells: u32) -> Snake {
    Snake::Alive(AliveSnake {
        user_id: player.to_string(),
        head: (3, 3),
        head_direction: Direction::Up,
        blocks: vec![(Direction::Up, cells)],
        invulnerable_for: None,
        frozen_for: None,
        has_extra_life: false,
    })
}

#[test]
fn entries_are_found_by_player() {
    let snakes = vec![gone("ann"), gone("bob"), gone("ann")];
    assert_eq!(find_snake(&snakes, &"ann".to_string()), Some(0));
    assert_eq!(find_snake(&snakes, &"bob".to_string()), Some(1));
    assert_eq!(find_snake(&snakes, &"cat".to_string()), None);
    let status = vec![entry("ann", true), entry("bob", false)];
    assert_eq!(find_ready(&status, &"bob".to_string()), Some(1));
    assert_eq!(find_ready(&status, &"".to_string()), None);
    let bought = vec![Purchases { user_id: "ann".to_string(), power_ups: vec![] }];
    assert_eq!(find_purchases(&bought, &"ann".to_string()), Some(0));
    assert_eq!(find_purchases(&bought, &"bob".to_string()), None);
}

#[test]
fn entries_are_replaced_in_place_or_added() {
    let mut status = vec![entry("ann", false)];
    set_ready(&mut status, "bob".to_string(), true);
    set_ready(&mut status, "ann".to_string(), true);
    set_ready(&mut status, "bob".to_string(), false);
    assert_eq!(status, vec![entry("ann", true), entry("bob", false)]);

    let mut bought = vec![];
    record_purchase(&mut bought, &"bob".to_string(), PowerUpKind::Revive);
    record_purchase(&mut bought, &"ann".to_string(), PowerUpKind::AddLength);
    record_purchase(&mut bought, &"bob".to_string(), PowerUpKind::ExtraLife);
    assert_eq!(
        bought,
        vec![
            Purchases {
                user_id: "bob".to_string(),
                power_ups: vec![PowerUpKind::Revive, PowerUpKind::ExtraLife],
            },
            Purchases { user_id: "ann".to_string(), power_ups: vec![PowerUpKind::AddLength] },
        ]
    );

    let mut snakes = vec![gone("ann"), gone("bob")];
    put_snake(&mut snakes, long_snake("bob", 3));
    put_snake(&mut snakes, long_snake("cat", 4));
    assert_eq!(snakes, vec![gone("ann"), long_snake("bob", 3), long_snake("cat", 4)]);
}

#[test]
fn the_lobby_is_ready_when_all_are() {
    assert!(is_all_ready(&vec![]));
    assert!(is_all_ready(&vec![entry("ann", true), entry("bob", true)]));
    assert!(!is_all_ready(&vec![entry("ann", true), entry("bob", false)]));
    let mut status = vec![entry("ann", false)];
    let commands = vec![
        GameIncomingMessage {
            player_id: "ann".to_string(),
            message: ClientMessage::SetReady { ready: true },
        },
        GameIncomingMessage {
            player_id: "ann".to_string(),
            message: ClientMessage::SetDirection { direction: Direction::Left },
        },
    ];
    apply_ready_commands(&mut status, &commands);
    assert_eq!(status, vec![entry("ann", true)]);
}

#[test]
fn names_are_told_apart() {
    let names = |list: &[&str]| list.iter().map(|n| n.to_string()).collect::<Vec<String>>();
    assert!(are_distinct(&names(&[])));
    assert!(are_distinct(&names(&["a", "b", "c"])));
    assert!(!are_distinct(&names(&["a", "b", "a"])));
    assert!(!are_distinct(&names(&["a", "b", "b"])));
    assert_eq!(snake_names(&vec![gone("ann"), long_snake("bob", 3)]), names(&["ann", "bob"]));
    assert_eq!(ready_names(&vec![entry("ann", true)]), names(&["ann"]));
    assert_eq!(
        purchase_names(&vec![Purchases { user_id: "cat".to_string(), power_ups: vec![] }]),
        names(&["cat"])
    );
}

#[test]
fn the_longest_snake_is_measured() {
    let cfg = GameConfig::default();
    assert_eq!(longest_snake(&vec![]), Some(3));
    assert_eq!(longest_snake(&vec![gone("ann")]), Some(3));
    assert_eq!(longest_snake(&vec![long_snake("ann", 2), long_snake("bob", 9)]), Some(9));
    let two_runs = Snake::Alive(AliveSnake {
        user_id: "ann".to_string(),
        head: (3, 3),
        head_direction: Direction::Up,
        blocks: vec![(Direction::Up, u32::MAX), (Direction::Left, 1)],
        invulnerable_for: None,
        frozen_for: None,
        has_extra_life: false,
    });
    assert_eq!(longest_snake(&vec![two_runs]), None);
    assert!(are_well_formed(&vec![long_snake("ann", 2), gone("bob")], &cfg));
    assert!(!are_well_formed(&vec![long_snake("ann", 2), gone("ann")], &cfg));
    assert!(!are_well_formed(&vec![long_snake("ann", 0)], &cfg));
}

#[test]
fn a_tick_is_refused_when_the_game_cannot_take_it() {
    let cfg = GameConfig::default();
    let players = vec!["ann".to_string()];
    let mut broken = GameState::Playing { snakes: vec![], apples: vec![], purchases: vec![] };
    assert_eq!(try_tick(&mut broken, &players, &cfg, 0, vec![]), None);
    assert_eq!(broken, GameState::Playing { snakes: vec![], apples: vec![], purchases: vec![] });
    let mut lobby = GameState::WaitingForPlayers { ready_status: vec![entry("ann", false)] };
    assert_eq!(try_tick(&mut lobby, &vec![], &cfg, 0, vec![]), None);
    assert_eq!(
        try_tick(&mut lobby, &players, &cfg, 0, vec![]),
        Some(vec![ServerMessage::ReadyStatus { status: vec![entry("ann", false)] }])
    );
    let mut over = GameState::GameOver { winner: "ann".to_string(), purchases: vec![] };
    assert_eq!(
        try_tick(&mut over, &players, &cfg, 5, vec![]),
        Some(vec![ServerMessage::GameOver { winner: "ann".to_string(), purchases: vec![] }])
    );
}

#[test]
fn copies_hold_what_the_source_holds() {
    let blocks = vec![(Direction::Up, 3), (Direction::Left, 1)];
    assert_eq!(copy_items(&blocks), blocks);
    let cells = vec![(1, 2), (3, 4)];
    assert_eq!(copy_items(&cells), cells);
    let status = vec![entry("ann", true), entry("bob", false)];
    assert_eq!(clone_items(&status), status);
    let game = GameState::Playing {
        snakes: vec![long_snake("ann", 3), gone("bob")],
        apples: cells,
        purchases: vec![Purchases { user_id: "ann".to_string(), power_ups: vec![PowerUpKind::Revive] }],
    };
    assert_eq!(game.clone(), game);
}
