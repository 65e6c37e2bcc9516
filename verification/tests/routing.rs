use multiplayer::all_games_state::{AllGamesState, AuthGameState};
use multiplayer::client_message::{ClientMessage, GameIncomingMessage};
use multiplayer::game_state::{Direction, GameState};
use multiplayer::management_server::{create_game, create_game_with_id, response,
    CreateGamePayload, CreateGameResponse, ManagementIncomingMessage, UserAccessToken};
use multiplayer::routing::{addressed_to, credentials, fan_out, player_for_token, tag, Credentials,
    GameOutgoingMessage};
use multiplayer::server_message::{ReadyStatus, ServerMessage};

fn token(access_token: &str, user_id: &str) -> UserAccessToken {
    UserAccessToken { access_token: access_token.to_string(), user_id: user_id.to_string() }
}

fn request(api_token: &str, users: &[&str]) -> CreateGamePayload {
    CreateGamePayload {
        api_token: api_token.to_string(),
        user_ids: users.iter().map(|u| u.to_string()).collect(),
    }
}

#[test]
fn events_go_to_every_player_in_order() {
    let events = vec![
        ServerMessage::ReadyStatus {
            status: vec![ReadyStatus { user_id: "ann".to_string(), ready: true }],
        },
        ServerMessage::StartGame,
    ];
    let players = vec!["ann".to_string(), "bob".to_string()];
    let out = fan_out(&events, &players);
    let expected: Vec<GameOutgoingMessage> = vec![
        GameOutgoingMessage { to_player: "ann".to_string(), message: events[0].clone() },
        GameOutgoingMessage { to_player: "bob".to_string(), message: events[0].clone() },
        GameOutgoingMessage { to_player: "ann".to_string(), message: ServerMessage::StartGame },
        GameOutgoingMessage { to_player: "bob".to_string(), message: ServerMessage::StartGame },
    ];
    assert_eq!(out, expected);
    assert!(fan_out(&vec![], &players).is_empty());
    assert!(fan_out(&events, &vec![]).is_empty());
}

#[test]
fn a_connection_passes_on_only_its_own_events() {
    let for_ann =
        GameOutgoingMessage { to_player: "ann".to_string(), message: ServerMessage::StartGame };
    assert_eq!(addressed_to(for_ann.clone(), &"ann".to_string()), Some(ServerMessage::StartGame));
    assert_eq!(addressed_to(for_ann, &"bob".to_string()), None);
}

#[test]
fn commands_are_tagged_with_the_sender() {
    let message = ClientMessage::SetDirection { direction: Direction::Left };
    assert_eq!(
        tag(&"ann".to_string(), message.clone()),
        GameIncomingMessage { player_id: "ann".to_string(), message }
    );
}

#[test]
fn only_an_authenticate_frame_presents_credentials() {
    let hello = ClientMessage::Authenticate {
        access_token: "token".to_string(),
        game_id: "game".to_string(),
    };
    assert_eq!(
        credentials(Some(hello)),
        Some(Credentials { game_id: "game".to_string(), access_token: "token".to_string() })
    );
    assert_eq!(credentials(None), None);
    assert_eq!(credentials(Some(ClientMessage::SetReady { ready: true })), None);
    assert_eq!(
        credentials(Some(ClientMessage::SetDirection { direction: Direction::Up })),
        None
    );
}

#[test]
fn a_token_leads_to_its_player() {
    let table = vec![token("t1", "ann"), token("t2", "bob"), token("t1", "cat")];
    assert_eq!(player_for_token(&table, &"t1".to_string()), Some("ann".to_string()));
    assert_eq!(player_for_token(&table, &"t2".to_string()), Some("bob".to_string()));
    assert_eq!(player_for_token(&table, &"t3".to_string()), None);
    assert_eq!(player_for_token(&vec![], &"t1".to_string()), None);
}

#[test]
fn a_game_is_created_for_the_right_token_only() {
    assert_eq!(create_game_with_id(&request("wrong", &["ann"]), "g".to_string()), None);
    assert_eq!(create_game_with_id(&request("", &["ann"]), "g".to_string()), None);
    assert_eq!(create_game(&request("secret_token ", &["ann"])), None);
    let made = create_game_with_id(&request("secret_token", &["ann", "bob"]), "g".to_string())
        .expect("the token is right");
    assert_eq!(made.game_id, "g");
    assert_eq!(made.players, vec![token("ann", "ann"), token("bob", "bob")]);
    assert_eq!(
        made.game,
        GameState::WaitingForPlayers {
            ready_status: vec![
                ReadyStatus { user_id: "ann".to_string(), ready: false },
                ReadyStatus { user_id: "bob".to_string(), ready: false },
            ],
        }
    );
}

#[test]
fn a_player_named_twice_joins_once() {
    let made =
        create_game_with_id(&request("secret_token", &["ann", "bob", "ann"]), "g".to_string())
            .expect("the token is right");
    assert_eq!(made.players, vec![token("ann", "ann"), token("bob", "bob")]);
    match &made.game {
        GameState::WaitingForPlayers { ready_status } => assert_eq!(ready_status.len(), 2),
        other => panic!("a new game waits for its players: {:?}", other),
    }
}

#[test]
fn new_games_get_fresh_identifiers() {
    let first = create_game(&request("secret_token", &["ann"])).expect("the token is right");
    let second = create_game(&request("secret_token", &["ann"])).expect("the token is right");
    assert_eq!(first.game_id.len(), 36);
    assert_ne!(first.game_id, second.game_id);
    assert_eq!(first.players, second.players);
    assert_eq!(first.game, second.game);
}

#[test]
fn the_answer_names_the_game_or_the_error() {
    let made = create_game_with_id(&request("secret_token", &["ann"]), "g".to_string());
    assert_eq!(
        response(&made),
        CreateGameResponse::Success { game_id: "g".to_string(), users: vec![token("ann", "ann")] }
    );
    assert_eq!(response(&None), CreateGameResponse::Error);
}

#[test]
fn a_management_request_names_its_users() {
    let message = ManagementIncomingMessage::CreateGame {
        api_token: "secret_token".to_string(),
        users: vec!["ann".to_string()],
    };
    match message {
        ManagementIncomingMessage::CreateGame { api_token, users } => {
            assert_eq!(api_token, "secret_token");
            assert_eq!(users, vec!["ann".to_string()]);
        }
    }
}

#[test]
fn the_directory_keeps_one_game_under_each_identifier() {
    let mut games: AllGamesState<u32> = AllGamesState::new();
    assert!(games.get(&"g1".to_string()).is_none());
    games.insert("g1".to_string(), AuthGameState { players: vec![token("t", "ann")], handles: 1 });
    games.insert("g2".to_string(), AuthGameState { players: vec![token("t", "bob")], handles: 2 });
    assert_eq!(games.get(&"g1".to_string()).map(|g| g.handles), Some(1));
    assert_eq!(games.get(&"g2".to_string()).map(|g| g.handles), Some(2));
    assert!(games.get(&"g3".to_string()).is_none());
    games.insert("g1".to_string(), AuthGameState { players: vec![], handles: 3 });
    assert_eq!(games.games.len(), 2);
    assert_eq!(games.get(&"g1".to_string()).map(|g| g.handles), Some(3));
    assert_eq!(games.games[0].0, "g1");
}

#[test]
fn the_handshake_admits_known_tokens_only() {
    let mut games: AllGamesState<&str> = AllGamesState::new();
    games.insert(
        "g1".to_string(),
        AuthGameState { players: vec![token("t1", "ann"), token("t2", "bob")], handles: "first" },
    );
    games.insert(
        "g2".to_string(),
        AuthGameState { players: vec![token("t1", "cat")], handles: "second" },
    );
    let hello = |access_token: &str, game_id: &str| {
        Some(ClientMessage::Authenticate {
            access_token: access_token.to_string(),
            game_id: game_id.to_string(),
        })
    };
    let admitted = |first| games.authenticate(first).map(|(player, game)| (player, game.handles));
    assert_eq!(admitted(hello("t2", "g1")), Some(("bob".to_string(), "first")));
    assert_eq!(admitted(hello("t1", "g2")), Some(("cat".to_string(), "second")));
    assert_eq!(admitted(hello("t1", "g1")), Some(("ann".to_string(), "first")));
    assert_eq!(admitted(hello("t2", "g2")), None);
    assert_eq!(admitted(hello("t1", "g3")), None);
    assert_eq!(admitted(hello("g1", "t1")), None);
    assert_eq!(admitted(None), None);
    assert_eq!(admitted(Some(ClientMessage::SetReady { ready: true })), None);
}
