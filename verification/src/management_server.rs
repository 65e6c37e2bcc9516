//! Setting up a game: who may ask for one, and what a new game consists of.

use vstd::prelude::*;
use crate::game_state::{clone_items, views, GameState, GameStateView};
use crate::roster::{find_ready, lemma_position, position, ready_ids};
use crate::server_message::{ReadyStatus, ReadyStatusView};

verus! {

/// A request to the management endpoint.
#[derive(Debug, PartialEq, Eq)]
pub enum ManagementIncomingMessage {
    CreateGame { api_token: String, users: Vec<String> },
}

/// A request for a new game.
#[derive(Debug, PartialEq, Eq)]
pub struct CreateGamePayload {
    pub api_token: String,
    pub user_ids: Vec<String>,
}

/// The token with which a player joins a game.
#[derive(Debug, PartialEq, Eq)]
pub struct UserAccessToken {
    pub access_token: String,
    pub user_id: String,
}

/// What a [`UserAccessToken`] holds, as mathematical values.
pub struct UserAccessTokenView {
    pub access_token: Seq<char>,
    pub user_id: Seq<char>,
}

impl View for UserAccessToken {
    type V = UserAccessTokenView;

    open spec fn view(&self) -> UserAccessTokenView {
        UserAccessTokenView { access_token: self.access_token@, user_id: self.user_id@ }
    }
}

impl Clone for UserAccessToken {
    fn clone(&self) -> (r: UserAccessToken)
        ensures
            r@ == self@,
    {
        UserAccessToken { access_token: self.access_token.clone(), user_id: self.user_id.clone() }
    }
}

/// The answer to a request for a new game.
#[derive(Debug, PartialEq, Eq)]
pub enum CreateGameResponse {
    Success { game_id: String, users: Vec<UserAccessToken> },
    Error,
}

/// What a [`CreateGameResponse`] holds, as mathematical values.
pub enum CreateGameResponseView {
    Success { game_id: Seq<char>, users: Seq<UserAccessTokenView> },
    Error,
}

impl View for CreateGameResponse {
    type V = CreateGameResponseView;

    open spec fn view(&self) -> CreateGameResponseView {
        match self {
            CreateGameResponse::Success { game_id, users } => CreateGameResponseView::Success {
                game_id: game_id@,
                users: views(users@),
            },
            CreateGameResponse::Error => CreateGameResponseView::Error,
        }
    }
}

/// A game that was set up and waits for its players.
#[derive(Debug, PartialEq, Eq)]
pub struct NewGame {
    pub game_id: String,
    /// The token of each player.
    pub players: Vec<UserAccessToken>,
    /// The game, in its lobby.
    pub game: GameState,
}

/// The token that the management endpoint asks for.
pub open spec fn api_token() -> Seq<char> {
    "secret_token"@
}

/// The players of a list, each once, in the order in which they first
/// occur.
pub open spec fn distinct_players(players: Seq<Seq<char>>) -> Seq<Seq<char>>
    decreases players.len(),
{
    if players.len() == 0 {
        Seq::empty()
    } else {
        let before = distinct_players(players.drop_last());
        if position(before, players.last()) is Some {
            before
        } else {
            before.push(players.last())
        }
    }
}

/// The tokens of a new game: each player's token is the player's name.
pub open spec fn token_table(players: Seq<Seq<char>>) -> Seq<UserAccessTokenView> {
    distinct_players(players).map_values(
        |player: Seq<char>| UserAccessTokenView { access_token: player, user_id: player },
    )
}

/// The lobby of a new game: every player is in it, and none is ready.
pub open spec fn new_lobby(players: Seq<Seq<char>>) -> Seq<ReadyStatusView> {
    distinct_players(players).map_values(
        |player: Seq<char>| ReadyStatusView { user_id: player, ready: false },
    )
}

/// No player stands twice among the distinct players.
pub proof fn lemma_distinct_players(players: Seq<Seq<char>>)
    ensures
        distinct_players(players).no_duplicates(),
    decreases players.len(),
{
    if players.len() > 0 {
        lemma_distinct_players(players.drop_last());
        lemma_position(distinct_players(players.drop_last()), players.last());
    }
}

/// Tells whether a request carries the token that the endpoint asks for.
pub fn is_authorized(payload: &CreateGamePayload) -> (r: bool)
    ensures
        r == (payload.api_token@ == api_token()),
{
    let expected = "secret_token".to_owned();
    payload.api_token == expected
}

/// Makes a game identifier with `uuid::Uuid::new_v4` and gives it as text.
/// The identifier is random: nothing is claimed of it.
#[verifier::external_body]
fn fresh_game_id() -> (r: String) {
    uuid::Uuid::new_v4().to_string()
}

/// Sets up a game under the identifier `game_id`, unless the request does
/// not carry the endpoint's token.
pub fn create_game_with_id(payload: &CreateGamePayload, game_id: String) -> (r: Option<NewGame>)
    ensures
        r is Some <==> payload.api_token@ == api_token(),
        r matches Some(new_game) ==> {
            &&& new_game.game_id@ == game_id@
            &&& views(new_game.players@) == token_table(views(payload.user_ids@))
            &&& new_game.game@ == GameStateView::WaitingForPlayers {
                ready_status: new_lobby(views(payload.user_ids@)),
            }
            &&& ready_ids(new_lobby(views(payload.user_ids@))).no_duplicates()
        },
{
    if !is_authorized(payload) {
        return None;
    }
    let ghost all = views(payload.user_ids@);
    let mut players: Vec<UserAccessToken> = Vec::new();
    let mut ready_status: Vec<ReadyStatus> = Vec::new();
    let mut i: usize = 0;
    proof {
        assert(all.take(0) =~= Seq::<Seq<char>>::empty());
        assert(views(players@) =~= token_table(all.take(0)));
        assert(views(ready_status@) =~= new_lobby(all.take(0)));
        assert(ready_ids(views(ready_status@)) =~= distinct_players(all.take(0)));
    }
    while i < payload.user_ids.len()
        invariant
            i <= payload.user_ids.len(),
            all == views(payload.user_ids@),
            views(players@) == token_table(all.take(i as int)),
            views(ready_status@) == new_lobby(all.take(i as int)),
            ready_ids(views(ready_status@)) == distinct_players(all.take(i as int)),
        decreases payload.user_ids.len() - i,
    {
        let user_id = &payload.user_ids[i];
        proof {
            assert(all.take(i + 1).drop_last() =~= all.take(i as int));
            assert(all.take(i + 1).last() == user_id@);
        }
        let ghost tokens = views(players@);
        let ghost lobby = views(ready_status@);
        if find_ready(&ready_status, user_id).is_none() {
            players.push(
                UserAccessToken { access_token: user_id.clone(), user_id: user_id.clone() },
            );
            ready_status.push(ReadyStatus { user_id: user_id.clone(), ready: false });
            proof {
                let names = distinct_players(all.take(i as int));
                assert(distinct_players(all.take(i + 1)) == names.push(user_id@));
                assert(views(players@) =~= tokens.push(
                    UserAccessTokenView { access_token: user_id@, user_id: user_id@ },
                ));
                assert(views(ready_status@) =~= lobby.push(
                    ReadyStatusView { user_id: user_id@, ready: false },
                ));
                assert(views(players@) =~= token_table(all.take(i + 1)));
                assert(views(ready_status@) =~= new_lobby(all.take(i + 1)));
                assert(ready_ids(views(ready_status@)) =~= distinct_players(all.take(i + 1)));
            }
        }
        i += 1;
    }
    proof {
        assert(all.take(i as int) =~= all);
        lemma_distinct_players(all);
    }
    Some(NewGame { game_id, players, game: GameState::WaitingForPlayers { ready_status } })
}

/// Sets up a game under a fresh random identifier, unless the request does
/// not carry the endpoint's token.
pub fn create_game(payload: &CreateGamePayload) -> (r: Option<NewGame>)
    ensures
        r is Some <==> payload.api_token@ == api_token(),
        r matches Some(new_game) ==> {
            &&& views(new_game.players@) == token_table(views(payload.user_ids@))
            &&& new_game.game@ == GameStateView::WaitingForPlayers {
                ready_status: new_lobby(views(payload.user_ids@)),
            }
            &&& ready_ids(new_lobby(views(payload.user_ids@))).no_duplicates()
        },
{
    create_game_with_id(payload, fresh_game_id())
}

/// The answer to a request: the new game's identifier and tokens, or an
/// error where no game was set up.
pub fn response(outcome: &Option<NewGame>) -> (r: CreateGameResponse)
    ensures
        r@ == match *outcome {
            Some(new_game) => CreateGameResponseView::Success {
                game_id: new_game.game_id@,
                users: views(new_game.players@),
            },
            None => CreateGameResponseView::Error,
        },
{
    match outcome {
        Some(new_game) => CreateGameResponse::Success {
            game_id: new_game.game_id.clone(),
            users: clone_items(&new_game.players),
        },
        None => CreateGameResponse::Error,
    }
}

} // verus!
