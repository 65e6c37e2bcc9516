//! Between the connections and the engine: who a connection speaks for, what
//! goes to the engine and what comes back to which player.

use vstd::prelude::*;
use crate::client_message::{ClientMessage, ClientMessageView, GameIncomingMessage};
use crate::game_state::views;
use crate::management_server::{UserAccessToken, UserAccessTokenView};
use crate::server_message::{ServerMessage, ServerMessageView};

verus! {

/// An event on its way to one player.
#[derive(Debug, PartialEq, Eq)]
pub struct GameOutgoingMessage {
    pub to_player: String,
    pub message: ServerMessage,
}

/// What a [`GameOutgoingMessage`] holds, as mathematical values.
pub struct GameOutgoingMessageView {
    pub to_player: Seq<char>,
    pub message: ServerMessageView,
}

impl View for GameOutgoingMessage {
    type V = GameOutgoingMessageView;

    open spec fn view(&self) -> GameOutgoingMessageView {
        GameOutgoingMessageView { to_player: self.to_player@, message: self.message@ }
    }
}

impl Clone for GameOutgoingMessage {
    fn clone(&self) -> (r: GameOutgoingMessage)
        ensures
            r@ == self@,
    {
        GameOutgoingMessage { to_player: self.to_player.clone(), message: self.message.clone() }
    }
}

/// What a connection has to present before it may speak for a player.
#[derive(Debug, PartialEq, Eq)]
pub struct Credentials {
    pub game_id: String,
    pub access_token: String,
}

/// One event, addressed to each player in turn.
pub open spec fn to_each(event: ServerMessageView, players: Seq<Seq<char>>) -> Seq<
    GameOutgoingMessageView,
> {
    players.map_values(
        |player: Seq<char>| GameOutgoingMessageView { to_player: player, message: event },
    )
}

/// The events of a tick as they go out: each event to every player, the
/// events in their order.
pub open spec fn addressed(events: Seq<ServerMessageView>, players: Seq<Seq<char>>) -> Seq<
    GameOutgoingMessageView,
>
    decreases events.len(),
{
    if events.len() == 0 {
        Seq::empty()
    } else {
        addressed(events.drop_last(), players) + to_each(events.last(), players)
    }
}

/// The first entry of a token table that holds `access_token`.
pub open spec fn token_position(table: Seq<UserAccessTokenView>, access_token: Seq<char>) -> Option<
    int,
>
    decreases table.len(),
{
    if table.len() == 0 {
        None
    } else {
        match token_position(table.drop_last(), access_token) {
            Some(i) => Some(i),
            None => if table.last().access_token == access_token {
                Some(table.len() - 1)
            } else {
                None
            },
        }
    }
}

/// What `token_position` finds is an entry with the token and no such entry
/// before it, and it finds nothing only where no entry has the token.
pub proof fn lemma_token_position(table: Seq<UserAccessTokenView>, access_token: Seq<char>)
    ensures
        match token_position(table, access_token) {
            Some(i) => 0 <= i < table.len() && table[i].access_token == access_token && forall|
                j: int,
            |
                0 <= j < i ==> table[j].access_token != access_token,
            None => forall|j: int| 0 <= j < table.len() ==> table[j].access_token != access_token,
        },
    decreases table.len(),
{
    if table.len() > 0 {
        lemma_token_position(table.drop_last(), access_token);
        assert forall|j: int| 0 <= j < table.len() - 1 implies table[j]
            == table.drop_last()[j] by {}
    }
}

/// Addresses the events of a tick to every player.
pub fn fan_out(send_to_all: &Vec<ServerMessage>, all_players: &Vec<String>) -> (r: Vec<
    GameOutgoingMessage,
>)
    ensures
        views(r@) == addressed(views(send_to_all@), views(all_players@)),
{
    let ghost events = views(send_to_all@);
    let ghost players = views(all_players@);
    let mut out: Vec<GameOutgoingMessage> = Vec::new();
    let mut i: usize = 0;
    proof {
        assert(events.take(0) =~= Seq::<ServerMessageView>::empty());
        assert(views(out@) =~= Seq::<GameOutgoingMessageView>::empty());
    }
    while i < send_to_all.len()
        invariant
            i <= send_to_all.len(),
            events == views(send_to_all@),
            players == views(all_players@),
            views(out@) == addressed(events.take(i as int), players),
        decreases send_to_all.len() - i,
    {
        let ghost done = views(out@);
        let mut j: usize = 0;
        proof {
            assert(events.take(i + 1).drop_last() =~= events.take(i as int));
            assert(events.take(i + 1).last() == send_to_all@[i as int]@);
            assert(views(out@) =~= done + to_each(events[i as int], players).take(0));
        }
        while j < all_players.len()
            invariant
                j <= all_players.len(),
                i < send_to_all.len(),
                events == views(send_to_all@),
                players == views(all_players@),
                views(out@) == done + to_each(events[i as int], players).take(j as int),
            decreases all_players.len() - j,
        {
            let ghost sent = views(out@);
            out.push(
                GameOutgoingMessage {
                    to_player: all_players[j].clone(),
                    message: send_to_all[i].clone(),
                },
            );
            proof {
                let next = GameOutgoingMessageView {
                    to_player: players[j as int],
                    message: events[i as int],
                };
                assert(views(out@) =~= sent.push(next));
                assert(to_each(events[i as int], players).take(j + 1) =~= to_each(
                    events[i as int],
                    players,
                ).take(j as int).push(next));
                assert(views(out@) =~= done + to_each(events[i as int], players).take(j + 1));
            }
            j += 1;
        }
        proof {
            assert(to_each(events[i as int], players).take(j as int) =~= to_each(
                events[i as int],
                players,
            ));
        }
        i += 1;
    }
    assert(events.take(i as int) =~= events);
    out
}

/// Gives the event of `message` if it is addressed to `player_id`: what a
/// player's connection passes on.
pub fn addressed_to(message: GameOutgoingMessage, player_id: &String) -> (r: Option<ServerMessage>)
    ensures
        r is Some <==> message@.to_player == player_id@,
        r matches Some(event) ==> event@ == message@.message,
{
    if message.to_player == *player_id {
        Some(message.message)
    } else {
        None
    }
}

/// Marks a command with the player from whose connection it came.
pub fn tag(player_id: &String, message: ClientMessage) -> (r: GameIncomingMessage)
    ensures
        r@.player_id == player_id@,
        r@.message == message@,
{
    GameIncomingMessage { player_id: player_id.clone(), message }
}

/// Reads the credentials from the first frame of a connection. A connection
/// that closed, sent something unreadable (`None`) or sent any other command
/// presents none.
pub fn credentials(first: Option<ClientMessage>) -> (r: Option<Credentials>)
    ensures
        r is Some <==> (first matches Some(message) && message@ is Authenticate),
        r matches Some(found) ==> first->0@ == (ClientMessageView::Authenticate {
            access_token: found.access_token@,
            game_id: found.game_id@,
        }),
{
    match first {
        Some(ClientMessage::Authenticate { access_token, game_id }) => Some(
            Credentials { game_id, access_token },
        ),
        _ => None,
    }
}

/// Finds the player that `access_token` belongs to in a game's token table.
pub fn player_for_token(players: &Vec<UserAccessToken>, access_token: &String) -> (r: Option<
    String,
>)
    ensures
        match r {
            Some(player_id) => token_position(views(players@), access_token@) matches Some(i)
                && views(players@)[i].user_id == player_id@,
            None => token_position(views(players@), access_token@) is None,
        },
{
    let ghost table = views(players@);
    let mut i: usize = 0;
    while i < players.len()
        invariant
            i <= players.len(),
            table == views(players@),
            forall|j: int| 0 <= j < i ==> table[j].access_token != access_token@,
        decreases players.len() - i,
    {
        if players[i].access_token == *access_token {
            proof {
                assert(table[i as int].access_token == access_token@);
                lemma_token_position(table, access_token@);
            }
            return Some(players[i].user_id.clone());
        }
        i += 1;
    }
    proof {
        lemma_token_position(table, access_token@);
    }
    None
}

} // verus!
