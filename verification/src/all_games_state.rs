//! The games of a server: a directory from the identifier of a game to what
//! the server keeps of it, and the handshake that binds a connection to a
//! player of one of the games.

use vstd::prelude::*;
use crate::client_message::{ClientMessage, ClientMessageView};
use crate::game_state::views;
use crate::management_server::UserAccessToken;
use crate::roster::{lemma_position, lemma_position_is, position};
use crate::routing::{credentials, player_for_token, token_position};

verus! {

/// What the server keeps of one game: the access token of each player, and
/// the handles `H` by which it reaches the game.
pub struct AuthGameState<H> {
    pub players: Vec<UserAccessToken>,
    pub handles: H,
}

/// The games of a server, each under its identifier. A game that was entered
/// stays; entering a game under an identifier that is taken replaces the
/// game that had it.
pub struct AllGamesState<H> {
    pub games: Vec<(String, AuthGameState<H>)>,
}

/// The identifiers of a list of games, in the order of the list.
pub open spec fn game_ids<H>(games: Seq<(String, AuthGameState<H>)>) -> Seq<Seq<char>> {
    games.map_values(|game: (String, AuthGameState<H>)| game.0@)
}

impl<H> AllGamesState<H> {
    /// The place of the game with the identifier `game_id`, if there is one.
    pub open spec fn place_of(&self, game_id: Seq<char>) -> Option<int> {
        position(game_ids(self.games@), game_id)
    }

    /// A directory in which no identifier stands twice.
    pub open spec fn wf(&self) -> bool {
        game_ids(self.games@).no_duplicates()
    }

    /// The player that a connection may speak for, and the place of the
    /// player's game, given the first frame of the connection: the frame has
    /// to be a command to authenticate, its game has to be in the directory,
    /// and its token has to be the token of a player of that game.
    pub open spec fn admitted(&self, first: Option<ClientMessageView>) -> Option<(Seq<char>, int)> {
        match first {
            Some(ClientMessageView::Authenticate { access_token, game_id }) => match self.place_of(
                game_id,
            ) {
                Some(i) => match token_position(views(self.games@[i].1.players@), access_token) {
                    Some(k) => Some((views(self.games@[i].1.players@)[k].user_id, i)),
                    None => None,
                },
                None => None,
            },
            _ => None,
        }
    }

    /// A directory without games.
    pub fn new() -> (r: Self)
        ensures
            r.games@.len() == 0,
            r.wf(),
    {
        let r = AllGamesState { games: Vec::new() };
        assert(game_ids(r.games@) =~= Seq::<Seq<char>>::empty());
        r
    }

    /// Finds the game with the identifier `game_id`.
    pub fn get(&self, game_id: &String) -> (r: Option<&AuthGameState<H>>)
        ensures
            match r {
                Some(game) => self.place_of(game_id@) matches Some(i) && *game
                    == self.games@[i].1,
                None => self.place_of(game_id@) is None,
            },
    {
        let ghost ids = game_ids(self.games@);
        let mut i: usize = 0;
        while i < self.games.len()
            invariant
                i <= self.games.len(),
                ids == game_ids(self.games@),
                forall|j: int| 0 <= j < i ==> ids[j] != game_id@,
            decreases self.games.len() - i,
        {
            if self.games[i].0 == *game_id {
                proof {
                    lemma_position_is(ids, game_id@, i as int);
                }
                return Some(&self.games[i].1);
            }
            i += 1;
        }
        proof {
            lemma_position(ids, game_id@);
        }
        None
    }

    /// Enters a game under the identifier `game_id`, in place of the game
    /// that had the identifier, if one had.
    pub fn insert(&mut self, game_id: String, game: AuthGameState<H>)
        ensures
            match old(self).place_of(game_id@) {
                Some(i) => final(self).games@ == old(self).games@.update(i, (game_id, game)),
                None => final(self).games@ == old(self).games@.push((game_id, game)),
            },
            final(self).place_of(game_id@) matches Some(i) && final(self).games@[i].1 == game,
            old(self).wf() ==> final(self).wf(),
    {
        let ghost before = self.games@;
        let ghost ids = game_ids(self.games@);
        proof {
            lemma_position(ids, game_id@);
        }
        let mut i: usize = 0;
        while i < self.games.len()
            invariant
                i <= self.games.len(),
                self.games@ == before,
                before == old(self).games@,
                ids == game_ids(before),
                forall|j: int| 0 <= j < i ==> ids[j] != game_id@,
            decreases self.games.len() - i,
        {
            if self.games[i].0 == game_id {
                proof {
                    lemma_position_is(ids, game_id@, i as int);
                }
                self.games[i] = (game_id, game);
                proof {
                    assert(game_ids(self.games@) =~= ids);
                    lemma_position_is(game_ids(self.games@), game_id@, i as int);
                }
                return ;
            }
            i += 1;
        }
        self.games.push((game_id, game));
        proof {
            assert(game_ids(self.games@) =~= ids.push(game_id@));
            lemma_position_is(game_ids(self.games@), game_id@, before.len() as int);
        }
    }

    /// Decides from the first frame of a connection for which player of
    /// which game the connection may speak. `None` for the frame stands for
    /// a connection that closed or sent what cannot be read; it is turned
    /// away like a wrong first command, an unknown game and an unknown token.
    pub fn authenticate(&self, first: Option<ClientMessage>) -> (r: Option<
        (String, &AuthGameState<H>),
    >)
        ensures
            match r {
                Some((player_id, game)) => self.admitted(
                    match first {
                        Some(message) => Some(message@),
                        None => None,
                    },
                ) matches Some((player, i)) && player_id@ == player && *game == self.games@[i].1,
                None => self.admitted(
                    match first {
                        Some(message) => Some(message@),
                        None => None,
                    },
                ) is None,
            },
    {
        let presented = match credentials(first) {
            Some(presented) => presented,
            None => {
                return None;
            },
        };
        let game = match self.get(&presented.game_id) {
            Some(game) => game,
            None => {
                return None;
            },
        };
        match player_for_token(&game.players, &presented.access_token) {
            Some(player_id) => Some((player_id, game)),
            None => None,
        }
    }
}

} // verus!
