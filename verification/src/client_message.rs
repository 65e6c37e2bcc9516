//! The commands that players send to the engine.

use vstd::prelude::*;
use crate::game_state::Direction;
use crate::power_ups::{PowerUps, PowerUpsView};

verus! {

/// A command as a player sends it.
#[derive(Debug, PartialEq, Eq)]
pub enum ClientMessage {
    Authenticate { access_token: String, game_id: String },
    UsePowerUp { power_up: PowerUps },
    SetDirection { direction: Direction },
    SetReady { ready: bool },
}

/// What a [`ClientMessage`] holds, as mathematical values.
pub enum ClientMessageView {
    Authenticate { access_token: Seq<char>, game_id: Seq<char> },
    UsePowerUp { power_up: PowerUpsView },
    SetDirection { direction: Direction },
    SetReady { ready: bool },
}

impl View for ClientMessage {
    type V = ClientMessageView;

    open spec fn view(&self) -> ClientMessageView {
        match self {
            ClientMessage::Authenticate { access_token, game_id } =>
                ClientMessageView::Authenticate {
                access_token: access_token@,
                game_id: game_id@,
            },
            ClientMessage::UsePowerUp { power_up } => ClientMessageView::UsePowerUp {
                power_up: power_up@,
            },
            ClientMessage::SetDirection { direction } => ClientMessageView::SetDirection {
                direction: *direction,
            },
            ClientMessage::SetReady { ready } => ClientMessageView::SetReady { ready: *ready },
        }
    }
}

impl Clone for ClientMessage {
    fn clone(&self) -> (r: ClientMessage)
        ensures
            r@ == self@,
    {
        match self {
            ClientMessage::Authenticate { access_token, game_id } => ClientMessage::Authenticate {
                access_token: access_token.clone(),
                game_id: game_id.clone(),
            },
            ClientMessage::UsePowerUp { power_up } => ClientMessage::UsePowerUp {
                power_up: power_up.clone(),
            },
            ClientMessage::SetDirection { direction } => ClientMessage::SetDirection {
                direction: *direction,
            },
            ClientMessage::SetReady { ready } => ClientMessage::SetReady { ready: *ready },
        }
    }
}

/// A command on its way to the engine, with the player who sent it.
#[derive(Debug, PartialEq, Eq)]
pub struct GameIncomingMessage {
    pub player_id: String,
    pub message: ClientMessage,
}

/// What a [`GameIncomingMessage`] holds, as mathematical values.
pub struct GameIncomingMessageView {
    pub player_id: Seq<char>,
    pub message: ClientMessageView,
}

impl View for GameIncomingMessage {
    type V = GameIncomingMessageView;

    open spec fn view(&self) -> GameIncomingMessageView {
        GameIncomingMessageView { player_id: self.player_id@, message: self.message@ }
    }
}

impl Clone for GameIncomingMessage {
    fn clone(&self) -> (r: GameIncomingMessage)
        ensures
            r@ == self@,
    {
        GameIncomingMessage { player_id: self.player_id.clone(), message: self.message.clone() }
    }
}

} // verus!
