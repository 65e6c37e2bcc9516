//! The events that the engine sends to the players.

use vstd::prelude::*;
use crate::game_state::{clone_items, copy_items, views, Direction, Snake, SnakeView};
use crate::power_ups::{PowerUps, PowerUpsView, Purchases, PurchasesView};

verus! {

/// A snake as the players see it.
#[derive(Debug, PartialEq, Eq)]
pub enum SentSnake {
    Alive {
        user_id: String,
        head: (u32, u32),
        head_direction: Direction,
        blocks: Vec<(Direction, u32)>,
        invulnerable: bool,
        frozen: bool,
        has_extra_life: bool,
    },
    Dead { user_id: String, revive_left: u64 },
}

/// What a [`SentSnake`] holds, as mathematical values.
pub enum SentSnakeView {
    Alive {
        user_id: Seq<char>,
        head: (u32, u32),
        head_direction: Direction,
        blocks: Seq<(Direction, u32)>,
        invulnerable: bool,
        frozen: bool,
        has_extra_life: bool,
    },
    Dead { user_id: Seq<char>, revive_left: u64 },
}

impl View for SentSnake {
    type V = SentSnakeView;

    open spec fn view(&self) -> SentSnakeView {
        match self {
            SentSnake::Alive {
                user_id,
                head,
                head_direction,
                blocks,
                invulnerable,
                frozen,
                has_extra_life,
            } => SentSnakeView::Alive {
                user_id: user_id@,
                head: *head,
                head_direction: *head_direction,
                blocks: blocks@,
                invulnerable: *invulnerable,
                frozen: *frozen,
                has_extra_life: *has_extra_life,
            },
            SentSnake::Dead { user_id, revive_left } => SentSnakeView::Dead {
                user_id: user_id@,
                revive_left: *revive_left,
            },
        }
    }
}

impl Clone for SentSnake {
    fn clone(&self) -> (r: SentSnake)
        ensures
            r@ == self@,
    {
        match self {
            SentSnake::Alive {
                user_id,
                head,
                head_direction,
                blocks,
                invulnerable,
                frozen,
                has_extra_life,
            } => SentSnake::Alive {
                user_id: user_id.clone(),
                head: *head,
                head_direction: *head_direction,
                blocks: copy_items(blocks),
                invulnerable: *invulnerable,
                frozen: *frozen,
                has_extra_life: *has_extra_life,
            },
            SentSnake::Dead { user_id, revive_left } => SentSnake::Dead {
                user_id: user_id.clone(),
                revive_left: *revive_left,
            },
        }
    }
}

/// What the players see of a snake: of a living one everything but the length
/// of its timers, of a dead one only the ticks until it may be revived.
pub open spec fn sent_snake(snake: SnakeView) -> SentSnakeView {
    match snake {
        SnakeView::Alive(alive) => SentSnakeView::Alive {
            user_id: alive.user_id,
            head: alive.head,
            head_direction: alive.head_direction,
            blocks: alive.blocks,
            invulnerable: alive.invulnerable_for is Some,
            frozen: alive.frozen_for is Some,
            has_extra_life: alive.has_extra_life,
        },
        SnakeView::Dead { user_id, ticks_to_revive, .. } => SentSnakeView::Dead {
            user_id,
            revive_left: match ticks_to_revive {
                Some(ticks) => ticks,
                None => 0,
            },
        },
    }
}

impl<'a> From<&'a Snake> for SentSnake {
    /// What the players see of `snake`.
    fn from(snake: &'a Snake) -> (r: SentSnake)
        ensures
            r@ == sent_snake(snake@),
    {
        match snake {
            Snake::Alive(alive) => SentSnake::Alive {
                user_id: alive.user_id.clone(),
                head: alive.head,
                head_direction: alive.head_direction,
                blocks: copy_items(&alive.blocks),
                invulnerable: alive.invulnerable_for.is_some(),
                frozen: alive.frozen_for.is_some(),
                has_extra_life: alive.has_extra_life,
            },
            Snake::Dead { user_id, ticks_to_revive, .. } => SentSnake::Dead {
                user_id: user_id.clone(),
                revive_left: match ticks_to_revive {
                    Some(ticks) => *ticks,
                    None => 0,
                },
            },
        }
    }
}

impl<'a> vstd::std_specs::convert::FromSpecImpl<&'a Snake> for SentSnake {
    /// The conversion is pinned down by the view of its result, in the
    /// contract of `from`, not by a value of this type.
    open spec fn obeys_from_spec() -> bool {
        false
    }

    open spec fn from_spec(snake: &'a Snake) -> SentSnake {
        arbitrary()
    }
}

/// Whether a player has said to be ready.
#[derive(Debug, PartialEq, Eq)]
pub struct ReadyStatus {
    pub user_id: String,
    pub ready: bool,
}

/// What a [`ReadyStatus`] holds, as mathematical values.
pub struct ReadyStatusView {
    pub user_id: Seq<char>,
    pub ready: bool,
}

impl View for ReadyStatus {
    type V = ReadyStatusView;

    open spec fn view(&self) -> ReadyStatusView {
        ReadyStatusView { user_id: self.user_id@, ready: self.ready }
    }
}

impl Clone for ReadyStatus {
    fn clone(&self) -> (r: ReadyStatus)
        ensures
            r@ == self@,
    {
        ReadyStatus { user_id: self.user_id.clone(), ready: self.ready }
    }
}

/// A power-up that took effect, and who bought it.
#[derive(Debug, PartialEq, Eq)]
pub struct RecentPowerUp {
    pub user_id: String,
    pub power_up: PowerUps,
}

/// What a [`RecentPowerUp`] holds, as mathematical values.
pub struct RecentPowerUpView {
    pub user_id: Seq<char>,
    pub power_up: PowerUpsView,
}

impl View for RecentPowerUp {
    type V = RecentPowerUpView;

    open spec fn view(&self) -> RecentPowerUpView {
        RecentPowerUpView { user_id: self.user_id@, power_up: self.power_up@ }
    }
}

impl Clone for RecentPowerUp {
    fn clone(&self) -> (r: RecentPowerUp)
        ensures
            r@ == self@,
    {
        RecentPowerUp { user_id: self.user_id.clone(), power_up: self.power_up.clone() }
    }
}

/// An event for the players of a game.
#[derive(Debug, PartialEq, Eq)]
pub enum ServerMessage {
    Authenticated,
    ReadyStatus { status: Vec<ReadyStatus> },
    StartGame,
    GameOver { winner: String, purchases: Vec<Purchases> },
    GameState {
        apples: Vec<(u32, u32)>,
        snakes: Vec<SentSnake>,
        just_ate_apple: Vec<String>,
        recent_power_ups: Vec<RecentPowerUp>,
    },
}

/// What a [`ServerMessage`] holds, as mathematical values.
pub enum ServerMessageView {
    Authenticated,
    ReadyStatus { status: Seq<ReadyStatusView> },
    StartGame,
    GameOver { winner: Seq<char>, purchases: Seq<PurchasesView> },
    GameState {
        apples: Seq<(u32, u32)>,
        snakes: Seq<SentSnakeView>,
        just_ate_apple: Seq<Seq<char>>,
        recent_power_ups: Seq<RecentPowerUpView>,
    },
}

impl View for ServerMessage {
    type V = ServerMessageView;

    open spec fn view(&self) -> ServerMessageView {
        match self {
            ServerMessage::Authenticated => ServerMessageView::Authenticated,
            ServerMessage::ReadyStatus { status } => ServerMessageView::ReadyStatus {
                status: views(status@),
            },
            ServerMessage::StartGame => ServerMessageView::StartGame,
            ServerMessage::GameOver { winner, purchases } => ServerMessageView::GameOver {
                winner: winner@,
                purchases: views(purchases@),
            },
            ServerMessage::GameState { apples, snakes, just_ate_apple, recent_power_ups } =>
                ServerMessageView::GameState {
                apples: apples@,
                snakes: views(snakes@),
                just_ate_apple: views(just_ate_apple@),
                recent_power_ups: views(recent_power_ups@),
            },
        }
    }
}

impl Clone for ServerMessage {
    fn clone(&self) -> (r: ServerMessage)
        ensures
            r@ == self@,
    {
        match self {
            ServerMessage::Authenticated => ServerMessage::Authenticated,
            ServerMessage::ReadyStatus { status } => ServerMessage::ReadyStatus {
                status: clone_items(status),
            },
            ServerMessage::StartGame => ServerMessage::StartGame,
            ServerMessage::GameOver { winner, purchases } => ServerMessage::GameOver {
                winner: winner.clone(),
                purchases: clone_items(purchases),
            },
            ServerMessage::GameState { apples, snakes, just_ate_apple, recent_power_ups } =>
                ServerMessage::GameState {
                apples: copy_items(apples),
                snakes: clone_items(snakes),
                just_ate_apple: clone_items(just_ate_apple),
                recent_power_ups: clone_items(recent_power_ups),
            },
        }
    }
}

} // verus!
