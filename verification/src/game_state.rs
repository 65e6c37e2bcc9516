//! The data of one game: headings, snakes and the three phases of a game,
//! each with the mathematical value that the contracts speak of.

use vstd::prelude::*;
use crate::power_ups::{Purchases, PurchasesView};
use crate::server_message::{ReadyStatus, ReadyStatusView};

verus! {

/// One of the four headings on the board.
#[derive(Clone, Copy, Debug, PartialEq, Eq, Structural)]
pub enum Direction {
    Up,
    Down,
    Left,
    Right,
}

impl Direction {
    /// The heading that points the other way.
    pub open spec fn spec_opposite(&self) -> Direction {
        match self {
            Direction::Up => Direction::Down,
            Direction::Down => Direction::Up,
            Direction::Left => Direction::Right,
            Direction::Right => Direction::Left,
        }
    }

    /// Returns the heading that points the other way.
    #[verifier::when_used_as_spec(spec_opposite)]
    pub fn opposite(&self) -> (r: Direction)
        ensures
            r == self.spec_opposite(),
    {
        match self {
            Direction::Up => Direction::Down,
            Direction::Down => Direction::Up,
            Direction::Left => Direction::Right,
            Direction::Right => Direction::Left,
        }
    }
}

/// Turning round twice gives the heading one started with, and turning round
/// once never gives it.
pub proof fn opposite_is_involution(d: Direction)
    ensures
        d.opposite().opposite() == d,
        d.opposite() != d,
{
}

/// The views of the items of a sequence, in the same order.
pub open spec fn views<T: View>(items: Seq<T>) -> Seq<T::V> {
    items.map_values(|item: T| item@)
}

/// A copy of a list whose items copy faithfully.
pub fn clone_items<T: Clone + View>(items: &Vec<T>) -> (r: Vec<T>)
    requires
        forall|a: T, b: T| cloned::<T>(a, b) ==> a@ == b@,
    ensures
        views(r@) == views(items@),
{
    let mut copy: Vec<T> = Vec::new();
    let mut i: usize = 0;
    while i < items.len()
        invariant
            i <= items.len(),
            forall|a: T, b: T| cloned::<T>(a, b) ==> a@ == b@,
            views(copy@) == views(items@.take(i as int)),
        decreases items.len() - i,
    {
        let ghost before = copy@;
        let item = items[i].clone();
        assert(cloned::<T>(items@[i as int], item));
        copy.push(item);
        assert(views(before).len() == i);
        assert forall|j: int| 0 <= j < copy@.len() implies views(copy@)[j] == views(
            items@.take(i + 1),
        )[j] by {
            if j < i {
                assert(views(before)[j] == views(items@.take(i as int))[j]);
            }
        }
        assert(views(copy@) =~= views(items@.take(i + 1)));
        i += 1;
    }
    assert(items@.take(i as int) =~= items@);
    copy
}

/// A copy of a list of plain values.
pub fn copy_items<T: Copy>(items: &Vec<T>) -> (r: Vec<T>)
    ensures
        r@ == items@,
{
    let mut copy: Vec<T> = Vec::new();
    let mut i: usize = 0;
    while i < items.len()
        invariant
            i <= items.len(),
            copy@ == items@.take(i as int),
        decreases items.len() - i,
    {
        copy.push(items[i]);
        assert(items@.take(i + 1) =~= items@.take(i as int).push(items@[i as int]));
        i += 1;
    }
    assert(items@.take(i as int) =~= items@);
    copy
}

/// A snake that is on the board.
#[derive(Debug, PartialEq, Eq)]
pub struct AliveSnake {
    pub user_id: String,
    pub head: (u32, u32),
    pub head_direction: Direction,
    /// The body from the head backwards: a heading and the number of cells
    /// that were laid while the snake moved that way.
    pub blocks: Vec<(Direction, u32)>,
    /// Ticks of invulnerability that are left, if any.
    pub invulnerable_for: Option<u64>,
    /// Ticks of freeze that are left, if any.
    pub frozen_for: Option<u64>,
    pub has_extra_life: bool,
}

/// What an [`AliveSnake`] holds, as mathematical values.
pub struct AliveSnakeView {
    pub user_id: Seq<char>,
    pub head: (u32, u32),
    pub head_direction: Direction,
    pub blocks: Seq<(Direction, u32)>,
    pub invulnerable_for: Option<u64>,
    pub frozen_for: Option<u64>,
    pub has_extra_life: bool,
}

impl View for AliveSnake {
    type V = AliveSnakeView;

    open spec fn view(&self) -> AliveSnakeView {
        AliveSnakeView {
            user_id: self.user_id@,
            head: self.head,
            head_direction: self.head_direction,
            blocks: self.blocks@,
            invulnerable_for: self.invulnerable_for,
            frozen_for: self.frozen_for,
            has_extra_life: self.has_extra_life,
        }
    }
}

impl Clone for AliveSnake {
    fn clone(&self) -> (r: AliveSnake)
        ensures
            r@ == self@,
    {
        AliveSnake {
            user_id: self.user_id.clone(),
            head: self.head,
            head_direction: self.head_direction,
            blocks: copy_items(&self.blocks),
            invulnerable_for: self.invulnerable_for,
            frozen_for: self.frozen_for,
            has_extra_life: self.has_extra_life,
        }
    }
}

/// A player's snake, on the board or off it.
#[derive(Debug, PartialEq, Eq)]
pub enum Snake {
    Alive(AliveSnake),
    /// `ticks_to_revive` counts down to `None`; a dead snake whose count has
    /// run out no longer keeps the game going.
    Dead { user_id: String, head: (u32, u32), ticks_to_revive: Option<u64> },
}

/// What a [`Snake`] holds, as mathematical values.
pub enum SnakeView {
    Alive(AliveSnakeView),
    Dead { user_id: Seq<char>, head: (u32, u32), ticks_to_revive: Option<u64> },
}

impl View for Snake {
    type V = SnakeView;

    open spec fn view(&self) -> SnakeView {
        match self {
            Snake::Alive(snake) => SnakeView::Alive(snake@),
            Snake::Dead { user_id, head, ticks_to_revive } => SnakeView::Dead {
                user_id: user_id@,
                head: *head,
                ticks_to_revive: *ticks_to_revive,
            },
        }
    }
}

impl Clone for Snake {
    fn clone(&self) -> (r: Snake)
        ensures
            r@ == self@,
    {
        match self {
            Snake::Alive(snake) => Snake::Alive(snake.clone()),
            Snake::Dead { user_id, head, ticks_to_revive } => Snake::Dead {
                user_id: user_id.clone(),
                head: *head,
                ticks_to_revive: *ticks_to_revive,
            },
        }
    }
}

impl SnakeView {
    /// The player that the snake belongs to.
    pub open spec fn user_id(self) -> Seq<char> {
        match self {
            SnakeView::Alive(snake) => snake.user_id,
            SnakeView::Dead { user_id, .. } => user_id,
        }
    }
}

impl Snake {
    /// The player that the snake belongs to.
    pub fn user_id(&self) -> (r: &String)
        ensures
            r@ == self@.user_id(),
    {
        match self {
            Snake::Alive(snake) => &snake.user_id,
            Snake::Dead { user_id, .. } => user_id,
        }
    }
}

/// The phase that a game is in, with what that phase keeps.
///
/// Each collection is keyed by player: no player occurs twice in it, and the
/// order of its entries is the order in which the players came in.
#[derive(Debug, PartialEq, Eq)]
pub enum GameState {
    /// The lobby: who has said to be ready.
    WaitingForPlayers { ready_status: Vec<ReadyStatus> },
    /// The game proper.
    Playing {
        snakes: Vec<Snake>,
        apples: Vec<(u32, u32)>,
        /// What each player has bought so far.
        purchases: Vec<Purchases>,
    },
    /// The end: nothing changes any more.
    GameOver { winner: String, purchases: Vec<Purchases> },
}

/// What a [`GameState`] holds, as mathematical values.
pub enum GameStateView {
    WaitingForPlayers { ready_status: Seq<ReadyStatusView> },
    Playing { snakes: Seq<SnakeView>, apples: Seq<(u32, u32)>, purchases: Seq<PurchasesView> },
    GameOver { winner: Seq<char>, purchases: Seq<PurchasesView> },
}

impl View for GameState {
    type V = GameStateView;

    open spec fn view(&self) -> GameStateView {
        match self {
            GameState::WaitingForPlayers { ready_status } => GameStateView::WaitingForPlayers {
                ready_status: views(ready_status@),
            },
            GameState::Playing { snakes, apples, purchases } => GameStateView::Playing {
                snakes: views(snakes@),
                apples: apples@,
                purchases: views(purchases@),
            },
            GameState::GameOver { winner, purchases } => GameStateView::GameOver {
                winner: winner@,
                purchases: views(purchases@),
            },
        }
    }
}

impl Clone for GameState {
    fn clone(&self) -> (r: GameState)
        ensures
            r@ == self@,
    {
        match self {
            GameState::WaitingForPlayers { ready_status } => GameState::WaitingForPlayers {
                ready_status: clone_items(ready_status),
            },
            GameState::Playing { snakes, apples, purchases } => GameState::Playing {
                snakes: clone_items(snakes),
                apples: copy_items(apples),
                purchases: clone_items(purchases),
            },
            GameState::GameOver { winner, purchases } => GameState::GameOver {
                winner: winner.clone(),
                purchases: clone_items(purchases),
            },
        }
    }
}

} // verus!
