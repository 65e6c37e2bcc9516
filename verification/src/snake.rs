//! What can happen to a snake: it turns, moves, grows, shrinks, is struck,
//! revived, and its timers run down.

use vstd::prelude::*;
use vstd::arithmetic::div_mod::{lemma_mod_add_multiples_vanish, lemma_small_mod};
use crate::config::{GameConfig, INITIAL_LENGTH, SHRINK_FLOOR};
use crate::game_state::{AliveSnake, AliveSnakeView, Direction, Snake, SnakeView};
use crate::overlap_detector::{body_covers, body_length, cell_behind, lemma_covers_concat,
    lemma_run_shift, lemma_single_run, run_cell};

verus! {

/// A body that a snake can have: at least one run, no empty run, no two
/// neighbouring runs with the same heading, and a length that fits in `u32`.
pub open spec fn blocks_wf(blocks: Seq<(Direction, u32)>) -> bool {
    &&& blocks.len() >= 1
    &&& forall|i: int| 0 <= i < blocks.len() ==> (#[trigger] blocks[i]).1 >= 1
    &&& forall|i: int| 0 <= i < blocks.len() - 1 ==> (#[trigger] blocks[i]).0 != blocks[i + 1].0
    &&& body_length(blocks) <= u32::MAX
}

/// The body after one cell has left its tail.
pub open spec fn trim_tail(blocks: Seq<(Direction, u32)>) -> Seq<(Direction, u32)> {
    if blocks.last().1 <= 1 {
        blocks.drop_last()
    } else {
        blocks.update(blocks.len() - 1, (blocks.last().0, (blocks.last().1 - 1) as u32))
    }
}

/// The body after one step with the given heading: a cell joins at the head,
/// in a run of its own if the heading has changed, and a cell leaves the tail.
pub open spec fn advanced_blocks(blocks: Seq<(Direction, u32)>, heading: Direction) -> Seq<
    (Direction, u32),
> {
    if blocks[0].0 != heading {
        trim_tail(seq![(heading, 1u32)] + blocks)
    } else if blocks.len() == 1 {
        blocks
    } else {
        trim_tail(blocks.update(0, (heading, (blocks[0].1 + 1) as u32)))
    }
}

/// The body after `amount` cells were taken from its tail: whole runs go
/// first; the run at the head is never removed, only trimmed, and not below
/// the floor.
pub open spec fn shrunk_blocks(blocks: Seq<(Direction, u32)>, amount: nat) -> Seq<
    (Direction, u32),
>
    decreases blocks.len(),
{
    if amount == 0 || blocks.len() == 0 {
        blocks
    } else if blocks.len() == 1 {
        seq![
            (
                blocks[0].0,
                if blocks[0].1 - amount > SHRINK_FLOOR {
                    (blocks[0].1 - amount) as u32
                } else {
                    SHRINK_FLOOR
                },
            ),
        ]
    } else if blocks.last().1 <= amount {
        shrunk_blocks(blocks.drop_last(), (amount - blocks.last().1) as nat)
    } else {
        blocks.update(blocks.len() - 1, (blocks.last().0, (blocks.last().1 - amount) as u32))
    }
}

/// The cell that a head reaches by one step on a board that wraps round.
pub open spec fn advanced_head(
    head: (u32, u32),
    heading: Direction,
    cfg: GameConfig) -> (u32, u32,
) {
    match heading {
        Direction::Up => (
            head.0,
            ((head.1 + cfg.board_height - 1) % (cfg.board_height as int)) as u32,
        ),
        Direction::Down => (head.0, ((head.1 + 1) % (cfg.board_height as int)) as u32),
        Direction::Left => (
            ((head.0 + cfg.board_width - 1) % (cfg.board_width as int)) as u32,
            head.1,
        ),
        Direction::Right => (((head.0 + 1) % (cfg.board_width as int)) as u32, head.1),
    }
}

/// A timer after one tick: it counts down to zero and is cleared on the
/// tick after that.
pub open spec fn ticked_down(timer: Option<u64>) -> Option<u64> {
    match timer {
        Some(left) => if left > 0 {
            Some((left - 1) as u64)
        } else {
            None
        },
        None => None,
    }
}

impl AliveSnakeView {
    /// A snake that the engine can work on: its body is well formed and its
    /// head is on the board.
    pub open spec fn wf(self, cfg: GameConfig) -> bool {
        &&& blocks_wf(self.blocks)
        &&& self.head.0 < cfg.board_width
        &&& self.head.1 < cfg.board_height
    }

    /// The number of cells of the snake.
    pub open spec fn length(self) -> nat {
        body_length(self.blocks)
    }

    /// The snake after a command to head for `direction`: the command counts
    /// unless it asks for the present heading or for its opposite.
    pub open spec fn turned(self, direction: Direction) -> AliveSnakeView {
        if self.head_direction != direction && self.head_direction.opposite() != direction {
            AliveSnakeView { head_direction: direction, ..self }
        } else {
            self
        }
    }

    /// The snake with `amount` more cells at its tail.
    pub open spec fn grown(self, amount: u32) -> AliveSnakeView {
        AliveSnakeView {
            blocks: self.blocks.update(
                self.blocks.len() - 1,
                (self.blocks.last().0, (self.blocks.last().1 + amount) as u32),
            ),
            ..self
        }
    }

    /// The snake with `amount` cells taken from its tail.
    pub open spec fn shrunk(self, amount: u32) -> AliveSnakeView {
        AliveSnakeView { blocks: shrunk_blocks(self.blocks, amount as nat), ..self }
    }

    /// The snake after one tick of movement: a frozen snake stays, any other
    /// moves one cell in its heading.
    pub open spec fn advanced(self, cfg: GameConfig) -> AliveSnakeView {
        if self.frozen_for is Some {
            self
        } else {
            AliveSnakeView {
                head: advanced_head(self.head, self.head_direction, cfg),
                blocks: advanced_blocks(self.blocks, self.head_direction),
                ..self
            }
        }
    }

    /// The snake after its timers have run for one tick.
    pub open spec fn decayed(self) -> AliveSnakeView {
        AliveSnakeView {
            invulnerable_for: ticked_down(self.invulnerable_for),
            frozen_for: ticked_down(self.frozen_for),
            ..self
        }
    }

    /// The snake after another snake was found under its head: an extra life
    /// is spent for a time of invulnerability, and without one the snake dies.
    pub open spec fn struck(self, cfg: GameConfig) -> SnakeView {
        if self.has_extra_life {
            SnakeView::Alive(
                AliveSnakeView {
                    has_extra_life: false,
                    invulnerable_for: Some(cfg.effect_ticks()),
                    ..self
                },
            )
        } else {
            SnakeView::Dead {
                user_id: self.user_id,
                head: self.head,
                ticks_to_revive: Some(cfg.revive_ticks),
            }
        }
    }

    /// The snake that a player gets back from a revival: at the board centre,
    /// heading up, invulnerable for a while.
    pub open spec fn revived(user_id: Seq<char>, cfg: GameConfig) -> AliveSnakeView {
        AliveSnakeView {
            user_id,
            head: cfg.centre(),
            head_direction: Direction::Up,
            blocks: seq![(Direction::Down, INITIAL_LENGTH)],
            invulnerable_for: Some(cfg.effect_ticks()),
            frozen_for: None,
            has_extra_life: false,
        }
    }
}

impl SnakeView {
    /// A snake that the engine can work on.
    pub open spec fn wf(self, cfg: GameConfig) -> bool {
        match self {
            SnakeView::Alive(snake) => snake.wf(cfg),
            SnakeView::Dead { .. } => true,
        }
    }

    /// The snake after its timers have run for one tick.
    pub open spec fn decayed(self) -> SnakeView {
        match self {
            SnakeView::Alive(snake) => SnakeView::Alive(snake.decayed()),
            SnakeView::Dead { user_id, head, ticks_to_revive } => SnakeView::Dead {
                user_id,
                head,
                ticks_to_revive: ticked_down(ticks_to_revive),
            },
        }
    }

    /// The snake after one tick of movement.
    pub open spec fn advanced(self, cfg: GameConfig) -> SnakeView {
        match self {
            SnakeView::Alive(snake) => SnakeView::Alive(snake.advanced(cfg)),
            SnakeView::Dead { .. } => self,
        }
    }

    /// Whether the snake keeps the game going: it is alive, or dead with its
    /// countdown still running.
    pub open spec fn in_play(self) -> bool {
        match self {
            SnakeView::Alive(_) => true,
            SnakeView::Dead { ticks_to_revive, .. } => ticks_to_revive is Some,
        }
    }
}

/// A run added at the end adds its length.
pub proof fn lemma_body_length_push(blocks: Seq<(Direction, u32)>, run: (Direction, u32))
    ensures
        body_length(blocks.push(run)) == body_length(blocks) + run.1,
{
    assert(blocks.push(run).drop_last() =~= blocks);
}

/// A run added at the front adds its length.
pub proof fn lemma_body_length_prepend(run: (Direction, u32), blocks: Seq<(Direction, u32)>)
    ensures
        body_length(seq![run] + blocks) == body_length(blocks) + run.1,
    decreases blocks.len(),
{
    if blocks.len() == 0 {
        assert(seq![run] + blocks =~= Seq::<(Direction, u32)>::empty().push(run));
        lemma_body_length_push(Seq::<(Direction, u32)>::empty(), run);
    } else {
        lemma_body_length_prepend(run, blocks.drop_last());
        assert((seq![run] + blocks).drop_last() =~= seq![run] + blocks.drop_last());
    }
}

/// A run that is replaced changes the length by the difference.
pub proof fn lemma_body_length_update(blocks: Seq<(Direction, u32)>, i: int, run: (Direction, u32))
    requires
        0 <= i < blocks.len(),
    ensures
        body_length(blocks.update(i, run)) == body_length(blocks) - blocks[i].1 + run.1,
    decreases blocks.len(),
{
    if i == blocks.len() - 1 {
        assert(blocks.update(i, run).drop_last() =~= blocks.drop_last());
    } else {
        lemma_body_length_update(blocks.drop_last(), i, run);
        assert(blocks.update(i, run).drop_last() =~= blocks.drop_last().update(i, run));
    }
}

/// A body without empty runs has at least as many cells as runs, and the
/// runs other than run `i` have at least one cell each.
pub proof fn lemma_body_length_least(blocks: Seq<(Direction, u32)>, i: int)
    requires
        0 <= i < blocks.len(),
        forall|j: int| 0 <= j < blocks.len() ==> (#[trigger] blocks[j]).1 >= 1,
    ensures
        body_length(blocks) >= blocks[i].1 + blocks.len() - 1,
    decreases blocks.len(),
{
    if i == blocks.len() - 1 {
        if blocks.len() > 1 {
            lemma_body_length_least(blocks.drop_last(), 0);
        }
    } else {
        lemma_body_length_least(blocks.drop_last(), i);
    }
}

/// The length of a body after shrinking: while the runs behind the head run
/// can pay, exactly `amount` cells go; once the head run has to pay, what is
/// left is the rest or the floor, whichever is more.
pub proof fn lemma_shrunk_length(blocks: Seq<(Direction, u32)>, amount: nat)
    requires
        blocks_wf(blocks),
    ensures
        blocks_wf(shrunk_blocks(blocks, amount)),
        shrunk_blocks(blocks, amount)[0].0 == blocks[0].0,
        amount <= body_length(blocks) - blocks[0].1 ==> body_length(shrunk_blocks(blocks, amount))
            == body_length(blocks) - amount,
        amount > body_length(blocks) - blocks[0].1 ==> body_length(shrunk_blocks(blocks, amount))
            == (if body_length(blocks) - amount > SHRINK_FLOOR {
            body_length(blocks) - amount
        } else {
            SHRINK_FLOOR as int
        }),
    decreases blocks.len(),
{
    let last = blocks.len() - 1;
    lemma_body_length_least(blocks, 0);
    if amount == 0 {
    } else if blocks.len() == 1 {
        let run = shrunk_blocks(blocks, amount)[0];
        assert(blocks.drop_last() =~= Seq::<(Direction, u32)>::empty());
        assert(body_length(blocks.drop_last()) == 0);
        assert(body_length(blocks) == blocks[0].1);
        lemma_body_length_push(Seq::<(Direction, u32)>::empty(), run);
        assert(body_length(Seq::<(Direction, u32)>::empty()) == 0);
        assert(shrunk_blocks(blocks, amount) =~= Seq::<(Direction, u32)>::empty().push(run));
    } else if blocks.last().1 <= amount {
        let rest = blocks.drop_last();
        assert(blocks_wf(rest)) by {
            assert forall|i: int| 0 <= i < rest.len() implies (#[trigger] rest[i]).1 >= 1 by {
                assert(rest[i] == blocks[i]);
            }
            assert forall|i: int| 0 <= i < rest.len() - 1 implies (#[trigger] rest[i]).0
                != rest[i + 1].0 by {
                assert(rest[i] == blocks[i]);
                assert(rest[i + 1] == blocks[i + 1]);
            }
        }
        assert(rest[0] == blocks[0]);
        lemma_shrunk_length(rest, (amount - blocks.last().1) as nat);
    } else {
        let run = (blocks.last().0, (blocks.last().1 - amount) as u32);
        lemma_body_length_update(blocks, last, run);
        lemma_body_length_least(blocks.drop_last(), 0);
        let after = blocks.update(last, run);
        assert forall|i: int| 0 <= i < after.len() - 1 implies (#[trigger] after[i]).0 != after[i
            + 1].0 by {
            assert(after[i].0 == blocks[i].0);
            assert(after[i + 1].0 == blocks[i + 1].0);
        }
    }
}

/// A step keeps the body well formed and its length as it was.
pub proof fn lemma_advanced_length(blocks: Seq<(Direction, u32)>, heading: Direction)
    requires
        blocks_wf(blocks),
    ensures
        blocks_wf(advanced_blocks(blocks, heading)),
        body_length(advanced_blocks(blocks, heading)) == body_length(blocks),
        advanced_blocks(blocks, heading)[0].0 == heading,
{
    let last = blocks.len() - 1;
    if blocks[0].0 != heading {
        let longer = seq![(heading, 1u32)] + blocks;
        lemma_body_length_prepend((heading, 1u32), blocks);
        lemma_trim_tail(longer);
    } else if blocks.len() == 1 {
    } else {
        lemma_body_length_least(blocks, 0);
        let run = (heading, (blocks[0].1 + 1) as u32);
        let longer = blocks.update(0, run);
        lemma_body_length_update(blocks, 0, run);
        assert forall|i: int| 0 <= i < longer.len() - 1 implies (#[trigger] longer[i]).0
            != longer[i + 1].0 by {
            assert(longer[i].0 == blocks[i].0);
            assert(longer[i + 1].0 == blocks[i + 1].0);
        }
        lemma_trim_tail(longer);
    }
}

/// Taking the last cell off a body of two cells or more keeps it well formed
/// but for the bound on its length, which may have been one too many.
pub proof fn lemma_trim_tail(blocks: Seq<(Direction, u32)>)
    requires
        blocks.len() >= 2,
        forall|i: int| 0 <= i < blocks.len() ==> (#[trigger] blocks[i]).1 >= 1,
        forall|i: int| 0 <= i < blocks.len() - 1 ==> (#[trigger] blocks[i]).0 != blocks[i + 1].0,
        body_length(blocks) <= u32::MAX + 1,
    ensures
        blocks_wf(trim_tail(blocks)),
        body_length(trim_tail(blocks)) == body_length(blocks) - 1,
        trim_tail(blocks)[0] == blocks[0],
{
    let last = blocks.len() - 1;
    let after = trim_tail(blocks);
    assert(blocks[last].1 >= 1);
    if blocks.last().1 <= 1 {
        assert forall|i: int| 0 <= i < after.len() implies (#[trigger] after[i]).1 >= 1 by {
            assert(after[i] == blocks[i]);
        }
        assert forall|i: int| 0 <= i < after.len() - 1 implies (#[trigger] after[i]).0 != after[i
            + 1].0 by {
            assert(after[i] == blocks[i]);
            assert(after[i + 1] == blocks[i + 1]);
        }
    } else {
        lemma_body_length_update(blocks, last, (blocks.last().0, (blocks.last().1 - 1) as u32));
        assert forall|i: int| 0 <= i < after.len() - 1 implies (#[trigger] after[i]).0 != after[i
            + 1].0 by {
            assert(after[i].0 == blocks[i].0);
            assert(after[i + 1].0 == blocks[i + 1].0);
        }
    }
}

/// Counts a timer down by one tick.
pub fn tick_down(timer: Option<u64>) -> (r: Option<u64>)
    ensures
        r == ticked_down(timer),
{
    match timer {
        Some(left) => if left > 0 {
            Some(left - 1)
        } else {
            None
        },
        None => None,
    }
}

/// Moves a head one cell on a board that wraps round.
pub fn advance_head(head: (u32, u32), heading: Direction, cfg: &GameConfig) -> (r: (u32, u32))
    requires
        cfg.wf(),
        head.0 < cfg.board_width,
        head.1 < cfg.board_height,
    ensures
        r == advanced_head(head, heading, *cfg),
        r.0 < cfg.board_width,
        r.1 < cfg.board_height,
{
    let width = cfg.board_width;
    let height = cfg.board_height;
    proof {
        let w = width as int;
        let h = height as int;
        if head.0 == 0 {
            lemma_small_mod((w - 1) as nat, w as nat);
        } else {
            lemma_mod_add_multiples_vanish(head.0 - 1, w);
            lemma_small_mod((head.0 - 1) as nat, w as nat);
        }
        if head.0 + 1 == w {
            lemma_mod_add_multiples_vanish(0, w);
            lemma_small_mod(0, w as nat);
        } else {
            lemma_small_mod((head.0 + 1) as nat, w as nat);
        }
        if head.1 == 0 {
            lemma_small_mod((h - 1) as nat, h as nat);
        } else {
            lemma_mod_add_multiples_vanish(head.1 - 1, h);
            lemma_small_mod((head.1 - 1) as nat, h as nat);
        }
        if head.1 + 1 == h {
            lemma_mod_add_multiples_vanish(0, h);
            lemma_small_mod(0, h as nat);
        } else {
            lemma_small_mod((head.1 + 1) as nat, h as nat);
        }
    }
    match heading {
        Direction::Up => (head.0, if head.1 == 0 { height - 1 } else { head.1 - 1 }),
        Direction::Down => (head.0, if head.1 == height - 1 { 0 } else { head.1 + 1 }),
        Direction::Left => (if head.0 == 0 { width - 1 } else { head.0 - 1 }, head.1),
        Direction::Right => (if head.0 == width - 1 { 0 } else { head.0 + 1 }, head.1),
    }
}

impl AliveSnake {
    /// Takes a command to head for `direction`. A command for the present
    /// heading or for its opposite changes nothing.
    pub fn set_direction(&mut self, direction: Direction)
        ensures
            final(self)@ == old(self)@.turned(direction),
            direction == old(self)@.head_direction.opposite() ==> final(self)@ == old(self)@,
    {
        if self.head_direction != direction && self.head_direction.opposite() != direction {
            self.head_direction = direction;
        }
    }

    /// Adds `amount` cells to the tail.
    pub fn grow(&mut self, amount: u32)
        requires
            old(self)@.blocks.len() > 0,
            old(self)@.blocks.last().1 + amount <= u32::MAX,
        ensures
            final(self)@ == old(self)@.grown(amount),
            final(self)@.length() == old(self)@.length() + amount,
            blocks_wf(old(self)@.blocks) && old(self)@.length() + amount <= u32::MAX ==> blocks_wf(
                final(self)@.blocks,
            ),
    {
        let last = self.blocks.len() - 1;
        proof {
            let before = self@.blocks;
            let run = (before.last().0, (before.last().1 + amount) as u32);
            lemma_body_length_update(before, last as int, run);
            let after = before.update(last as int, run);
            if blocks_wf(before) {
                assert forall|i: int| 0 <= i < after.len() - 1 implies (#[trigger] after[i]).0
                    != after[i + 1].0 by {
                    assert(after[i].0 == before[i].0);
                    assert(after[i + 1].0 == before[i + 1].0);
                }
            }
        }
        self.blocks[last].1 += amount;
        assert(self@.blocks =~= old(self)@.grown(amount).blocks);
    }

    /// Takes up to `amount` cells from the tail: whole runs first, and from
    /// the run at the head only down to the floor.
    pub fn shrink(&mut self, amount: u32)
        ensures
            final(self)@ == old(self)@.shrunk(amount),
            blocks_wf(old(self)@.blocks) ==> blocks_wf(final(self)@.blocks),
    {
        proof {
            if blocks_wf(self@.blocks) {
                lemma_shrunk_length(self@.blocks, amount as nat);
            }
        }
        let mut left = amount;
        while left > 0 && self.blocks.len() > 1
            invariant
                self.user_id == old(self).user_id,
                self.head == old(self).head,
                self.head_direction == old(self).head_direction,
                self.invulnerable_for == old(self).invulnerable_for,
                self.frozen_for == old(self).frozen_for,
                self.has_extra_life == old(self).has_extra_life,
                shrunk_blocks(self.blocks@, left as nat) == shrunk_blocks(
                    old(self).blocks@,
                    amount as nat,
                ),
            decreases self.blocks.len() + left,
        {
            let last = self.blocks.len() - 1;
            if self.blocks[last].1 <= left {
                left -= self.blocks[last].1;
                self.blocks.pop();
            } else {
                let ghost before = self.blocks@;
                self.blocks[last].1 -= left;
                assert(self.blocks@ =~= shrunk_blocks(before, left as nat));
                left = 0;
            }
        }
        if left > 0 && self.blocks.len() == 1 {
            let ghost before = self.blocks@;
            let first = self.blocks[0].1;
            self.blocks[0].1 = if first > left && first - left > SHRINK_FLOOR {
                first - left
            } else {
                SHRINK_FLOOR
            };
            assert(self.blocks@ =~= shrunk_blocks(before, left as nat));
        }
    }

    /// Moves the snake one cell in its heading, unless it is frozen.
    pub fn advance(&mut self, cfg: &GameConfig)
        requires
            cfg.wf(),
            old(self)@.wf(*cfg),
        ensures
            final(self)@ == old(self)@.advanced(*cfg),
            final(self)@.wf(*cfg),
            final(self)@.length() == old(self)@.length(),
    {
        if self.frozen_for.is_some() {
            return ;
        }
        proof {
            lemma_advanced_length(self@.blocks, self.head_direction);
            lemma_body_length_least(self@.blocks, 0);
        }
        let ghost before = self.blocks@;
        self.head = advance_head(self.head, self.head_direction, cfg);
        if self.blocks[0].0 != self.head_direction {
            self.blocks.insert(0, (self.head_direction, 1));
            assert(self.blocks@ =~= seq![(self.head_direction, 1u32)] + before);
        } else if self.blocks.len() == 1 {
            return ;
        } else {
            self.blocks[0].1 += 1;
            assert(self.blocks@ =~= before.update(
                0,
                (self.head_direction, (before[0].1 + 1) as u32),
            ));
        }
        let ghost longer = self.blocks@;
        let last = self.blocks.len() - 1;
        if self.blocks[last].1 <= 1 {
            self.blocks.pop();
        } else {
            self.blocks[last].1 -= 1;
        }
        assert(self.blocks@ =~= trim_tail(longer));
    }

    /// Lets the timers run for one tick.
    pub fn decay(&mut self)
        ensures
            final(self)@ == old(self)@.decayed(),
    {
        self.invulnerable_for = tick_down(self.invulnerable_for);
        self.frozen_for = tick_down(self.frozen_for);
    }

    /// The number of cells of the snake, or `None` if it does not fit in
    /// `u32`.
    pub fn length(&self) -> (r: Option<u32>)
        ensures
            match r {
                Some(length) => length == self@.length(),
                None => self@.length() > u32::MAX,
            },
    {
        let mut total: u32 = 0;
        let mut i: usize = 0;
        while i < self.blocks.len()
            invariant
                i <= self.blocks.len(),
                total == body_length(self.blocks@.take(i as int)),
            decreases self.blocks.len() - i,
        {
            assert(self.blocks@.take(i + 1).drop_last() =~= self.blocks@.take(i as int));
            if self.blocks[i].1 > u32::MAX - total {
                proof {
                    lemma_body_length_prefix(self.blocks@, i + 1);
                }
                return None;
            }
            total += self.blocks[i].1;
            i += 1;
        }
        assert(self.blocks@.take(i as int) =~= self.blocks@);
        Some(total)
    }

    /// Tells whether the engine can work on the snake.
    pub fn is_well_formed(&self, cfg: &GameConfig) -> (r: bool)
        ensures
            r == self@.wf(*cfg),
    {
        if self.blocks.len() == 0 || self.head.0 >= cfg.board_width || self.head.1
            >= cfg.board_height {
            return false;
        }
        if self.length().is_none() {
            return false;
        }
        let mut i: usize = 0;
        while i < self.blocks.len()
            invariant
                i <= self.blocks.len(),
                forall|j: int| 0 <= j < i ==> (#[trigger] self.blocks@[j]).1 >= 1,
                forall|j: int|
                    0 <= j < i && j < self.blocks.len() - 1 ==> (#[trigger] self.blocks@[j]).0
                        != self.blocks@[j + 1].0,
            decreases self.blocks.len() - i,
        {
            if self.blocks[i].1 == 0 {
                return false;
            }
            if i + 1 < self.blocks.len() && self.blocks[i].0 == self.blocks[i + 1].0 {
                return false;
            }
            i += 1;
        }
        true
    }
}

/// A body is at least as long as each of its beginnings.
pub proof fn lemma_body_length_prefix(blocks: Seq<(Direction, u32)>, n: int)
    requires
        0 <= n <= blocks.len(),
    ensures
        body_length(blocks.take(n)) <= body_length(blocks),
    decreases blocks.len(),
{
    if n == blocks.len() {
        assert(blocks.take(n) =~= blocks);
    } else {
        lemma_body_length_prefix(blocks.drop_last(), n);
        assert(blocks.drop_last().take(n) =~= blocks.take(n));
    }
}

impl Snake {
    /// The snake that a player gets back from a revival.
    pub fn revived(user_id: String, cfg: &GameConfig) -> (r: Snake)
        requires
            cfg.wf(),
        ensures
            r@ == SnakeView::Alive(AliveSnakeView::revived(user_id@, *cfg)),
            r@.wf(*cfg),
            AliveSnakeView::revived(user_id@, *cfg).length() == INITIAL_LENGTH,
    {
        let mut blocks: Vec<(Direction, u32)> = Vec::new();
        blocks.push((Direction::Down, INITIAL_LENGTH));
        proof {
            assert(blocks@ =~= seq![(Direction::Down, INITIAL_LENGTH)]);
            assert(blocks@.drop_last() =~= Seq::<(Direction, u32)>::empty());
            assert(body_length(blocks@.drop_last()) == 0);
        }
        Snake::Alive(
            AliveSnake {
                user_id,
                head: (cfg.board_width / 2, cfg.board_height / 2),
                head_direction: Direction::Up,
                blocks,
                invulnerable_for: Some(cfg.effect_ticks()),
                frozen_for: None,
                has_extra_life: false,
            },
        )
    }

    /// Lets the timers run for one tick.
    pub fn decay(&mut self)
        ensures
            final(self)@ == old(self)@.decayed(),
    {
        match self {
            Snake::Alive(snake) => {
                snake.decay();
            },
            Snake::Dead { ticks_to_revive, .. } => {
                *ticks_to_revive = tick_down(*ticks_to_revive);
            },
        }
    }

    /// Moves the snake one cell in its heading if it is alive and not frozen.
    pub fn advance(&mut self, cfg: &GameConfig)
        requires
            cfg.wf(),
            old(self)@.wf(*cfg),
        ensures
            final(self)@ == old(self)@.advanced(*cfg),
            final(self)@.wf(*cfg),
    {
        match self {
            Snake::Alive(snake) => {
                snake.advance(cfg);
            },
            Snake::Dead { .. } => {},
        }
    }

    /// Tells whether the snake keeps the game going.
    pub fn in_play(&self) -> (r: bool)
        ensures
            r == self@.in_play(),
    {
        match self {
            Snake::Alive(_) => true,
            Snake::Dead { ticks_to_revive, .. } => ticks_to_revive.is_some(),
        }
    }

    /// Tells whether the engine can work on the snake.
    pub fn is_well_formed(&self, cfg: &GameConfig) -> (r: bool)
        ensures
            r == self@.wf(*cfg),
    {
        match self {
            Snake::Alive(snake) => snake.is_well_formed(cfg),
            Snake::Dead { .. } => true,
        }
    }
}

/// A step leaves a snake as long as it was.
pub proof fn advance_keeps_length(snake: AliveSnakeView, cfg: GameConfig)
    requires
        snake.wf(cfg),
    ensures
        snake.advanced(cfg).length() == snake.length(),
        blocks_wf(snake.advanced(cfg).blocks),
{
    lemma_advanced_length(snake.blocks, snake.head_direction);
}

/// Growth adds exactly the cells that were asked for.
pub proof fn growth_adds_length(snake: AliveSnakeView, amount: u32)
    requires
        snake.blocks.len() > 0,
        snake.blocks.last().1 + amount <= u32::MAX,
    ensures
        snake.grown(amount).length() == snake.length() + amount,
{
    lemma_body_length_update(
        snake.blocks,
        snake.blocks.len() - 1,
        (snake.blocks.last().0, (snake.blocks.last().1 + amount) as u32),
    );
}

/// Shrinking takes exactly the cells that were asked for as long as the
/// runs behind the head run hold that many. Beyond that the snake is left
/// with what remains of its length, and with no less than the floor.
pub proof fn shrink_takes_length(snake: AliveSnakeView, amount: u32)
    requires
        blocks_wf(snake.blocks),
    ensures
        blocks_wf(snake.shrunk(amount).blocks),
        amount <= snake.length() - snake.blocks[0].1 ==> snake.shrunk(amount).length()
            == snake.length() - amount,
        amount > snake.length() - snake.blocks[0].1 ==> snake.shrunk(amount).length()
            >= SHRINK_FLOOR && (snake.shrunk(amount).length() == snake.length() - amount
            || snake.shrunk(amount).length() == SHRINK_FLOOR),
{
    lemma_shrunk_length(snake.blocks, amount as nat);
}

/// A command to turn round on the spot is never taken: the snake is left as
/// it was.
pub proof fn reversal_is_rejected(snake: AliveSnakeView)
    ensures
        snake.turned(snake.head_direction.opposite()) == snake,
        snake.turned(snake.head_direction) == snake,
{
}

/// Turning and the running of timers leave the body as it was.
pub proof fn turn_and_decay_keep_body(snake: AliveSnakeView, direction: Direction)
    ensures
        snake.turned(direction).blocks == snake.blocks,
        snake.decayed().blocks == snake.blocks,
{
}

/// A step back undoes a step ahead, and a step ahead undoes a step back: the
/// cell behind a cell is the cell that a head with the opposite heading
/// would reach from it.
pub proof fn step_behind_undoes_advance(cell: (u32, u32), direction: Direction, cfg: GameConfig)
    requires
        cfg.wf(),
        cell.0 < cfg.board_width,
        cell.1 < cfg.board_height,
    ensures
        cell_behind(advanced_head(cell, direction, cfg), direction, cfg) == cell,
        advanced_head(cell_behind(cell, direction, cfg), direction, cfg) == cell,
        cell_behind(cell, direction, cfg) == advanced_head(cell, direction.opposite(), cfg),
{
    let w = cfg.board_width as int;
    let h = cfg.board_height as int;
    lemma_small_mod(cell.0 as nat, w as nat);
    lemma_small_mod(cell.1 as nat, h as nat);
    if cell.0 == 0 {
        lemma_small_mod((w - 1) as nat, w as nat);
        lemma_mod_add_multiples_vanish(0, w);
    } else {
        lemma_mod_add_multiples_vanish(cell.0 - 1, w);
        lemma_small_mod((cell.0 - 1) as nat, w as nat);
    }
    if cell.0 + 1 == w {
        lemma_mod_add_multiples_vanish(0, w);
        lemma_small_mod(0, w as nat);
        lemma_small_mod((w - 1) as nat, w as nat);
    } else {
        lemma_small_mod((cell.0 + 1) as nat, w as nat);
        lemma_mod_add_multiples_vanish(cell.0 as int, w);
    }
    if cell.1 == 0 {
        lemma_small_mod((h - 1) as nat, h as nat);
        lemma_mod_add_multiples_vanish(0, h);
    } else {
        lemma_mod_add_multiples_vanish(cell.1 - 1, h);
        lemma_small_mod((cell.1 - 1) as nat, h as nat);
    }
    if cell.1 + 1 == h {
        lemma_mod_add_multiples_vanish(0, h);
        lemma_small_mod(0, h as nat);
        lemma_small_mod((h - 1) as nat, h as nat);
    } else {
        lemma_small_mod((cell.1 + 1) as nat, h as nat);
        lemma_mod_add_multiples_vanish(cell.1 as int, h);
    }
}

/// A body with a new run of one cell in front of it, walked from the cell
/// ahead of its head, covers that cell and what the body covered.
pub proof fn lemma_covers_with_new_run(
    ahead: (u32, u32),
    head: (u32, u32),
    heading: Direction,
    blocks: Seq<(Direction, u32)>,
    point: (u32, u32),
    cfg: GameConfig,
)
    requires
        cell_behind(ahead, heading, cfg) == head,
    ensures
        body_covers(ahead, seq![(heading, 1u32)] + blocks, point, cfg) <==> point == ahead
            || body_covers(head, blocks, point, cfg),
{
    lemma_covers_concat(ahead, seq![(heading, 1u32)], blocks, point, cfg);
    lemma_single_run(ahead, (heading, 1u32), point, cfg);
    assert(run_cell(ahead, heading, 0, cfg) == ahead);
    assert(run_cell(ahead, heading, 1, cfg) == head);
}

/// A body whose first run has one cell more, walked from the cell ahead of
/// its head, covers that cell and what the body covered.
pub proof fn lemma_covers_with_longer_run(
    ahead: (u32, u32),
    head: (u32, u32),
    blocks: Seq<(Direction, u32)>,
    point: (u32, u32),
    cfg: GameConfig,
)
    requires
        blocks.len() > 0,
        blocks[0].1 < u32::MAX,
        cell_behind(ahead, blocks[0].0, cfg) == head,
    ensures
        body_covers(
            ahead,
            blocks.update(0, (blocks[0].0, (blocks[0].1 + 1) as u32)),
            point,
            cfg,
        ) <==> point == ahead || body_covers(head, blocks, point, cfg),
{
    let heading = blocks[0].0;
    let length = blocks[0].1;
    let longer = (heading, (length + 1) as u32);
    let rest = blocks.skip(1);
    assert(blocks =~= seq![blocks[0]] + rest);
    assert(blocks.update(0, longer) =~= seq![longer] + rest);
    lemma_covers_concat(ahead, seq![longer], rest, point, cfg);
    lemma_covers_concat(head, seq![blocks[0]], rest, point, cfg);
    lemma_single_run(ahead, longer, point, cfg);
    lemma_single_run(head, blocks[0], point, cfg);
    lemma_run_shift(ahead, heading, length as nat, cfg);
    assert(run_cell(ahead, heading, 0, cfg) == ahead);
    if exists|k: nat| k < longer.1 && #[trigger] run_cell(ahead, heading, k, cfg) == point {
        let k = choose|k: nat| k < longer.1 && #[trigger] run_cell(ahead, heading, k, cfg) == point;
        if k > 0 {
            lemma_run_shift(ahead, heading, (k - 1) as nat, cfg);
            assert(run_cell(head, heading, (k - 1) as nat, cfg) == point);
        }
    }
    if exists|k: nat| k < length && #[trigger] run_cell(head, heading, k, cfg) == point {
        let k = choose|k: nat| k < length && #[trigger] run_cell(head, heading, k, cfg) == point;
        lemma_run_shift(ahead, heading, k, cfg);
        assert(run_cell(ahead, heading, k + 1, cfg) == point);
    }
}

/// The body is the trail of the head: after a step a snake lies on the cell
/// that its head has reached and on the cells that it lay on before, but for
/// the last of them.
pub proof fn body_is_trail_of_head(snake: AliveSnakeView, point: (u32, u32), cfg: GameConfig)
    requires
        cfg.wf(),
        snake.wf(cfg),
        snake.frozen_for is None,
    ensures
        snake.advanced(cfg).occupies(point, cfg) <==> point == advanced_head(
            snake.head,
            snake.head_direction,
            cfg,
        ) || body_covers(snake.head, trim_tail(snake.blocks), point, cfg),
{
    let heading = snake.head_direction;
    let blocks = snake.blocks;
    let ahead = advanced_head(snake.head, heading, cfg);
    let trimmed = trim_tail(blocks);
    step_behind_undoes_advance(snake.head, heading, cfg);
    lemma_body_length_least(blocks, 0);
    if blocks[0].0 != heading {
        assert(trim_tail(seq![(heading, 1u32)] + blocks) =~= seq![(heading, 1u32)] + trimmed);
        lemma_covers_with_new_run(ahead, snake.head, heading, trimmed, point, cfg);
    } else if blocks.len() == 1 {
        if blocks[0].1 == 1 {
            assert(blocks =~= seq![(heading, 1u32)] + trimmed);
            lemma_covers_with_new_run(ahead, snake.head, heading, trimmed, point, cfg);
        } else {
            assert(blocks =~= trimmed.update(0, (trimmed[0].0, (trimmed[0].1 + 1) as u32)));
            lemma_covers_with_longer_run(ahead, snake.head, trimmed, point, cfg);
        }
    } else {
        let longer = (heading, (blocks[0].1 + 1) as u32);
        assert(trim_tail(blocks.update(0, longer)) =~= trimmed.update(0, longer));
        lemma_covers_with_longer_run(ahead, snake.head, trimmed, point, cfg);
    }
}

} // verus!
