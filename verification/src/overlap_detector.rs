//! The cells that a snake lies on, and the test whether a point is one of
//! them. The body is the trail of the head on a board that wraps round, so
//! it wraps round the board as the head did.

use vstd::prelude::*;
use vstd::arithmetic::div_mod::{lemma_add_mod_noop_right, lemma_mod_add_multiples_vanish,
    lemma_mod_bound, lemma_small_mod};
use crate::config::GameConfig;
use crate::game_state::{AliveSnake, AliveSnakeView, Direction};

verus! {

/// The number of cells of a body: the sum of its run lengths.
pub open spec fn body_length(blocks: Seq<(Direction, u32)>) -> nat
    decreases blocks.len(),
{
    if blocks.len() == 0 {
        0
    } else {
        body_length(blocks.drop_last()) + blocks.last().1 as nat
    }
}

/// The cell behind `cell` in a run that was laid while heading `direction`:
/// the cell from which a head with that heading steps onto `cell`. Behind
/// the last row comes the first, and behind the first column the last.
pub open spec fn cell_behind(
    cell: (u32, u32),
    direction: Direction,
    cfg: GameConfig,
) -> (u32, u32) {
    match direction {
        Direction::Up => (cell.0, ((cell.1 + 1) % (cfg.board_height as int)) as u32),
        Direction::Down => (
            cell.0,
            ((cell.1 + cfg.board_height - 1) % (cfg.board_height as int)) as u32,
        ),
        Direction::Left => (((cell.0 + 1) % (cfg.board_width as int)) as u32, cell.1),
        Direction::Right => (
            ((cell.0 + cfg.board_width - 1) % (cfg.board_width as int)) as u32,
            cell.1,
        ),
    }
}

/// The cell that lies `steps` cells behind `cell` in one run.
pub open spec fn run_cell(
    cell: (u32, u32),
    direction: Direction,
    steps: nat,
    cfg: GameConfig,
) -> (u32, u32)
    decreases steps,
{
    if steps == 0 {
        cell
    } else {
        cell_behind(run_cell(cell, direction, (steps - 1) as nat, cfg), direction, cfg)
    }
}

/// The cell where the body ends: one step past its last cell.
pub open spec fn body_end(
    head: (u32, u32),
    blocks: Seq<(Direction, u32)>,
    cfg: GameConfig,
) -> (u32, u32)
    decreases blocks.len(),
{
    if blocks.len() == 0 {
        head
    } else {
        run_cell(
            body_end(head, blocks.drop_last(), cfg),
            blocks.last().0,
            blocks.last().1 as nat,
            cfg,
        )
    }
}

/// Whether `point` is one of the cells of the body that starts at `head`.
/// Run `i` starts where the runs before it end and covers as many cells as
/// its length says.
pub open spec fn body_covers(
    head: (u32, u32),
    blocks: Seq<(Direction, u32)>,
    point: (u32, u32),
    cfg: GameConfig,
) -> bool {
    exists|i: int, k: nat|
        0 <= i < blocks.len() && k < blocks[i].1 && #[trigger] run_cell(
            body_end(head, blocks.take(i), cfg),
            blocks[i].0,
            k,
            cfg,
        ) == point
}

impl AliveSnakeView {
    /// Whether the snake lies on `point`, head included.
    pub open spec fn occupies(self, point: (u32, u32), cfg: GameConfig) -> bool {
        body_covers(self.head, self.blocks, point, cfg)
    }
}

/// Steps from `cell` to the cell behind it in a run that was laid while
/// heading `direction`.
pub fn step_behind(cell: (u32, u32), direction: Direction, cfg: &GameConfig) -> (r: (u32, u32))
    requires
        cfg.wf(),
    ensures
        r == cell_behind(cell, direction, *cfg),
{
    let width = cfg.board_width as u64;
    let height = cfg.board_height as u64;
    proof {
        lemma_mod_bound(cell.1 + 1, height as int);
        lemma_mod_bound(cell.1 + height - 1, height as int);
        lemma_mod_bound(cell.0 + 1, width as int);
        lemma_mod_bound(cell.0 + width - 1, width as int);
    }
    match direction {
        Direction::Up => (cell.0, ((cell.1 as u64 + 1) % height) as u32),
        Direction::Down => (cell.0, ((cell.1 as u64 + height - 1) % height) as u32),
        Direction::Left => (((cell.0 as u64 + 1) % width) as u32, cell.1),
        Direction::Right => (((cell.0 as u64 + width - 1) % width) as u32, cell.1),
    }
}

/// Tells whether `snake` lies on `point`. The walk starts at the head, which
/// counts, and follows each run for its length, round the edges of the
/// board where the run crosses them.
pub fn detect_overlap(point: &(u32, u32), snake: &AliveSnake, cfg: &GameConfig) -> (r: bool)
    requires
        cfg.wf(),
    ensures
        r == snake@.occupies(*point, *cfg),
{
    let mut cell = snake.head;
    let mut i: usize = 0;
    while i < snake.blocks.len()
        invariant
            cfg.wf(),
            i <= snake.blocks.len(),
            cell == body_end(snake.head, snake.blocks@.take(i as int), *cfg),
            forall|j: int, k: nat|
                0 <= j < i && k < snake.blocks@[j].1 ==> #[trigger] run_cell(
                    body_end(snake.head, snake.blocks@.take(j), *cfg),
                    snake.blocks@[j].0,
                    k,
                    *cfg,
                ) != *point,
        decreases snake.blocks.len() - i,
    {
        let direction = snake.blocks[i].0;
        let length = snake.blocks[i].1;
        let ghost start = cell;
        let mut k: u32 = 0;
        while k < length
            invariant
                cfg.wf(),
                i < snake.blocks.len(),
                direction == snake.blocks@[i as int].0,
                length == snake.blocks@[i as int].1,
                start == body_end(snake.head, snake.blocks@.take(i as int), *cfg),
                k <= length,
                cell == run_cell(start, direction, k as nat, *cfg),
                forall|m: nat| m < k ==> #[trigger] run_cell(start, direction, m, *cfg) != *point,
            decreases length - k,
        {
            if cell.0 == point.0 && cell.1 == point.1 {
                assert(run_cell(
                    body_end(snake.head, snake.blocks@.take(i as int), *cfg),
                    snake.blocks@[i as int].0,
                    k as nat,
                    *cfg,
                ) == *point);
                return true;
            }
            cell = step_behind(cell, direction, cfg);
            k += 1;
        }
        assert(snake.blocks@.take(i + 1).drop_last() =~= snake.blocks@.take(i as int));
        i += 1;
    }
    false
}

/// A snake with at least one cell lies on its own head.
pub proof fn head_is_occupied(snake: AliveSnakeView, cfg: GameConfig)
    requires
        snake.blocks.len() > 0,
        snake.blocks[0].1 > 0,
    ensures
        snake.occupies(snake.head, cfg),
{
    assert(snake.blocks.take(0) =~= Seq::<(Direction, u32)>::empty());
    assert(run_cell(body_end(snake.head, snake.blocks.take(0), cfg), snake.blocks[0].0, 0, cfg)
        == snake.head);
}

/// A cell of a body that starts on the board is on the board.
pub proof fn lemma_run_on_board(cell: (u32, u32), direction: Direction, steps: nat, cfg: GameConfig)
    requires
        cfg.wf(),
        cell.0 < cfg.board_width,
        cell.1 < cfg.board_height,
    ensures
        run_cell(cell, direction, steps, cfg).0 < cfg.board_width,
        run_cell(cell, direction, steps, cfg).1 < cfg.board_height,
    decreases steps,
{
    if steps > 0 {
        lemma_run_on_board(cell, direction, (steps - 1) as nat, cfg);
        let before = run_cell(cell, direction, (steps - 1) as nat, cfg);
        lemma_mod_bound(before.1 + 1, cfg.board_height as int);
        lemma_mod_bound(before.1 + cfg.board_height - 1, cfg.board_height as int);
        lemma_mod_bound(before.0 + 1, cfg.board_width as int);
        lemma_mod_bound(before.0 + cfg.board_width - 1, cfg.board_width as int);
    }
}

/// A run lies behind the cell where it starts, away from its heading, and
/// goes round the board: a run that was laid heading up goes down the rows
/// and comes back in at the first row, one that was laid heading left goes
/// up the columns and comes back in at the first column, and so on.
pub proof fn run_wraps_round(cell: (u32, u32), direction: Direction, steps: nat, cfg: GameConfig)
    requires
        cfg.wf(),
        cell.0 < cfg.board_width,
        cell.1 < cfg.board_height,
    ensures
        run_cell(cell, direction, steps, cfg) == match direction {
            Direction::Up => (cell.0, ((cell.1 + steps) % (cfg.board_height as int)) as u32),
            Direction::Down => (cell.0, ((cell.1 - steps) % (cfg.board_height as int)) as u32),
            Direction::Left => (((cell.0 + steps) % (cfg.board_width as int)) as u32, cell.1),
            Direction::Right => (((cell.0 - steps) % (cfg.board_width as int)) as u32, cell.1),
        },
    decreases steps,
{
    let w = cfg.board_width as int;
    let h = cfg.board_height as int;
    if steps == 0 {
        lemma_small_mod(cell.0 as nat, w as nat);
        lemma_small_mod(cell.1 as nat, h as nat);
    } else {
        run_wraps_round(cell, direction, (steps - 1) as nat, cfg);
        lemma_mod_bound(cell.1 + steps - 1, h);
        lemma_mod_bound(cell.1 - steps + 1, h);
        lemma_mod_bound(cell.0 + steps - 1, w);
        lemma_mod_bound(cell.0 - steps + 1, w);
        lemma_mod_bound(cell.1 + steps, h);
        lemma_mod_bound(cell.1 - steps, h);
        lemma_mod_bound(cell.0 + steps, w);
        lemma_mod_bound(cell.0 - steps, w);
        match direction {
            Direction::Up => {
                lemma_add_mod_noop_right(1, cell.1 + steps - 1, h);
            },
            Direction::Down => {
                lemma_add_mod_noop_right(h - 1, cell.1 - steps + 1, h);
                lemma_mod_add_multiples_vanish(cell.1 - steps, h);
            },
            Direction::Left => {
                lemma_add_mod_noop_right(1, cell.0 + steps - 1, w);
            },
            Direction::Right => {
                lemma_add_mod_noop_right(w - 1, cell.0 - steps + 1, w);
                lemma_mod_add_multiples_vanish(cell.0 - steps, w);
            },
        }
    }
}

/// The cell `steps + 1` cells behind a cell is the cell `steps` cells
/// behind the cell behind it.
pub proof fn lemma_run_shift(cell: (u32, u32), direction: Direction, steps: nat, cfg: GameConfig)
    ensures
        run_cell(cell, direction, steps + 1, cfg) == run_cell(
            cell_behind(cell, direction, cfg),
            direction,
            steps,
            cfg,
        ),
    decreases steps,
{
    if steps > 0 {
        lemma_run_shift(cell, direction, (steps - 1) as nat, cfg);
    } else {
        assert(run_cell(cell, direction, 0, cfg) == cell);
    }
}

/// A body of one run covers the cells of the run and ends behind them.
pub proof fn lemma_single_run(
    cell: (u32, u32),
    run: (Direction, u32),
    point: (u32, u32),
    cfg: GameConfig,
)
    ensures
        body_end(cell, seq![run], cfg) == run_cell(cell, run.0, run.1 as nat, cfg),
        body_covers(cell, seq![run], point, cfg) <==> exists|k: nat|
            k < run.1 && #[trigger] run_cell(cell, run.0, k, cfg) == point,
{
    let one = seq![run];
    assert(one.drop_last() =~= Seq::<(Direction, u32)>::empty());
    assert(one.take(0) =~= Seq::<(Direction, u32)>::empty());
    assert(body_end(cell, one.drop_last(), cfg) == cell);
    if body_covers(cell, one, point, cfg) {
        let (i, k) = choose|i: int, k: nat|
            0 <= i < one.len() && k < one[i].1 && #[trigger] run_cell(
                body_end(cell, one.take(i), cfg),
                one[i].0,
                k,
                cfg,
            ) == point;
        assert(run_cell(cell, run.0, k, cfg) == point);
    }
    if exists|k: nat| k < run.1 && #[trigger] run_cell(cell, run.0, k, cfg) == point {
        let k = choose|k: nat| k < run.1 && #[trigger] run_cell(cell, run.0, k, cfg) == point;
        assert(run_cell(body_end(cell, one.take(0), cfg), one[0].0, k, cfg) == point);
    }
}

/// A body of two parts ends where its second part ends, walked from the end
/// of the first.
pub proof fn lemma_body_end_concat(
    head: (u32, u32),
    first: Seq<(Direction, u32)>,
    second: Seq<(Direction, u32)>,
    cfg: GameConfig,
)
    ensures
        body_end(head, first + second, cfg) == body_end(body_end(head, first, cfg), second, cfg),
    decreases second.len(),
{
    if second.len() == 0 {
        assert(first + second =~= first);
    } else {
        lemma_body_end_concat(head, first, second.drop_last(), cfg);
        assert((first + second).drop_last() =~= first + second.drop_last());
    }
}

/// A body of two parts covers what its first part covers and what its
/// second part covers, walked from the end of the first.
pub proof fn lemma_covers_concat(
    head: (u32, u32),
    first: Seq<(Direction, u32)>,
    second: Seq<(Direction, u32)>,
    point: (u32, u32),
    cfg: GameConfig,
)
    ensures
        body_covers(head, first + second, point, cfg) <==> body_covers(head, first, point, cfg)
            || body_covers(body_end(head, first, cfg), second, point, cfg),
{
    let whole = first + second;
    let middle = body_end(head, first, cfg);
    if body_covers(head, whole, point, cfg) {
        let (i, k) = choose|i: int, k: nat|
            0 <= i < whole.len() && k < whole[i].1 && #[trigger] run_cell(
                body_end(head, whole.take(i), cfg),
                whole[i].0,
                k,
                cfg,
            ) == point;
        if i < first.len() {
            assert(whole.take(i) =~= first.take(i));
            assert(run_cell(body_end(head, first.take(i), cfg), first[i].0, k, cfg) == point);
        } else {
            let j = i - first.len();
            assert(whole.take(i) =~= first + second.take(j));
            lemma_body_end_concat(head, first, second.take(j), cfg);
            assert(run_cell(body_end(middle, second.take(j), cfg), second[j].0, k, cfg) == point);
        }
    }
    if body_covers(head, first, point, cfg) {
        let (i, k) = choose|i: int, k: nat|
            0 <= i < first.len() && k < first[i].1 && #[trigger] run_cell(
                body_end(head, first.take(i), cfg),
                first[i].0,
                k,
                cfg,
            ) == point;
        assert(whole.take(i) =~= first.take(i));
        assert(run_cell(body_end(head, whole.take(i), cfg), whole[i].0, k, cfg) == point);
    }
    if body_covers(middle, second, point, cfg) {
        let (j, k) = choose|j: int, k: nat|
            0 <= j < second.len() && k < second[j].1 && #[trigger] run_cell(
                body_end(middle, second.take(j), cfg),
                second[j].0,
                k,
                cfg,
            ) == point;
        let i = first.len() + j;
        assert(whole.take(i) =~= first + second.take(j));
        lemma_body_end_concat(head, first, second.take(j), cfg);
        assert(run_cell(body_end(head, whole.take(i), cfg), whole[i].0, k, cfg) == point);
    }
}

/// A body that starts on the board ends on the board.
pub proof fn lemma_body_end_on_board(
    head: (u32, u32),
    blocks: Seq<(Direction, u32)>,
    cfg: GameConfig,
)
    requires
        cfg.wf(),
        head.0 < cfg.board_width,
        head.1 < cfg.board_height,
    ensures
        body_end(head, blocks, cfg).0 < cfg.board_width,
        body_end(head, blocks, cfg).1 < cfg.board_height,
    decreases blocks.len(),
{
    if blocks.len() > 0 {
        lemma_body_end_on_board(head, blocks.drop_last(), cfg);
        lemma_run_on_board(
            body_end(head, blocks.drop_last(), cfg),
            blocks.last().0,
            blocks.last().1 as nat,
            cfg,
        );
    }
}

/// A snake whose head is on the board lies on cells of the board only.
pub proof fn body_lies_on_board(snake: AliveSnakeView, point: (u32, u32), cfg: GameConfig)
    requires
        cfg.wf(),
        snake.head.0 < cfg.board_width,
        snake.head.1 < cfg.board_height,
        snake.occupies(point, cfg),
    ensures
        point.0 < cfg.board_width,
        point.1 < cfg.board_height,
{
    let (i, k) = choose|i: int, k: nat|
        0 <= i < snake.blocks.len() && k < snake.blocks[i].1 && #[trigger] run_cell(
            body_end(snake.head, snake.blocks.take(i), cfg),
            snake.blocks[i].0,
            k,
            cfg,
        ) == point;
    lemma_body_end_on_board(snake.head, snake.blocks.take(i), cfg);
    lemma_run_on_board(body_end(snake.head, snake.blocks.take(i), cfg), snake.blocks[i].0, k, cfg);
}

} // verus!
