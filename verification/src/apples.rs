//! Apples: how the board is filled up with them and how snakes eat them.

use vstd::prelude::*;
use crate::config::{GameConfig, APPLE_ATTEMPTS, APPLE_GROWTH};
use crate::game_state::{views, Snake, SnakeView};
use crate::overlap_detector::detect_overlap;
use crate::roster::{lemma_longest_covers, lemma_longest_update, lemma_update_keeps_wf, longest,
    snake_ids, snakes_wf};
use crate::snake::lemma_body_length_least;

verus! {

/// Whether no living snake lies on `point`.
pub open spec fn is_free(snakes: Seq<SnakeView>, point: (u32, u32), cfg: GameConfig) -> bool {
    forall|i: int|
        0 <= i < snakes.len() ==> (#[trigger] snakes[i] matches SnakeView::Alive(snake)
            ==> !snake.occupies(point, cfg))
}

/// The cell that two drawn numbers stand for.
pub open spec fn candidate(cfg: GameConfig, x: u32, y: u32) -> (u32, u32) {
    ((x % cfg.board_width) as u32, (y % cfg.board_height) as u32)
}

/// The cell on which one missing apple is put: the first of its draws that
/// stands for a cell no living snake lies on, if one of them does.
pub open spec fn first_free(
    cfg: GameConfig,
    snakes: Seq<SnakeView>,
    draws: Seq<(u32, u32)>,
) -> Option<(u32, u32)>
    decreases draws.len(),
{
    if draws.len() == 0 {
        None
    } else {
        match first_free(cfg, snakes, draws.drop_last()) {
            Some(cell) => Some(cell),
            None => if is_free(snakes, candidate(cfg, draws.last().0, draws.last().1), cfg) {
                Some(candidate(cfg, draws.last().0, draws.last().1))
            } else {
                None
            },
        }
    }
}

/// Whether `draws` can be the draws that were made for one missing apple:
/// drawing goes on until a cell is free or until the attempts are used up,
/// and no longer.
pub open spec fn attempts_made(
    cfg: GameConfig,
    snakes: Seq<SnakeView>,
    draws: Seq<(u32, u32)>,
) -> bool {
    &&& 0 < draws.len() <= APPLE_ATTEMPTS
    &&& first_free(cfg, snakes, draws.drop_last()) is None
    &&& draws.len() == APPLE_ATTEMPTS || first_free(cfg, snakes, draws) is Some
}

/// The apples after the board was filled up with the given draws, one list
/// of draws for each missing apple.
pub open spec fn filled_up(
    cfg: GameConfig,
    snakes: Seq<SnakeView>,
    apples: Seq<(u32, u32)>,
    draws: Seq<Seq<(u32, u32)>>,
) -> Seq<(u32, u32)>
    decreases draws.len(),
{
    if draws.len() == 0 {
        apples
    } else {
        let before = filled_up(cfg, snakes, apples, draws.drop_last());
        match first_free(cfg, snakes, draws.last()) {
            Some(cell) => before.push(cell),
            None => before,
        }
    }
}

/// The number of apples that the board is short of.
pub open spec fn missing_apples(cfg: GameConfig, apples: Seq<(u32, u32)>) -> nat {
    if apples.len() < cfg.num_apples {
        (cfg.num_apples - apples.len()) as nat
    } else {
        0
    }
}

/// What holds of the apples after the board was filled up, whatever numbers
/// were drawn: there were draws for each missing apple, as many as the rule
/// on attempts allows, and the apples are what those draws give.
pub open spec fn replenished(
    cfg: GameConfig,
    snakes: Seq<SnakeView>,
    before: Seq<(u32, u32)>,
    after: Seq<(u32, u32)>,
) -> bool {
    exists|draws: Seq<Seq<(u32, u32)>>| #[trigger]
        filled_up(cfg, snakes, before, draws) == after && draws.len() == missing_apples(
            cfg,
            before,
        ) && forall|m: int| 0 <= m < draws.len() ==> attempts_made(cfg, snakes, #[trigger] draws[m])
}

/// A cell that `first_free` gives lies on the board, and no living snake lies
/// on it.
pub proof fn lemma_first_free(cfg: GameConfig, snakes: Seq<SnakeView>, draws: Seq<(u32, u32)>)
    requires
        cfg.wf(),
    ensures
        first_free(cfg, snakes, draws) matches Some(cell) ==> {
            &&& cell.0 < cfg.board_width
            &&& cell.1 < cfg.board_height
            &&& is_free(snakes, cell, cfg)
        },
    decreases draws.len(),
{
    if draws.len() > 0 {
        lemma_first_free(cfg, snakes, draws.drop_last());
    }
}

/// Filling up keeps the apples that were there, in their places, adds at
/// most one apple for each list of draws, and puts each new apple on a cell
/// of the board that no living snake lies on.
pub proof fn lemma_filled_up(
    cfg: GameConfig,
    snakes: Seq<SnakeView>,
    apples: Seq<(u32, u32)>,
    draws: Seq<Seq<(u32, u32)>>,
)
    requires
        cfg.wf(),
    ensures
        apples.len() <= filled_up(cfg, snakes, apples, draws).len() <= apples.len() + draws.len(),
        filled_up(cfg, snakes, apples, draws).take(apples.len() as int) == apples,
        forall|i: int|
            apples.len() <= i < filled_up(cfg, snakes, apples, draws).len() ==> {
                &&& (#[trigger] filled_up(cfg, snakes, apples, draws)[i]).0 < cfg.board_width
                &&& filled_up(cfg, snakes, apples, draws)[i].1 < cfg.board_height
                &&& is_free(snakes, filled_up(cfg, snakes, apples, draws)[i], cfg)
            },
    decreases draws.len(),
{
    let after = filled_up(cfg, snakes, apples, draws);
    if draws.len() == 0 {
        assert(after.take(apples.len() as int) =~= apples);
    } else {
        let before = filled_up(cfg, snakes, apples, draws.drop_last());
        lemma_filled_up(cfg, snakes, apples, draws.drop_last());
        lemma_first_free(cfg, snakes, draws.last());
        assert(after.take(apples.len() as int) =~= before.take(apples.len() as int));
        assert forall|i: int| apples.len() <= i < after.len() implies {
            &&& (#[trigger] after[i]).0 < cfg.board_width
            &&& after[i].1 < cfg.board_height
            &&& is_free(snakes, after[i], cfg)
        } by {
            if i < before.len() {
                assert(after[i] == before[i]);
            }
        }
    }
}

/// Where no draw of a list gives a free cell, no draw of a shorter list does.
pub proof fn lemma_first_free_prefix(
    cfg: GameConfig,
    snakes: Seq<SnakeView>,
    draws: Seq<(u32, u32)>,
)
    requires
        draws.len() > 0,
        first_free(cfg, snakes, draws) is None,
    ensures
        first_free(cfg, snakes, draws.drop_last()) is None,
{
}

/// Where each missing apple finds a free cell among its draws, the board is
/// full after it was filled up: no apple is left for a later tick.
pub proof fn lucky_draws_fill_the_board(
    cfg: GameConfig,
    snakes: Seq<SnakeView>,
    apples: Seq<(u32, u32)>,
    draws: Seq<Seq<(u32, u32)>>,
)
    requires
        forall|m: int|
            0 <= m < draws.len() ==> first_free(cfg, snakes, #[trigger] draws[m]) is Some,
    ensures
        filled_up(cfg, snakes, apples, draws).len() == apples.len() + draws.len(),
        draws.len() == missing_apples(cfg, apples) && apples.len() <= cfg.num_apples ==> filled_up(
            cfg,
            snakes,
            apples,
            draws,
        ).len() == cfg.num_apples,
    decreases draws.len(),
{
    if draws.len() > 0 {
        let rest = draws.drop_last();
        assert forall|m: int| 0 <= m < rest.len() implies first_free(
            cfg,
            snakes,
            #[trigger] rest[m],
        ) is Some by {
            assert(rest[m] == draws[m]);
        }
        lucky_draws_fill_the_board(cfg, snakes, apples, rest);
        assert(draws.last() == draws[draws.len() - 1]);
    }
}

/// The board never holds fewer apples after it was filled up than before,
/// and never more than it is filled up to, unless it held more before.
pub proof fn replenishing_is_bounded(
    cfg: GameConfig,
    snakes: Seq<SnakeView>,
    before: Seq<(u32, u32)>,
    after: Seq<(u32, u32)>,
)
    requires
        cfg.wf(),
        replenished(cfg, snakes, before, after),
    ensures
        before.len() <= after.len(),
        after.take(before.len() as int) == before,
        after.len() <= before.len() || after.len() <= cfg.num_apples,
        forall|i: int|
            before.len() <= i < after.len() ==> {
                &&& (#[trigger] after[i]).0 < cfg.board_width
                &&& after[i].1 < cfg.board_height
                &&& is_free(snakes, after[i], cfg)
            },
{
    let draws = choose|draws: Seq<Seq<(u32, u32)>>| #[trigger]
        filled_up(cfg, snakes, before, draws) == after && draws.len() == missing_apples(
            cfg,
            before,
        ) && forall|m: int|
            0 <= m < draws.len() ==> attempts_made(cfg, snakes, #[trigger] draws[m]);
    lemma_filled_up(cfg, snakes, before, draws);
}

/// The first living snake whose head is on `apple`, if there is one.
pub open spec fn eater(snakes: Seq<SnakeView>, apple: (u32, u32)) -> Option<int>
    decreases snakes.len(),
{
    if snakes.len() == 0 {
        None
    } else {
        match eater(snakes.drop_last(), apple) {
            Some(i) => Some(i),
            None => if snakes.last() matches SnakeView::Alive(snake) && snake.head == apple {
                Some(snakes.len() - 1)
            } else {
                None
            },
        }
    }
}

/// Whether snake `i` is alive with its head on `apple`.
pub open spec fn eats(snakes: Seq<SnakeView>, i: int, apple: (u32, u32)) -> bool {
    snakes[i] matches SnakeView::Alive(snake) && snake.head == apple
}

/// What `eater` finds is a living snake with its head on the apple and no
/// such snake before it, and it finds nothing only where there is none.
pub proof fn lemma_eater(snakes: Seq<SnakeView>, apple: (u32, u32))
    ensures
        match eater(snakes, apple) {
            Some(i) => 0 <= i < snakes.len() && eats(snakes, i, apple) && forall|j: int|
                0 <= j < i ==> !eats(snakes, j, apple),
            None => forall|j: int| 0 <= j < snakes.len() ==> !eats(snakes, j, apple),
        },
    decreases snakes.len(),
{
    if snakes.len() > 0 {
        lemma_eater(snakes.drop_last(), apple);
        assert forall|j: int| 0 <= j < snakes.len() - 1 implies eats(snakes, j, apple) == eats(
            snakes.drop_last(),
            j,
            apple,
        ) by {
            assert(snakes[j] == snakes.drop_last()[j]);
        }
    }
}

/// Snakes and apples after a meal.
pub struct Fed {
    pub snakes: Seq<SnakeView>,
    pub apples: Seq<(u32, u32)>,
}

/// The snakes and the apples after the snakes have eaten. The apples are
/// taken in their order; an apple under the head of a living snake is eaten
/// by the first such snake, which grows at its tail, and any other apple
/// stays.
pub open spec fn after_meal(snakes: Seq<SnakeView>, apples: Seq<(u32, u32)>) -> Fed
    decreases apples.len(),
{
    if apples.len() == 0 {
        Fed { snakes, apples: Seq::empty() }
    } else {
        let before = after_meal(snakes, apples.drop_last());
        match eater(before.snakes, apples.last()) {
            Some(i) => Fed {
                snakes: before.snakes.update(
                    i,
                    SnakeView::Alive(before.snakes[i]->Alive_0.grown(APPLE_GROWTH)),
                ),
                apples: before.apples,
            },
            None => Fed { snakes: before.snakes, apples: before.apples.push(apples.last()) },
        }
    }
}

/// Draws a number with `rand::random::<u32>()`. Any `u32` may come back, and
/// nothing is claimed of it.
#[verifier::external_body]
fn random_u32() -> (r: u32) {
    rand::random::<u32>()
}

/// Tells whether no living snake lies on `point`.
pub fn is_free_cell(snakes: &Vec<Snake>, point: &(u32, u32), cfg: &GameConfig) -> (r: bool)
    requires
        cfg.wf(),
    ensures
        r == is_free(views(snakes@), *point, *cfg),
{
    let mut i: usize = 0;
    while i < snakes.len()
        invariant
            cfg.wf(),
            i <= snakes.len(),
            forall|j: int|
                0 <= j < i ==> (#[trigger] views(snakes@)[j] matches SnakeView::Alive(snake)
                    ==> !snake.occupies(*point, *cfg)),
        decreases snakes.len() - i,
    {
        match &snakes[i] {
            Snake::Alive(snake) => {
                if detect_overlap(point, snake, cfg) {
                    assert(views(snakes@)[i as int] == SnakeView::Alive(snake@));
                    return false;
                }
            },
            Snake::Dead { .. } => {},
        }
        i += 1;
    }
    true
}

/// Puts an apple on the cell that the drawn numbers `x` and `y` stand for,
/// unless a living snake lies there, and tells whether it did.
pub fn try_place_apple(
    apples: &mut Vec<(u32, u32)>,
    snakes: &Vec<Snake>,
    cfg: &GameConfig,
    x: u32,
    y: u32,
) -> (placed: bool)
    requires
        cfg.wf(),
    ensures
        placed == is_free(views(snakes@), candidate(*cfg, x, y), *cfg),
        placed ==> final(apples)@ == old(apples)@.push(candidate(*cfg, x, y)),
        !placed ==> final(apples)@ == old(apples)@,
{
    let cell = (x % cfg.board_width, y % cfg.board_height);
    if is_free_cell(snakes, &cell, cfg) {
        apples.push(cell);
        true
    } else {
        false
    }
}

/// Fills the board up with apples: for each apple that is missing it draws
/// up to five cells and takes the first that no living snake lies on. An
/// apple for which every draw fails is left for the next tick.
pub fn replenish_apples(apples: &mut Vec<(u32, u32)>, snakes: &Vec<Snake>, cfg: &GameConfig)
    requires
        cfg.wf(),
    ensures
        replenished(*cfg, views(snakes@), old(apples)@, final(apples)@),
        final(apples).len() <= old(apples).len() || final(apples).len() <= cfg.num_apples,
{
    let ghost before = apples@;
    let ghost all = views(snakes@);
    let target = cfg.num_apples as usize;
    let missing = if apples.len() < target {
        target - apples.len()
    } else {
        0
    };
    let ghost mut drawn: Seq<Seq<(u32, u32)>> = Seq::empty();
    let mut filled: usize = 0;
    while filled < missing
        invariant
            cfg.wf(),
            all == views(snakes@),
            filled <= missing,
            missing == missing_apples(*cfg, before),
            drawn.len() == filled,
            forall|m: int| 0 <= m < drawn.len() ==> attempts_made(*cfg, all, #[trigger] drawn[m]),
            apples@ == filled_up(*cfg, all, before, drawn),
            apples@.len() <= before.len() + filled,
        decreases missing - filled,
    {
        let mut attempts: u32 = 0;
        let mut placed = false;
        let ghost start = apples@;
        let ghost mut tried: Seq<(u32, u32)> = Seq::empty();
        while attempts < APPLE_ATTEMPTS && !placed
            invariant
                cfg.wf(),
                all == views(snakes@),
                attempts <= APPLE_ATTEMPTS,
                tried.len() == attempts,
                !placed ==> apples@ == start && first_free(*cfg, all, tried) is None,
                placed ==> tried.len() > 0 && first_free(*cfg, all, tried.drop_last()) is None
                    && first_free(*cfg, all, tried) is Some && apples@ == start.push(
                    first_free(*cfg, all, tried)->0,
                ),
            decreases APPLE_ATTEMPTS - attempts + (if placed { 0int } else { 1int }),
        {
            let x = random_u32();
            let y = random_u32();
            proof {
                assert(tried.push((x, y)).drop_last() =~= tried);
                tried = tried.push((x, y));
            }
            placed = try_place_apple(apples, snakes, cfg, x, y);
            attempts += 1;
        }
        proof {
            assert(attempts_made(*cfg, all, tried)) by {
                if !placed {
                    lemma_first_free_prefix(*cfg, all, tried);
                }
            }
            assert(drawn.push(tried).drop_last() =~= drawn);
            drawn = drawn.push(tried);
        }
        filled += 1;
    }
    assert(replenished(*cfg, all, before, apples@)) by {
        assert(filled_up(*cfg, all, before, drawn) == apples@);
    }
}

/// Finds the first living snake whose head is on `apple`.
pub fn find_eater(snakes: &Vec<Snake>, apple: &(u32, u32)) -> (r: Option<usize>)
    ensures
        match r {
            Some(i) => i < snakes.len() && eater(views(snakes@), *apple) == Some(i as int),
            None => eater(views(snakes@), *apple) is None,
        },
{
    let mut i: usize = 0;
    while i < snakes.len()
        invariant
            i <= snakes.len(),
            forall|j: int| 0 <= j < i ==> !eats(views(snakes@), j, *apple),
        decreases snakes.len() - i,
    {
        match &snakes[i] {
            Snake::Alive(snake) => {
                if snake.head.0 == apple.0 && snake.head.1 == apple.1 {
                    proof {
                        lemma_eater(views(snakes@), *apple);
                        assert(eats(views(snakes@), i as int, *apple));
                    }
                    return Some(i);
                }
            },
            Snake::Dead { .. } => {},
        }
        i += 1;
    }
    proof {
        lemma_eater(views(snakes@), *apple);
    }
    None
}

/// Lets the snakes eat: each apple under the head of a living snake goes to
/// the first such snake, which grows at its tail.
pub fn eat_apples(snakes: &mut Vec<Snake>, apples: &mut Vec<(u32, u32)>, cfg: &GameConfig)
    requires
        snakes_wf(views(old(snakes)@), *cfg),
        longest(views(old(snakes)@)) + APPLE_GROWTH * old(apples).len() <= u32::MAX,
    ensures
        views(final(snakes)@) == after_meal(views(old(snakes)@), old(apples)@).snakes,
        final(apples)@ == after_meal(views(old(snakes)@), old(apples)@).apples,
        snakes_wf(views(final(snakes)@), *cfg),
        snake_ids(views(final(snakes)@)) == snake_ids(views(old(snakes)@)),
        longest(views(final(snakes)@)) <= longest(views(old(snakes)@)) + APPLE_GROWTH * old(
            apples,
        ).len(),
        final(apples).len() <= old(apples).len(),
{
    let ghost first = views(snakes@);
    let mut kept: Vec<(u32, u32)> = Vec::new();
    let mut n: usize = 0;
    assert(apples@.take(0) =~= Seq::<(u32, u32)>::empty());
    while n < apples.len()
        invariant
            n <= apples.len(),
            apples@ == old(apples)@,
            first == views(old(snakes)@),
            views(snakes@) == after_meal(first, apples@.take(n as int)).snakes,
            kept@ == after_meal(first, apples@.take(n as int)).apples,
            kept@.len() <= n,
            snakes_wf(views(snakes@), *cfg),
            snake_ids(views(snakes@)) == snake_ids(first),
            longest(first) + APPLE_GROWTH * apples.len() <= u32::MAX,
            longest(views(snakes@)) <= longest(first) + APPLE_GROWTH * n,
        decreases apples.len() - n,
    {
        let apple = apples[n];
        let ghost before = views(snakes@);
        proof {
            assert(apples@.take(n + 1).drop_last() =~= apples@.take(n as int));
            assert(apples@.take(n + 1).last() == apple);
        }
        match find_eater(snakes, &apple) {
            Some(i) => {
                proof {
                    lemma_longest_covers(before, i as int);
                    lemma_eater(before, apple);
                    assert(before[i as int].wf(*cfg));
                }
                match &mut snakes[i] {
                    Snake::Alive(snake) => {
                        proof {
                            lemma_body_length_least(snake@.blocks, snake@.blocks.len() - 1);
                        }
                        snake.grow(APPLE_GROWTH);
                    },
                    Snake::Dead { .. } => {},
                }
                proof {
                    let after = views(snakes@);
                    assert(after =~= before.update(i as int, after[i as int]));
                    lemma_update_keeps_wf(before, *cfg, i as int, after[i as int]);
                    lemma_longest_update(before, i as int, after[i as int]);
                }
            },
            None => {
                kept.push(apple);
            },
        }
        n += 1;
    }
    assert(apples@.take(n as int) =~= apples@);
    *apples = kept;
}

/// Whether two lists have living snakes at the same places, with their
/// heads on the same cells and with the same players.
pub open spec fn same_heads(first: Seq<SnakeView>, second: Seq<SnakeView>) -> bool {
    &&& first.len() == second.len()
    &&& forall|i: int|
        0 <= i < first.len() ==> {
            &&& (#[trigger] first[i]).user_id() == second[i].user_id()
            &&& first[i] is Alive <==> second[i] is Alive
            &&& first[i] is Alive ==> first[i]->Alive_0.head == second[i]->Alive_0.head
        }
}

/// Who eats an apple depends only on where the heads of the living snakes
/// are.
pub proof fn lemma_eater_same_heads(
    first: Seq<SnakeView>,
    second: Seq<SnakeView>,
    apple: (u32, u32),
)
    requires
        same_heads(first, second),
    ensures
        eater(first, apple) == eater(second, apple),
    decreases first.len(),
{
    if first.len() > 0 {
        assert(same_heads(first.drop_last(), second.drop_last())) by {
            assert forall|i: int| 0 <= i < first.len() - 1 implies {
                &&& (#[trigger] first.drop_last()[i]).user_id() == second.drop_last()[i].user_id()
                &&& first.drop_last()[i] is Alive <==> second.drop_last()[i] is Alive
                &&& first.drop_last()[i] is Alive ==> first.drop_last()[i]->Alive_0.head
                    == second.drop_last()[i]->Alive_0.head
            } by {
                assert(first[i] == first.drop_last()[i]);
                assert(second[i] == second.drop_last()[i]);
            }
        }
        lemma_eater_same_heads(first.drop_last(), second.drop_last(), apple);
        assert(first.last() == first[first.len() - 1]);
        assert(second.last() == second[second.len() - 1]);
    }
}

/// A meal moves no head and changes no player: the snakes only grow.
pub proof fn lemma_meal_keeps_heads(snakes: Seq<SnakeView>, apples: Seq<(u32, u32)>)
    ensures
        same_heads(snakes, after_meal(snakes, apples).snakes),
        snake_ids(after_meal(snakes, apples).snakes) == snake_ids(snakes),
    decreases apples.len(),
{
    if apples.len() > 0 {
        let before = after_meal(snakes, apples.drop_last());
        lemma_meal_keeps_heads(snakes, apples.drop_last());
        lemma_eater(before.snakes, apples.last());
        let after = after_meal(snakes, apples).snakes;
        assert forall|i: int| 0 <= i < snakes.len() implies {
            &&& (#[trigger] snakes[i]).user_id() == after[i].user_id()
            &&& snakes[i] is Alive <==> after[i] is Alive
            &&& snakes[i] is Alive ==> snakes[i]->Alive_0.head == after[i]->Alive_0.head
        } by {
            assert(snakes[i].user_id() == before.snakes[i].user_id());
        }
    }
    assert(snake_ids(after_meal(snakes, apples).snakes) =~= snake_ids(snakes));
}

/// The apples that are left after a meal are the apples on which no living
/// snake has its head, in the order in which they lay.
pub proof fn meal_leaves_uneaten_apples(snakes: Seq<SnakeView>, apples: Seq<(u32, u32)>)
    ensures
        after_meal(snakes, apples).apples == apples.filter(
            |apple: (u32, u32)| eater(snakes, apple) is None,
        ),
    decreases apples.len(),
{
    reveal(Seq::filter);
    if apples.len() > 0 {
        meal_leaves_uneaten_apples(snakes, apples.drop_last());
        lemma_meal_keeps_heads(snakes, apples.drop_last());
        lemma_eater_same_heads(
            snakes,
            after_meal(snakes, apples.drop_last()).snakes,
            apples.last(),
        );
    } else {
        assert(apples =~= Seq::<(u32, u32)>::empty());
    }
}

} // verus!
