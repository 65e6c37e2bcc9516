//! Collisions: which snakes have run into another snake, and what becomes
//! of them.

use vstd::prelude::*;
use crate::config::GameConfig;
use crate::game_state::{views, Snake, SnakeView};
use crate::overlap_detector::detect_overlap;
use crate::roster::{cells, lemma_longest_bound, lemma_longest_covers, lemma_longest_least, longest,
    snake_ids, snakes_wf};

verus! {

/// Whether snake `j` is a living snake other than snake `i` that lies on
/// `point`.
pub open spec fn blocks_way(
    snakes: Seq<SnakeView>,
    i: int,
    j: int,
    point: (u32, u32),
    cfg: GameConfig,
) -> bool {
    j != i && (snakes[j] matches SnakeView::Alive(other) && other.occupies(point, cfg))
}

/// Whether snake `i` is struck: it is alive, neither invulnerable nor
/// frozen, and its head is on a cell of another living snake. A snake's own
/// body does not strike it.
pub open spec fn is_struck(snakes: Seq<SnakeView>, i: int, cfg: GameConfig) -> bool {
    &&& snakes[i] matches SnakeView::Alive(snake)
    &&& snake.invulnerable_for is None
    &&& snake.frozen_for is None
    &&& exists|j: int|
        0 <= j < snakes.len() && #[trigger] blocks_way(snakes, i, j, snake.head, cfg)
}

/// The snake at place `i` after the collisions of a tick.
pub open spec fn after_collision(snakes: Seq<SnakeView>, cfg: GameConfig, i: int) -> SnakeView {
    if is_struck(snakes, i, cfg) {
        snakes[i]->Alive_0.struck(cfg)
    } else {
        snakes[i]
    }
}

/// The snakes after the collisions of a tick. Who is struck is found for all
/// snakes on the board as it was, before any of them is taken off.
pub open spec fn after_collisions(snakes: Seq<SnakeView>, cfg: GameConfig) -> Seq<SnakeView> {
    Seq::new(snakes.len(), |i: int| after_collision(snakes, cfg, i))
}

/// Tells whether snake `i` is struck.
pub fn detect_struck(snakes: &Vec<Snake>, i: usize, cfg: &GameConfig) -> (r: bool)
    requires
        cfg.wf(),
        i < snakes.len(),
    ensures
        r == is_struck(views(snakes@), i as int, *cfg),
{
    match &snakes[i] {
        Snake::Alive(snake) => {
            if snake.invulnerable_for.is_some() || snake.frozen_for.is_some() {
                return false;
            }
            let mut j: usize = 0;
            while j < snakes.len()
                invariant
                    cfg.wf(),
                    j <= snakes.len(),
                    i < snakes.len(),
                    views(snakes@)[i as int] == SnakeView::Alive(snake@),
                    snake.invulnerable_for is None,
                    snake.frozen_for is None,
                    forall|k: int|
                        0 <= k < j ==> !#[trigger] blocks_way(
                            views(snakes@),
                            i as int,
                            k,
                            snake.head,
                            *cfg,
                        ),
                decreases snakes.len() - j,
            {
                if j != i {
                    match &snakes[j] {
                        Snake::Alive(other) => {
                            if detect_overlap(&snake.head, other, cfg) {
                                assert(blocks_way(
                                    views(snakes@),
                                    i as int,
                                    j as int,
                                    snake@.head,
                                    *cfg,
                                ));
                                return true;
                            }
                        },
                        Snake::Dead { .. } => {},
                    }
                }
                j += 1;
            }
            false
        },
        Snake::Dead { .. } => false,
    }
}

impl Snake {
    /// Takes the blow of a collision: a living snake spends its extra life
    /// for a time of invulnerability, or dies. A dead snake is left as it is.
    pub fn strike(&mut self, cfg: &GameConfig)
        requires
            cfg.wf(),
        ensures
            final(self)@ == match old(self)@ {
                SnakeView::Alive(snake) => snake.struck(*cfg),
                SnakeView::Dead { .. } => old(self)@,
            },
    {
        let fallen = match self {
            Snake::Alive(snake) => {
                if snake.has_extra_life {
                    snake.has_extra_life = false;
                    snake.invulnerable_for = Some(cfg.effect_ticks());
                    None
                } else {
                    Some(
                        Snake::Dead {
                            user_id: snake.user_id.clone(),
                            head: snake.head,
                            ticks_to_revive: Some(cfg.revive_ticks),
                        },
                    )
                }
            },
            Snake::Dead { .. } => None,
        };
        match fallen {
            Some(dead) => {
                *self = dead;
            },
            None => {},
        }
    }
}

/// Finds the snakes that are struck and lets each take the blow.
pub fn resolve_collisions(snakes: &mut Vec<Snake>, cfg: &GameConfig)
    requires
        cfg.wf(),
    ensures
        views(final(snakes)@) == after_collisions(views(old(snakes)@), *cfg),
        snakes_wf(views(old(snakes)@), *cfg) ==> snakes_wf(views(final(snakes)@), *cfg),
        snake_ids(views(final(snakes)@)) == snake_ids(views(old(snakes)@)),
        longest(views(final(snakes)@)) <= longest(views(old(snakes)@)),
{
    let ghost before = views(snakes@);
    let mut struck: Vec<bool> = Vec::new();
    let mut i: usize = 0;
    while i < snakes.len()
        invariant
            i <= snakes.len(),
            struck.len() == i,
            cfg.wf(),
            forall|k: int| 0 <= k < i ==> struck@[k] == is_struck(views(snakes@), k, *cfg),
        decreases snakes.len() - i,
    {
        let hit = detect_struck(snakes, i, cfg);
        struck.push(hit);
        i += 1;
    }
    let mut n: usize = 0;
    while n < snakes.len()
        invariant
            n <= snakes.len(),
            cfg.wf(),
            snakes.len() == before.len(),
            struck.len() == snakes.len(),
            forall|k: int| 0 <= k < before.len() ==> struck@[k] == is_struck(before, k, *cfg),
            forall|k: int| 0 <= k < n ==> views(snakes@)[k] == after_collision(before, *cfg, k),
            forall|k: int| n <= k < before.len() ==> views(snakes@)[k] == before[k],
        decreases snakes.len() - n,
    {
        let ghost current = views(snakes@);
        if struck[n] {
            snakes[n].strike(cfg);
        }
        proof {
            let after = views(snakes@);
            assert forall|k: int| 0 <= k < n + 1 implies after[k] == after_collision(
                before,
                *cfg,
                k,
            ) by {
                if k < n {
                    assert(after[k] == current[k]);
                }
            }
            assert forall|k: int| n + 1 <= k < before.len() implies after[k] == before[k] by {
                assert(after[k] == current[k]);
            }
        }
        n += 1;
    }
    proof {
        let after = views(snakes@);
        assert(after =~= after_collisions(before, *cfg));
        assert(snake_ids(after) =~= snake_ids(before));
        lemma_longest_least(before);
        assert forall|k: int| 0 <= k < after.len() implies cells(#[trigger] after[k]) <= longest(
            before,
        ) by {
            lemma_longest_covers(before, k);
        }
        lemma_longest_bound(after, longest(before));
        if snakes_wf(before, *cfg) {
            assert forall|k: int| 0 <= k < after.len() implies (#[trigger] after[k]).wf(*cfg) by {
                assert(before[k].wf(*cfg));
            }
        }
    }
}

} // verus!
