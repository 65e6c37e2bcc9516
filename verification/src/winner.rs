//! The decision: whether a game is over, and who has won it.

use vstd::prelude::*;
use crate::game_state::{views, Snake, SnakeView};

verus! {

/// The number of snakes that keep the game going.
pub open spec fn in_play_count(snakes: Seq<SnakeView>) -> nat
    decreases snakes.len(),
{
    if snakes.len() == 0 {
        0
    } else {
        in_play_count(snakes.drop_last()) + if snakes.last().in_play() {
            1nat
        } else {
            0nat
        }
    }
}

/// The place of the first snake that keeps the game going.
pub open spec fn first_in_play(snakes: Seq<SnakeView>) -> Option<int>
    decreases snakes.len(),
{
    if snakes.len() == 0 {
        None
    } else {
        match first_in_play(snakes.drop_last()) {
            Some(i) => Some(i),
            None => if snakes.last().in_play() {
                Some(snakes.len() - 1)
            } else {
                None
            },
        }
    }
}

/// The winner, if the game is decided: where one snake keeps the game going,
/// its player; where none does, the player of the first snake in the list.
pub open spec fn winner(snakes: Seq<SnakeView>) -> Option<Seq<char>> {
    if snakes.len() == 0 {
        None
    } else if in_play_count(snakes) == 1 {
        match first_in_play(snakes) {
            Some(i) => Some(snakes[i].user_id()),
            None => None,
        }
    } else if in_play_count(snakes) == 0 {
        Some(snakes[0].user_id())
    } else {
        None
    }
}

/// Tells who has won, if the game is decided.
pub fn find_winner(snakes: &Vec<Snake>) -> (r: Option<String>)
    ensures
        match r {
            Some(player) => winner(views(snakes@)) == Some(player@),
            None => winner(views(snakes@)) is None,
        },
{
    if snakes.len() == 0 {
        return None;
    }
    let ghost all = views(snakes@);
    let mut count: usize = 0;
    let mut first: usize = 0;
    let mut i: usize = 0;
    assert(all.take(0) =~= Seq::<SnakeView>::empty());
    while i < snakes.len()
        invariant
            i <= snakes.len(),
            all == views(snakes@),
            count <= i,
            count == in_play_count(all.take(i as int)),
            count == 0 ==> first_in_play(all.take(i as int)) is None,
            count > 0 ==> first < i && first_in_play(all.take(i as int)) == Some(first as int),
        decreases snakes.len() - i,
    {
        proof {
            assert(all.take(i + 1).drop_last() =~= all.take(i as int));
            assert(all.take(i + 1).last() == snakes@[i as int]@);
        }
        if snakes[i].in_play() {
            if count == 0 {
                first = i;
            }
            count += 1;
        }
        i += 1;
    }
    assert(all.take(i as int) =~= all);
    if count == 1 {
        Some(snakes[first].user_id().clone())
    } else if count == 0 {
        Some(snakes[0].user_id().clone())
    } else {
        None
    }
}

/// What `first_in_play` finds keeps the game going, and nothing before it
/// does; it finds nothing only where no snake keeps the game going.
pub proof fn lemma_first_in_play(snakes: Seq<SnakeView>)
    ensures
        match first_in_play(snakes) {
            Some(i) => 0 <= i < snakes.len() && snakes[i].in_play() && forall|j: int|
                0 <= j < i ==> !(#[trigger] snakes[j]).in_play(),
            None => forall|j: int| 0 <= j < snakes.len() ==> !(#[trigger] snakes[j]).in_play(),
        },
    decreases snakes.len(),
{
    if snakes.len() > 0 {
        lemma_first_in_play(snakes.drop_last());
        assert forall|j: int| 0 <= j < snakes.len() - 1 implies snakes[j]
            == snakes.drop_last()[j] by {}
    }
}

/// Where no snake but snake `i` keeps the game going, the count is one if
/// snake `i` does and zero if it does not.
pub proof fn lemma_in_play_count(snakes: Seq<SnakeView>, i: int)
    requires
        forall|j: int| 0 <= j < snakes.len() && j != i ==> !(#[trigger] snakes[j]).in_play(),
    ensures
        in_play_count(snakes) == (if 0 <= i < snakes.len() && snakes[i].in_play() {
            1nat
        } else {
            0nat
        }),
    decreases snakes.len(),
{
    if snakes.len() > 0 {
        let rest = snakes.drop_last();
        assert forall|j: int| 0 <= j < rest.len() && j != i implies !(
        #[trigger] rest[j]).in_play() by {
            assert(rest[j] == snakes[j]);
        }
        lemma_in_play_count(rest, i);
        if i < rest.len() && 0 <= i {
            assert(rest[i] == snakes[i]);
        }
        assert(snakes.last() == snakes[snakes.len() - 1]);
    }
}

/// Where a snake keeps the game going, the count is one or more.
pub proof fn lemma_in_play_one(snakes: Seq<SnakeView>, i: int)
    requires
        0 <= i < snakes.len(),
        snakes[i].in_play(),
    ensures
        in_play_count(snakes) >= 1,
    decreases snakes.len(),
{
    let rest = snakes.drop_last();
    if i < snakes.len() - 1 {
        assert(rest[i] == snakes[i]);
        lemma_in_play_one(rest, i);
    }
}

/// Where two snakes keep the game going, the count is two or more.
pub proof fn lemma_in_play_two(snakes: Seq<SnakeView>, i: int, j: int)
    requires
        0 <= i < j < snakes.len(),
        snakes[i].in_play(),
        snakes[j].in_play(),
    ensures
        in_play_count(snakes) >= 2,
    decreases snakes.len(),
{
    let rest = snakes.drop_last();
    if j < snakes.len() - 1 {
        assert(rest[i] == snakes[i]);
        assert(rest[j] == snakes[j]);
        lemma_in_play_two(rest, i, j);
    } else {
        assert(rest[i] == snakes[i]);
        lemma_in_play_one(rest, i);
    }
}

/// The one snake that keeps the game going wins it.
pub proof fn sole_survivor_wins(snakes: Seq<SnakeView>, i: int)
    requires
        0 <= i < snakes.len(),
        snakes[i].in_play(),
        forall|j: int| 0 <= j < snakes.len() && j != i ==> !(#[trigger] snakes[j]).in_play(),
    ensures
        winner(snakes) == Some(snakes[i].user_id()),
{
    lemma_in_play_count(snakes, i);
    lemma_first_in_play(snakes);
}

/// Where no snake keeps the game going, the player of the first snake wins.
pub proof fn first_wins_when_none_survives(snakes: Seq<SnakeView>)
    requires
        snakes.len() > 0,
        forall|j: int| 0 <= j < snakes.len() ==> !(#[trigger] snakes[j]).in_play(),
    ensures
        winner(snakes) == Some(snakes[0].user_id()),
{
    lemma_in_play_count(snakes, -1);
}

/// While two snakes keep the game going, nobody has won.
pub proof fn nobody_wins_among_two(snakes: Seq<SnakeView>, i: int, j: int)
    requires
        0 <= i < j < snakes.len(),
        snakes[i].in_play(),
        snakes[j].in_play(),
    ensures
        winner(snakes) is None,
{
    lemma_in_play_two(snakes, i, j);
}

} // verus!
