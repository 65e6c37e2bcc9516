//! Lists keyed by player: where a player's entry stands, and how entries
//! are added and replaced so that no player comes to stand twice.

use vstd::prelude::*;
use crate::config::{GameConfig, INITIAL_LENGTH};
use crate::game_state::{views, Snake, SnakeView};
use crate::power_ups::{PowerUpKind, Purchases, PurchasesView};
use crate::server_message::{ReadyStatus, ReadyStatusView};

verus! {

/// The first place at which `id` stands in `ids`, if it stands there at all.
pub open spec fn position(ids: Seq<Seq<char>>, id: Seq<char>) -> Option<int>
    decreases ids.len(),
{
    if ids.len() == 0 {
        None
    } else {
        match position(ids.drop_last(), id) {
            Some(i) => Some(i),
            None => if ids.last() == id {
                Some(ids.len() - 1)
            } else {
                None
            },
        }
    }
}

/// What `position` finds is a place of `id` with no place of `id` before it,
/// and it finds nothing only where `id` does not stand.
pub proof fn lemma_position(ids: Seq<Seq<char>>, id: Seq<char>)
    ensures
        match position(ids, id) {
            Some(i) => 0 <= i < ids.len() && ids[i] == id && forall|j: int|
                0 <= j < i ==> ids[j] != id,
            None => forall|j: int| 0 <= j < ids.len() ==> ids[j] != id,
        },
    decreases ids.len(),
{
    if ids.len() > 0 {
        lemma_position(ids.drop_last(), id);
        assert forall|j: int| 0 <= j < ids.len() - 1 implies ids[j] == ids.drop_last()[j] by {}
    }
}

/// A place of `id` with no place of `id` before it is what `position` finds.
pub proof fn lemma_position_is(ids: Seq<Seq<char>>, id: Seq<char>, i: int)
    requires
        0 <= i < ids.len(),
        ids[i] == id,
        forall|j: int| 0 <= j < i ==> ids[j] != id,
    ensures
        position(ids, id) == Some(i),
{
    lemma_position(ids, id);
}

/// The players of a list of snakes, in the order of the list.
pub open spec fn snake_ids(snakes: Seq<SnakeView>) -> Seq<Seq<char>> {
    snakes.map_values(|snake: SnakeView| snake.user_id())
}

/// The players of a lobby, in the order of the list.
pub open spec fn ready_ids(status: Seq<ReadyStatusView>) -> Seq<Seq<char>> {
    status.map_values(|entry: ReadyStatusView| entry.user_id)
}

/// The players of a record of purchases, in the order of the list.
pub open spec fn purchase_ids(purchases: Seq<PurchasesView>) -> Seq<Seq<char>> {
    purchases.map_values(|entry: PurchasesView| entry.user_id)
}

/// The lobby after a player has said whether to be ready: the player's entry
/// is replaced where it stands, or added at the end.
pub open spec fn with_ready(status: Seq<ReadyStatusView>, id: Seq<char>, ready: bool) -> Seq<
    ReadyStatusView,
> {
    match position(ready_ids(status), id) {
        Some(i) => status.update(i, ReadyStatusView { user_id: id, ready }),
        None => status.push(ReadyStatusView { user_id: id, ready }),
    }
}

/// The record after a player has bought a power-up: it is added to the
/// player's entry, and a player without an entry gets one.
pub open spec fn with_purchase(
    purchases: Seq<PurchasesView>,
    id: Seq<char>,
    kind: PowerUpKind,
) -> Seq<PurchasesView> {
    match position(purchase_ids(purchases), id) {
        Some(i) => purchases.update(
            i,
            PurchasesView { user_id: id, power_ups: purchases[i].power_ups.push(kind) },
        ),
        None => purchases.push(PurchasesView { user_id: id, power_ups: seq![kind] }),
    }
}

/// The snakes after a player got a new snake: it replaces the player's snake
/// where that stands, or is added at the end.
pub open spec fn with_snake(snakes: Seq<SnakeView>, snake: SnakeView) -> Seq<SnakeView> {
    match position(snake_ids(snakes), snake.user_id()) {
        Some(i) => snakes.update(i, snake),
        None => snakes.push(snake),
    }
}

/// Finds the place of a player's snake.
pub fn find_snake(snakes: &Vec<Snake>, user_id: &String) -> (r: Option<usize>)
    ensures
        match r {
            Some(i) => i < snakes.len() && snakes@[i as int]@.user_id() == user_id@ && position(
                snake_ids(views(snakes@)),
                user_id@,
            ) == Some(i as int),
            None => position(snake_ids(views(snakes@)), user_id@) is None,
        },
{
    let ghost ids = snake_ids(views(snakes@));
    let mut i: usize = 0;
    while i < snakes.len()
        invariant
            i <= snakes.len(),
            ids == snake_ids(views(snakes@)),
            forall|j: int| 0 <= j < i ==> ids[j] != user_id@,
        decreases snakes.len() - i,
    {
        if *snakes[i].user_id() == *user_id {
            proof {
                lemma_position_is(ids, user_id@, i as int);
            }
            return Some(i);
        }
        i += 1;
    }
    proof {
        lemma_position(ids, user_id@);
    }
    None
}

/// Finds the place of a player's entry in the lobby.
pub fn find_ready(status: &Vec<ReadyStatus>, user_id: &String) -> (r: Option<usize>)
    ensures
        match r {
            Some(i) => i < status.len() && status@[i as int]@.user_id == user_id@ && position(
                ready_ids(views(status@)),
                user_id@,
            ) == Some(i as int),
            None => position(ready_ids(views(status@)), user_id@) is None,
        },
{
    let ghost ids = ready_ids(views(status@));
    let mut i: usize = 0;
    while i < status.len()
        invariant
            i <= status.len(),
            ids == ready_ids(views(status@)),
            forall|j: int| 0 <= j < i ==> ids[j] != user_id@,
        decreases status.len() - i,
    {
        if status[i].user_id == *user_id {
            proof {
                lemma_position_is(ids, user_id@, i as int);
            }
            return Some(i);
        }
        i += 1;
    }
    proof {
        lemma_position(ids, user_id@);
    }
    None
}

/// Finds the place of a player's entry in the record of purchases.
pub fn find_purchases(purchases: &Vec<Purchases>, user_id: &String) -> (r: Option<usize>)
    ensures
        match r {
            Some(i) => i < purchases.len() && purchases@[i as int]@.user_id == user_id@
                && position(purchase_ids(views(purchases@)), user_id@) == Some(i as int),
            None => position(purchase_ids(views(purchases@)), user_id@) is None,
        },
{
    let ghost ids = purchase_ids(views(purchases@));
    let mut i: usize = 0;
    while i < purchases.len()
        invariant
            i <= purchases.len(),
            ids == purchase_ids(views(purchases@)),
            forall|j: int| 0 <= j < i ==> ids[j] != user_id@,
        decreases purchases.len() - i,
    {
        if purchases[i].user_id == *user_id {
            proof {
                lemma_position_is(ids, user_id@, i as int);
            }
            return Some(i);
        }
        i += 1;
    }
    proof {
        lemma_position(ids, user_id@);
    }
    None
}

/// Records whether a player is ready.
pub fn set_ready(status: &mut Vec<ReadyStatus>, user_id: String, ready: bool)
    ensures
        views(final(status)@) == with_ready(views(old(status)@), user_id@, ready),
        ready_ids(views(old(status)@)).no_duplicates() ==> ready_ids(
            views(final(status)@),
        ).no_duplicates(),
{
    let ghost before = views(status@);
    proof {
        lemma_position(ready_ids(before), user_id@);
    }
    match find_ready(status, &user_id) {
        Some(i) => {
            status[i].ready = ready;
            proof {
                assert(views(status@) =~= before.update(
                    i as int,
                    ReadyStatusView { user_id: user_id@, ready },
                ));
                assert(ready_ids(views(status@)) =~= ready_ids(before));
            }
        },
        None => {
            status.push(ReadyStatus { user_id, ready });
            proof {
                assert(views(status@) =~= before.push(
                    ReadyStatusView { user_id: user_id@, ready },
                ));
                assert(ready_ids(views(status@)) =~= ready_ids(before).push(user_id@));
            }
        },
    }
}

/// Records that a player has bought a power-up.
pub fn record_purchase(purchases: &mut Vec<Purchases>, user_id: &String, kind: PowerUpKind)
    ensures
        views(final(purchases)@) == with_purchase(views(old(purchases)@), user_id@, kind),
        purchase_ids(views(old(purchases)@)).no_duplicates() ==> purchase_ids(
            views(final(purchases)@),
        ).no_duplicates(),
{
    let ghost before = views(purchases@);
    proof {
        lemma_position(purchase_ids(before), user_id@);
    }
    match find_purchases(purchases, user_id) {
        Some(i) => {
            purchases[i].power_ups.push(kind);
            proof {
                assert(views(purchases@) =~= before.update(
                    i as int,
                    PurchasesView {
                        user_id: user_id@,
                        power_ups: before[i as int].power_ups.push(kind),
                    },
                ));
                assert(purchase_ids(views(purchases@)) =~= purchase_ids(before));
            }
        },
        None => {
            let mut power_ups: Vec<PowerUpKind> = Vec::new();
            power_ups.push(kind);
            assert(power_ups@ =~= seq![kind]);
            purchases.push(Purchases { user_id: user_id.clone(), power_ups });
            proof {
                assert(views(purchases@) =~= before.push(
                    PurchasesView { user_id: user_id@, power_ups: seq![kind] },
                ));
                assert(purchase_ids(views(purchases@)) =~= purchase_ids(before).push(user_id@));
            }
        },
    }
}

/// Gives a player a new snake, in place of the one the player had.
pub fn put_snake(snakes: &mut Vec<Snake>, snake: Snake)
    ensures
        views(final(snakes)@) == with_snake(views(old(snakes)@), snake@),
        snake_ids(views(old(snakes)@)).no_duplicates() ==> snake_ids(
            views(final(snakes)@),
        ).no_duplicates(),
{
    let ghost before = views(snakes@);
    proof {
        lemma_position(snake_ids(before), snake@.user_id());
    }
    match find_snake(snakes, snake.user_id()) {
        Some(i) => {
            snakes[i] = snake;
            proof {
                assert(views(snakes@) =~= before.update(i as int, snake@));
                assert(snake_ids(views(snakes@)) =~= snake_ids(before));
            }
        },
        None => {
            snakes.push(snake);
            proof {
                assert(views(snakes@) =~= before.push(snake@));
                assert(snake_ids(views(snakes@)) =~= snake_ids(before).push(snake@.user_id()));
            }
        },
    }
}

/// Snakes that the engine can work on: each is well formed and no player
/// has two.
pub open spec fn snakes_wf(snakes: Seq<SnakeView>, cfg: GameConfig) -> bool {
    &&& snake_ids(snakes).no_duplicates()
    &&& forall|i: int| 0 <= i < snakes.len() ==> (#[trigger] snakes[i]).wf(cfg)
}

/// The number of cells of a snake; a dead snake has none.
pub open spec fn cells(snake: SnakeView) -> nat {
    match snake {
        SnakeView::Alive(alive) => alive.length(),
        SnakeView::Dead { .. } => 0,
    }
}

/// The length of the longest snake, and at least the length that a snake
/// enters the board with.
pub open spec fn longest(snakes: Seq<SnakeView>) -> nat
    decreases snakes.len(),
{
    if snakes.len() == 0 {
        INITIAL_LENGTH as nat
    } else if cells(snakes.last()) > longest(snakes.drop_last()) {
        cells(snakes.last())
    } else {
        longest(snakes.drop_last())
    }
}

/// No snake is longer than the longest.
pub proof fn lemma_longest_covers(snakes: Seq<SnakeView>, i: int)
    requires
        0 <= i < snakes.len(),
    ensures
        cells(snakes[i]) <= longest(snakes),
        INITIAL_LENGTH <= longest(snakes),
    decreases snakes.len(),
{
    lemma_longest_least(snakes.drop_last());
    if i < snakes.len() - 1 {
        lemma_longest_covers(snakes.drop_last(), i);
    }
}

/// The longest snake has at least the length that a snake enters with.
pub proof fn lemma_longest_least(snakes: Seq<SnakeView>)
    ensures
        INITIAL_LENGTH <= longest(snakes),
    decreases snakes.len(),
{
    if snakes.len() > 0 {
        lemma_longest_least(snakes.drop_last());
    }
}

/// A bound on every snake is a bound on the longest.
pub proof fn lemma_longest_bound(snakes: Seq<SnakeView>, bound: nat)
    requires
        INITIAL_LENGTH <= bound,
        forall|i: int| 0 <= i < snakes.len() ==> cells(#[trigger] snakes[i]) <= bound,
    ensures
        longest(snakes) <= bound,
    decreases snakes.len(),
{
    if snakes.len() > 0 {
        let rest = snakes.drop_last();
        assert forall|i: int| 0 <= i < rest.len() implies cells(#[trigger] rest[i]) <= bound by {
            assert(rest[i] == snakes[i]);
        }
        lemma_longest_bound(rest, bound);
        assert(snakes.last() == snakes[snakes.len() - 1]);
    }
}

/// Where one snake is replaced, the longest is no longer than the longer of
/// the former longest and the new snake.
pub proof fn lemma_longest_update(snakes: Seq<SnakeView>, i: int, snake: SnakeView)
    requires
        0 <= i < snakes.len(),
    ensures
        longest(snakes.update(i, snake)) <= longest(snakes) || longest(snakes.update(i, snake))
            <= cells(snake),
{
    let bound = if cells(snake) > longest(snakes) {
        cells(snake)
    } else {
        longest(snakes)
    };
    lemma_longest_least(snakes);
    let after = snakes.update(i, snake);
    assert forall|j: int| 0 <= j < after.len() implies cells(#[trigger] after[j]) <= bound by {
        if j != i {
            lemma_longest_covers(snakes, j);
        }
    }
    lemma_longest_bound(after, bound);
}

/// Replacing a snake by a well-formed snake of the same player keeps the
/// list well formed.
pub proof fn lemma_update_keeps_wf(
    snakes: Seq<SnakeView>,
    cfg: GameConfig,
    i: int,
    snake: SnakeView,
)
    requires
        snakes_wf(snakes, cfg),
        0 <= i < snakes.len(),
        snake.wf(cfg),
        snake.user_id() == snakes[i].user_id(),
    ensures
        snakes_wf(snakes.update(i, snake), cfg),
        snake_ids(snakes.update(i, snake)) == snake_ids(snakes),
{
    assert(snake_ids(snakes.update(i, snake)) =~= snake_ids(snakes));
}

} // verus!
