use multiplayer::config::GameConfig;
use multiplayer::game_state::{AliveSnake, Direction, Snake};
use multiplayer::overlap_detector::{detect_overlap, step_behind};
use multiplayer::server_message::SentSnake;
use multiplayer::snake::{advance_head, tick_down};

fn snake_at(head: (u32, u32), heading: Direction, blocks: Vec<(Direction, u32)>) -> AliveSnake {
    AliveSnake {
        user_id: "ann".to_string(),
        head,
        head_direction: heading,
        blocks,
        invulnerable_for: None,
        frozen_for: None,
        has_extra_life: false,
    }
}

fn total(snake: &AliveSnake) -> u64 {
    snake.blocks.iter().map(|run| run.1 as u64).sum()
}

#[test]
fn opposite_swaps_each_pair() {
    assert_eq!(Direction::Up.opposite(), Direction::Down);
    assert_eq!(Direction::Down.opposite(), Direction::Up);
    assert_eq!(Direction::Left.opposite(), Direction::Right);
    assert_eq!(Direction::Right.opposite(), Direction::Left);
}

#[test]
fn opposite_twice_is_identity() {
    for d in [Direction::Up, Direction::Down, Direction::Left, Direction::Right] {
        assert_eq!(d.opposite().opposite(), d);
        assert_ne!(d.opposite(), d);
    }
}

#[test]
fn set_direction_rejects_reversal_and_same_heading() {
    let mut snake = snake_at((5, 5), Direction::Up, vec![(Direction::Up, 3)]);
    snake.set_direction(Direction::Down);
    assert_eq!(snake.head_direction, Direction::Up);
    snake.set_direction(Direction::Up);
    assert_eq!(snake.head_direction, Direction::Up);
    assert_eq!(snake.blocks, vec![(Direction::Up, 3)]);
}

#[test]
fn set_direction_accepts_a_side_turn() {
    let mut snake = snake_at((5, 5), Direction::Up, vec![(Direction::Up, 3)]);
    snake.set_direction(Direction::Left);
    assert_eq!(snake.head_direction, Direction::Left);
    snake.set_direction(Direction::Right);
    assert_eq!(snake.head_direction, Direction::Left);
    snake.set_direction(Direction::Down);
    assert_eq!(snake.head_direction, Direction::Down);
}

#[test]
fn overlap_finds_the_head() {
    let cfg = GameConfig::default();
    let snake = snake_at((5, 5), Direction::Up, vec![(Direction::Up, 3)]);
    assert!(detect_overlap(&(5, 5), &snake, &cfg));
}

#[test]
fn overlap_walks_a_straight_body() {
    let cfg = GameConfig::default();
    let snake = snake_at((5, 5), Direction::Up, vec![(Direction::Up, 3)]);
    assert!(detect_overlap(&(5, 6), &snake, &cfg));
    assert!(detect_overlap(&(5, 7), &snake, &cfg));
    assert!(!detect_overlap(&(5, 8), &snake, &cfg));
    assert!(!detect_overlap(&(5, 4), &snake, &cfg));
    assert!(!detect_overlap(&(4, 5), &snake, &cfg));
}

#[test]
fn overlap_follows_each_heading() {
    let cfg = GameConfig::default();
    let down = snake_at((5, 5), Direction::Down, vec![(Direction::Down, 2)]);
    assert!(detect_overlap(&(5, 4), &down, &cfg));
    assert!(!detect_overlap(&(5, 6), &down, &cfg));
    let left = snake_at((5, 5), Direction::Left, vec![(Direction::Left, 2)]);
    assert!(detect_overlap(&(6, 5), &left, &cfg));
    assert!(!detect_overlap(&(4, 5), &left, &cfg));
    let right = snake_at((5, 5), Direction::Right, vec![(Direction::Right, 2)]);
    assert!(detect_overlap(&(4, 5), &right, &cfg));
    assert!(!detect_overlap(&(6, 5), &right, &cfg));
}

#[test]
fn overlap_walks_round_a_corner() {
    let cfg = GameConfig::default();
    let snake =
        snake_at((5, 5), Direction::Left, vec![(Direction::Left, 2), (Direction::Up, 2)]);
    for cell in [(5, 5), (6, 5), (7, 5), (7, 6)] {
        assert!(detect_overlap(&cell, &snake, &cfg), "{:?}", cell);
    }
    for cell in [(8, 5), (7, 7), (6, 6), (5, 6), (4, 5)] {
        assert!(!detect_overlap(&cell, &snake, &cfg), "{:?}", cell);
    }
}

#[test]
fn overlap_of_a_body_without_cells_is_false() {
    let cfg = GameConfig::default();
    let empty = snake_at((5, 5), Direction::Up, vec![]);
    assert!(!detect_overlap(&(5, 5), &empty, &cfg));
    let hollow = snake_at((5, 5), Direction::Up, vec![(Direction::Up, 0)]);
    assert!(!detect_overlap(&(5, 5), &hollow, &cfg));
}

#[test]
fn overlap_follows_the_body_round_the_board() {
    let cfg = GameConfig::default();
    let crossed = snake_at((5, 0), Direction::Down, vec![(Direction::Down, 3)]);
    assert!(detect_overlap(&(5, 0), &crossed, &cfg));
    assert!(detect_overlap(&(5, 49), &crossed, &cfg));
    assert!(detect_overlap(&(5, 48), &crossed, &cfg));
    assert!(!detect_overlap(&(5, 47), &crossed, &cfg));
    assert!(!detect_overlap(&(5, 1), &crossed, &cfg));
    assert!(!detect_overlap(&(5, u32::MAX), &crossed, &cfg));
    let right = snake_at((0, 0), Direction::Right, vec![(Direction::Right, 3)]);
    for cell in [(0, 0), (99, 0), (98, 0)] {
        assert!(detect_overlap(&cell, &right, &cfg), "{:?}", cell);
    }
    for cell in [(97, 0), (1, 0), (u32::MAX, 0), (u32::MAX - 1, 0)] {
        assert!(!detect_overlap(&cell, &right, &cfg), "{:?}", cell);
    }
    let up = snake_at((7, 48), Direction::Up, vec![(Direction::Up, 4)]);
    for cell in [(7, 48), (7, 49), (7, 0), (7, 1)] {
        assert!(detect_overlap(&cell, &up, &cfg), "{:?}", cell);
    }
    assert!(!detect_overlap(&(7, 2), &up, &cfg));
    assert!(!detect_overlap(&(7, 50), &up, &cfg));
    let left = snake_at((99, 3), Direction::Left, vec![(Direction::Left, 2)]);
    assert!(detect_overlap(&(0, 3), &left, &cfg));
    assert!(!detect_overlap(&(100, 3), &left, &cfg));
    assert!(!detect_overlap(&(1, 3), &left, &cfg));
}

#[test]
fn overlap_follows_a_corner_across_two_edges() {
    let cfg = GameConfig::default();
    let snake =
        snake_at((99, 49), Direction::Left, vec![(Direction::Left, 2), (Direction::Up, 2)]);
    for cell in [(99, 49), (0, 49), (1, 49), (1, 0)] {
        assert!(detect_overlap(&cell, &snake, &cfg), "{:?}", cell);
    }
    for cell in [(2, 49), (1, 1), (1, 50), (100, 49), (0, 0)] {
        assert!(!detect_overlap(&cell, &snake, &cfg), "{:?}", cell);
    }
}

#[test]
fn overlap_walks_the_board_that_it_is_given() {
    let small = GameConfig { board_width: 4, board_height: 3, ..GameConfig::default() };
    let snake = snake_at((3, 2), Direction::Left, vec![(Direction::Left, 3), (Direction::Up, 2)]);
    for cell in [(3, 2), (0, 2), (1, 2), (2, 2), (2, 0)] {
        assert!(detect_overlap(&cell, &snake, &small), "{:?}", cell);
    }
    for cell in [(2, 1), (3, 0), (4, 2), (2, 3)] {
        assert!(!detect_overlap(&cell, &snake, &small), "{:?}", cell);
    }
}

#[test]
fn a_step_behind_undoes_a_step_ahead() {
    let cfg = GameConfig::default();
    for heading in [Direction::Up, Direction::Down, Direction::Left, Direction::Right] {
        for cell in [(0, 0), (99, 49), (0, 49), (99, 0), (50, 25)] {
            assert_eq!(step_behind(advance_head(cell, heading, &cfg), heading, &cfg), cell);
            assert_eq!(advance_head(step_behind(cell, heading, &cfg), heading, &cfg), cell);
            assert_eq!(
                step_behind(cell, heading, &cfg),
                advance_head(cell, heading.opposite(), &cfg)
            );
        }
    }
    assert_eq!(step_behind((5, 49), Direction::Up, &cfg), (5, 0));
    assert_eq!(step_behind((5, 0), Direction::Down, &cfg), (5, 49));
    assert_eq!(step_behind((99, 7), Direction::Left, &cfg), (0, 7));
    assert_eq!(step_behind((0, 7), Direction::Right, &cfg), (99, 7));
}

#[test]
fn grow_extends_the_tail() {
    let mut snake =
        snake_at((5, 5), Direction::Left, vec![(Direction::Left, 2), (Direction::Up, 4)]);
    snake.grow(10);
    assert_eq!(snake.blocks, vec![(Direction::Left, 2), (Direction::Up, 14)]);
    snake.grow(2);
    assert_eq!(snake.blocks, vec![(Direction::Left, 2), (Direction::Up, 16)]);
    assert_eq!(total(&snake), 18);
}

#[test]
fn shrink_of_length_five_by_ten_floors_at_three() {
    let mut snake =
        snake_at((5, 5), Direction::Up, vec![(Direction::Up, 2), (Direction::Left, 3)]);
    snake.shrink(10);
    assert_eq!(snake.blocks, vec![(Direction::Up, 3)]);
    let mut single = snake_at((5, 5), Direction::Up, vec![(Direction::Up, 5)]);
    single.shrink(10);
    assert_eq!(single.blocks, vec![(Direction::Up, 3)]);
}

#[test]
fn shrink_trims_the_tail_run_first() {
    let mut snake =
        snake_at((5, 5), Direction::Up, vec![(Direction::Up, 4), (Direction::Left, 12)]);
    snake.shrink(10);
    assert_eq!(snake.blocks, vec![(Direction::Up, 4), (Direction::Left, 2)]);
}

#[test]
fn shrink_removes_a_run_that_is_used_up() {
    let mut snake =
        snake_at((5, 5), Direction::Up, vec![(Direction::Up, 4), (Direction::Left, 10)]);
    snake.shrink(10);
    assert_eq!(snake.blocks, vec![(Direction::Up, 4)]);
}

#[test]
fn shrink_pops_whole_runs_then_trims() {
    let mut snake = snake_at(
        (5, 5),
        Direction::Up,
        vec![(Direction::Up, 20), (Direction::Left, 3), (Direction::Down, 4)],
    );
    snake.shrink(10);
    assert_eq!(snake.blocks, vec![(Direction::Up, 17)]);
    let mut long = snake_at((5, 5), Direction::Up, vec![(Direction::Up, 40)]);
    long.shrink(10);
    assert_eq!(long.blocks, vec![(Direction::Up, 30)]);
}

#[test]
fn shrink_by_nothing_changes_nothing() {
    let mut snake = snake_at((5, 5), Direction::Up, vec![(Direction::Up, 2)]);
    snake.shrink(0);
    assert_eq!(snake.blocks, vec![(Direction::Up, 2)]);
}

#[test]
fn advance_straight_keeps_the_body() {
    let cfg = GameConfig::default();
    let mut snake = snake_at((5, 5), Direction::Up, vec![(Direction::Up, 3)]);
    snake.advance(&cfg);
    assert_eq!(snake.head, (5, 4));
    assert_eq!(snake.blocks, vec![(Direction::Up, 3)]);
}

#[test]
fn advance_after_a_turn_starts_a_new_run() {
    let cfg = GameConfig::default();
    let mut snake = snake_at((5, 5), Direction::Left, vec![(Direction::Up, 3)]);
    snake.advance(&cfg);
    assert_eq!(snake.head, (4, 5));
    assert_eq!(snake.blocks, vec![(Direction::Left, 1), (Direction::Up, 2)]);
    snake.advance(&cfg);
    assert_eq!(snake.head, (3, 5));
    assert_eq!(snake.blocks, vec![(Direction::Left, 2), (Direction::Up, 1)]);
    snake.advance(&cfg);
    assert_eq!(snake.head, (2, 5));
    assert_eq!(snake.blocks, vec![(Direction::Left, 3)]);
    assert_eq!(total(&snake), 3);
}

#[test]
fn advance_wraps_round_every_edge() {
    let cfg = GameConfig::default();
    assert_eq!(advance_head((0, 0), Direction::Up, &cfg), (0, 49));
    assert_eq!(advance_head((0, 0), Direction::Left, &cfg), (99, 0));
    assert_eq!(advance_head((99, 49), Direction::Down, &cfg), (99, 0));
    assert_eq!(advance_head((99, 49), Direction::Right, &cfg), (0, 49));
    assert_eq!(advance_head((7, 8), Direction::Down, &cfg), (7, 9));
    assert_eq!(advance_head((7, 8), Direction::Right, &cfg), (8, 8));
}

#[test]
fn advance_leaves_a_frozen_snake() {
    let cfg = GameConfig::default();
    let mut snake = snake_at((5, 5), Direction::Left, vec![(Direction::Up, 3)]);
    snake.frozen_for = Some(0);
    snake.advance(&cfg);
    assert_eq!(snake.head, (5, 5));
    assert_eq!(snake.blocks, vec![(Direction::Up, 3)]);
}

#[test]
fn advance_of_a_one_cell_snake_after_a_turn() {
    let cfg = GameConfig::default();
    let mut snake = snake_at((5, 5), Direction::Right, vec![(Direction::Up, 1)]);
    snake.advance(&cfg);
    assert_eq!(snake.head, (6, 5));
    assert_eq!(snake.blocks, vec![(Direction::Right, 1)]);
}

#[test]
fn timers_count_down_and_clear() {
    assert_eq!(tick_down(Some(2)), Some(1));
    assert_eq!(tick_down(Some(1)), Some(0));
    assert_eq!(tick_down(Some(0)), None);
    assert_eq!(tick_down(None), None);
    let mut snake = snake_at((5, 5), Direction::Up, vec![(Direction::Up, 3)]);
    snake.invulnerable_for = Some(1);
    snake.frozen_for = Some(0);
    snake.decay();
    assert_eq!(snake.invulnerable_for, Some(0));
    assert_eq!(snake.frozen_for, None);
    let mut dead = Snake::Dead { user_id: "bob".to_string(), head: (1, 1), ticks_to_revive: Some(0) };
    assert!(dead.in_play());
    dead.decay();
    assert_eq!(
        dead,
        Snake::Dead { user_id: "bob".to_string(), head: (1, 1), ticks_to_revive: None }
    );
    assert!(!dead.in_play());
}

#[test]
fn revived_snake_enters_at_the_centre() {
    let cfg = GameConfig::default();
    let snake = Snake::revived("bob".to_string(), &cfg);
    assert_eq!(
        snake,
        Snake::Alive(AliveSnake {
            user_id: "bob".to_string(),
            head: (50, 25),
            head_direction: Direction::Up,
            blocks: vec![(Direction::Down, 3)],
            invulnerable_for: Some(30),
            frozen_for: None,
            has_extra_life: false,
        })
    );
    assert!(snake.is_well_formed(&cfg));
}

#[test]
fn strike_spends_the_extra_life_or_kills() {
    let cfg = GameConfig::default();
    let mut lucky = snake_at((5, 5), Direction::Up, vec![(Direction::Up, 3)]);
    lucky.has_extra_life = true;
    let mut lucky = Snake::Alive(lucky);
    lucky.strike(&cfg);
    match &lucky {
        Snake::Alive(alive) => {
            assert!(!alive.has_extra_life);
            assert_eq!(alive.invulnerable_for, Some(30));
            assert_eq!(alive.head, (5, 5));
        }
        Snake::Dead { .. } => panic!("the extra life saves the snake"),
    }
    let mut plain = Snake::Alive(snake_at((5, 5), Direction::Up, vec![(Direction::Up, 3)]));
    plain.strike(&cfg);
    assert_eq!(
        plain,
        Snake::Dead { user_id: "ann".to_string(), head: (5, 5), ticks_to_revive: Some(100) }
    );
}

#[test]
fn length_and_well_formedness_are_told() {
    let cfg = GameConfig::default();
    let good = snake_at((5, 5), Direction::Up, vec![(Direction::Up, 3), (Direction::Left, 4)]);
    assert_eq!(good.length(), Some(7));
    assert!(good.is_well_formed(&cfg));
    let huge =
        snake_at((5, 5), Direction::Up, vec![(Direction::Up, u32::MAX), (Direction::Left, 1)]);
    assert_eq!(huge.length(), None);
    assert!(!huge.is_well_formed(&cfg));
    let repeated = snake_at((5, 5), Direction::Up, vec![(Direction::Up, 3), (Direction::Up, 4)]);
    assert!(!repeated.is_well_formed(&cfg));
    let hollow = snake_at((5, 5), Direction::Up, vec![(Direction::Up, 3), (Direction::Left, 0)]);
    assert!(!hollow.is_well_formed(&cfg));
    let off_board = snake_at((100, 5), Direction::Up, vec![(Direction::Up, 3)]);
    assert!(!off_board.is_well_formed(&cfg));
    let no_body = snake_at((5, 5), Direction::Up, vec![]);
    assert!(!no_body.is_well_formed(&cfg));
}

#[test]
fn sent_snake_shows_flags_not_timers() {
    let mut alive = snake_at((5, 5), Direction::Up, vec![(Direction::Up, 3)]);
    alive.invulnerable_for = Some(7);
    alive.has_extra_life = true;
    let sent: SentSnake = (&Snake::Alive(alive)).into();
    assert_eq!(
        sent,
        SentSnake::Alive {
            user_id: "ann".to_string(),
            head: (5, 5),
            head_direction: Direction::Up,
            blocks: vec![(Direction::Up, 3)],
            invulnerable: true,
            frozen: false,
            has_extra_life: true,
        }
    );
    let waiting = Snake::Dead { user_id: "bob".to_string(), head: (1, 1), ticks_to_revive: Some(42) };
    assert_eq!(
        SentSnake::from(&waiting),
        SentSnake::Dead { user_id: "bob".to_string(), revive_left: 42 }
    );
    let gone = Snake::Dead { user_id: "bob".to_string(), head: (1, 1), ticks_to_revive: None };
    assert_eq!(
        SentSnake::from(&gone),
        SentSnake::Dead { user_id: "bob".to_string(), revive_left: 0 }
    );
}

#[test]
fn clones_are_equal() {
    let snake = Snake::Alive(snake_at((5, 5), Direction::Up, vec![(Direction::Up, 3)]));
    assert_eq!(snake.clone(), snake);
}

#[test]
fn the_body_trails_the_head_across_the_edge() {
    let cfg = GameConfig::default();
    let mut snake = snake_at((5, 49), Direction::Down, vec![(Direction::Down, 3)]);
    for cell in [(5, 49), (5, 48), (5, 47)] {
        assert!(detect_overlap(&cell, &snake, &cfg), "{:?}", cell);
    }
    snake.advance(&cfg);
    assert_eq!(snake.head, (5, 0));
    for cell in [(5, 0), (5, 49), (5, 48)] {
        assert!(detect_overlap(&cell, &snake, &cfg), "{:?}", cell);
    }
    assert!(!detect_overlap(&(5, 47), &snake, &cfg));
    snake.set_direction(Direction::Left);
    snake.advance(&cfg);
    assert_eq!(snake.head, (4, 0));
    assert_eq!(snake.blocks, vec![(Direction::Left, 1), (Direction::Down, 2)]);
    for cell in [(4, 0), (5, 0), (5, 49)] {
        assert!(detect_overlap(&cell, &snake, &cfg), "{:?}", cell);
    }
    assert!(!detect_overlap(&(5, 48), &snake, &cfg));
}
