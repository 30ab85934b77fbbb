use snake::board::{Board, BOARD_SIZE, OPPONENT_CHAR, PLAYER_CHAR, TARGET_CHAR};
use snake::util::RandomSource;

#[test]
fn new_board_is_blank() {
    let board = Board::new();
    for i in 0..BOARD_SIZE {
        for j in 0..BOARD_SIZE {
            assert_eq!(board.value((i, j)), ' ');
        }
    }
    assert!(!board.is_full());
}

#[test]
fn mark_value_unmark() {
    let mut board = Board::new();
    board.mark((2, 3), PLAYER_CHAR);
    assert_eq!(board.value((2, 3)), '+');
    assert_eq!(board.value((3, 2)), ' ');
    board.mark((2, 3), OPPONENT_CHAR);
    assert_eq!(board.value((2, 3)), '-');
    board.unmark((2, 3));
    assert_eq!(board.value((2, 3)), ' ');
}

#[test]
fn full_board_is_full() {
    let mut board = Board::new();
    for i in 0..BOARD_SIZE {
        for j in 0..BOARD_SIZE {
            board.mark((i, j), PLAYER_CHAR);
        }
    }
    assert!(board.is_full());
}

#[test]
fn target_cell_still_counts_as_room() {
    let mut board = Board::new();
    for i in 0..BOARD_SIZE {
        for j in 0..BOARD_SIZE {
            board.mark((i, j), PLAYER_CHAR);
        }
    }
    board.mark((4, 4), TARGET_CHAR);
    assert!(!board.is_full());
    board.mark((4, 4), PLAYER_CHAR);
    assert!(board.is_full());
}

#[test]
fn one_blank_cell_is_room() {
    let mut board = Board::new();
    for i in 0..BOARD_SIZE {
        for j in 0..BOARD_SIZE {
            board.mark((i, j), OPPONENT_CHAR);
        }
    }
    board.unmark((7, 7));
    assert!(!board.is_full());
}

#[test]
fn draw_blank_board() {
    let board = Board::new();
    let expected = "+ +  +  +  +  +  +  +  + +\n\
                    +                        +\n\
                    +                        +\n\
                    +                        +\n\
                    +                        +\n\
                    +                        +\n\
                    +                        +\n\
                    +                        +\n\
                    +                        +\n\
                    + +  +  +  +  +  +  +  + +\n";
    assert_eq!(board.draw(), expected);
}

#[test]
fn draw_shows_cell_at_its_place() {
    let mut board = Board::new();
    board.mark((0, 0), PLAYER_CHAR);
    board.mark((7, 7), TARGET_CHAR);
    let s = board.draw();
    let chars: Vec<char> = s.chars().collect();
    // one border line of 27 chars, then per row: '+' and three chars per cell
    assert_eq!(chars[27 + 1 + 1], '+');
    assert_eq!(chars[27 * 8 + 1 + 3 * 7 + 1], 'o');
}

#[test]
fn random_position_is_deterministic() {
    let board = Board::new();
    let mut rng_a = RandomSource::new(42);
    let mut rng_b = RandomSource::new(42);
    let a = board.random_position(&mut rng_a);
    let b = board.random_position(&mut rng_b);
    assert_eq!(a, b);
    let p = a.unwrap();
    assert!(p.0 < BOARD_SIZE && p.1 < BOARD_SIZE);
}

#[test]
fn random_position_none_when_no_blank_cell() {
    let mut board = Board::new();
    for i in 0..BOARD_SIZE {
        for j in 0..BOARD_SIZE {
            board.mark((i, j), PLAYER_CHAR);
        }
    }
    let mut rng = RandomSource::new(1);
    assert_eq!(board.random_position(&mut rng), None);
}

#[test]
fn random_position_single_blank_cell() {
    let mut board = Board::new();
    for i in 0..BOARD_SIZE {
        for j in 0..BOARD_SIZE {
            board.mark((i, j), PLAYER_CHAR);
        }
    }
    board.unmark((3, 6));
    let mut rng = RandomSource::new(9);
    assert_eq!(board.random_position(&mut rng), Some((3, 6)));
}
