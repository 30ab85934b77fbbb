use snake::direction::Direction;
use snake::snake::Snake;

#[test]
fn wrap_right_at_last_column() {
    let mut s = Snake::new((3, 7), Direction::Right);
    s.update();
    assert_eq!(s.head(), (3, 0));
}

#[test]
fn wrap_down_at_last_row() {
    let mut s = Snake::new((7, 3), Direction::Down);
    s.update();
    assert_eq!(s.head(), (0, 3));
}

#[test]
fn wrap_left_at_first_column() {
    let mut s = Snake::new((3, 0), Direction::Left);
    s.update();
    assert_eq!(s.head(), (3, 7));
}

#[test]
fn wrap_up_at_first_row() {
    let mut s = Snake::new((0, 3), Direction::Up);
    s.update();
    assert_eq!(s.head(), (7, 3));
}

#[test]
fn reversal_is_rejected() {
    let mut s = Snake::new((3, 3), Direction::Right);
    s.control(Direction::Left);
    s.update();
    // the heading stayed Right
    assert_eq!(s.head(), (3, 4));

    let mut s = Snake::new((3, 3), Direction::Up);
    s.control(Direction::Down);
    s.update();
    assert_eq!(s.head(), (2, 3));
}

#[test]
fn other_headings_are_taken() {
    let mut s = Snake::new((3, 3), Direction::Right);
    s.control(Direction::Down);
    s.update();
    assert_eq!(s.head(), (4, 3));

    // the same heading is accepted too
    let mut s = Snake::new((3, 3), Direction::Right);
    s.control(Direction::Right);
    s.update();
    assert_eq!(s.head(), (3, 4));

    let mut s = Snake::new((3, 3), Direction::Left);
    s.control(Direction::Up);
    s.update();
    assert_eq!(s.head(), (2, 3));
}

#[test]
fn grow_appends_tail() {
    let mut s = Snake::new((2, 2), Direction::Right);
    assert_eq!(s.size(), 1);
    s.update();
    assert_eq!(s.head(), (2, 3));
    s.grow((2, 2));
    assert_eq!(s.size(), 2);
    assert_eq!(s.head(), (2, 3));
    assert_eq!(s.tail(), (2, 2));
    s.update();
    assert_eq!(s.head(), (2, 4));
    assert_eq!(s.tail(), (2, 3));
}

#[test]
fn update_shifts_every_segment() {
    let mut s = Snake::new((0, 0), Direction::Down);
    s.grow((0, 1));
    s.grow((0, 2));
    assert_eq!(s.size(), 3);
    s.update();
    assert_eq!(s.head(), (1, 0));
    assert_eq!(s.tail(), (0, 1));
    s.update();
    assert_eq!(s.head(), (2, 0));
    assert_eq!(s.tail(), (0, 0));
}

#[test]
fn direction_codes_round_trip() {
    assert_eq!(Direction::from(0), Direction::Right);
    assert_eq!(Direction::from(1), Direction::Down);
    assert_eq!(Direction::from(2), Direction::Left);
    assert_eq!(Direction::from(3), Direction::Up);
    assert_eq!(Direction::Right.code(), 0);
    assert_eq!(Direction::Down.code(), 1);
    assert_eq!(Direction::Left.code(), 2);
    assert_eq!(Direction::Up.code(), 3);
}
