use snake::{Cell, Coord, Direction, MyError, Snake};

fn cell(x: u32, y: u32) -> Cell {
    (Coord::new(x), Coord::new(y))
}

fn body(s: &Snake) -> Vec<Cell> {
    s.body().iter().copied().collect()
}

#[test]
fn level_without_direction_is_refused() {
    assert_eq!(Snake::load_from_file("===").err(), Some(MyError::NoDirection));
    assert_eq!(Snake::load_from_file("").err(), Some(MyError::NoDirection));
    assert_eq!(Snake::load_from_file("--\n- -").err(), Some(MyError::NoDirection));
}

#[test]
fn later_marker_is_head() {
    let s = Snake::load_from_file("d\n r").unwrap();
    assert_eq!(body(&s), vec![cell(1, 1), cell(0, 0)]);
    assert_eq!(s.direction(), Direction::RIGHT);
    let s = Snake::load_from_file("r=").unwrap();
    assert_eq!(body(&s), vec![cell(1, 0), cell(0, 0)]);
    assert_eq!(s.direction(), Direction::RIGHT);
}

#[test]
fn reversal_is_ignored() {
    let mut s = Snake::load_from_file(" \nu").unwrap();
    assert_eq!(s.direction(), Direction::UP);
    s.update_direction(Direction::DOWN);
    assert_eq!(s.direction(), Direction::UP);
    s.update_direction(Direction::LEFT);
    assert_eq!(s.direction(), Direction::LEFT);
}

#[test]
fn move_keeps_length() {
    let mut s = Snake::load_from_file("r=").unwrap();
    s.update();
    assert_eq!(body(&s), vec![cell(2, 0), cell(1, 0)]);
}

#[test]
fn each_heading_moves_one_cell() {
    let mut s = Snake::load_from_file("\n\n  d").unwrap();
    s.update();
    assert_eq!(body(&s), vec![cell(2, 3)]);
    s.update_direction(Direction::LEFT);
    s.update();
    assert_eq!(body(&s), vec![cell(1, 3)]);
    s.update_direction(Direction::UP);
    s.update();
    assert_eq!(body(&s), vec![cell(1, 2)]);
    s.update_direction(Direction::RIGHT);
    s.update();
    assert_eq!(body(&s), vec![cell(2, 2)]);
}

#[test]
fn next_head_stops_at_the_edge() {
    let s = Snake::load_from_file("u").unwrap();
    assert_eq!(s.next_head(), None);
    let s = Snake::load_from_file("l").unwrap();
    assert_eq!(s.next_head(), None);
    let s = Snake::load_from_file("d").unwrap();
    assert_eq!(s.next_head(), Some(cell(0, 1)));
}

#[test]
fn growth_on_matching_tail_is_immediate() {
    let mut s = Snake::load_from_file("r=").unwrap();
    s.put_food(cell(0, 0));
    s.update();
    assert_eq!(body(&s), vec![cell(2, 0), cell(1, 0), cell(0, 0)]);
    assert!(s.pending_growth().is_empty());
}

#[test]
fn growth_waits_for_the_tail() {
    let mut s = Snake::load_from_file("r==").unwrap();
    assert_eq!(body(&s), vec![cell(2, 0), cell(1, 0), cell(0, 0)]);
    s.put_food(cell(1, 0));
    s.update();
    assert_eq!(body(&s).len(), 3);
    s.update();
    assert_eq!(body(&s).len(), 3);
    assert_eq!(s.pending_growth().len(), 1);
    s.update();
    assert_eq!(body(&s), vec![cell(5, 0), cell(4, 0), cell(3, 0), cell(2, 0)]);
    assert!(s.pending_growth().is_empty());
}

#[test]
fn unmatched_food_stays_queued() {
    let mut s = Snake::load_from_file("r=").unwrap();
    s.put_food(cell(5, 5));
    s.update();
    s.update();
    assert_eq!(body(&s).len(), 2);
    assert_eq!(s.pending_growth().iter().copied().collect::<Vec<Cell>>(), vec![cell(5, 5)]);
}
