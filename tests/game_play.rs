use snake::{Cell, Coord, Direction, Game, Key, MyError, MOVING_PERIOD};

fn cell(x: u32, y: u32) -> Cell {
    (Coord::new(x), Coord::new(y))
}

fn body(g: &Game) -> Vec<Cell> {
    g.snake().body().iter().copied().collect()
}

#[test]
fn game_needs_a_direction() {
    assert_eq!(Game::create_form_level_file("==\n--").err(), Some(MyError::NoDirection));
}

#[test]
fn single_row_level_moves_right() {
    let mut g = Game::create_form_level_file("r=").unwrap();
    assert_eq!(g.field_width(), 2);
    assert_eq!(g.field_height(), 1);
    assert_eq!(g.food(), None);
    g.update(MOVING_PERIOD);
    assert!(!g.is_over());
    assert_eq!(body(&g), vec![cell(2, 0), cell(1, 0)]);
}

#[test]
fn no_move_before_the_period() {
    let mut g = Game::create_form_level_file("r   ").unwrap();
    g.update(MOVING_PERIOD - 1);
    assert_eq!(body(&g), vec![cell(0, 0)]);
    g.update(1);
    assert_eq!(body(&g), vec![cell(1, 0)]);
}

#[test]
fn wall_ends_the_game() {
    let mut g = Game::create_form_level_file("r-").unwrap();
    g.update(MOVING_PERIOD);
    assert!(!g.is_over());
    assert_eq!(body(&g), vec![cell(1, 0)]);
    g.update(MOVING_PERIOD);
    assert!(g.is_over());
    assert_eq!(g.collision(), Some(cell(1, 0)));
    assert_eq!(body(&g), vec![cell(1, 0)]);
    g.update(MOVING_PERIOD);
    assert_eq!(body(&g), vec![cell(1, 0)]);
}

#[test]
fn biting_itself_ends_the_game() {
    let mut g = Game::create_form_level_file("==\nu=").unwrap();
    assert_eq!(body(&g), vec![cell(1, 1), cell(0, 1), cell(1, 0), cell(0, 0)]);
    g.update(MOVING_PERIOD);
    assert!(!g.is_over());
    g.update(0);
    assert!(g.is_over());
    assert_eq!(g.collision(), Some(cell(1, 0)));
}

#[test]
fn leaving_the_coordinate_range_ends_the_game() {
    let mut g = Game::create_form_level_file("r ").unwrap();
    g.key_pressed(Key::Up);
    g.update(MOVING_PERIOD);
    assert!(g.is_over());
    assert_eq!(g.collision(), Some(cell(0, 0)));
}

#[test]
fn key_turns_on_the_next_tick() {
    let mut g = Game::create_form_level_file("r \n  \n").unwrap();
    g.key_pressed(Key::Down);
    assert_eq!(g.snake().direction(), Direction::RIGHT);
    g.key_pressed(Key::Other);
    g.update(MOVING_PERIOD);
    assert_eq!(g.snake().direction(), Direction::DOWN);
    assert_eq!(body(&g), vec![cell(0, 1)]);
}

#[test]
fn reversing_key_is_ignored() {
    let mut g = Game::create_form_level_file("r  ").unwrap();
    g.key_pressed(Key::Left);
    g.update(MOVING_PERIOD);
    assert_eq!(g.snake().direction(), Direction::RIGHT);
    assert_eq!(body(&g), vec![cell(1, 0)]);
}

#[test]
fn food_lands_on_a_free_cell() {
    for _ in 0..20 {
        let g = Game::create_form_level_file("-r  -\n-=  -").unwrap();
        let candidates = g.food_candidates();
        assert_eq!(candidates, vec![cell(2, 0), cell(3, 0), cell(2, 1), cell(3, 1)]);
        let f = g.food().unwrap();
        assert!(candidates.contains(&f));
    }
}

#[test]
fn no_food_when_the_snake_fills_the_floor() {
    let g = Game::create_form_level_file("-r=-\n----").unwrap();
    assert!(g.food_candidates().is_empty());
    assert_eq!(g.food(), None);
}

#[test]
fn pick_food_wraps_around() {
    let c = vec![cell(1, 0), cell(2, 0), cell(3, 0)];
    assert_eq!(Game::pick_food(&c, 0), Some(cell(1, 0)));
    assert_eq!(Game::pick_food(&c, 4), Some(cell(2, 0)));
    assert_eq!(Game::pick_food(&Vec::new(), 4), None);
}

#[test]
fn eating_queues_growth_and_replaces_food() {
    let mut g = Game::create_form_level_file("r ").unwrap();
    assert_eq!(g.food(), Some(cell(1, 0)));
    g.update(MOVING_PERIOD);
    assert_eq!(body(&g), vec![cell(1, 0)]);
    g.update(0);
    assert_eq!(g.snake().pending_growth().iter().copied().collect::<Vec<Cell>>(), vec![cell(1, 0)]);
    assert_eq!(g.food(), Some(cell(0, 0)));
}

#[test]
fn restart_gives_a_fresh_game() {
    let level = "r-";
    let mut g = Game::create_form_level_file(level).unwrap();
    g.update(MOVING_PERIOD);
    g.update(MOVING_PERIOD);
    assert!(g.is_over());
    let g = Game::create_form_level_file(level).unwrap();
    assert!(!g.is_over());
    assert_eq!(g.collision(), None);
    assert_eq!(body(&g), vec![cell(0, 0)]);
    assert_eq!(g.snake().direction(), Direction::RIGHT);
}
