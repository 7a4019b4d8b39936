use snake::{to_coord_u32, Cell, CellType, Coord, Field, MyError};

fn cell(x: u32, y: u32) -> Cell {
    (Coord::new(x), Coord::new(y))
}

#[test]
fn coord_arithmetic_is_checked() {
    assert_eq!(Coord::new(3).checked_add(2), Some(Coord::new(5)));
    assert_eq!(Coord::new(u32::MAX).checked_add(1), None);
    assert_eq!(Coord::new(3).checked_sub(3), Some(Coord::new(0)));
    assert_eq!(Coord::new(0).checked_sub(1), None);
    assert_eq!(Coord::new(7).index(), 7usize);
    assert_eq!(Coord::new(7).value(), 7);
}

#[test]
fn pixel_offset_is_scaled_and_saturates() {
    assert_eq!(to_coord_u32(Coord::new(0)), 0);
    assert_eq!(to_coord_u32(Coord::new(4)), 100);
    assert_eq!(to_coord_u32(Coord::new(u32::MAX)), u32::MAX);
}

#[test]
fn error_describes_itself() {
    assert_eq!(MyError::NoDirection.description(), "no direction found in level file");
}

#[test]
fn grid_dimensions_follow_rows() {
    let f = Field::load_from_file("r=");
    assert_eq!(f.width(), 2);
    assert_eq!(f.height(), 1);
    let f = Field::load_from_file("--\n-r=-\n-");
    assert_eq!(f.width(), 4);
    assert_eq!(f.height(), 3);
}

#[test]
fn trailing_newline_adds_empty_row() {
    let f = Field::load_from_file("--\n");
    assert_eq!(f.width(), 2);
    assert_eq!(f.height(), 2);
    let f = Field::load_from_file("");
    assert_eq!(f.width(), 0);
    assert_eq!(f.height(), 1);
}

#[test]
fn only_dash_is_wall() {
    let f = Field::load_from_file("-r=\n -x");
    assert_eq!(f.get_cell_type(&cell(0, 0)), CellType::WALL);
    assert_eq!(f.get_cell_type(&cell(1, 0)), CellType::EMPTY);
    assert_eq!(f.get_cell_type(&cell(2, 0)), CellType::EMPTY);
    assert_eq!(f.get_cell_type(&cell(0, 1)), CellType::EMPTY);
    assert_eq!(f.get_cell_type(&cell(1, 1)), CellType::WALL);
    assert_eq!(f.get_cell_type(&cell(2, 1)), CellType::EMPTY);
}

#[test]
fn out_of_bounds_is_empty() {
    let f = Field::load_from_file("---\n-\n---");
    assert_eq!(f.get_cell_type(&cell(2, 1)), CellType::EMPTY);
    assert_eq!(f.get_cell_type(&cell(9, 0)), CellType::EMPTY);
    assert_eq!(f.get_cell_type(&cell(0, 9)), CellType::EMPTY);
}

#[test]
fn empty_cells_in_row_major_order() {
    let f = Field::load_from_file("-- \n- r\n--");
    assert_eq!(f.get_empty_cells(), vec![cell(2, 0), cell(1, 1), cell(2, 1), cell(2, 2)]);
}

#[test]
fn insert_cell_shifts_the_row() {
    let mut f = Field::load_from_file("ab");
    f.insert_cell(cell(1, 0), CellType::WALL);
    assert_eq!(f.width(), 3);
    assert_eq!(f.height(), 1);
    assert_eq!(f.get_cell_type(&cell(0, 0)), CellType::EMPTY);
    assert_eq!(f.get_cell_type(&cell(1, 0)), CellType::WALL);
    assert_eq!(f.get_cell_type(&cell(2, 0)), CellType::EMPTY);
}

#[test]
fn insert_cell_opens_the_next_row() {
    let mut f = Field::load_from_file("ab");
    f.insert_cell(cell(0, 1), CellType::WALL);
    assert_eq!(f.width(), 2);
    assert_eq!(f.height(), 2);
    assert_eq!(f.get_cell_type(&cell(0, 1)), CellType::WALL);
    assert_eq!(f.get_empty_cells(), vec![cell(0, 0), cell(1, 0), cell(1, 1)]);
}
