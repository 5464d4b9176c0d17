use snake::field::{init_array, BLANK, HEIGHT, WALL, WIDTH};
use snake::food::food_gen;

#[test]
fn field_has_walls_on_its_border_only() {
    let field = init_array();
    assert_eq!(field.cells.len(), 1200);
    for row in 0..HEIGHT {
        for col in 0..WIDTH {
            let border = row == 0 || row == 19 || col == 0 || col == 59;
            let expected = if border { WALL } else { BLANK };
            assert_eq!(field.cell(row, col), expected, "row {} col {}", row, col);
            assert_eq!(field.cells[row as usize * 60 + col as usize], expected);
        }
    }
    assert_eq!(field.cell(0, 0), '#');
    assert_eq!(field.cell(1, 1), ' ');
}

#[test]
fn wall_positions_are_the_border_and_beyond() {
    let field = init_array();
    assert!(field.is_wall(1, 1));
    assert!(field.is_wall(30, 1));
    assert!(field.is_wall(30, 20));
    assert!(field.is_wall(1, 10));
    assert!(field.is_wall(60, 10));
    assert!(field.is_wall(60, 20));
    assert!(field.is_wall(0, 10));
    assert!(field.is_wall(61, 10));
    assert!(field.is_wall(30, 0));
    assert!(field.is_wall(30, 21));
    assert!(!field.is_wall(2, 2));
    assert!(!field.is_wall(59, 19));
    assert!(!field.is_wall(30, 10));
    assert!(!field.is_wall(2, 19));
    assert!(!field.is_wall(59, 2));
}

#[test]
fn drawn_food_lies_in_range() {
    for _ in 0..2000 {
        let (x, y) = food_gen();
        assert!(2 <= x && x < 58, "x = {}", x);
        assert!(2 <= y && y < 18, "y = {}", y);
    }
}

#[test]
fn drawn_food_varies() {
    let first = food_gen();
    let mut other = false;
    let mut xs_differ = false;
    let mut ys_differ = false;
    for _ in 0..500 {
        let cell = food_gen();
        other = other || cell != first;
        xs_differ = xs_differ || cell.0 != first.0;
        ys_differ = ys_differ || cell.1 != first.1;
    }
    assert!(other && xs_differ && ys_differ);
}
