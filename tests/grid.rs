use ant_sim::data::Position;
use ant_sim::world::{Cell, Grid};

#[test]
fn new() {
    let grid = Grid::new(10, 15);
    assert_eq!(grid.width(), 10);
    assert_eq!(grid.height(), 15);
}

#[test]
fn cell_at_mutate() {
    let mut grid = Grid::new(10, 10);
    let pos = Position { x: 0, y: 0 };
    let new_cell = Cell::FreeCell {
        ant_id: None,
        food: 5,
    };

    let cell = grid.cell_at_mut(pos).unwrap();
    *cell = new_cell.clone();
    assert_eq!(grid.cell_at(pos), Some(&new_cell));
}

#[test]
fn cell_at() {
    let grid = Grid::new(10, 10);
    assert_eq!(
        grid.cell_at(Position { x: 0, y: 5 }),
        Some(&Cell::default())
    );
    assert_eq!(grid.cell_at(Position { x: -1, y: 0 }), None);
}

#[test]
fn cell_at_mut() {
    let mut grid = Grid::new(10, 10);
    assert_eq!(
        grid.cell_at_mut(Position { x: 0, y: 5 }),
        Some(&mut Cell::default())
    );
    assert_eq!(grid.cell_at_mut(Position { x: -1, y: 0 }), None);
}

#[test]
fn ant_at() {
    let mut grid = Grid::new(10, 10);
    let pos = Position { x: 5, y: 5 };
    assert_eq!(grid.ant_at(pos), None);
    grid.cell_at_mut(pos).unwrap().try_put_ant(0).unwrap();
    assert_eq!(grid.ant_at(pos), Some(0));
}

#[test]
fn in_bounds() {
    let grid = Grid::new(10, 15);
    assert_eq!(grid.in_bounds(Position { x: 0, y: 0 }), true);
    assert_eq!(grid.in_bounds(Position { x: 9, y: 14 }), true);
    assert_eq!(grid.in_bounds(Position { x: 8, y: 15 }), false);
    assert_eq!(grid.in_bounds(Position { x: 10, y: 9 }), false);
    assert_eq!(grid.in_bounds(Position { x: 0, y: -1 }), false);
    assert_eq!(grid.in_bounds(Position { x: -1, y: 0 }), false);
    assert_eq!(grid.in_bounds(Position { x: -4, y: -4 }), false);
}

#[test]
fn mutation_touches_one_cell() {
    let mut grid = Grid::new(3, 2);
    *grid.cell_at_mut(Position { x: 2, y: 1 }).unwrap() = Cell::Wall;
    assert_eq!(grid.cell_at(Position { x: 2, y: 1 }), Some(&Cell::Wall));
    assert_eq!(grid.cell_at(Position { x: 1, y: 1 }), Some(&Cell::default()));
    assert_eq!(grid.cell_at(Position { x: 2, y: 0 }), Some(&Cell::default()));
    assert_eq!(grid.ant_at(Position { x: 3, y: 1 }), None);
}

#[test]
fn empty_grid_has_no_cells() {
    let grid = Grid::new(0, 0);
    assert_eq!(grid.in_bounds(Position { x: 0, y: 0 }), false);
    assert_eq!(grid.cell_at(Position { x: 0, y: 0 }), None);
}
