use ant_sim::world::{Cell, CellError};

#[test]
fn put_ant_twice() {
    let mut cell = Cell::default();
    assert_eq!(cell.try_put_ant(0), Ok(()));
    assert_eq!(cell.try_put_ant(1), Err(CellError::Occupied));
}

#[test]
fn put_ant_into_wall() {
    let mut cell = Cell::Wall;
    assert_eq!(cell.try_put_ant(0), Err(CellError::Wall));
}

#[test]
fn clear_wall() {
    let mut cell = Cell::Wall;
    assert_eq!(cell.clear_ant(), None);
}

#[test]
fn clear() {
    let mut cell = Cell::default();
    cell.try_put_ant(0).unwrap();
    assert_eq!(cell.clear_ant(), Some(0));
    assert_eq!(cell.clear_ant(), None);
}

#[test]
fn has_ant() {
    let mut cell = Cell::default();
    assert_eq!(cell.has_ant(), false);
    cell.try_put_ant(0).unwrap();
    assert_eq!(cell.has_ant(), true);
    cell.clear_ant();
    assert_eq!(cell.has_ant(), false);
}

#[test]
fn ant() {
    let mut cell = Cell::default();
    assert_eq!(cell.ant(), None);
    cell.try_put_ant(0).unwrap();
    assert_eq!(cell.ant(), Some(0));
    cell.clear_ant();
    assert_eq!(cell.ant(), None);
}

#[test]
fn pickup_food() {
    let mut cell = Cell::default();
    assert_eq!(cell.try_pickup_food(), Err(CellError::NoFood));
    cell.try_drop_food().unwrap();
    assert_eq!(cell.try_pickup_food(), Ok(()));
    assert_eq!(cell.try_pickup_food(), Err(CellError::NoFood));
}

#[test]
fn has_food() {
    let mut cell = Cell::default();
    assert_eq!(cell.has_food(), false);
    cell.try_drop_food().unwrap();
    assert_eq!(cell.has_food(), true);
    cell.try_pickup_food().unwrap();
    assert_eq!(cell.has_food(), false);
}

#[test]
fn wall_refuses_food() {
    let mut cell = Cell::Wall;
    assert_eq!(cell.try_pickup_food(), Err(CellError::Wall));
    assert_eq!(cell.try_drop_food(), Err(CellError::Wall));
    assert_eq!(cell.food(), 0);
    assert_eq!(cell, Cell::Wall);
}

#[test]
fn put_ant_keeps_food() {
    let mut cell = Cell::FreeCell { ant_id: None, food: 7 };
    cell.try_put_ant(3).unwrap();
    assert_eq!(cell, Cell::FreeCell { ant_id: Some(3), food: 7 });
    assert_eq!(cell.clear_ant(), Some(3));
    assert_eq!(cell, Cell::FreeCell { ant_id: None, food: 7 });
}

#[test]
fn free_to_move() {
    let mut cell = Cell::default();
    assert!(cell.free_to_move());
    cell.try_put_ant(0).unwrap();
    assert!(!cell.free_to_move());
    assert!(!Cell::Wall.free_to_move());
}

#[test]
fn food_counts_up_and_down() {
    let mut cell = Cell::FreeCell { ant_id: None, food: 2 };
    cell.try_drop_food().unwrap();
    assert_eq!(cell.food(), 3);
    cell.try_pickup_food().unwrap();
    cell.try_pickup_food().unwrap();
    assert_eq!(cell.food(), 1);
}
