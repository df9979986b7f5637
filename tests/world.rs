use ant_sim::data::{Color, Direction, Position};
use ant_sim::world::{Cell, CellError, Grid, World, WorldError};

#[test]
fn world_new() {
    let world = World::new(Grid::new(10, 15));
    assert_eq!(world.grid().width(), 10);
    assert_eq!(world.grid().height(), 15);
    assert_eq!(world.swarm(Color::Red).next(), None);
    assert_eq!(world.swarm(Color::Black).next(), None);
}

#[test]
fn add_ant() {
    let mut world = World::new(Grid::new(10, 15));

    let pos = Position { x: 5, y: 5 };

    let add_result = world.add_ant(Color::Red, pos);
    assert!(add_result.is_ok());
    let id = add_result.unwrap();

    assert_eq!(world.ant(id).id(), id);
    assert_eq!(world.swarm(Color::Red).next().map(|ant| ant.id()), Some(id));
    assert_eq!(world.swarm(Color::Black).next(), None);
    assert_eq!(world.grid().ant_at(pos), Some(id));
}

#[test]
fn add_ant_into_wall() {
    let blocked_pos = Position { x: 6, y: 7 };
    let mut grid = Grid::new(10, 15);
    *grid.cell_at_mut(blocked_pos).unwrap() = Cell::Wall;

    let mut world = World::new(grid);
    assert_eq!(
        world.add_ant(Color::Red, blocked_pos),
        Err(WorldError::Wall)
    );
}

#[test]
fn add_ant_into_occupied() {
    let mut world = World::new(Grid::new(10, 15));

    let pos = Position { x: 6, y: 7 };
    assert!(world.add_ant(Color::Red, pos).is_ok());
    assert_eq!(world.add_ant(Color::Red, pos), Err(WorldError::Occupied));
}

#[test]
fn rotate_ant() {
    let mut world = World::new(Grid::new(10, 15));

    let id = world.add_ant(Color::Red, Position { x: 6, y: 7 }).unwrap();
    world.ant_mut(id).rotate(Direction::DownRight);

    assert_eq!(world.ant(id).direction(), Direction::DownRight);
}

#[test]
fn move_ant_ok() {
    let mut world = World::new(Grid::new(10, 15));

    let pos = Position { x: 6, y: 7 };
    let new_pos = pos.translate(Direction::default());

    let id = world.add_ant(Color::Red, pos).unwrap();

    assert!(world.ant_mut(id).move_forward().is_ok());
    assert_eq!(world.grid().ant_at(pos), None);
    assert_eq!(world.grid().ant_at(new_pos), Some(id));
    assert_eq!(world.ant(id).position(), new_pos);
}

#[test]
fn move_ant_out_of_bounds() {
    let mut world = World::new(Grid::new(10, 15));

    let id = world.add_ant(Color::Red, Position { x: 9, y: 7 }).unwrap();

    assert_eq!(
        world.ant_mut(id).move_forward(),
        Err(WorldError::OutOfBounds)
    );
}

#[test]
fn move_ant_into_occupied() {
    let mut world = World::new(Grid::new(10, 15));

    let pos = Position { x: 6, y: 7 };
    let new_pos = pos.translate(Direction::default());

    let id = world.add_ant(Color::Red, pos).unwrap();
    world.add_ant(Color::Red, new_pos).unwrap();

    assert_eq!(world.ant_mut(id).move_forward(), Err(WorldError::Occupied));
}

#[test]
fn move_ant_into_wall() {
    let mut grid = Grid::new(10, 15);
    let pos = Position { x: 6, y: 7 };
    let new_pos = pos.translate(Direction::default());
    *grid.cell_at_mut(new_pos).unwrap() = Cell::Wall;

    let mut world = World::new(grid);
    let id = world.add_ant(Color::Red, pos).unwrap();

    assert_eq!(world.ant_mut(id).move_forward(), Err(WorldError::Wall));
}

#[test]
fn world_pickup_food() {
    let mut grid = Grid::new(10, 15);
    let pos = Position { x: 6, y: 7 };
    *grid.cell_at_mut(pos).unwrap() = Cell::FreeCell {
        ant_id: None,
        food: 5,
    };

    let mut world = World::new(grid);
    let id = world.add_ant(Color::Red, pos).unwrap();

    assert_eq!(world.ant_mut(id).pickup_food(), Ok(()));
    assert!(world.ant(id).carries_food());
    assert_eq!(world.grid().cell_at(pos).unwrap().food(), 4);
    assert_eq!(
        world.ant_mut(id).pickup_food(),
        Err(WorldError::AntCarriesFood)
    );
}

#[test]
fn pickup_food_from_empty_cell() {
    let mut grid = Grid::new(10, 15);
    let pos = Position { x: 6, y: 7 };
    *grid.cell_at_mut(pos).unwrap() = Cell::FreeCell {
        ant_id: None,
        food: 0,
    };

    let mut world = World::new(grid);
    let id = world.add_ant(Color::Red, pos).unwrap();

    assert_eq!(
        world.ant_mut(id).pickup_food(),
        Err(WorldError::CellHasNoFood)
    );
}

#[test]
fn drop_food() {
    let mut grid = Grid::new(10, 15);
    let pos = Position { x: 6, y: 7 };
    *grid.cell_at_mut(pos).unwrap() = Cell::FreeCell {
        ant_id: None,
        food: 5,
    };

    let mut world = World::new(grid);
    let id = world.add_ant(Color::Red, pos).unwrap();
    world.ant_mut(id).pickup_food().unwrap();

    assert_eq!(world.ant_mut(id).drop_food(), Ok(()));
    assert!(!world.ant(id).carries_food());
    assert_eq!(world.grid().cell_at(pos).unwrap().food(), 5);
    assert_eq!(world.ant_mut(id).drop_food(), Err(WorldError::AntHasNoFood));
}

#[test]
fn add_ant_out_of_bounds() {
    let mut world = World::new(Grid::new(10, 15));
    assert_eq!(
        world.add_ant(Color::Black, Position { x: 10, y: 0 }),
        Err(WorldError::OutOfBounds)
    );
    assert_eq!(
        world.add_ant(Color::Black, Position { x: 0, y: -1 }),
        Err(WorldError::OutOfBounds)
    );
    assert_eq!(world.ant_ids().count(), 0);
}

#[test]
fn ids_follow_creation_order_per_swarm() {
    let mut world = World::new(Grid::new(10, 15));
    let a = world.add_ant(Color::Red, Position { x: 1, y: 1 }).unwrap();
    let b = world.add_ant(Color::Black, Position { x: 2, y: 1 }).unwrap();
    let c = world.add_ant(Color::Red, Position { x: 3, y: 1 }).unwrap();
    assert_eq!((a, b, c), (0, 1, 2));
    let red: Vec<usize> = world.swarm_ids(Color::Red).collect();
    let black: Vec<usize> = world.swarm_ids(Color::Black).collect();
    assert_eq!(red, vec![0, 2]);
    assert_eq!(black, vec![1]);
    let red_ants: Vec<usize> = world.swarm(Color::Red).map(|ant| ant.id()).collect();
    assert_eq!(red_ants, vec![0, 2]);
    let all: Vec<usize> = world.ants().map(|ant| ant.id()).collect();
    assert_eq!(all, vec![0, 1, 2]);
    assert_eq!(world.ant_ids().collect::<Vec<usize>>(), vec![0, 1, 2]);
}

#[test]
fn new_ant_state() {
    let mut world = World::new(Grid::new(10, 15));
    let id = world.add_ant(Color::Black, Position { x: 4, y: 2 }).unwrap();
    let ant = world.ant(id);
    assert_eq!(ant.color(), Color::Black);
    assert_eq!(ant.direction(), Direction::Right);
    assert_eq!(ant.position(), Position { x: 4, y: 2 });
    assert_eq!(ant.instr_pointer(), 0);
    assert!(!ant.carries_food());
    assert_eq!(world.cell_of(id), &Cell::FreeCell { ant_id: Some(id), food: 0 });
}

#[test]
fn handle_reads_and_updates() {
    let mut world = World::new(Grid::new(10, 15));
    let id = world.add_ant(Color::Red, Position { x: 4, y: 2 }).unwrap();
    {
        let mut ant = world.ant_mut(id);
        assert_eq!(ant.id(), id);
        assert_eq!(ant.color(), Color::Red);
        ant.update_instr_pointer(7);
        assert_eq!(ant.instr_pointer(), 7);
        ant.rotate(Direction::UpLeft);
        assert_eq!(ant.direction(), Direction::UpLeft);
        assert!(ant.move_forward().is_ok());
        assert_eq!(ant.position(), Position { x: 4, y: 1 });
        assert!(!ant.carries_food());
    }
    assert_eq!(world.ant(id).instr_pointer(), 7);
    assert_eq!(world.grid().ant_at(Position { x: 4, y: 2 }), None);
    assert_eq!(world.grid().ant_at(Position { x: 4, y: 1 }), Some(id));
}

#[test]
fn failed_move_changes_nothing() {
    let mut grid = Grid::new(10, 15);
    *grid.cell_at_mut(Position { x: 7, y: 7 }).unwrap() = Cell::Wall;
    let mut world = World::new(grid);
    let id = world.add_ant(Color::Red, Position { x: 6, y: 7 }).unwrap();
    let before = world.clone();
    assert_eq!(world.ant_mut(id).move_forward(), Err(WorldError::Wall));
    assert!(world == before);
}

#[test]
fn edge_moves_are_out_of_bounds() {
    let mut grid = Grid::new(10, 15);
    *grid.cell_at_mut(Position { x: 1, y: 0 }).unwrap() = Cell::Wall;
    let mut world = World::new(grid);
    let top = world.add_ant(Color::Red, Position { x: 0, y: 0 }).unwrap();
    world.ant_mut(top).rotate(Direction::UpLeft);
    assert_eq!(world.ant_mut(top).move_forward(), Err(WorldError::OutOfBounds));
    world.ant_mut(top).rotate(Direction::UpRight);
    assert_eq!(world.ant_mut(top).move_forward(), Err(WorldError::OutOfBounds));
    world.ant_mut(top).rotate(Direction::Left);
    assert_eq!(world.ant_mut(top).move_forward(), Err(WorldError::OutOfBounds));
    world.ant_mut(top).rotate(Direction::Right);
    assert_eq!(world.ant_mut(top).move_forward(), Err(WorldError::Wall));
    let bottom = world.add_ant(Color::Black, Position { x: 3, y: 14 }).unwrap();
    world.ant_mut(bottom).rotate(Direction::DownRight);
    assert_eq!(world.ant_mut(bottom).move_forward(), Err(WorldError::OutOfBounds));
    world.ant_mut(bottom).rotate(Direction::DownLeft);
    assert_eq!(world.ant_mut(bottom).move_forward(), Err(WorldError::OutOfBounds));
    assert_eq!(world.ant(bottom).position(), Position { x: 3, y: 14 });
}

#[test]
fn food_in_play_is_kept() {
    let mut grid = Grid::new(4, 4);
    *grid.cell_at_mut(Position { x: 1, y: 1 }).unwrap() = Cell::FreeCell { ant_id: None, food: 2 };
    let mut world = World::new(grid);
    let id = world.add_ant(Color::Red, Position { x: 1, y: 1 }).unwrap();
    let total = |w: &World| -> u32 {
        let mut sum = 0;
        for y in 0..4 {
            for x in 0..4 {
                sum += w.grid().cell_at(Position { x, y }).unwrap().food();
            }
        }
        sum + w.ants().filter(|a| a.carries_food()).count() as u32
    };
    assert_eq!(total(&world), 2);
    world.ant_mut(id).pickup_food().unwrap();
    assert_eq!(total(&world), 2);
    assert!(world.ant_mut(id).move_forward().is_ok());
    world.ant_mut(id).drop_food().unwrap();
    assert_eq!(total(&world), 2);
    assert_eq!(world.grid().cell_at(Position { x: 2, y: 1 }).unwrap().food(), 1);
    assert_eq!(world.ant_mut(id).pickup_food(), Ok(()));
    assert_eq!(world.ant_mut(id).pickup_food(), Err(WorldError::AntCarriesFood));
    assert_eq!(total(&world), 2);
}

#[test]
fn cell_errors_map_to_world_errors() {
    assert_eq!(WorldError::from(CellError::Wall), WorldError::Wall);
    assert_eq!(WorldError::from(CellError::Occupied), WorldError::Occupied);
    assert_eq!(WorldError::from(CellError::NoFood), WorldError::CellHasNoFood);
}

#[test]
fn handles_compare_by_id() {
    let mut world = World::new(Grid::new(10, 15));
    let a = world.add_ant(Color::Red, Position { x: 1, y: 1 }).unwrap();
    let b = world.add_ant(Color::Red, Position { x: 2, y: 1 }).unwrap();
    assert!(world.ant(a) == world.ant(a));
    assert!(world.ant(a) != world.ant(b));
}
