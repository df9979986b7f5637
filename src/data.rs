//! Geometry of the offset hex grid: directions, positions and team colours.
use vstd::prelude::*;

verus! {

/// Index of an ant: its place in the order of creation.
pub type AntId = usize;

/// Index of an instruction within a program.
pub type InstrIdx = usize;

/// One of the six neighbour directions, in cyclic order.
#[derive(Debug, Clone, Copy, PartialEq, Eq, Structural)]
pub enum Direction {
    Right,
    DownRight,
    DownLeft,
    Left,
    UpLeft,
    UpRight,
}

impl Direction {
    /// Position of the direction in the cycle, `0..6`.
    pub open spec fn ordinal(self) -> int {
        match self {
            Direction::Right => 0,
            Direction::DownRight => 1,
            Direction::DownLeft => 2,
            Direction::Left => 3,
            Direction::UpLeft => 4,
            Direction::UpRight => 5,
        }
    }

    /// The direction with the given ordinal, taken modulo 6.
    pub open spec fn from_ordinal(i: int) -> Direction {
        let k = i % 6;
        if k == 0 {
            Direction::Right
        } else if k == 1 {
            Direction::DownRight
        } else if k == 2 {
            Direction::DownLeft
        } else if k == 3 {
            Direction::Left
        } else if k == 4 {
            Direction::UpLeft
        } else {
            Direction::UpRight
        }
    }

    /// Column offset of one step in this direction.
    pub open spec fn dx(self) -> int {
        match self {
            Direction::Right => 1,
            Direction::DownRight => 0,
            Direction::DownLeft => -1,
            Direction::Left => -1,
            Direction::UpLeft => 0,
            Direction::UpRight => 1,
        }
    }

    /// Row offset of one step in this direction.
    pub open spec fn dy(self) -> int {
        match self {
            Direction::Right => 0,
            Direction::DownRight => 1,
            Direction::DownLeft => 1,
            Direction::Left => 0,
            Direction::UpLeft => -1,
            Direction::UpRight => -1,
        }
    }
}

impl Default for Direction {
    fn default() -> (r: Direction)
        ensures
            r == Direction::Right,
    {
        Direction::Right
    }
}

impl From<Direction> for u32 {
    fn from(d: Direction) -> (r: u32)
        ensures
            r == d.ordinal(),
    {
        match d {
            Direction::Right => 0,
            Direction::DownRight => 1,
            Direction::DownLeft => 2,
            Direction::Left => 3,
            Direction::UpLeft => 4,
            Direction::UpRight => 5,
        }
    }
}

impl vstd::std_specs::convert::FromSpecImpl<Direction> for u32 {
    open spec fn obeys_from_spec() -> bool {
        true
    }

    open spec fn from_spec(d: Direction) -> u32 {
        d.ordinal() as u32
    }
}

impl TryFrom<u32> for Direction {
    type Error = ();

    fn try_from(value: u32) -> (r: Result<Direction, ()>)
        ensures
            value < 6 ==> r == Ok::<Direction, ()>(Direction::from_ordinal(value as int)),
            value >= 6 ==> r is Err,
    {
        match value {
            0 => Ok(Direction::Right),
            1 => Ok(Direction::DownRight),
            2 => Ok(Direction::DownLeft),
            3 => Ok(Direction::Left),
            4 => Ok(Direction::UpLeft),
            5 => Ok(Direction::UpRight),
            _ => Err(()),
        }
    }
}

impl vstd::std_specs::convert::TryFromSpecImpl<u32> for Direction {
    open spec fn obeys_try_from_spec() -> bool {
        true
    }

    open spec fn try_from_spec(value: u32) -> Result<Direction, ()> {
        if value < 6 {
            Ok(Direction::from_ordinal(value as int))
        } else {
            Err(())
        }
    }
}

/// A cell address on the offset hex grid.
#[derive(Debug, Clone, Copy, PartialEq, Eq, Structural, Default)]
pub struct Position {
    pub x: i32,
    pub y: i32,
}

impl Position {
    /// The neighbour one step away in direction `d`, with coordinates as
    /// unbounded integers.
    pub open spec fn neighbour(self, d: Direction) -> (int, int) {
        (self.x + d.dx(), self.y + d.dy())
    }

    /// The neighbour one step away, when both of its coordinates fit in `i32`.
    pub open spec fn translated(self, d: Direction) -> Position {
        Position { x: (self.x + d.dx()) as i32, y: (self.y + d.dy()) as i32 }
    }

    /// Whether a step in any direction keeps both coordinates within `i32`.
    pub open spec fn steppable(self) -> bool {
        &&& i32::MIN < self.x < i32::MAX
        &&& i32::MIN < self.y < i32::MAX
    }

    /// The neighbouring position one step away in `direction`. Never fails:
    /// the result may lie outside any grid.
    pub fn translate(&self, direction: Direction) -> (r: Position)
        requires
            self.steppable(),
        ensures
            r == self.translated(direction),
            r.x == self.x + direction.dx(),
            r.y == self.y + direction.dy(),
    {
        match direction {
            Direction::Right => Position { x: self.x + 1, y: self.y },
            Direction::DownRight => Position { x: self.x, y: self.y + 1 },
            Direction::DownLeft => Position { x: self.x - 1, y: self.y + 1 },
            Direction::Left => Position { x: self.x - 1, y: self.y },
            Direction::UpLeft => Position { x: self.x, y: self.y - 1 },
            Direction::UpRight => Position { x: self.x + 1, y: self.y - 1 },
        }
    }
}

/// A team; also selects the program that the team's ants run.
#[derive(Debug, Clone, Copy, PartialEq, Eq, Structural, Hash)]
pub enum Color {
    Black,
    Red,
}

impl Color {
    /// Slot of the colour in per-colour tables.
    pub open spec fn index(self) -> int {
        match self {
            Color::Black => 0,
            Color::Red => 1,
        }
    }

    pub fn slot(self) -> (r: usize)
        ensures
            r == self.index(),
    {
        match self {
            Color::Black => 0,
            Color::Red => 1,
        }
    }
}

/// An action an ant may take in one tick.
#[derive(Clone, Copy, PartialEq, Eq, Debug)]
pub enum Action {
    Move,
    Rotate { direction: Direction },
    DropFood,
    PickUpFood,
}

} // verus!
