//! The grid of cells and the world of ants that lives on it.
use vstd::prelude::*;
use vstd::std_specs::iter::IteratorSpec;

use crate::invariants::{lemma_add_ant_wf, lemma_ant_ops_wf};

pub use crate::data::{AntId, Color, Direction, InstrIdx, Position};

verus! {

/// The cell of `g` at `p`.
pub open spec fn cell_of(g: Seq<Seq<Cell>>, p: Position) -> Cell {
    g[p.y as int][p.x as int]
}

/// `g` with the cell at `p` replaced by `c`.
pub open spec fn with_cell(g: Seq<Seq<Cell>>, p: Position, c: Cell) -> Seq<Seq<Cell>> {
    g.update(p.y as int, g[p.y as int].update(p.x as int, c))
}

/// One cell of the grid: a wall, or a free cell that may hold one ant and
/// some food.
#[derive(Debug, Clone, PartialEq, Eq)]
pub enum Cell {
    Wall,
    FreeCell { ant_id: Option<AntId>, food: u32 },
}

/// Why a single cell refused an operation.
#[derive(Debug, PartialEq, Eq, Copy, Clone, Structural)]
pub enum CellError {
    Occupied,
    Wall,
    NoFood,
}

impl Default for Cell {
    fn default() -> (r: Cell)
        ensures
            r == Cell::empty(),
    {
        Cell::FreeCell { ant_id: None, food: 0 }
    }
}

impl Cell {
    /// A free cell with no ant and no food.
    pub open spec fn empty() -> Cell {
        Cell::FreeCell { ant_id: None, food: 0 }
    }

    /// The ant standing on the cell, if any.
    pub open spec fn occupant(self) -> Option<AntId> {
        match self {
            Cell::Wall => None,
            Cell::FreeCell { ant_id, .. } => ant_id,
        }
    }

    /// The food lying on the cell; a wall holds none.
    pub open spec fn food_count(self) -> u32 {
        match self {
            Cell::Wall => 0,
            Cell::FreeCell { food, .. } => food,
        }
    }

    /// The cell with its occupant replaced; a wall stays a wall.
    pub open spec fn with_occupant(self, o: Option<AntId>) -> Cell {
        match self {
            Cell::Wall => Cell::Wall,
            Cell::FreeCell { food, .. } => Cell::FreeCell { ant_id: o, food },
        }
    }

    /// The cell with its food replaced; a wall stays a wall.
    pub open spec fn with_food(self, f: u32) -> Cell {
        match self {
            Cell::Wall => Cell::Wall,
            Cell::FreeCell { ant_id, .. } => Cell::FreeCell { ant_id, food: f },
        }
    }

    /// Removes the ant from the cell and returns it.
    pub fn clear_ant(&mut self) -> (r: Option<AntId>)
        ensures
            r == old(self).occupant(),
            *final(self) == old(self).with_occupant(None),
    {
        match *self {
            Cell::Wall => None,
            Cell::FreeCell { ant_id, food } => {
                *self = Cell::FreeCell { ant_id: None, food };
                ant_id
            },
        }
    }

    /// Puts ant `ant_id` on the cell, which must be free and unoccupied.
    pub fn try_put_ant(&mut self, ant_id: AntId) -> (r: Result<(), CellError>)
        ensures
            (*old(self)) is Wall ==> r == Err::<(), CellError>(CellError::Wall),
            old(self).occupant() is Some ==> r == Err::<(), CellError>(CellError::Occupied),
            r is Err ==> *final(self) == *old(self),
            ((*old(self)) is FreeCell && old(self).occupant() is None) ==> (r is Ok && *final(self)
                == old(self).with_occupant(Some(ant_id))),
    {
        match *self {
            Cell::Wall => Err(CellError::Wall),
            Cell::FreeCell { ant_id: Some(_), .. } => Err(CellError::Occupied),
            Cell::FreeCell { ant_id: None, food } => {
                *self = Cell::FreeCell { ant_id: Some(ant_id), food };
                Ok(())
            },
        }
    }

    /// The ant standing on the cell, if any.
    pub fn ant(&self) -> (r: Option<AntId>)
        ensures
            r == self.occupant(),
    {
        match self {
            Cell::FreeCell { ant_id: Some(ant_id), .. } => Some(*ant_id),
            _ => None,
        }
    }

    pub fn has_ant(&self) -> (r: bool)
        ensures
            r == self.occupant() is Some,
    {
        self.ant().is_some()
    }

    /// The food on the cell; zero for a wall.
    pub fn food(&self) -> (r: u32)
        ensures
            r == self.food_count(),
    {
        match self {
            Cell::FreeCell { food, .. } => *food,
            _ => 0,
        }
    }

    pub fn has_food(&self) -> (r: bool)
        ensures
            r == (self.food_count() > 0),
    {
        self.food() > 0
    }

    /// Takes one unit of food from the cell.
    pub fn try_pickup_food(&mut self) -> (r: Result<(), CellError>)
        ensures
            (*old(self)) is Wall ==> r == Err::<(), CellError>(CellError::Wall),
            ((*old(self)) is FreeCell && old(self).food_count() == 0) ==> r == Err::<(), CellError>(
                CellError::NoFood,
            ),
            r is Err ==> *final(self) == *old(self),
            ((*old(self)) is FreeCell && old(self).food_count() > 0) ==> (r is Ok && *final(self)
                == old(self).with_food((old(self).food_count() - 1) as u32)),
    {
        match *self {
            Cell::Wall => Err(CellError::Wall),
            Cell::FreeCell { ant_id, food } => {
                if food > 0 {
                    *self = Cell::FreeCell { ant_id, food: food - 1 };
                    Ok(())
                } else {
                    Err(CellError::NoFood)
                }
            },
        }
    }

    /// Adds one unit of food to the cell. The count must have room for it.
    pub fn try_drop_food(&mut self) -> (r: Result<(), CellError>)
        requires
            old(self).food_count() < u32::MAX,
        ensures
            (*old(self)) is Wall ==> (r == Err::<(), CellError>(CellError::Wall) && *final(self)
                == *old(self)),
            (*old(self)) is FreeCell ==> (r is Ok && *final(self) == old(self).with_food(
                (old(self).food_count() + 1) as u32,
            )),
    {
        match *self {
            Cell::Wall => Err(CellError::Wall),
            Cell::FreeCell { ant_id, food } => {
                *self = Cell::FreeCell { ant_id, food: food + 1 };
                Ok(())
            },
        }
    }

    /// Whether an ant may step onto the cell.
    pub fn free_to_move(&self) -> (r: bool)
        ensures
            r == (self is FreeCell && self.occupant() is None),
    {
        match self {
            Cell::Wall => false,
            Cell::FreeCell { ant_id, .. } => ant_id.is_none(),
        }
    }
}

/// A fixed-size rectangle of cells, `height` rows of `width` cells.
#[derive(Clone, PartialEq, Eq)]
pub struct Grid {
    cells: Vec<Vec<Cell>>,
    width: usize,
    height: usize,
}

impl View for Grid {
    type V = Seq<Seq<Cell>>;

    closed spec fn view(&self) -> Seq<Seq<Cell>> {
        Seq::new(self.cells@.len(), |j: int| self.cells@[j]@)
    }
}

impl Grid {
    pub closed spec fn spec_width(&self) -> nat {
        self.width as nat
    }

    pub closed spec fn spec_height(&self) -> nat {
        self.height as nat
    }

    /// The rows match the dimensions, and every cell is addressable by an
    /// `i32` position.
    pub open spec fn wf(&self) -> bool {
        &&& self.spec_width() <= i32::MAX
        &&& self.spec_height() <= i32::MAX
        &&& self@.len() == self.spec_height()
        &&& forall|j: int| 0 <= j < self@.len() ==> #[trigger] self@[j].len() == self.spec_width()
    }

    /// Whether `p` lies inside the rectangle.
    pub open spec fn contains(&self, p: Position) -> bool {
        &&& 0 <= p.x < self.spec_width()
        &&& 0 <= p.y < self.spec_height()
    }

    /// A grid of `width` × `height` empty free cells. Positions are `i32`,
    /// so neither side may exceed `i32::MAX`.
    pub fn new(width: usize, height: usize) -> (r: Grid)
        requires
            width <= i32::MAX,
            height <= i32::MAX,
        ensures
            r.wf(),
            r.spec_width() == width,
            r.spec_height() == height,
            forall|j: int, i: int|
                0 <= j < height && 0 <= i < width ==> #[trigger] r@[j][i] == Cell::empty(),
    {
        let mut cells: Vec<Vec<Cell>> = Vec::new();
        let mut j: usize = 0;
        while j < height
            invariant
                j <= height,
                cells@.len() == j,
                forall|k: int| 0 <= k < j ==> #[trigger] cells@[k]@.len() == width,
                forall|k: int, i: int|
                    0 <= k < j && 0 <= i < width ==> #[trigger] cells@[k]@[i] == Cell::empty(),
            decreases height - j,
        {
            let mut row: Vec<Cell> = Vec::new();
            let mut i: usize = 0;
            while i < width
                invariant
                    i <= width,
                    row@.len() == i,
                    forall|k: int| 0 <= k < i ==> #[trigger] row@[k] == Cell::empty(),
                decreases width - i,
            {
                row.push(Cell::default());
                i = i + 1;
            }
            cells.push(row);
            j = j + 1;
        }
        Grid { cells, width, height }
    }

    pub fn width(&self) -> (r: usize)
        ensures
            r == self.spec_width(),
    {
        self.width
    }

    pub fn height(&self) -> (r: usize)
        ensures
            r == self.spec_height(),
    {
        self.height
    }

    /// The cell at `position`, or `None` outside the grid.
    pub fn cell_at(&self, position: Position) -> (r: Option<&Cell>)
        requires
            self.wf(),
        ensures
            match r {
                Some(c) => self.contains(position) && *c == cell_of(self@, position),
                None => !self.contains(position),
            },
    {
        if !self.in_bounds(position) {
            return None;
        }
        Some(&self.cells[position.y as usize][position.x as usize])
    }

    /// Mutable access to the cell at `position`, or `None` outside the grid.
    pub fn cell_at_mut(&mut self, position: Position) -> (r: Option<&mut Cell>)
        requires
            old(self).wf(),
        ensures
            match r {
                Some(c) => {
                    &&& old(self).contains(position)
                    &&& *c == cell_of(old(self)@, position)
                    &&& final(self)@ == with_cell(old(self)@, position, *final(c))
                    &&& final(self).spec_width() == old(self).spec_width()
                    &&& final(self).spec_height() == old(self).spec_height()
                },
                None => !old(self).contains(position) && *final(self) == *old(self),
            },
    {
        if !self.in_bounds(position) {
            return None;
        }
        Some(&mut self.cells[position.y as usize][position.x as usize])
    }

    /// The ant at `position`, or `None` if there is none or the position lies
    /// outside the grid.
    pub fn ant_at(&self, position: Position) -> (r: Option<AntId>)
        requires
            self.wf(),
        ensures
            r == (if self.contains(position) {
                cell_of(self@, position).occupant()
            } else {
                None
            }),
    {
        match self.cell_at(position) {
            Some(cell) => cell.ant(),
            None => None,
        }
    }

    /// Whether `0 <= x < width` and `0 <= y < height`.
    pub fn in_bounds(&self, position: Position) -> (r: bool)
        ensures
            r == self.contains(position),
    {
        position.y >= 0 && position.x >= 0 && (position.y as usize) < self.height
            && (position.x as usize) < self.width
    }
}

/// The state of one ant.
#[derive(Debug, Clone, Copy, PartialEq, Eq, Structural)]
pub struct AntData {
    pub color: Color,
    pub direction: Direction,
    pub position: Position,
    pub instr_pointer: InstrIdx,
    pub carries_food: bool,
}

impl AntData {
    /// A new ant: facing right, at instruction 0, carrying nothing.
    pub open spec fn fresh(color: Color, position: Position) -> AntData {
        AntData {
            color,
            direction: Direction::Right,
            position,
            instr_pointer: 0,
            carries_food: false,
        }
    }

    fn new(color: Color, position: Position) -> (r: AntData)
        ensures
            r == AntData::fresh(color, position),
    {
        AntData {
            color,
            position,
            direction: Direction::default(),
            instr_pointer: 0,
            carries_food: false,
        }
    }
}

/// Why an ant-level operation failed.
#[derive(Debug, Clone, Copy, PartialEq, Eq, Structural)]
pub enum WorldError {
    OutOfBounds,
    Wall,
    Occupied,
    CellHasNoFood,
    AntHasNoFood,
    AntCarriesFood,
}

impl WorldError {
    /// The ant-level error that stands for a cell-level one.
    pub open spec fn of_cell(e: CellError) -> WorldError {
        match e {
            CellError::Wall => WorldError::Wall,
            CellError::Occupied => WorldError::Occupied,
            CellError::NoFood => WorldError::CellHasNoFood,
        }
    }
}

impl From<CellError> for WorldError {
    fn from(value: CellError) -> (r: WorldError)
        ensures
            r == WorldError::of_cell(value),
    {
        match value {
            CellError::Wall => WorldError::Wall,
            CellError::Occupied => WorldError::Occupied,
            CellError::NoFood => WorldError::CellHasNoFood,
        }
    }
}

impl vstd::std_specs::convert::FromSpecImpl<CellError> for WorldError {
    open spec fn obeys_from_spec() -> bool {
        true
    }

    open spec fn from_spec(value: CellError) -> WorldError {
        WorldError::of_cell(value)
    }
}

/// Total food lying on the cells of one row.
pub open spec fn row_food(row: Seq<Cell>) -> int
    decreases row.len(),
{
    if row.len() == 0 {
        0
    } else {
        row_food(row.drop_last()) + row.last().food_count()
    }
}

/// Total food lying on the cells of all rows.
pub open spec fn grid_food(g: Seq<Seq<Cell>>) -> int
    decreases g.len(),
{
    if g.len() == 0 {
        0
    } else {
        grid_food(g.drop_last()) + row_food(g.last())
    }
}

/// Number of ants that carry food.
pub open spec fn carried_food(ants: Seq<AntData>) -> int
    decreases ants.len(),
{
    if ants.len() == 0 {
        0
    } else {
        carried_food(ants.drop_last()) + if ants.last().carries_food {
            1int
        } else {
            0
        }
    }
}

/// The abstract state of a world: its ants by id, its rows of cells, its
/// dimensions, and the ids of each colour's ants (indexed by `Color::index`).
pub struct WorldView {
    pub ants: Seq<AntData>,
    pub grid: Seq<Seq<Cell>>,
    pub width: nat,
    pub height: nat,
    pub swarms: Seq<Seq<AntId>>,
}

impl WorldView {
    pub open spec fn contains(self, p: Position) -> bool {
        &&& 0 <= p.x < self.width
        &&& 0 <= p.y < self.height
    }

    pub open spec fn cell(self, p: Position) -> Cell {
        cell_of(self.grid, p)
    }

    pub open spec fn swarm(self, c: Color) -> Seq<AntId> {
        self.swarms[c.index()]
    }

    pub open spec fn has_ant(self, id: AntId) -> bool {
        id < self.ants.len()
    }

    /// Food on the cells plus food carried by ants.
    pub open spec fn food_in_play(self) -> int {
        grid_food(self.grid) + carried_food(self.ants)
    }

    /// The rows match the dimensions, which fit in `i32`, and every ant has
    /// a `usize` id.
    pub open spec fn shaped(self) -> bool {
        &&& self.ants.len() <= usize::MAX
        &&& self.width <= i32::MAX
        &&& self.height <= i32::MAX
        &&& self.grid.len() == self.height
        &&& forall|j: int| 0 <= j < self.height ==> #[trigger] self.grid[j].len() == self.width
    }

    /// Every ant stands on an in-bounds cell that names it as occupant.
    pub open spec fn ants_placed(self) -> bool {
        forall|i: int|
            0 <= i < self.ants.len() ==> {
                &&& self.contains(#[trigger] self.ants[i].position)
                &&& self.cell(self.ants[i].position).occupant() == Some(i as AntId)
            }
    }

    /// Every occupant named by a cell is an ant that stands on that cell.
    pub open spec fn occupants_placed(self) -> bool {
        forall|j: int, i: int|
            0 <= j < self.height && 0 <= i < self.width && (#[trigger] self.grid[j][i]).occupant()
                is Some ==> {
                let id = self.grid[j][i].occupant()->0;
                &&& id < self.ants.len()
                &&& self.ants[id as int].position.x == i
                &&& self.ants[id as int].position.y == j
            }
    }

    /// Each swarm lists, in ascending order, exactly the ants of its colour.
    pub open spec fn swarms_exact(self) -> bool {
        &&& self.swarms.len() == 2
        &&& forall|c: Color, k: int|
            0 <= k < self.swarm(c).len() ==> {
                &&& #[trigger] self.swarm(c)[k] < self.ants.len()
                &&& self.ants[self.swarm(c)[k] as int].color == c
            }
        &&& forall|c: Color, k1: int, k2: int|
            0 <= k1 < k2 < self.swarm(c).len() ==> #[trigger] self.swarm(c)[k1]
                < #[trigger] self.swarm(c)[k2]
        &&& forall|i: int|
            0 <= i < self.ants.len() ==> self.swarm(#[trigger] self.ants[i].color).contains(
                i as AntId,
            )
    }

    pub open spec fn wf(self) -> bool {
        &&& self.shaped()
        &&& self.ants_placed()
        &&& self.occupants_placed()
        &&& self.swarms_exact()
    }

    /// The same world with ant `id` replaced by `a`.
    pub open spec fn with_ant(self, id: AntId, a: AntData) -> WorldView {
        WorldView { ants: self.ants.update(id as int, a), ..self }
    }

    /// The same world with the cell at `p` replaced by `c`.
    pub open spec fn with_cell(self, p: Position, c: Cell) -> WorldView {
        WorldView { grid: with_cell(self.grid, p, c), ..self }
    }

    /// The cell that ant `id` faces.
    pub open spec fn ahead(self, id: AntId) -> Position {
        self.ants[id as int].position.translated(self.ants[id as int].direction)
    }

    /// Adds an ant of colour `color` at `p`: the id it gets, or why not.
    pub open spec fn add_ant(self, color: Color, p: Position) -> (WorldView, Result<AntId, WorldError>) {
        let id = self.ants.len() as AntId;
        if !self.contains(p) {
            (self, Err(WorldError::OutOfBounds))
        } else if self.cell(p) is Wall {
            (self, Err(WorldError::Wall))
        } else if self.cell(p).occupant() is Some {
            (self, Err(WorldError::Occupied))
        } else {
            (
                WorldView {
                    ants: self.ants.push(AntData::fresh(color, p)),
                    grid: with_cell(self.grid, p, self.cell(p).with_occupant(Some(id))),
                    swarms: self.swarms.update(color.index(), self.swarm(color).push(id)),
                    ..self
                },
                Ok(id),
            )
        }
    }

    /// Ant `id` steps to the cell it faces: both cells' occupants and the
    /// ant's position change together, or nothing changes.
    pub open spec fn move_forward(self, id: AntId) -> (WorldView, Result<(), WorldError>) {
        let a = self.ants[id as int];
        let t = self.ahead(id);
        if !self.contains(t) {
            (self, Err(WorldError::OutOfBounds))
        } else if self.cell(t) is Wall {
            (self, Err(WorldError::Wall))
        } else if self.cell(t).occupant() is Some {
            (self, Err(WorldError::Occupied))
        } else {
            let entered = self.with_cell(t, self.cell(t).with_occupant(Some(id)));
            let left = entered.with_cell(a.position, entered.cell(a.position).with_occupant(None));
            (left.with_ant(id, AntData { position: t, ..a }), Ok(()))
        }
    }

    /// Ant `id` now faces `d`.
    pub open spec fn rotate(self, id: AntId, d: Direction) -> WorldView {
        self.with_ant(id, AntData { direction: d, ..self.ants[id as int] })
    }

    /// Ant `id` takes one unit of food from its cell.
    pub open spec fn pickup_food(self, id: AntId) -> (WorldView, Result<(), WorldError>) {
        let a = self.ants[id as int];
        let c = self.cell(a.position);
        if a.carries_food {
            (self, Err(WorldError::AntCarriesFood))
        } else if c is Wall {
            (self, Err(WorldError::Wall))
        } else if c.food_count() == 0 {
            (self, Err(WorldError::CellHasNoFood))
        } else {
            (
                self.with_cell(a.position, c.with_food((c.food_count() - 1) as u32)).with_ant(
                    id,
                    AntData { carries_food: true, ..a },
                ),
                Ok(()),
            )
        }
    }

    /// Whether a drop by ant `id` leaves its cell's food count within `u32`.
    pub open spec fn drop_fits(self, id: AntId) -> bool {
        self.ants[id as int].carries_food ==> self.cell(self.ants[id as int].position).food_count()
            < u32::MAX
    }

    /// Ant `id` puts the food it carries on its cell.
    pub open spec fn drop_food(self, id: AntId) -> (WorldView, Result<(), WorldError>) {
        let a = self.ants[id as int];
        let c = self.cell(a.position);
        if !a.carries_food {
            (self, Err(WorldError::AntHasNoFood))
        } else {
            (
                self.with_ant(id, AntData { carries_food: false, ..a }).with_cell(
                    a.position,
                    c.with_food((c.food_count() + 1) as u32),
                ),
                Ok(()),
            )
        }
    }

    /// Ant `id` will next run instruction `ip`.
    pub open spec fn set_instr_pointer(self, id: AntId, ip: InstrIdx) -> WorldView {
        self.with_ant(id, AntData { instr_pointer: ip, ..self.ants[id as int] })
    }
}

/// The grid, the ants on it, and the ids of each colour's ants in order of
/// creation.
#[derive(Clone, PartialEq, Eq)]
pub struct World {
    ants: Vec<AntData>,
    swarms: Vec<Vec<AntId>>,
    grid: Grid,
}

impl View for World {
    type V = WorldView;

    closed spec fn view(&self) -> WorldView {
        WorldView {
            ants: self.ants@,
            grid: self.grid@,
            width: self.grid.spec_width(),
            height: self.grid.spec_height(),
            swarms: Seq::new(self.swarms@.len(), |c: int| self.swarms@[c]@),
        }
    }
}

/// A read-only view of one ant.
#[derive(Debug, Clone, Copy)]
pub struct Ant<'a> {
    id: AntId,
    data: &'a AntData,
}

/// The one handle through which an ant changes: it keeps the ant's record
/// and the cells it stands on and enters consistent. The fields are public
/// so that a caller's specification can speak of the borrowed world when the
/// handle is done with it; the world's own fields stay private, so its
/// invariants hold whatever a caller does through the handle.
pub struct AntMut<'a> {
    pub id: AntId,
    pub world: &'a mut World,
}

impl World {
    /// The grid is well formed and the world satisfies its invariants.
    pub closed spec fn wf(&self) -> bool {
        self.grid.wf() && self@.wf()
    }

    pub proof fn lemma_wf(&self)
        requires
            self.wf(),
        ensures
            self@.wf(),
    {
    }

    /// A world on `grid`, with no ants yet. The grid holds no ant.
    pub fn new(grid: Grid) -> (r: World)
        requires
            grid.wf(),
            forall|j: int, i: int|
                0 <= j < grid@.len() && 0 <= i < grid@[j].len() ==> (#[trigger] grid@[j][i]).occupant()
                    is None,
        ensures
            r.wf(),
            r@ == (WorldView {
                ants: Seq::empty(),
                grid: grid@,
                width: grid.spec_width(),
                height: grid.spec_height(),
                swarms: seq![Seq::empty(), Seq::empty()],
            }),
    {
        let mut swarms: Vec<Vec<AntId>> = Vec::new();
        swarms.push(Vec::new());
        swarms.push(Vec::new());
        let r = World { ants: Vec::new(), swarms, grid };
        assert(r@.swarms =~= seq![Seq::<AntId>::empty(), Seq::<AntId>::empty()]);
        assert forall|c: Color| #[trigger] r@.swarm(c).len() == 0 by {
            assert(0 <= c.index() < 2);
        }
        r
    }

    pub fn grid(&self) -> (r: &Grid)
        ensures
            r@ == self@.grid,
            r.spec_width() == self@.width,
            r.spec_height() == self@.height,
            self.wf() ==> r.wf(),
    {
        &self.grid
    }

    /// The ids of the ants of `color`, in order of creation.
    pub(crate) fn swarm_list(&self, color: Color) -> (r: Vec<AntId>)
        requires
            self.wf(),
        ensures
            r@ == self@.swarm(color),
    {
        let src = &self.swarms[color.slot()];
        let mut out: Vec<AntId> = Vec::new();
        let mut k: usize = 0;
        while k < src.len()
            invariant
                src@ == self@.swarm(color),
                k <= src@.len(),
                out@ == src@.subrange(0, k as int),
            decreases src@.len() - k,
        {
            out.push(src[k]);
            k = k + 1;
            assert(out@ =~= src@.subrange(0, k as int));
        }
        assert(out@ =~= src@);
        out
    }

    /// The ants of `color`, in order of creation.
    pub fn swarm(&self, color: Color) -> (r: std::vec::IntoIter<Ant<'_>>)
        requires
            self.wf(),
        ensures
            r.remaining().len() == self@.swarm(color).len(),
            forall|k: int|
                0 <= k < self@.swarm(color).len() ==> {
                    &&& (#[trigger] r.remaining()[k]).spec_id() == self@.swarm(color)[k]
                    &&& r.remaining()[k].spec_data() == self@.ants[self@.swarm(color)[k] as int]
                },
    {
        let ids = self.swarm_list(color);
        let mut out: Vec<Ant<'_>> = Vec::new();
        let mut k: usize = 0;
        while k < ids.len()
            invariant
                self.wf(),
                ids@ == self@.swarm(color),
                k <= ids@.len(),
                out@.len() == k,
                forall|m: int|
                    0 <= m < k ==> {
                        &&& (#[trigger] out@[m]).spec_id() == ids@[m]
                        &&& out@[m].spec_data() == self@.ants[ids@[m] as int]
                    },
            decreases ids@.len() - k,
        {
            proof {
                assert(ids@[k as int] < self@.ants.len());
            }
            out.push(self.ant(ids[k]));
            k = k + 1;
        }
        out.into_iter()
    }

    /// The ids of the ants of `color`, in order of creation.
    pub fn swarm_ids(&self, color: Color) -> (r: std::vec::IntoIter<AntId>)
        requires
            self.wf(),
        ensures
            r.remaining() == self@.swarm(color),
    {
        self.swarm_list(color).into_iter()
    }

    /// Places a new ant of `color` at `position`; its id is the number of
    /// ants created before it. Ids are `usize`, so the count of ants must
    /// leave room for one more.
    pub fn add_ant(&mut self, color: Color, position: Position) -> (r: Result<AntId, WorldError>)
        requires
            old(self).wf(),
            old(self)@.ants.len() < usize::MAX,
        ensures
            final(self).wf(),
            (final(self)@, r) == old(self)@.add_ant(color, position),
    {
        let ghost w0 = self@;
        let id = self.ants.len();
        match self.grid.cell_at_mut(position) {
            None => {
                return Err(WorldError::OutOfBounds);
            },
            Some(cell) => match cell.try_put_ant(id) {
                Err(e) => {
                    proof {
                        assert(self.grid@[position.y as int] =~= w0.grid[position.y as int]);
                        assert(self.grid@ =~= w0.grid);
                        assert(self@ == w0);
                    }
                    return Err(WorldError::from(e));
                },
                Ok(()) => {},
            },
        }
        self.ants.push(AntData::new(color, position));
        let c = color.slot();
        self.swarms[c].push(id);
        proof {
            assert(self@.swarms =~= w0.swarms.update(color.index(), w0.swarm(color).push(id)));
            assert(self@.grid =~= with_cell(w0.grid, position, w0.cell(position).with_occupant(Some(id))));
            lemma_add_ant_wf(w0, color, position);
        }
        Ok(id)
    }

    /// A read-only view of ant `id`.
    pub fn ant(&self, id: AntId) -> (r: Ant<'_>)
        requires
            id < self@.ants.len(),
        ensures
            r.spec_id() == id,
            r.spec_data() == self@.ants[id as int],
    {
        Ant { id, data: &self.ants[id] }
    }

    /// The handle through which ant `id` changes. When the handle is done,
    /// the world is what the handle's operations left.
    pub fn ant_mut(&mut self, id: AntId) -> (r: AntMut<'_>)
        requires
            id < old(self)@.ants.len(),
        ensures
            r.id == id,
            *r.world == *old(self),
            *final(self) == *final(r.world),
    {
        AntMut { id, world: self }
    }

    /// All ants, by id.
    pub fn ants(&self) -> (r: std::vec::IntoIter<Ant<'_>>)
        ensures
            r.remaining().len() == self@.ants.len(),
            forall|k: int|
                0 <= k < self@.ants.len() ==> {
                    &&& (#[trigger] r.remaining()[k]).spec_id() == k
                    &&& r.remaining()[k].spec_data() == self@.ants[k]
                },
    {
        let mut out: Vec<Ant<'_>> = Vec::new();
        let mut k: usize = 0;
        while k < self.ants.len()
            invariant
                k <= self@.ants.len(),
                out@.len() == k,
                forall|m: int|
                    0 <= m < k ==> {
                        &&& (#[trigger] out@[m]).spec_id() == m
                        &&& out@[m].spec_data() == self@.ants[m]
                    },
            decreases self@.ants.len() - k,
        {
            out.push(self.ant(k));
            k = k + 1;
        }
        out.into_iter()
    }

    /// The ids of all ants.
    pub fn ant_ids(&self) -> (r: std::ops::Range<AntId>)
        ensures
            r.start == 0,
            r.end == self@.ants.len(),
    {
        0..self.ants.len()
    }

    /// The cell that ant `id` stands on.
    pub fn cell_of(&self, id: AntId) -> (r: &Cell)
        requires
            self.wf(),
            id < self@.ants.len(),
        ensures
            *r == self@.cell(self@.ants[id as int].position),
    {
        let p = self.ants[id].position;
        proof {
            assert(self@.contains(p));
        }
        match self.grid.cell_at(p) {
            Some(c) => c,
            None => &self.grid.cells[0][0],
        }
    }
}

impl<'a> Ant<'a> {
    pub closed spec fn spec_id(&self) -> AntId {
        self.id
    }

    pub closed spec fn spec_data(&self) -> AntData {
        *self.data
    }

    pub fn id(&self) -> (r: AntId)
        ensures
            r == self.spec_id(),
    {
        self.id
    }

    pub fn position(&self) -> (r: Position)
        ensures
            r == self.spec_data().position,
    {
        self.data.position
    }

    pub fn direction(&self) -> (r: Direction)
        ensures
            r == self.spec_data().direction,
    {
        self.data.direction
    }

    pub fn color(&self) -> (r: Color)
        ensures
            r == self.spec_data().color,
    {
        self.data.color
    }

    pub fn carries_food(&self) -> (r: bool)
        ensures
            r == self.spec_data().carries_food,
    {
        self.data.carries_food
    }

    pub fn instr_pointer(&self) -> (r: usize)
        ensures
            r == self.spec_data().instr_pointer,
    {
        self.data.instr_pointer
    }
}

/// Two views are equal when they show the same ant.
impl PartialEq for Ant<'_> {
    fn eq(&self, other: &Self) -> (r: bool)
        ensures
            r == (self.spec_id() == other.spec_id()),
    {
        self.id == other.id
    }
}

impl vstd::std_specs::cmp::PartialEqSpecImpl for Ant<'_> {
    open spec fn obeys_eq_spec() -> bool {
        true
    }

    open spec fn eq_spec(&self, other: &Self) -> bool {
        self.spec_id() == other.spec_id()
    }
}

impl Eq for Ant<'_> {

}

impl<'a> AntMut<'a> {
    /// The handle names an ant of a well-formed world.
    pub open spec fn ready(&self) -> bool {
        &&& self.world.wf()
        &&& self.id < self.world@.ants.len()
    }

    /// The state of the handled ant.
    pub open spec fn data(&self) -> AntData {
        self.world@.ants[self.id as int]
    }

    pub fn id(&self) -> (r: AntId)
        ensures
            r == self.id,
    {
        self.id
    }

    pub fn position(&self) -> (r: Position)
        requires
            self.ready(),
        ensures
            r == self.data().position,
    {
        self.world.ants[self.id].position
    }

    pub fn direction(&self) -> (r: Direction)
        requires
            self.ready(),
        ensures
            r == self.data().direction,
    {
        self.world.ants[self.id].direction
    }

    pub fn color(&self) -> (r: Color)
        requires
            self.ready(),
        ensures
            r == self.data().color,
    {
        self.world.ants[self.id].color
    }

    pub fn carries_food(&self) -> (r: bool)
        requires
            self.ready(),
        ensures
            r == self.data().carries_food,
    {
        self.world.ants[self.id].carries_food
    }

    pub fn instr_pointer(&self) -> (r: usize)
        requires
            self.ready(),
        ensures
            r == self.data().instr_pointer,
    {
        self.world.ants[self.id].instr_pointer
    }

    /// Steps onto the cell ahead. Fails, changing nothing, when that cell is
    /// outside the grid, a wall, or occupied; otherwise the old cell is
    /// vacated, the new one occupied and the position updated together.
    pub fn move_forward(&mut self) -> (r: Result<(), WorldError>)
        requires
            old(self).ready(),
        ensures
            final(self).id == old(self).id,
            final(self).ready(),
            (final(self).world@, r) == old(self).world@.move_forward(old(self).id),
            final(self).world@.food_in_play() == old(self).world@.food_in_play(),
            *final(final(self).world) == *final(old(self).world),
    {
        let ghost w0 = self.world@;
        let id = self.id;
        let a = self.world.ants[id];
        proof {
            lemma_ant_ops_wf(w0, id, a.direction, 0);
            assert(w0.contains(a.position));
        }
        let new_position = a.position.translate(a.direction);
        match self.world.grid.cell_at_mut(new_position) {
            None => {
                return Err(WorldError::OutOfBounds);
            },
            Some(new_cell) => match new_cell.try_put_ant(id) {
                Err(e) => {
                    proof {
                        let y = new_position.y as int;
                        assert(self.world.grid@[y] =~= w0.grid[y]);
                        assert(self.world.grid@ =~= w0.grid);
                        assert(self.world@ == w0);
                    }
                    return Err(WorldError::from(e));
                },
                Ok(()) => {},
            },
        }
        match self.world.grid.cell_at_mut(a.position) {
            Some(old_cell) => {
                old_cell.clear_ant();
            },
            None => {},
        }
        self.world.ants.set(id, AntData { position: new_position, ..a });
        Ok(())
    }

    /// Faces `direction` from now on.
    pub fn rotate(&mut self, direction: Direction)
        requires
            old(self).ready(),
        ensures
            final(self).id == old(self).id,
            final(self).ready(),
            final(self).world@ == old(self).world@.rotate(old(self).id, direction),
            final(self).world@.food_in_play() == old(self).world@.food_in_play(),
            *final(final(self).world) == *final(old(self).world),
    {
        let ghost w0 = self.world@;
        proof {
            lemma_ant_ops_wf(w0, self.id, direction, 0);
        }
        let a = self.world.ants[self.id];
        self.world.ants.set(self.id, AntData { direction, ..a });
    }

    /// Takes one unit of food from the ant's cell. Fails, changing nothing,
    /// when the ant already carries food or the cell has none.
    pub fn pickup_food(&mut self) -> (r: Result<(), WorldError>)
        requires
            old(self).ready(),
        ensures
            final(self).id == old(self).id,
            final(self).ready(),
            (final(self).world@, r) == old(self).world@.pickup_food(old(self).id),
            final(self).world@.food_in_play() == old(self).world@.food_in_play(),
            *final(final(self).world) == *final(old(self).world),
    {
        let ghost w0 = self.world@;
        let id = self.id;
        let a = self.world.ants[id];
        proof {
            lemma_ant_ops_wf(w0, id, a.direction, 0);
            assert(w0.contains(a.position));
        }
        if a.carries_food {
            return Err(WorldError::AntCarriesFood);
        }
        match self.world.grid.cell_at_mut(a.position) {
            Some(cell) => match cell.try_pickup_food() {
                Err(e) => {
                    proof {
                        let y = a.position.y as int;
                        assert(self.world.grid@[y] =~= w0.grid[y]);
                        assert(self.world.grid@ =~= w0.grid);
                        assert(self.world@ == w0);
                    }
                    return Err(WorldError::from(e));
                },
                Ok(()) => {},
            },
            None => {},
        }
        self.world.ants.set(id, AntData { carries_food: true, ..a });
        Ok(())
    }

    /// Puts the carried food on the ant's cell. Fails, changing nothing, when
    /// the ant carries no food; never fails because of the cell.
    pub fn drop_food(&mut self) -> (r: Result<(), WorldError>)
        requires
            old(self).ready(),
            old(self).world@.drop_fits(old(self).id),
        ensures
            final(self).id == old(self).id,
            final(self).ready(),
            (final(self).world@, r) == old(self).world@.drop_food(old(self).id),
            final(self).world@.food_in_play() == old(self).world@.food_in_play(),
            *final(final(self).world) == *final(old(self).world),
    {
        let ghost w0 = self.world@;
        let id = self.id;
        let a = self.world.ants[id];
        proof {
            lemma_ant_ops_wf(w0, id, a.direction, 0);
            assert(w0.contains(a.position));
        }
        if !a.carries_food {
            return Err(WorldError::AntHasNoFood);
        }
        self.world.ants.set(id, AntData { carries_food: false, ..a });
        match self.world.grid.cell_at_mut(a.position) {
            Some(cell) => {
                let _ = cell.try_drop_food();
            },
            None => {},
        }
        Ok(())
    }

    /// The ant will next run instruction `new_pointer`.
    pub fn update_instr_pointer(&mut self, new_pointer: usize)
        requires
            old(self).ready(),
        ensures
            final(self).id == old(self).id,
            final(self).ready(),
            final(self).world@ == old(self).world@.set_instr_pointer(old(self).id, new_pointer),
            final(self).world@.food_in_play() == old(self).world@.food_in_play(),
            *final(final(self).world) == *final(old(self).world),
    {
        let ghost w0 = self.world@;
        proof {
            lemma_ant_ops_wf(w0, self.id, Direction::Right, new_pointer);
        }
        let a = self.world.ants[self.id];
        self.world.ants.set(self.id, AntData { instr_pointer: new_pointer, ..a });
    }
}

/// Two handles are equal when they handle the same ant.
impl PartialEq for AntMut<'_> {
    fn eq(&self, other: &Self) -> (r: bool)
        ensures
            r == (self.id == other.id),
    {
        self.id == other.id
    }
}

impl vstd::std_specs::cmp::PartialEqSpecImpl for AntMut<'_> {
    open spec fn obeys_eq_spec() -> bool {
        true
    }

    open spec fn eq_spec(&self, other: &Self) -> bool {
        self.id == other.id
    }
}

impl Eq for AntMut<'_> {

}

} // verus!
