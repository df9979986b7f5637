//! Facts about the world model: every operation keeps the world well formed
//! (one ant per cell, each ant on the cell that names it), and no operation
//! on one ant creates or destroys food.
use vstd::prelude::*;

use crate::data::{AntId, Color, Direction, InstrIdx, Position};
use crate::world::{carried_food, grid_food, row_food, AntData, Cell, WorldView};

verus! {

proof fn lemma_row_food_update(row: Seq<Cell>, i: int, c: Cell)
    requires
        0 <= i < row.len(),
    ensures
        row_food(row.update(i, c)) == row_food(row) - row[i].food_count() + c.food_count(),
    decreases row.len(),
{
    let r2 = row.update(i, c);
    if i == row.len() - 1 {
        assert(r2.drop_last() =~= row.drop_last());
    } else {
        assert(r2.drop_last() =~= row.drop_last().update(i, c));
        lemma_row_food_update(row.drop_last(), i, c);
    }
}

proof fn lemma_grid_food_update(g: Seq<Seq<Cell>>, j: int, row: Seq<Cell>)
    requires
        0 <= j < g.len(),
    ensures
        grid_food(g.update(j, row)) == grid_food(g) - row_food(g[j]) + row_food(row),
    decreases g.len(),
{
    let g2 = g.update(j, row);
    if j == g.len() - 1 {
        assert(g2.drop_last() =~= g.drop_last());
    } else {
        assert(g2.drop_last() =~= g.drop_last().update(j, row));
        lemma_grid_food_update(g.drop_last(), j, row);
    }
}

proof fn lemma_carried_food_update(ants: Seq<AntData>, i: int, a: AntData)
    requires
        0 <= i < ants.len(),
    ensures
        carried_food(ants.update(i, a)) == carried_food(ants) - (if ants[i].carries_food {
            1int
        } else {
            0
        }) + (if a.carries_food {
            1int
        } else {
            0
        }),
    decreases ants.len(),
{
    let a2 = ants.update(i, a);
    if i == ants.len() - 1 {
        assert(a2.drop_last() =~= ants.drop_last());
    } else {
        assert(a2.drop_last() =~= ants.drop_last().update(i, a));
        lemma_carried_food_update(ants.drop_last(), i, a);
    }
}

proof fn lemma_row_food_bounds(row: Seq<Cell>, i: int)
    requires
        0 <= i < row.len(),
    ensures
        row[i].food_count() <= row_food(row),
        0 <= row_food(row.drop_last()),
    decreases row.len(),
{
    lemma_row_food_nonneg(row.drop_last());
    if i < row.len() - 1 {
        lemma_row_food_bounds(row.drop_last(), i);
    }
}

proof fn lemma_row_food_nonneg(row: Seq<Cell>)
    ensures
        0 <= row_food(row),
    decreases row.len(),
{
    if row.len() > 0 {
        lemma_row_food_nonneg(row.drop_last());
    }
}

proof fn lemma_grid_food_bounds(g: Seq<Seq<Cell>>, j: int)
    requires
        0 <= j < g.len(),
    ensures
        row_food(g[j]) <= grid_food(g),
    decreases g.len(),
{
    lemma_grid_food_nonneg(g.drop_last());
    lemma_row_food_nonneg(g.last());
    if j < g.len() - 1 {
        lemma_grid_food_bounds(g.drop_last(), j);
    }
}

proof fn lemma_grid_food_nonneg(g: Seq<Seq<Cell>>)
    ensures
        0 <= grid_food(g),
    decreases g.len(),
{
    if g.len() > 0 {
        lemma_row_food_nonneg(g.last());
        lemma_grid_food_nonneg(g.drop_last());
    }
}

proof fn lemma_carried_food_nonneg(ants: Seq<AntData>)
    ensures
        0 <= carried_food(ants),
    decreases ants.len(),
{
    if ants.len() > 0 {
        lemma_carried_food_nonneg(ants.drop_last());
    }
}

/// Replacing one cell changes the food in play by the difference in that
/// cell's food.
proof fn lemma_with_cell_food(w: WorldView, p: Position, c: Cell)
    requires
        w.shaped(),
        w.contains(p),
    ensures
        w.with_cell(p, c).food_in_play() == w.food_in_play() - w.cell(p).food_count()
            + c.food_count(),
{
    let row = w.grid[p.y as int];
    lemma_row_food_update(row, p.x as int, c);
    lemma_grid_food_update(w.grid, p.y as int, row.update(p.x as int, c));
}

/// Replacing one ant changes the food in play only through what it carries.
proof fn lemma_with_ant_food(w: WorldView, id: AntId, a: AntData)
    requires
        w.has_ant(id),
        a.carries_food == w.ants[id as int].carries_food,
    ensures
        w.with_ant(id, a).food_in_play() == w.food_in_play(),
{
    lemma_carried_food_update(w.ants, id as int, a);
}

/// In a well-formed world whose food in play fits in `u32`, an ant that
/// carries food can always drop it.
pub proof fn lemma_drop_fits(w: WorldView, id: AntId)
    requires
        w.wf(),
        w.has_ant(id),
        w.food_in_play() <= u32::MAX,
    ensures
        w.drop_fits(id),
{
    let p = w.ants[id as int].position;
    if w.ants[id as int].carries_food {
        lemma_row_food_bounds(w.grid[p.y as int], p.x as int);
        lemma_grid_food_bounds(w.grid, p.y as int);
        let others = w.with_ant(id, AntData { carries_food: false, ..w.ants[id as int] });
        lemma_carried_food_update(w.ants, id as int, others.ants[id as int]);
        lemma_carried_food_nonneg(others.ants);
    }
}

/// Swarms stay exact when the ants keep their number and their colours.
proof fn lemma_swarms_same_colors(w: WorldView, w2: WorldView)
    requires
        w.swarms_exact(),
        w2.swarms == w.swarms,
        w2.ants.len() == w.ants.len(),
        forall|i: int| 0 <= i < w.ants.len() ==> #[trigger] w2.ants[i].color == w.ants[i].color,
    ensures
        w2.swarms_exact(),
{
    assert forall|c: Color, k: int| 0 <= k < w2.swarm(c).len() implies {
        &&& #[trigger] w2.swarm(c)[k] < w2.ants.len()
        &&& w2.ants[w2.swarm(c)[k] as int].color == c
    } by {
        assert(w.swarm(c)[k] < w.ants.len());
    }
    assert forall|c: Color, k1: int, k2: int|
        0 <= k1 < k2 < w2.swarm(c).len() implies #[trigger] w2.swarm(c)[k1]
        < #[trigger] w2.swarm(c)[k2] by {
        assert(w.swarm(c)[k1] < w.swarm(c)[k2]);
    }
    assert forall|i: int| 0 <= i < w2.ants.len() implies w2.swarm(
        #[trigger] w2.ants[i].color,
    ).contains(i as AntId) by {
        assert(w.swarm(w.ants[i].color).contains(i as AntId));
    }
}

/// Replacing one ant by one with the same colour and position keeps a
/// well-formed world well formed.
proof fn lemma_with_ant_in_place_wf(w: WorldView, id: AntId, a: AntData)
    requires
        w.wf(),
        w.has_ant(id),
        a.color == w.ants[id as int].color,
        a.position == w.ants[id as int].position,
    ensures
        w.with_ant(id, a).wf(),
{
    let w2 = w.with_ant(id, a);
    assert forall|i: int| 0 <= i < w2.ants.len() implies {
        &&& w2.contains(#[trigger] w2.ants[i].position)
        &&& w2.cell(w2.ants[i].position).occupant() == Some(i as AntId)
    } by {
        assert(w.contains(w.ants[i].position));
    }
    assert forall|j: int, i: int|
        0 <= j < w2.height && 0 <= i < w2.width && (#[trigger] w2.grid[j][i]).occupant()
            is Some implies {
        let k = w2.grid[j][i].occupant()->0;
        &&& k < w2.ants.len()
        &&& w2.ants[k as int].position.x == i
        &&& w2.ants[k as int].position.y == j
    } by {
        assert(w.grid[j][i].occupant() is Some);
    }
    lemma_swarms_same_colors(w, w2);
}

/// Replacing one cell by one with the same occupant keeps a well-formed
/// world well formed.
proof fn lemma_with_cell_same_occupant_wf(w: WorldView, p: Position, c: Cell)
    requires
        w.wf(),
        w.contains(p),
        c.occupant() == w.cell(p).occupant(),
    ensures
        w.with_cell(p, c).wf(),
{
    let w2 = w.with_cell(p, c);
    assert forall|j: int| 0 <= j < w2.height implies #[trigger] w2.grid[j].len() == w2.width by {
        assert(w.grid[j].len() == w.width);
    }
    assert forall|i: int| 0 <= i < w2.ants.len() implies {
        &&& w2.contains(#[trigger] w2.ants[i].position)
        &&& w2.cell(w2.ants[i].position).occupant() == Some(i as AntId)
    } by {
        assert(w.contains(w.ants[i].position));
    }
    assert forall|j: int, i: int|
        0 <= j < w2.height && 0 <= i < w2.width && (#[trigger] w2.grid[j][i]).occupant()
            is Some implies {
        let k = w2.grid[j][i].occupant()->0;
        &&& k < w2.ants.len()
        &&& w2.ants[k as int].position.x == i
        &&& w2.ants[k as int].position.y == j
    } by {
        assert(w.grid[j][i].occupant() == w2.grid[j][i].occupant());
    }
    lemma_swarms_same_colors(w, w2);
}

/// Adding an ant keeps a well-formed world well formed, and keeps its food.
pub proof fn lemma_add_ant_wf(w: WorldView, color: Color, p: Position)
    requires
        w.wf(),
        w.ants.len() < usize::MAX,
    ensures
        w.add_ant(color, p).0.wf(),
        w.add_ant(color, p).0.food_in_play() == w.food_in_play(),
{
    let (w2, r) = w.add_ant(color, p);
    if r is Ok {
        let id = w.ants.len() as AntId;
        let cp = w.cell(p).with_occupant(Some(id));
        assert forall|j: int| 0 <= j < w2.height implies #[trigger] w2.grid[j].len()
            == w2.width by {
            assert(w.grid[j].len() == w.width);
        }
        assert forall|j: int, i: int| 0 <= j < w2.height && 0 <= i < w2.width implies #[trigger] w2.grid[j][i]
            == (if j == p.y && i == p.x {
            cp
        } else {
            w.grid[j][i]
        }) by {
            assert(w.grid[j].len() == w.width);
        }
        assert forall|i: int| 0 <= i < w2.ants.len() implies {
            &&& w2.contains(#[trigger] w2.ants[i].position)
            &&& w2.cell(w2.ants[i].position).occupant() == Some(i as AntId)
        } by {
            if i < w.ants.len() {
                assert(w2.ants[i] == w.ants[i]);
                assert(w.contains(w.ants[i].position));
                assert(w.cell(w.ants[i].position).occupant() == Some(i as AntId));
            } else {
                assert(w2.ants[i] == AntData::fresh(color, p));
            }
        }
        assert forall|j: int, i: int|
            0 <= j < w2.height && 0 <= i < w2.width && (#[trigger] w2.grid[j][i]).occupant()
                is Some implies {
            let k = w2.grid[j][i].occupant()->0;
            &&& k < w2.ants.len()
            &&& w2.ants[k as int].position.x == i
            &&& w2.ants[k as int].position.y == j
        } by {
            if j == p.y && i == p.x {
                assert(w2.ants[id as int] == AntData::fresh(color, p));
            } else {
                assert(w.grid[j][i].occupant() is Some);
                let k = w.grid[j][i].occupant()->0;
                assert(w2.ants[k as int] == w.ants[k as int]);
            }
        }
        assert forall|c: Color| #[trigger] w2.swarm(c) == (if c == color {
            w.swarm(c).push(id)
        } else {
            w.swarm(c)
        }) by {
            assert(c.index() == color.index() ==> c == color);
        }
        assert forall|c: Color, k: int| 0 <= k < w2.swarm(c).len() implies {
            &&& #[trigger] w2.swarm(c)[k] < w2.ants.len()
            &&& w2.ants[w2.swarm(c)[k] as int].color == c
        } by {
            if c != color || k < w.swarm(c).len() {
                assert(w2.swarm(c)[k] == w.swarm(c)[k]);
                assert(w.swarm(c)[k] < w.ants.len());
                assert(w2.ants[w.swarm(c)[k] as int] == w.ants[w.swarm(c)[k] as int]);
            } else {
                assert(w2.swarm(c)[k] == id);
            }
        }
        assert forall|c: Color, k1: int, k2: int|
            0 <= k1 < k2 < w2.swarm(c).len() implies #[trigger] w2.swarm(c)[k1]
            < #[trigger] w2.swarm(c)[k2] by {
            assert(w2.swarm(c)[k1] == w.swarm(c)[k1]);
            if c == color && k2 == w.swarm(c).len() {
                assert(w.swarm(c)[k1] < w.ants.len());
                assert(w2.swarm(c)[k2] == id);
            } else {
                assert(w2.swarm(c)[k2] == w.swarm(c)[k2]);
                assert(w.swarm(c)[k1] < w.swarm(c)[k2]);
            }
        }
        assert forall|i: int| 0 <= i < w2.ants.len() implies w2.swarm(
            #[trigger] w2.ants[i].color,
        ).contains(i as AntId) by {
            if i < w.ants.len() {
                let c = w.ants[i].color;
                assert(w2.ants[i] == w.ants[i]);
                assert(w.swarm(c).contains(i as AntId));
                let k = choose|k: int| 0 <= k < w.swarm(c).len() && w.swarm(c)[k] == i as AntId;
                assert(w2.swarm(c)[k] == i as AntId);
            } else {
                assert(w2.ants[i] == AntData::fresh(color, p));
                assert(w2.swarm(color)[w.swarm(color).len() as int] == id);
            }
        }
        lemma_with_cell_food(w, p, cp);
        assert(w2.ants.drop_last() =~= w.ants);
    }
}

/// A move keeps a well-formed world well formed, and keeps its food.
pub proof fn lemma_move_forward_wf(w: WorldView, id: AntId)
    requires
        w.wf(),
        w.has_ant(id),
    ensures
        w.move_forward(id).0.wf(),
        w.move_forward(id).0.food_in_play() == w.food_in_play(),
{
    let (w2, r) = w.move_forward(id);
    let a = w.ants[id as int];
    let pos = a.position;
    let t = w.ahead(id);
    assert(w.contains(pos));
    if r is Ok {
        let ct = w.cell(t).with_occupant(Some(id));
        let entered = w.with_cell(t, ct);
        let cp = entered.cell(pos).with_occupant(None);
        let left = entered.with_cell(pos, cp);
        assert(t != pos);
        assert(w.cell(pos).occupant() == Some(id));
        assert(entered.cell(pos) == w.cell(pos));
        assert forall|j: int| 0 <= j < w2.height implies #[trigger] w2.grid[j].len()
            == w2.width by {
            assert(w.grid[j].len() == w.width);
        }
        assert forall|j: int, i: int| 0 <= j < w2.height && 0 <= i < w2.width implies #[trigger] w2.grid[j][i]
            == (if j == pos.y && i == pos.x {
            cp
        } else if j == t.y && i == t.x {
            ct
        } else {
            w.grid[j][i]
        }) by {
            assert(w.grid[j].len() == w.width);
        }
        assert forall|i: int| 0 <= i < w2.ants.len() implies {
            &&& w2.contains(#[trigger] w2.ants[i].position)
            &&& w2.cell(w2.ants[i].position).occupant() == Some(i as AntId)
        } by {
            if i != id {
                let q = w.ants[i].position;
                assert(w2.ants[i] == w.ants[i]);
                assert(w.contains(q));
                assert(w.cell(q).occupant() == Some(i as AntId));
                assert(q != t);
                assert(q != pos);
                assert(w2.cell(q) == w.cell(q));
            } else {
                assert(w2.ants[i].position == t);
                assert(w2.cell(t) == ct);
            }
        }
        assert forall|j: int, i: int|
            0 <= j < w2.height && 0 <= i < w2.width && (#[trigger] w2.grid[j][i]).occupant()
                is Some implies {
            let k = w2.grid[j][i].occupant()->0;
            &&& k < w2.ants.len()
            &&& w2.ants[k as int].position.x == i
            &&& w2.ants[k as int].position.y == j
        } by {
            if j == pos.y && i == pos.x {
            } else if j == t.y && i == t.x {
                assert(w2.ants[id as int].position == t);
            } else {
                assert(w.grid[j][i].occupant() is Some);
                let k = w.grid[j][i].occupant()->0;
                assert(k != id);
                assert(w2.ants[k as int] == w.ants[k as int]);
            }
        }
        lemma_swarms_same_colors(w, w2);
        lemma_with_cell_food(w, t, ct);
        lemma_with_cell_food(entered, pos, cp);
        lemma_with_ant_food(left, id, AntData { position: t, ..a });
    }
}

/// Turning, jumping and food handling keep a well-formed world well formed;
/// none of them, nor a move, changes the food in play.
pub proof fn lemma_ant_ops_wf(w: WorldView, id: AntId, d: Direction, ip: InstrIdx)
    requires
        w.wf(),
        w.has_ant(id),
    ensures
        w.rotate(id, d).wf(),
        w.rotate(id, d).food_in_play() == w.food_in_play(),
        w.set_instr_pointer(id, ip).wf(),
        w.set_instr_pointer(id, ip).food_in_play() == w.food_in_play(),
        w.pickup_food(id).0.wf(),
        w.pickup_food(id).0.food_in_play() == w.food_in_play(),
        w.drop_fits(id) ==> w.drop_food(id).0.wf(),
        w.drop_fits(id) ==> w.drop_food(id).0.food_in_play() == w.food_in_play(),
        w.move_forward(id).0.wf(),
        w.move_forward(id).0.food_in_play() == w.food_in_play(),
{
    let a = w.ants[id as int];
    let p = a.position;
    let c = w.cell(p);
    assert(w.contains(p));
    lemma_with_ant_in_place_wf(w, id, AntData { direction: d, ..a });
    lemma_with_ant_food(w, id, AntData { direction: d, ..a });
    lemma_with_ant_in_place_wf(w, id, AntData { instr_pointer: ip, ..a });
    lemma_with_ant_food(w, id, AntData { instr_pointer: ip, ..a });
    if !a.carries_food && c is FreeCell && c.food_count() > 0 {
        let c2 = c.with_food((c.food_count() - 1) as u32);
        let w1 = w.with_cell(p, c2);
        lemma_with_cell_same_occupant_wf(w, p, c2);
        lemma_with_ant_in_place_wf(w1, id, AntData { carries_food: true, ..a });
        lemma_with_cell_food(w, p, c2);
        lemma_carried_food_update(w1.ants, id as int, AntData { carries_food: true, ..a });
    }
    if a.carries_food && w.drop_fits(id) {
        let w1 = w.with_ant(id, AntData { carries_food: false, ..a });
        let c2 = c.with_food((c.food_count() + 1) as u32);
        lemma_with_ant_in_place_wf(w, id, AntData { carries_food: false, ..a });
        lemma_with_cell_same_occupant_wf(w1, p, c2);
        lemma_carried_food_update(w.ants, id as int, AntData { carries_food: false, ..a });
        lemma_with_cell_food(w1, p, c2);
    }
    lemma_move_forward_wf(w, id);
}

/// In a well-formed world every ant stands on exactly one cell that names
/// it: a cell inside the grid names ant `i` exactly when it is at ant `i`'s
/// position. So no cell holds two ants, and no ant is named by two cells.
pub proof fn lemma_occupancy(w: WorldView)
    requires
        w.wf(),
    ensures
        forall|i: int, p: Position|
            0 <= i < w.ants.len() && w.contains(p) ==> ((#[trigger] w.cell(p)).occupant() == Some(
                i as AntId,
            ) <==> p == (#[trigger] w.ants[i]).position),
{
    assert forall|i: int, p: Position|
        0 <= i < w.ants.len() && w.contains(p) implies ((#[trigger] w.cell(p)).occupant() == Some(
        i as AntId,
    ) <==> p == (#[trigger] w.ants[i]).position) by {
        if w.cell(p).occupant() == Some(i as AntId) {
            assert(w.grid[p.y as int][p.x as int].occupant() is Some);
        }
    }
}

/// A move either changes nothing, or changes exactly the occupants of the
/// cell left and the cell entered together with the ant's position: the cell
/// left becomes empty of ants, the cell entered holds the ant, and every
/// other cell and every other ant stay as they were.
pub proof fn lemma_move_atomic(w: WorldView, id: AntId)
    requires
        w.wf(),
        w.has_ant(id),
    ensures
        ({
            let (w2, r) = w.move_forward(id);
            let from = w.ants[id as int].position;
            let to = w.ahead(id);
            &&& r is Err <==> w2 == w
            &&& r is Ok ==> {
                &&& from != to
                &&& w2.cell(from) == w.cell(from).with_occupant(None)
                &&& w2.cell(to) == w.cell(to).with_occupant(Some(id))
                &&& w.cell(to).occupant() is None
                &&& w2.ants[id as int] == (AntData { position: to, ..w.ants[id as int] })
                &&& w2.ants.len() == w.ants.len()
                &&& forall|j: int| 0 <= j < w.ants.len() && j != id ==> #[trigger] w2.ants[j] == w.ants[j]
                &&& forall|p: Position|
                    w.contains(p) && p != from && p != to ==> #[trigger] w2.cell(p) == w.cell(p)
            }
        }),
{
    let (w2, r) = w.move_forward(id);
    let from = w.ants[id as int].position;
    let to = w.ahead(id);
    assert(w.contains(from));
    if r is Ok {
        assert(w.cell(from).occupant() == Some(id));
        assert(from != to);
        assert(w2 != w) by {
            assert(w2.cell(to) != w.cell(to));
        }
        assert forall|p: Position| w.contains(p) && p != from && p != to implies #[trigger] w2.cell(p)
            == w.cell(p) by {
            assert(w.grid[p.y as int].len() == w.width);
        }
    }
}

/// A move towards a cell outside the grid fails with `OutOfBounds`, whatever
/// lies elsewhere, and changes nothing.
pub proof fn lemma_move_off_edge(w: WorldView, id: AntId)
    requires
        w.wf(),
        w.has_ant(id),
        !w.contains(w.ahead(id)),
    ensures
        w.move_forward(id) == (w, Err::<(), crate::world::WorldError>(
            crate::world::WorldError::OutOfBounds,
        )),
{
}

/// The world after ant `id` makes the food calls `calls` in order: `true`
/// picks food up, `false` drops it.
pub open spec fn food_calls(w: WorldView, id: AntId, calls: Seq<bool>) -> WorldView
    decreases calls.len(),
{
    if calls.len() == 0 {
        w
    } else {
        let before = food_calls(w, id, calls.drop_last());
        if calls.last() {
            before.pickup_food(id).0
        } else {
            before.drop_food(id).0
        }
    }
}

/// Over any sequence of pickups and drops by one ant, the food on the cells
/// plus the food carried by ants stays what it was. (The food in play must
/// fit in `u32`, the type of a cell's count; then every drop fits too.)
pub proof fn lemma_food_conservation(w: WorldView, id: AntId, calls: Seq<bool>)
    requires
        w.wf(),
        w.has_ant(id),
        w.food_in_play() <= u32::MAX,
    ensures
        food_calls(w, id, calls).wf(),
        food_calls(w, id, calls).has_ant(id),
        food_calls(w, id, calls).food_in_play() == w.food_in_play(),
    decreases calls.len(),
{
    if calls.len() > 0 {
        lemma_food_conservation(w, id, calls.drop_last());
        let before = food_calls(w, id, calls.drop_last());
        lemma_drop_fits(before, id);
        lemma_ant_ops_wf(before, id, Direction::Right, 0);
    }
}

} // verus!
