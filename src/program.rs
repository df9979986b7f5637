//! The instruction set: each instruction acts on one ant through its handle
//! and names the instruction that ant runs next.
use vstd::prelude::*;

use crate::data::{AntId, Direction, InstrIdx};
use crate::invariants::lemma_ant_ops_wf;
use crate::world::{AntMut, WorldView};

verus! {

/// A sixth of a turn, anticlockwise (`Left`) or clockwise (`Right`).
#[derive(Debug, Clone, Copy, PartialEq, Eq, Structural)]
pub enum TurnDirection {
    Left,
    Right,
}

impl TurnDirection {
    /// The change in ordinal that the turn makes.
    pub open spec fn delta(self) -> int {
        match self {
            TurnDirection::Left => -1,
            TurnDirection::Right => 1,
        }
    }

    /// The direction faced after turning from `d`.
    pub open spec fn turned(self, d: Direction) -> Direction {
        Direction::from_ordinal(d.ordinal() + self.delta() + 6)
    }

    /// The direction faced after turning `n` times from `d`.
    pub open spec fn turned_times(self, d: Direction, n: nat) -> Direction
        decreases n,
    {
        if n == 0 {
            d
        } else {
            self.turned(self.turned_times(d, (n - 1) as nat))
        }
    }

    /// Turns `direction` one sixth, modulo 6.
    pub fn apply_to(self, direction: Direction) -> (r: Direction)
        ensures
            r == self.turned(direction),
            r.ordinal() == (direction.ordinal() + self.delta() + 6) % 6,
    {
        let d: i32 = match self {
            TurnDirection::Left => -1,
            TurnDirection::Right => 1,
        };
        let direction: u32 = direction.into();
        let direction = direction as i32;
        let direction = (direction + d + 6) % 6;
        let direction = direction as u32;
        Direction::try_from(direction).unwrap()
    }
}

/// Turning the same way six times faces the ant where it started.
pub proof fn lemma_six_turns(t: TurnDirection, d: Direction)
    ensures
        t.turned_times(d, 6) == d,
{
    reveal_with_fuel(TurnDirection::turned_times, 7);
}

/// One instruction; every variant names the index of its successor(s).
#[derive(Debug, Clone, Copy, PartialEq, Eq, Structural)]
pub enum Instr {
    Turn { direction: TurnDirection, next_instr: InstrIdx },
    Move { success_instr: InstrIdx, fail_instr: InstrIdx },
    Direction { direction: Direction, success_instr: InstrIdx, fail_instr: InstrIdx },
    PickUpFood { success_instr: InstrIdx, fail_instr: InstrIdx },
    DropFood { next_instr: InstrIdx },
}

/// A colour's program: instructions indexed by instruction pointer.
pub type Program = Vec<Instr>;

impl Instr {
    /// Every successor the instruction names is below `n`.
    pub open spec fn targets_below(self, n: int) -> bool {
        match self {
            Instr::Turn { next_instr, .. } => next_instr < n,
            Instr::Move { success_instr, fail_instr } => success_instr < n && fail_instr < n,
            Instr::Direction { success_instr, fail_instr, .. } => success_instr < n && fail_instr
                < n,
            Instr::PickUpFood { success_instr, fail_instr } => success_instr < n && fail_instr < n,
            Instr::DropFood { next_instr } => next_instr < n,
        }
    }

    /// What the instruction needs of the world beyond the ant being there.
    pub open spec fn runnable(self, w: WorldView, id: AntId) -> bool {
        self is DropFood ==> w.drop_fits(id)
    }

    /// The world after the instruction runs for ant `id`, and the index of
    /// the instruction that ant runs next.
    pub open spec fn step(self, w: WorldView, id: AntId) -> (WorldView, InstrIdx) {
        match self {
            Instr::Turn { direction, next_instr } => (
                w.rotate(id, direction.turned(w.ants[id as int].direction)),
                next_instr,
            ),
            Instr::Move { success_instr, fail_instr } => {
                let (w2, r) = w.move_forward(id);
                (
                    w2,
                    if r is Ok {
                        success_instr
                    } else {
                        fail_instr
                    },
                )
            },
            Instr::Direction { direction, success_instr, fail_instr } => (
                w,
                if w.ants[id as int].direction == direction {
                    success_instr
                } else {
                    fail_instr
                },
            ),
            Instr::PickUpFood { success_instr, fail_instr } => {
                let (w2, r) = w.pickup_food(id);
                (
                    w2,
                    if r is Ok {
                        success_instr
                    } else {
                        fail_instr
                    },
                )
            },
            Instr::DropFood { next_instr } => (w.drop_food(id).0, next_instr),
        }
    }

    /// Runs the instruction for the handled ant and returns the index of the
    /// instruction it runs next. The pointer itself is left to the caller.
    pub fn eval(self, ant: &mut AntMut) -> (r: InstrIdx)
        requires
            old(ant).ready(),
            self.runnable(old(ant).world@, old(ant).id),
        ensures
            final(ant).id == old(ant).id,
            final(ant).ready(),
            (final(ant).world@, r) == self.step(old(ant).world@, old(ant).id),
            final(ant).world@.food_in_play() == old(ant).world@.food_in_play(),
            *final(final(ant).world) == *final(old(ant).world),
    {
        match self {
            Instr::Turn { direction, next_instr } => {
                let new_direction = direction.apply_to(ant.direction());
                ant.rotate(new_direction);
                next_instr
            },
            Instr::Move { success_instr, fail_instr } => {
                if ant.move_forward().is_ok() {
                    success_instr
                } else {
                    fail_instr
                }
            },
            Instr::Direction { direction, success_instr, fail_instr } => {
                if ant.direction() == direction {
                    success_instr
                } else {
                    fail_instr
                }
            },
            Instr::PickUpFood { success_instr, fail_instr } => {
                if ant.pickup_food().is_ok() {
                    success_instr
                } else {
                    fail_instr
                }
            },
            Instr::DropFood { next_instr } => {
                let _ = ant.drop_food();
                next_instr
            },
        }
    }
}

/// An instruction changes only the ant it runs for (never its colour or its
/// pointer) and the cells, keeps the world well formed, keeps the food in
/// play, and returns one of the successors it names.
pub proof fn lemma_step_frame(instr: Instr, w: WorldView, id: AntId)
    requires
        w.wf(),
        w.has_ant(id),
        instr.runnable(w, id),
    ensures
        instr.step(w, id).0.wf(),
        instr.step(w, id).0.food_in_play() == w.food_in_play(),
        instr.step(w, id).0.ants.len() == w.ants.len(),
        instr.step(w, id).0.swarms == w.swarms,
        instr.step(w, id).0.ants[id as int].color == w.ants[id as int].color,
        instr.step(w, id).0.ants[id as int].instr_pointer == w.ants[id as int].instr_pointer,
        forall|j: int|
            0 <= j < w.ants.len() && j != id ==> #[trigger] instr.step(w, id).0.ants[j]
                == w.ants[j],
        forall|n: int| instr.targets_below(n) ==> instr.step(w, id).1 < n,
{
    let a = w.ants[id as int];
    match instr {
        Instr::Turn { direction, .. } => {
            lemma_ant_ops_wf(w, id, direction.turned(a.direction), 0);
        },
        Instr::Move { .. } => {
            lemma_ant_ops_wf(w, id, a.direction, 0);
            let (w2, r) = w.move_forward(id);
            assert forall|j: int| 0 <= j < w.ants.len() && j != id implies #[trigger] w2.ants[j]
                == w.ants[j] by {}
        },
        Instr::Direction { .. } => {},
        Instr::PickUpFood { .. } => {
            lemma_ant_ops_wf(w, id, a.direction, 0);
            let (w2, r) = w.pickup_food(id);
            assert forall|j: int| 0 <= j < w.ants.len() && j != id implies #[trigger] w2.ants[j]
                == w.ants[j] by {}
        },
        Instr::DropFood { .. } => {
            lemma_ant_ops_wf(w, id, a.direction, 0);
            let (w2, r) = w.drop_food(id);
            assert forall|j: int| 0 <= j < w.ants.len() && j != id implies #[trigger] w2.ants[j]
                == w.ants[j] by {}
        },
    }
}

} // verus!
