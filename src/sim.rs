//! The simulator: one tick runs one instruction for every ant, colour by
//! colour and, within a colour, in order of creation, then shows the world to
//! the renderer.
use vstd::prelude::*;

use crate::data::{AntId, Color};
use crate::invariants::{lemma_ant_ops_wf, lemma_drop_fits};
use crate::program::{lemma_step_frame, Instr, Program};
use crate::world::{World, WorldView};

verus! {

/// Something that observes the world once after every tick.
pub trait Renderer {
    fn render(&mut self, world: &World);
}

/// Ant `id` runs the instruction its pointer names, and its pointer moves to
/// the successor that the instruction returned.
pub open spec fn run_ant(program: Seq<Instr>, w: WorldView, id: AntId) -> WorldView {
    let (w2, next) = program[w.ants[id as int].instr_pointer as int].step(w, id);
    w2.set_instr_pointer(id, next)
}

/// The ants `ids` run one instruction each, in order.
pub open spec fn run_ants(program: Seq<Instr>, w: WorldView, ids: Seq<AntId>) -> WorldView
    decreases ids.len(),
{
    if ids.len() == 0 {
        w
    } else {
        run_ant(program, run_ants(program, w, ids.drop_last()), ids.last())
    }
}

/// One tick: for each colour in order, every ant of that colour (as listed
/// when the colour's turn begins) runs one instruction of the colour's program.
pub open spec fn tick(programs: Seq<(Color, Seq<Instr>)>, w: WorldView) -> WorldView
    decreases programs.len(),
{
    if programs.len() == 0 {
        w
    } else {
        let before = tick(programs.drop_last(), w);
        run_ants(programs.last().1, before, before.swarm(programs.last().0))
    }
}

/// Every successor named in the program is an index of the program.
pub open spec fn program_closed(program: Seq<Instr>) -> bool {
    forall|n: int| 0 <= n < program.len() ==> (#[trigger] program[n]).targets_below(program.len() as int)
}

/// Every ant of `color` points at an instruction of `program`.
pub open spec fn pointers_fit(color: Color, program: Seq<Instr>, w: WorldView) -> bool {
    forall|a: int|
        0 <= a < w.ants.len() && (#[trigger] w.ants[a]).color == color ==> w.ants[a].instr_pointer
            < program.len()
}

/// The colours are distinct, each program is closed, and every ant of a
/// listed colour points into its colour's program.
pub open spec fn programs_fit(programs: Seq<(Color, Seq<Instr>)>, w: WorldView) -> bool {
    &&& forall|i: int, j: int|
        0 <= i < j < programs.len() ==> (#[trigger] programs[i]).0 != (#[trigger] programs[j]).0
    &&& forall|i: int| 0 <= i < programs.len() ==> program_closed(#[trigger] programs[i].1)
    &&& forall|i: int|
        0 <= i < programs.len() ==> pointers_fit(programs[i].0, #[trigger] programs[i].1, w)
}

/// The programs as colours and instruction sequences.
pub open spec fn programs_view(programs: Seq<(Color, Program)>) -> Seq<(Color, Seq<Instr>)> {
    programs.map_values(|e: (Color, Program)| (e.0, e.1@))
}

/// One ant's instruction keeps the world well formed and its food, changes
/// no colour and no other ant's pointer, and leaves the ant pointing into
/// the program.
proof fn lemma_run_ant(program: Seq<Instr>, color: Color, w: WorldView, id: AntId)
    requires
        w.wf(),
        w.food_in_play() <= u32::MAX,
        w.has_ant(id),
        w.ants[id as int].color == color,
        program_closed(program),
        pointers_fit(color, program, w),
    ensures
        run_ant(program, w, id).wf(),
        run_ant(program, w, id).food_in_play() == w.food_in_play(),
        run_ant(program, w, id).ants.len() == w.ants.len(),
        run_ant(program, w, id).swarms == w.swarms,
        pointers_fit(color, program, run_ant(program, w, id)),
        forall|j: int|
            0 <= j < w.ants.len() ==> (#[trigger] run_ant(program, w, id).ants[j]).color
                == w.ants[j].color,
        forall|j: int|
            0 <= j < w.ants.len() && j != id ==> (#[trigger] run_ant(
                program,
                w,
                id,
            ).ants[j]).instr_pointer == w.ants[j].instr_pointer,
{
    lemma_drop_fits(w, id);
    let ip = w.ants[id as int].instr_pointer as int;
    let instr = program[ip];
    lemma_step_frame(instr, w, id);
    let (mid, next) = instr.step(w, id);
    assert(instr.targets_below(program.len() as int));
    lemma_ant_ops_wf(mid, id, crate::data::Direction::Right, next);
    let w2 = run_ant(program, w, id);
    assert forall|j: int| 0 <= j < w.ants.len() implies (#[trigger] w2.ants[j]).color
        == w.ants[j].color by {
        if j != id {
            assert(mid.ants[j] == w.ants[j]);
        }
    }
    assert forall|a: int|
        0 <= a < w2.ants.len() && (#[trigger] w2.ants[a]).color == color implies w2.ants[a].instr_pointer
        < program.len() by {
        if a != id {
            assert(mid.ants[a] == w.ants[a]);
        }
    }
    assert forall|j: int| 0 <= j < w.ants.len() && j != id implies (#[trigger] w2.ants[j]).instr_pointer
        == w.ants[j].instr_pointer by {
        assert(mid.ants[j] == w.ants[j]);
    }
}

struct Interpreter {
    program: Program,
    color: Color,
}

impl Interpreter {
    /// Every ant of the interpreter's colour runs one instruction.
    fn step_brains(&self, world: &mut World)
        requires
            old(world).wf(),
            old(world)@.food_in_play() <= u32::MAX,
            program_closed(self.program@),
            pointers_fit(self.color, self.program@, old(world)@),
        ensures
            final(world).wf(),
            final(world)@ == run_ants(self.program@, old(world)@, old(world)@.swarm(self.color)),
            final(world)@.food_in_play() == old(world)@.food_in_play(),
            final(world)@.ants.len() == old(world)@.ants.len(),
            pointers_fit(self.color, self.program@, final(world)@),
            forall|j: int|
                0 <= j < old(world)@.ants.len() ==> (#[trigger] final(world)@.ants[j]).color
                    == old(world)@.ants[j].color,
            forall|j: int|
                0 <= j < old(world)@.ants.len() && old(world)@.ants[j].color != self.color
                    ==> (#[trigger] final(world)@.ants[j]).instr_pointer
                    == old(world)@.ants[j].instr_pointer,
    {
        let ghost w0 = world@;
        proof {
            world.lemma_wf();
        }
        let ant_ids = world.swarm_list(self.color);
        let mut k: usize = 0;
        while k < ant_ids.len()
            invariant
                world.wf(),
                w0.wf(),
                w0.food_in_play() <= u32::MAX,
                program_closed(self.program@),
                pointers_fit(self.color, self.program@, w0),
                ant_ids@ == w0.swarm(self.color),
                k <= ant_ids@.len(),
                world@ == run_ants(self.program@, w0, ant_ids@.subrange(0, k as int)),
                world@.food_in_play() == w0.food_in_play(),
                world@.ants.len() == w0.ants.len(),
                world@.swarms == w0.swarms,
                pointers_fit(self.color, self.program@, world@),
                forall|j: int|
                    0 <= j < w0.ants.len() ==> (#[trigger] world@.ants[j]).color
                        == w0.ants[j].color,
                forall|j: int|
                    0 <= j < w0.ants.len() && w0.ants[j].color != self.color
                        ==> (#[trigger] world@.ants[j]).instr_pointer
                        == w0.ants[j].instr_pointer,
            decreases ant_ids@.len() - k,
        {
            let ghost before = world@;
            let ant_id = ant_ids[k];
            proof {
                world.lemma_wf();
                assert(w0.swarm(self.color)[k as int] < w0.ants.len());
                assert(before.ants[ant_id as int].color == self.color);
                lemma_drop_fits(before, ant_id);
                lemma_run_ant(self.program@, self.color, before, ant_id);
            }
            let mut ant = world.ant_mut(ant_id);
            let instr = self.program[ant.instr_pointer()];
            let next_instr = instr.eval(&mut ant);
            ant.update_instr_pointer(next_instr);
            k = k + 1;
            proof {
                assert(ant_ids@.subrange(0, k as int).drop_last() =~= ant_ids@.subrange(
                    0,
                    k - 1,
                ));
            }
        }
        proof {
            assert(ant_ids@.subrange(0, k as int) =~= ant_ids@);
        }
    }
}

/// Runs the colours' programs over a world and shows each tick's result to
/// a renderer.
pub struct Simulator {
    world: World,
    interpreters: Vec<Interpreter>,
    renderer: Box<dyn Renderer>,
}

impl Simulator {
    /// The world being simulated.
    pub closed spec fn spec_world(&self) -> WorldView {
        self.world@
    }

    /// The colours and their programs, in the order in which they run.
    pub closed spec fn spec_programs(&self) -> Seq<(Color, Seq<Instr>)> {
        Seq::new(
            self.interpreters@.len(),
            |i: int| (self.interpreters@[i].color, self.interpreters@[i].program@),
        )
    }

    /// The world is well formed, its food in play fits in `u32`, and the
    /// programs fit it.
    pub closed spec fn wf(&self) -> bool {
        &&& self.world.wf()
        &&& self.world@.food_in_play() <= u32::MAX
        &&& programs_fit(self.spec_programs(), self.world@)
    }

    /// A simulator over `world` that runs `programs` in the order given: a
    /// mapping from colour to program, so no colour appears twice. Every
    /// successor named in a program must be an index of it, and every ant of
    /// a listed colour must point into its colour's program. Food counts are
    /// `u32`, so the food in play must fit in one.
    pub fn new(world: World, programs: Vec<(Color, Program)>, renderer: Box<dyn Renderer>) -> (r:
        Simulator)
        requires
            world.wf(),
            world@.food_in_play() <= u32::MAX,
            programs_fit(programs_view(programs@), world@),
        ensures
            r.wf(),
            r.spec_world() == world@,
            r.spec_programs() == programs_view(programs@),
    {
        let ghost all = programs_view(programs@);
        let mut programs = programs;
        let mut interpreters: Vec<Interpreter> = Vec::new();
        while programs.len() > 0
            invariant
                interpreters@.len() + programs@.len() == all.len(),
                forall|i: int|
                    0 <= i < interpreters@.len() ==> (#[trigger] interpreters@[i]).color == all[i].0
                        && interpreters@[i].program@ == all[i].1,
                forall|i: int|
                    0 <= i < programs@.len() ==> (#[trigger] programs@[i]).0
                        == all[i + interpreters@.len()].0 && programs@[i].1@ == all[i
                        + interpreters@.len()].1,
            decreases programs@.len(),
        {
            let (color, program) = programs.remove(0);
            interpreters.push(Interpreter { program, color });
        }
        let r = Simulator { world, interpreters, renderer };
        assert(r.spec_programs() =~= all);
        r
    }

    /// One tick: every ant of every listed colour runs exactly one
    /// instruction, then the renderer sees the resulting world once.
    pub fn step(&mut self)
        requires
            old(self).wf(),
        ensures
            final(self).wf(),
            final(self).spec_programs() == old(self).spec_programs(),
            final(self).spec_world() == tick(old(self).spec_programs(), old(self).spec_world()),
            final(self).spec_world().food_in_play() == old(self).spec_world().food_in_play(),
    {
        let ghost progs = self.spec_programs();
        let ghost w0 = self.world@;
        let mut i: usize = 0;
        while i < self.interpreters.len()
            invariant
                progs == self.spec_programs(),
                i <= progs.len(),
                self.world.wf(),
                self.world@.food_in_play() == w0.food_in_play(),
                w0.food_in_play() <= u32::MAX,
                programs_fit(progs, self.world@),
                self.world@ == tick(progs.subrange(0, i as int), w0),
            decreases progs.len() - i,
        {
            let ghost before = self.world@;
            assert(progs[i as int].0 == self.interpreters@[i as int].color);
            assert(progs[i as int].1 == self.interpreters@[i as int].program@);
            assert(program_closed(progs[i as int].1));
            assert(pointers_fit(progs[i as int].0, progs[i as int].1, before));
            self.interpreters[i].step_brains(&mut self.world);
            proof {
                assert forall|m: int| 0 <= m < progs.len() implies pointers_fit(
                    progs[m].0,
                    #[trigger] progs[m].1,
                    self.world@,
                ) by {
                    if m != i {
                        assert(progs[m].0 != progs[i as int].0);
                        assert(pointers_fit(progs[m].0, progs[m].1, before));
                    }
                }
                assert(progs.subrange(0, i + 1).drop_last() =~= progs.subrange(0, i as int));
            }
            i = i + 1;
        }
        proof {
            assert(progs.subrange(0, i as int) =~= progs);
        }
        self.renderer.render(&self.world);
    }
}

} // verus!
