//! Cycle-level specification machines for the two datapaths: pure step
//! functions over plain values that determine what each cycle computes,
//! and the bounded folds that run them.  The drivers' contracts tie their
//! result and final state to these machines, so a run's registers, memory,
//! byte streams, counters and exit PC are all pinned by the initial state.

use vstd::prelude::*;

use crate::alu::spec_alu;
use crate::branch_predictor::BranchPredictor;
use crate::branch_predictor::PredictorHeuristic;
use crate::cpu::CPUState;
use crate::cpu::Register;
use crate::decode_helper;
use crate::inclusive::InclusiveCache;
use crate::instruction::Instruction;
use crate::instruction::NOP;
use crate::instruction::Opcode;
use crate::pipeline;
use crate::pipeline::EXMEMRegister;
use crate::pipeline::IDEXRegister;
use crate::pipeline::IFIDRegister;
use crate::pipeline::MEMWBRegister;
use crate::pipeline::PipelineState;
use crate::stages;
use crate::stages_simple;
use crate::storage;
use crate::system_call::SysOutcome;
use crate::system_call::SyscallIO;
use crate::system_call::sys_step;

verus! {

/// The architectural state a datapath cycle works on: the program
/// counter, the register file, the page map, the system-call byte
/// streams, the two deterministic counters and the stack bounds.
pub ghost struct CoreState {
    pub pc: u32,
    pub gpr: Seq<Register>,
    pub pages: Map<int, Seq<u8>>,
    pub input: Seq<u8>,
    pub cursor: int,
    pub output: Seq<u8>,
    pub cycle: int,
    pub insts: int,
    pub stack_base: u32,
    pub stack_size: u32,
}

/// The architectural state a CPU, a hierarchy and a bridge present.
pub open spec fn core_of(cpu: CPUState, mem: InclusiveCache, io: SyscallIO) -> CoreState {
    CoreState {
        pc: cpu.pc.value(),
        gpr: cpu.gpr@,
        pages: mem.mmu.pages(),
        input: io.input@,
        cursor: io.cursor as int,
        output: io.output@,
        cycle: cpu.history.cycle_count as int,
        insts: cpu.history.inst_count as int,
        stack_base: cpu.stack_base,
        stack_size: cpu.stack_size,
    }
}

/// The register an optional 5-bit field selects, defaulting to x0.
pub open spec fn reg_sel(gpr: Seq<Register>, field: Option<u32>) -> u32 {
    match field {
        Some(v) => gpr[v as int].value(),
        None => gpr[0].value(),
    }
}

/// What one cycle does: run on, exit at the SYSTEM exit call, or fail
/// with an error.
pub ghost enum StepVerdict {
    Next(CoreState),
    Exit(u32, CoreState),
    Fail,
}

/// One cycle of the single-cycle datapath: fetch, decode, execute,
/// memory access and write-back run to completion, then the exit test
/// and the branch redirect.
pub open spec fn sc_step(s: CoreState) -> StepVerdict {
    if s.gpr[2].value() < s.stack_base - s.stack_size {
        StepVerdict::Fail
    } else if !storage::pg_load_ok(s.pages, s.pc, 4) {
        StepVerdict::Fail
    } else {
        let raw = storage::pg_loaded_value(s.pages, s.pc, 4);
        if !decode_helper::decode_ok(raw) {
            StepVerdict::Fail
        } else {
            let inst = decode_helper::decoded(raw);
            let rs1 = reg_sel(s.gpr, inst.attributes.rs1) as i32;
            let rs2 = reg_sel(s.gpr, inst.attributes.rs2) as i32;
            if inst.opcode == Opcode::System {
                match sys_step(rs1, rs2, s.pages, s.input, s.cursor, s.output) {
                    SysOutcome::Done(er, ncur, nout) => sc_mem(
                        CoreState { cursor: ncur, output: nout, ..s },
                        inst,
                        er,
                        rs2,
                    ),
                    SysOutcome::Fail => StepVerdict::Fail,
                }
            } else {
                sc_mem(
                    s,
                    inst,
                    spec_alu(inst.controls.alu_op, rs1, stages_simple::effective_op2(inst, rs2)),
                    rs2,
                )
            }
        }
    }
}

/// The memory access, write-back, exit test and branch redirect of one
/// single-cycle datapath cycle.
pub open spec fn sc_mem(s: CoreState, inst: Instruction, exec_result: i32, rs2: i32) -> StepVerdict {
    let pc = s.pc;
    let a = exec_result as u32;
    let step = inst.controls.mem_step;
    if (inst.controls.mem_read || inst.controls.mem_write) && !storage::pg_load_ok(
        s.pages,
        a,
        step,
    ) {
        StepVerdict::Fail
    } else {
        let pages = if inst.controls.mem_write {
            storage::pg_store(s.pages, a, step, rs2 as u32)
        } else {
            s.pages
        };
        let wb = if inst.controls.mem_read {
            storage::pg_loaded_value(s.pages, a, step)
        } else {
            stages_simple::wb_value(pc, inst, exec_result)
        };
        let gpr = if inst.controls.reg_write && inst.attributes.rd->Some_0 != 0 {
            s.gpr.update(inst.attributes.rd->Some_0 as int, Register { data: wb })
        } else {
            s.gpr
        };
        let t = CoreState {
            pages,
            gpr,
            pc: pc.wrapping_add(4),
            cycle: s.cycle + 1,
            insts: s.insts + 1,
            ..s
        };
        if inst.opcode == Opcode::System && rs2 == 3 {
            StepVerdict::Exit(pc, t)
        } else if inst.controls.branch && !(inst.opcode == Opcode::Branch && exec_result != 0) {
            let new_pc = if inst.opcode == Opcode::Jalr {
                (exec_result as u32) & !1u32
            } else {
                pc.wrapping_add(inst.attributes.imm->Some_0)
            };
            StepVerdict::Next(CoreState { pc: new_pc, ..t })
        } else {
            StepVerdict::Next(t)
        }
    }
}

/// The state of a bounded run: still going, exited at a PC, or failed.
pub ghost enum RunVerdict {
    Running(CoreState),
    Exited(u32, CoreState),
    Failed,
}

/// The single-cycle machine after `n` cycles from `s0`; an exit or a
/// failure absorbs the remaining cycles.
pub open spec fn sc_run(s0: CoreState, n: nat) -> RunVerdict
    decreases n,
{
    if n == 0 {
        RunVerdict::Running(s0)
    } else {
        match sc_run(s0, (n - 1) as nat) {
            RunVerdict::Running(s) => match sc_step(s) {
                StepVerdict::Next(t) => RunVerdict::Running(t),
                StepVerdict::Exit(pc, t) => RunVerdict::Exited(pc, t),
                StepVerdict::Fail => RunVerdict::Failed,
            },
            done => done,
        }
    }
}

/// Once a run has exited or failed, more cycles change nothing.
pub proof fn lemma_sc_run_absorbs(s0: CoreState, n: nat, m: nat)
    requires
        n <= m,
        !(sc_run(s0, n) is Running),
    ensures
        sc_run(s0, m) == sc_run(s0, n),
    decreases m,
{
    if m > n {
        lemma_sc_run_absorbs(s0, n, (m - 1) as nat);
    }
}

/// The pipelined machine's state: the architectural core, the four
/// latches, the predictor's counter levels and heuristic, and whether
/// the branch now leaving ID was predicted taken.
pub ghost struct PipeCore {
    pub core: CoreState,
    pub latch: PipelineState,
    pub levels: Seq<int>,
    pub heuristic: PredictorHeuristic,
    pub predicted: bool,
}

/// The counter levels a predictor holds.
pub open spec fn levels_of(bp: BranchPredictor) -> Seq<int> {
    Seq::new(4096nat, |i: int| bp.level_at(i))
}

/// The latches at reset: every slot carries the NOP with zeroed data.
pub open spec fn latch0() -> PipelineState {
    PipelineState {
        if_id: IFIDRegister { pc: 0, raw_inst: NOP },
        id_ex: IDEXRegister {
            pc: 0,
            inst: decode_helper::decoded(NOP),
            op1: 0,
            op2: 0,
            taken_pc: None,
        },
        ex_mem: EXMEMRegister {
            pc: 0,
            inst: decode_helper::decoded(NOP),
            exec_result: 0,
            op2: 0,
            taken_pc: None,
        },
        mem_wb: MEMWBRegister { pc: 0, inst: decode_helper::decoded(NOP), wb_result: 0 },
    }
}

/// The pipelined machine at reset over a core: empty latches, every
/// counter at weakly-taken, no prediction in flight.
pub open spec fn pipe_init(core: CoreState, heuristic: PredictorHeuristic) -> PipeCore {
    PipeCore {
        core,
        latch: latch0(),
        levels: Seq::new(4096nat, |i: int| 1int),
        heuristic,
        predicted: false,
    }
}

/// What one pipelined cycle does.
pub ghost enum PipeVerdict {
    Next(PipeCore),
    Exit(u32, CoreState),
    Fail,
}

/// Whether the buffered heuristic predicts the branch at `pc` taken.
pub open spec fn predicts_taken(levels: Seq<int>, heuristic: PredictorHeuristic, pc: u32) -> bool {
    heuristic == PredictorHeuristic::BufferedPrediction && levels[BranchPredictor::index_of(pc)]
        <= 1
}

/// The counter levels after the predictor learns an outcome at `pc`: one
/// step toward the observed direction, saturating at the ends.
pub open spec fn levels_after(
    levels: Seq<int>,
    heuristic: PredictorHeuristic,
    pc: u32,
    taken: bool,
) -> Seq<int> {
    if heuristic != PredictorHeuristic::BufferedPrediction {
        levels
    } else {
        let i = BranchPredictor::index_of(pc);
        let l = levels[i];
        levels.update(
            i,
            if taken {
                if l == 0 {
                    0int
                } else {
                    l - 1
                }
            } else {
                if l == 3 {
                    3int
                } else {
                    l + 1
                }
            },
        )
    }
}

/// `id_op1` over the register file sequence.
pub open spec fn a_id_op1(gpr: Seq<Register>, current: PipelineState, inst: Instruction) -> i32 {
    if inst.attributes.rs1 != Some(0u32) && current.mem_wb.inst.controls.reg_write
        && inst.attributes.rs1 == current.mem_wb.inst.attributes.rd {
        current.mem_wb.wb_result as i32
    } else {
        reg_sel(gpr, inst.attributes.rs1) as i32
    }
}

/// `id_op2` over the register file sequence.
pub open spec fn a_id_op2(gpr: Seq<Register>, current: PipelineState, inst: Instruction) -> i32 {
    if inst.attributes.rs2 != Some(0u32) && current.mem_wb.inst.controls.reg_write
        && inst.attributes.rs2 == current.mem_wb.inst.attributes.rd {
        current.mem_wb.wb_result as i32
    } else {
        reg_sel(gpr, inst.attributes.rs2) as i32
    }
}

/// One cycle of the pipelined datapath: the overflow and hazard tests,
/// then IF and ID (or the injected bubble) before the back half.
pub open spec fn pipe_step(s: PipeCore) -> PipeVerdict {
    if s.core.gpr[2].value() < s.core.stack_base - s.core.stack_size {
        PipeVerdict::Fail
    } else {
        let c0 = CoreState { cycle: s.core.cycle + 1, ..s.core };
        let cur = s.latch;
        let decodes = decode_helper::decode_ok(cur.if_id.raw_inst);
        if !decodes && pipeline::uses_late_result(cur.id_ex.inst.opcode) {
            PipeVerdict::Fail
        } else if decodes && pipeline::spec_load_hazard(cur) {
            // Load-use hazard: a bubble replaces the decoded instruction
            let next = PipelineState {
                id_ex: IDEXRegister { inst: decode_helper::decoded(NOP), ..cur.id_ex },
                ..cur
            };
            pipe_ex(
                (CoreState { insts: c0.insts - 1, ..c0 }),
                cur,
                next,
                s.levels,
                s.heuristic,
                s.predicted,
            )
        } else if !storage::pg_load_ok(c0.pages, c0.pc, 4) {
            PipeVerdict::Fail
        } else if !decodes {
            PipeVerdict::Fail
        } else {
            let raw = storage::pg_loaded_value(c0.pages, c0.pc, 4);
            let inst = decode_helper::decoded(cur.if_id.raw_inst);
            let next = PipelineState {
                if_id: IFIDRegister { pc: c0.pc, raw_inst: raw },
                id_ex: IDEXRegister {
                    pc: cur.if_id.pc,
                    inst,
                    op1: a_id_op1(c0.gpr, cur, inst),
                    op2: a_id_op2(c0.gpr, cur, inst),
                    taken_pc: if inst.opcode == Opcode::Branch {
                        Some(cur.if_id.pc.wrapping_add(inst.attributes.imm->Some_0))
                    } else {
                        None
                    },
                },
                ..cur
            };
            pipe_ex(
                (CoreState { pc: c0.pc.wrapping_add(4), ..c0 }),
                cur,
                next,
                s.levels,
                s.heuristic,
                s.predicted,
            )
        }
    }
}

/// The EX stage of one pipelined cycle: the forwarded operands feed the
/// ALU or the system call, and the result latches into EX/MEM.
pub open spec fn pipe_ex(
    c: CoreState,
    cur: PipelineState,
    next: PipelineState,
    levels: Seq<int>,
    heuristic: PredictorHeuristic,
    predicted: bool,
) -> PipeVerdict {
    let inst = cur.id_ex.inst;
    let c1 = CoreState { insts: c.insts + 1, ..c };
    if inst.opcode == Opcode::System {
        match sys_step(
            stages::fw_op1(cur),
            stages::fw_op2(cur),
            c.pages,
            c.input,
            c.cursor,
            c.output,
        ) {
            SysOutcome::Done(er, ncur, nout) => pipe_mem(
                (CoreState { cursor: ncur, output: nout, ..c1 }),
                cur,
                (PipelineState {
                    ex_mem: EXMEMRegister {
                        pc: cur.id_ex.pc,
                        inst,
                        exec_result: er,
                        op2: stages::fw_op2(cur),
                        taken_pc: cur.id_ex.taken_pc,
                    },
                    ..next
                }),
                levels,
                heuristic,
                predicted,
            ),
            SysOutcome::Fail => PipeVerdict::Fail,
        }
    } else {
        pipe_mem(
            c1,
            cur,
            (PipelineState {
                ex_mem: EXMEMRegister {
                    pc: cur.id_ex.pc,
                    inst,
                    exec_result: spec_alu(
                        inst.controls.alu_op,
                        stages::fw_op1(cur),
                        stages_simple::effective_op2(inst, stages::fw_op2(cur)),
                    ),
                    op2: stages::fw_op2(cur),
                    taken_pc: cur.id_ex.taken_pc,
                },
                ..next
            }),
            levels,
            heuristic,
            predicted,
        )
    }
}

/// The MEM and WB stages of one pipelined cycle.
pub open spec fn pipe_mem(
    c: CoreState,
    cur: PipelineState,
    next: PipelineState,
    levels: Seq<int>,
    heuristic: PredictorHeuristic,
    predicted: bool,
) -> PipeVerdict {
    let mi = cur.ex_mem.inst;
    let a = cur.ex_mem.exec_result as u32;
    let step = mi.controls.mem_step;
    if (mi.controls.mem_read || mi.controls.mem_write) && !storage::pg_load_ok(c.pages, a, step) {
        PipeVerdict::Fail
    } else {
        let pages = if mi.controls.mem_write {
            storage::pg_store(c.pages, a, step, cur.ex_mem.op2 as u32)
        } else {
            c.pages
        };
        let wb = if mi.controls.mem_read {
            storage::pg_loaded_value(c.pages, a, step)
        } else {
            stages_simple::wb_value(cur.ex_mem.pc, mi, cur.ex_mem.exec_result)
        };
        let next1 = PipelineState {
            mem_wb: MEMWBRegister { pc: cur.ex_mem.pc, inst: mi, wb_result: wb },
            ..next
        };
        let wi = cur.mem_wb.inst;
        let gpr = if wi.controls.reg_write && wi.attributes.rd->Some_0 != 0 {
            c.gpr.update(wi.attributes.rd->Some_0 as int, Register { data: cur.mem_wb.wb_result })
        } else {
            c.gpr
        };
        pipe_resolve((CoreState { pages, gpr, ..c }), next1, levels, heuristic, predicted)
    }
}

/// The exit test on the new EX/MEM latch, then branch resolution,
/// predictor training and the next cycle's prediction.
pub open spec fn pipe_resolve(
    c: CoreState,
    next: PipelineState,
    levels: Seq<int>,
    heuristic: PredictorHeuristic,
    predicted: bool,
) -> PipeVerdict {
    let ei = next.ex_mem.inst;
    if ei.opcode == Opcode::System && next.ex_mem.op2 == 3 {
        PipeVerdict::Exit(next.ex_mem.pc, c)
    } else if ei.controls.branch {
        let er = next.ex_mem.exec_result;
        let pcx = next.ex_mem.pc;
        let taken = !(ei.opcode == Opcode::Branch && er != 0);
        let actual = if !taken {
            pcx.wrapping_add(4)
        } else if ei.opcode == Opcode::Jalr {
            (er as u32) & !1u32
        } else if ei.opcode == Opcode::Branch {
            next.ex_mem.taken_pc->Some_0
        } else {
            pcx.wrapping_add(ei.attributes.imm->Some_0)
        };
        let levels1 = if ei.opcode == Opcode::Branch {
            levels_after(levels, heuristic, pcx, taken)
        } else {
            levels
        };
        if !(ei.opcode == Opcode::Branch && taken == predicted) {
            // Mispredicted or unconditional: redirect and flush IF and ID
            pipe_predict(
                (CoreState { pc: actual, insts: c.insts - 2, ..c }),
                (PipelineState {
                    if_id: IFIDRegister { raw_inst: NOP, ..next.if_id },
                    id_ex: IDEXRegister { inst: decode_helper::decoded(NOP), ..next.id_ex },
                    ..next
                }),
                levels1,
                heuristic,
            )
        } else {
            pipe_predict(c, next, levels1, heuristic)
        }
    } else {
        pipe_predict(c, next, levels, heuristic)
    }
}

/// The prediction on the new ID/EX latch: a predicted-taken branch
/// redirects the PC and flushes the fetched instruction.
pub open spec fn pipe_predict(
    c: CoreState,
    next: PipelineState,
    levels: Seq<int>,
    heuristic: PredictorHeuristic,
) -> PipeVerdict {
    if next.id_ex.inst.opcode == Opcode::Branch && predicts_taken(
        levels,
        heuristic,
        next.id_ex.pc,
    ) {
        PipeVerdict::Next(
            PipeCore {
                core: CoreState { pc: next.id_ex.taken_pc->Some_0, insts: c.insts - 1, ..c },
                latch: PipelineState { if_id: IFIDRegister { raw_inst: NOP, ..next.if_id }, ..next },
                levels,
                heuristic,
                predicted: true,
            },
        )
    } else {
        PipeVerdict::Next(PipeCore { core: c, latch: next, levels, heuristic, predicted: false })
    }
}

/// The state of a bounded pipelined run.
pub ghost enum PipeRun {
    Running(PipeCore),
    Exited(u32, CoreState),
    Failed,
}

/// The pipelined machine after `n` cycles from `s0`; an exit or a
/// failure absorbs the remaining cycles.
pub open spec fn pipe_run(s0: PipeCore, n: nat) -> PipeRun
    decreases n,
{
    if n == 0 {
        PipeRun::Running(s0)
    } else {
        match pipe_run(s0, (n - 1) as nat) {
            PipeRun::Running(s) => match pipe_step(s) {
                PipeVerdict::Next(t) => PipeRun::Running(t),
                PipeVerdict::Exit(pc, t) => PipeRun::Exited(pc, t),
                PipeVerdict::Fail => PipeRun::Failed,
            },
            done => done,
        }
    }
}

/// Once a pipelined run has exited or failed, more cycles change
/// nothing.
pub proof fn lemma_pipe_run_absorbs(s0: PipeCore, n: nat, m: nat)
    requires
        n <= m,
        !(pipe_run(s0, n) is Running),
    ensures
        pipe_run(s0, m) == pipe_run(s0, n),
    decreases m,
{
    if m > n {
        lemma_pipe_run_absorbs(s0, n, (m - 1) as nat);
    }
}

} // verus!
