//! RV32I CPU state: the register file, the program counter, the execution
//! policy and the accounting history.

use vstd::prelude::*;

use crate::branch_predictor::PredictorHeuristic;

verus! {

/// CPU state.
#[derive(Clone, Debug)]
pub struct CPUState {
    /// Stack base address.
    pub stack_base: u32,
    /// Stack size.
    pub stack_size: u32,
    /// Program counter.
    pub pc: Register,
    /// General purpose registers x0..x31.
    pub gpr: Vec<Register>,
    /// CPU policy.
    pub policy: CPUPolicy,
    /// History of execution.
    pub history: CPUHistory,
}

impl CPUState {
    /// The register file holds exactly 32 registers and the stack fits in
    /// the address space.
    pub open spec fn wf(self) -> bool {
        &&& self.gpr.len() == 32
        &&& self.stack_size <= self.stack_base
    }

    /// Creates a fresh CPU with all registers, counters and stack bounds
    /// zeroed.
    pub fn make(policy: CPUPolicy) -> (r: Self)
        ensures
            r.wf(),
            r.stack_base == 0,
            r.stack_size == 0,
            r.pc.value() == 0,
            forall|i: int| 0 <= i < 32 ==> r.gpr[i].value() == 0,
            r.policy == policy,
            r.history == CPUHistory::zeroed(),
    {
        let mut gpr: Vec<Register> = Vec::new();
        let mut i: usize = 0;
        while i < 32
            invariant
                i <= 32,
                gpr.len() == i,
                forall|j: int| 0 <= j < i ==> gpr[j].value() == 0,
            decreases 32 - i,
        {
            gpr.push(Register::new(0));
            i = i + 1;
        }
        Self {
            stack_base: 0,
            stack_size: 0,
            pc: Register::new(0),
            gpr,
            policy,
            history: CPUHistory {
                cycle_count: 0,
                mem_stall_count: 0,
                mem_stall_worst_count: 0,
                inst_count: 0,
            },
        }
    }

    /// Checks for stack overflow: the stack pointer left the region
    /// `(stack_base - stack_size, stack_base]`.
    pub fn stack_overflow(&self) -> (r: bool)
        requires
            self.wf(),
        ensures
            r == (self.gpr[2].value() < self.stack_base - self.stack_size),
    {
        self.gpr[2].read() < self.stack_base - self.stack_size
    }

    /// Increments the history cycle count.
    pub fn update_cycle_count(&mut self, value: i32)
        requires
            i64::MIN <= old(self).history.cycle_count + value <= i64::MAX,
        ensures
            final(self).history.cycle_count == old(self).history.cycle_count + value,
            final(self).history == (CPUHistory {
                cycle_count: final(self).history.cycle_count,
                ..old(self).history
            }),
            *final(self) == (CPUState { history: final(self).history, ..*old(self) }),
    {
        self.history.cycle_count = self.history.cycle_count + (value as i64);
    }

    /// Increments the history instruction count.
    pub fn update_inst_count(&mut self, value: i32)
        requires
            i64::MIN <= old(self).history.inst_count + value <= i64::MAX,
        ensures
            final(self).history.inst_count == old(self).history.inst_count + value,
            final(self).history == (CPUHistory {
                inst_count: final(self).history.inst_count,
                ..old(self).history
            }),
            *final(self) == (CPUState { history: final(self).history, ..*old(self) }),
    {
        self.history.inst_count = self.history.inst_count + (value as i64);
    }
}

/// One register of the register file.
#[derive(Clone, Copy, Debug, PartialEq, Eq, Structural)]
pub struct Register {
    /// Current data in the register.
    pub data: u32,
}

impl Register {
    /// The value the register holds.
    pub open spec fn value(self) -> u32 {
        self.data
    }

    /// Creates a register holding `data`.
    pub fn new(data: u32) -> (r: Self)
        ensures
            r.value() == data,
    {
        Self { data }
    }

    /// Reads the register.
    pub fn read(&self) -> (r: u32)
        ensures
            r == self.value(),
    {
        self.data
    }

    /// Writes to the register.
    pub fn write(&mut self, value: u32)
        ensures
            final(self).value() == value,
    {
        self.data = value;
    }
}

/// Which datapath drives the simulation.
#[derive(Clone, Copy, Debug, PartialEq, Eq, Structural)]
pub enum Implementation {
    SingleCycle,
    Pipelined,
}

impl Default for Implementation {
    /// The pipelined datapath is the default.
    fn default() -> (r: Self)
        ensures
            r == Implementation::Pipelined,
    {
        Implementation::Pipelined
    }
}

/// CPU policy: what to simulate and what to report.
#[derive(Clone, Copy, Debug, PartialEq, Eq, Structural)]
pub struct CPUPolicy {
    pub verbose: bool,
    pub implementation: Implementation,
    pub history: bool,
    pub heuristic: PredictorHeuristic,
}

impl Default for CPUPolicy {
    /// Quiet pipelined execution with buffered prediction.
    fn default() -> (r: Self)
        ensures
            r == (CPUPolicy {
                verbose: false,
                implementation: Implementation::Pipelined,
                history: false,
                heuristic: PredictorHeuristic::BufferedPrediction,
            }),
    {
        CPUPolicy {
            verbose: false,
            implementation: Implementation::Pipelined,
            history: false,
            heuristic: PredictorHeuristic::BufferedPrediction,
        }
    }
}

/// Execution accounting: cycles, committed instructions and memory stalls
/// under the realistic and the worst-case model.
#[derive(Clone, Copy, Debug, PartialEq, Eq, Structural)]
pub struct CPUHistory {
    pub cycle_count: i64,
    pub mem_stall_count: i64,
    pub mem_stall_worst_count: i64,
    pub inst_count: i64,
}

impl CPUHistory {
    /// All counters at zero.
    pub open spec fn zeroed() -> CPUHistory {
        CPUHistory { cycle_count: 0, mem_stall_count: 0, mem_stall_worst_count: 0, inst_count: 0 }
    }
}

impl Default for CPUHistory {
    /// All counters start at zero.
    fn default() -> (r: Self)
        ensures
            r == CPUHistory::zeroed(),
    {
        CPUHistory { cycle_count: 0, mem_stall_count: 0, mem_stall_worst_count: 0, inst_count: 0 }
    }
}

} // verus!
