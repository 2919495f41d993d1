//! Branch predictor: a table of two-bit saturating counters, indexed by the
//! low bits of the PC, or the trivial always-not-taken heuristic.

use vstd::prelude::*;

verus! {

/// Number of two-bit counters in the prediction buffer.
const PREDICTOR_BUFFER_SIZE: usize = 4096;

/// Which prediction heuristic the pipeline uses.
#[derive(Clone, Copy, Debug, PartialEq, Eq, Structural)]
pub enum PredictorHeuristic {
    /// Predict never-taken; updates are ignored.
    AlwaysNotTaken,
    /// Predict from the two-bit counter table.
    BufferedPrediction,
}

impl Default for PredictorHeuristic {
    /// Buffered prediction is the default heuristic.
    fn default() -> (r: Self)
        ensures
            r == PredictorHeuristic::BufferedPrediction,
    {
        PredictorHeuristic::BufferedPrediction
    }
}

/// One two-bit saturating counter, from strongly-taken to
/// strongly-not-taken.
#[derive(Clone, Copy, Debug, PartialEq, Eq, Structural)]
enum PredictorState {
    Strongly,
    Weakly,
    WeaklyNot,
    StronglyNot,
}

/// A branch predictor that predicts and learns from observed branch
/// behavior.
pub struct BranchPredictor {
    heuristic: PredictorHeuristic,
    buffer: Vec<PredictorState>,
}

impl BranchPredictor {
    /// The buffer holds one counter per index.
    pub closed spec fn wf(self) -> bool {
        self.buffer.len() == PREDICTOR_BUFFER_SIZE
    }

    /// The heuristic the predictor was created with.
    pub closed spec fn spec_heuristic(self) -> PredictorHeuristic {
        self.heuristic
    }

    /// The counter value at a buffer index, as a number from 0
    /// (strongly taken) to 3 (strongly not taken).
    pub closed spec fn level_at(self, index: int) -> int {
        match self.buffer[index] {
            PredictorState::Strongly => 0,
            PredictorState::Weakly => 1,
            PredictorState::WeaklyNot => 2,
            PredictorState::StronglyNot => 3,
        }
    }

    /// The buffer index a PC maps to.
    pub open spec fn index_of(pc: u32) -> int {
        pc as int % 4096
    }

    /// A counter level is always one of the four saturating states,
    /// from 0 (strongly taken) to 3 (strongly not taken); two equal
    /// outcomes therefore always move the prediction to that outcome.
    pub proof fn lemma_level_in_range(self, index: int)
        ensures
            0 <= self.level_at(index) <= 3,
    {
    }

    /// Creates a predictor with every counter at weakly-taken.
    pub fn new(heuristic: PredictorHeuristic) -> (r: Self)
        ensures
            r.wf(),
            r.spec_heuristic() == heuristic,
            forall|i: int| 0 <= i < 4096 ==> r.level_at(i) == 1,
    {
        let mut buffer: Vec<PredictorState> = Vec::new();
        let mut i: usize = 0;
        while i < PREDICTOR_BUFFER_SIZE
            invariant
                i <= PREDICTOR_BUFFER_SIZE,
                buffer.len() == i,
                forall|j: int| 0 <= j < i ==> buffer[j] == PredictorState::Weakly,
            decreases PREDICTOR_BUFFER_SIZE - i,
        {
            buffer.push(PredictorState::Weakly);
            i = i + 1;
        }
        Self { heuristic, buffer }
    }

    /// Predicts whether the branch at `pc` is taken: true exactly when the
    /// buffered heuristic is active and the counter at the PC's index is in
    /// one of the two taken states.
    pub fn predict(&self, pc: u32) -> (r: bool)
        requires
            self.wf(),
        ensures
            r == (self.spec_heuristic() == PredictorHeuristic::BufferedPrediction
                && self.level_at(Self::index_of(pc)) <= 1),
    {
        if self.heuristic != PredictorHeuristic::BufferedPrediction {
            // Always not taken
            return false;
        }

        let index = (pc as usize) % PREDICTOR_BUFFER_SIZE;
        match self.buffer[index] {
            PredictorState::Strongly | PredictorState::Weakly => true,
            PredictorState::WeaklyNot | PredictorState::StronglyNot => false,
        }
    }

    /// Learns an observed outcome: the counter at the PC's index moves one
    /// step toward strongly-taken when the branch was taken, one step toward
    /// strongly-not-taken when it was not, saturating at the ends.  Other
    /// counters, and everything under the always-not-taken heuristic, stay
    /// unchanged.
    pub fn update(&mut self, pc: u32, branch: bool)
        requires
            old(self).wf(),
        ensures
            final(self).wf(),
            final(self).spec_heuristic() == old(self).spec_heuristic(),
            old(self).spec_heuristic() != PredictorHeuristic::BufferedPrediction ==> *final(self)
                == *old(self),
            forall|i: int|
                0 <= i < 4096 && i != Self::index_of(pc) ==> final(self).level_at(i)
                    == old(self).level_at(i),
            old(self).spec_heuristic() == PredictorHeuristic::BufferedPrediction
                ==> final(self).level_at(Self::index_of(pc)) == (if branch {
                if old(self).level_at(Self::index_of(pc)) == 0 {
                    0int
                } else {
                    old(self).level_at(Self::index_of(pc)) - 1
                }
            } else {
                if old(self).level_at(Self::index_of(pc)) == 3 {
                    3int
                } else {
                    old(self).level_at(Self::index_of(pc)) + 1
                }
            }),
    {
        if self.heuristic != PredictorHeuristic::BufferedPrediction {
            // Do nothing
            return ;
        }

        let index = (pc as usize) % PREDICTOR_BUFFER_SIZE;
        let state = self.buffer[index];
        let new_state = if branch {
            // Branch taken: move toward strongly-taken
            match state {
                PredictorState::StronglyNot => PredictorState::WeaklyNot,
                PredictorState::WeaklyNot => PredictorState::Weakly,
                PredictorState::Weakly => PredictorState::Strongly,
                PredictorState::Strongly => PredictorState::Strongly,
            }
        } else {
            // Branch not taken: move toward strongly-not-taken
            match state {
                PredictorState::Strongly => PredictorState::Weakly,
                PredictorState::Weakly => PredictorState::WeaklyNot,
                PredictorState::WeaklyNot => PredictorState::StronglyNot,
                PredictorState::StronglyNot => PredictorState::StronglyNot,
            }
        };
        self.buffer.set(index, new_state);
    }
}

} // verus!
