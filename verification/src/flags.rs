//! Command-line option values, as plain enums.  The argument parsing
//! itself lives with the surrounding I/O layer; the library only converts
//! its values into execution policy.

use vstd::prelude::*;

use crate::branch_predictor::PredictorHeuristic;
use crate::cpu::Implementation;

verus! {

/// The datapath selected on the command line.
#[derive(Clone, Copy, Debug, PartialEq, Eq, Structural)]
pub enum BackendArg {
    Pipelined,
    SingleCycle,
}

impl From<BackendArg> for Implementation {
    /// Maps each backend argument to the datapath it selects.
    fn from(val: BackendArg) -> (r: Self) {
        match val {
            BackendArg::Pipelined => Implementation::Pipelined,
            BackendArg::SingleCycle => Implementation::SingleCycle,
        }
    }
}

impl vstd::std_specs::convert::FromSpecImpl<BackendArg> for Implementation {
    open spec fn obeys_from_spec() -> bool {
        true
    }

    open spec fn from_spec(val: BackendArg) -> Self {
        match val {
            BackendArg::Pipelined => Implementation::Pipelined,
            BackendArg::SingleCycle => Implementation::SingleCycle,
        }
    }
}

/// The prediction heuristic selected on the command line.
#[derive(Clone, Copy, Debug, PartialEq, Eq, Structural)]
pub enum HeuristicArg {
    BufferedPrediction,
    AlwaysNotTaken,
}

impl From<HeuristicArg> for PredictorHeuristic {
    /// Maps each heuristic argument to the predictor heuristic it selects.
    fn from(val: HeuristicArg) -> (r: Self) {
        match val {
            HeuristicArg::BufferedPrediction => PredictorHeuristic::BufferedPrediction,
            HeuristicArg::AlwaysNotTaken => PredictorHeuristic::AlwaysNotTaken,
        }
    }
}

impl vstd::std_specs::convert::FromSpecImpl<HeuristicArg> for PredictorHeuristic {
    open spec fn obeys_from_spec() -> bool {
        true
    }

    open spec fn from_spec(val: HeuristicArg) -> Self {
        match val {
            HeuristicArg::BufferedPrediction => PredictorHeuristic::BufferedPrediction,
            HeuristicArg::AlwaysNotTaken => PredictorHeuristic::AlwaysNotTaken,
        }
    }
}

} // verus!
