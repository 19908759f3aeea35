use vstd::prelude::*;

use crate::bindings::{address_error_text, parse_address};
use crate::error::{ErrorKind, GasBenchError};
use crate::json::JsonValue;
use crate::text::{address_bytes, is_address_text};

verus! {

/// A parameter of a function to benchmark: its name, its Solidity type name and
/// the sample value to call it with.
#[derive(Clone, Debug)]
pub struct FunctionParam {
    pub name: String,
    pub param_type: String,
    pub value: JsonValue,
}

/// A function to benchmark.
#[derive(Clone, Debug)]
pub struct FunctionEntry {
    pub name: String,
    pub inputs: Vec<FunctionParam>,
    pub state_mutability: String,
}

/// Benchmark configuration.
#[derive(Clone, Debug)]
pub struct BenchConfig {
    pub contract_address: [u8; 20],
    pub rpc_url: String,
    pub iterations: u32,
    pub functions: Vec<FunctionEntry>,
}

/// One benchmark run: which function, and which iteration of it.
#[derive(Clone, Copy, Debug, PartialEq, Eq)]
pub struct RunSlot {
    pub function_index: usize,
    pub iteration: u32,
}

impl BenchConfig {
    /// Builds a configuration, parsing the contract address.
    pub fn new(
        contract_address: &str,
        rpc_url: &str,
        iterations: u32,
        functions: Vec<FunctionEntry>,
    ) -> (config: Result<BenchConfig, GasBenchError>)
        ensures
            config is Ok <==> is_address_text(contract_address@),
            match config {
                Ok(c) => {
                    &&& c.contract_address@ == address_bytes(contract_address@)
                    &&& c.rpc_url@ == rpc_url@
                    &&& c.iterations == iterations
                    &&& c.functions == functions
                },
                Err(e) => e@ == ErrorKind::InvalidContractAddress(address_error_text(contract_address@)),
            },
    {
        match parse_address(contract_address) {
            Ok(address) => Ok(
                BenchConfig {
                    contract_address: address,
                    rpc_url: String::from_str(rpc_url),
                    iterations,
                    functions,
                },
            ),
            Err(m) => Err(GasBenchError::InvalidContractAddress(m)),
        }
    }

    /// The position of a run in the order of runs: function by function, and
    /// within a function iteration by iteration.
    pub open spec fn run_position(&self, slot: RunSlot) -> int {
        slot.function_index * self.iterations + slot.iteration
    }

    /// `slot` names a run of this configuration.
    pub open spec fn is_run(&self, slot: RunSlot) -> bool {
        slot.function_index < self.functions.len() && slot.iteration < self.iterations
    }

    /// The run after `slot`: the next iteration of the same function, or else the
    /// first iteration of the next function; none after the last run.
    pub open spec fn run_after(&self, slot: RunSlot) -> Option<RunSlot> {
        if slot.iteration + 1 < self.iterations {
            Some(RunSlot { function_index: slot.function_index, iteration: (slot.iteration + 1) as u32 })
        } else if slot.function_index + 1 < self.functions.len() {
            Some(RunSlot { function_index: (slot.function_index + 1) as usize, iteration: 0 })
        } else {
            None
        }
    }

    /// The first run, if there is any.
    pub fn first_run(&self) -> (first: Option<RunSlot>)
        ensures
            first is Some <==> (self.functions.len() > 0 && self.iterations > 0),
            first matches Some(slot) ==> slot == (RunSlot { function_index: 0, iteration: 0 }),
    {
        if self.functions.len() > 0 && self.iterations > 0 {
            Some(RunSlot { function_index: 0, iteration: 0 })
        } else {
            None
        }
    }

    /// The run after `current`: the next iteration of the same function, or else
    /// the first iteration of the next function; none after the last run.
    pub fn next_run(&self, current: RunSlot) -> (next: Option<RunSlot>)
        requires
            self.is_run(current),
        ensures
            next == self.run_after(current),
    {
        if current.iteration + 1 < self.iterations {
            Some(RunSlot { function_index: current.function_index, iteration: current.iteration + 1 })
        } else if current.function_index + 1 < self.functions.len() {
            Some(RunSlot { function_index: current.function_index + 1, iteration: 0 })
        } else {
            None
        }
    }
}

/// Runs go one by one through all iterations of all functions: each run lies
/// within the plan, the run after it is the next position of the plan, and only
/// the last position has no run after it.
pub proof fn lemma_runs_in_order(config: BenchConfig, slot: RunSlot)
    requires
        config.is_run(slot),
    ensures
        0 <= config.run_position(slot) < config.functions.len() * config.iterations,
        match config.run_after(slot) {
            Some(next) => config.is_run(next) && config.run_position(next) == config.run_position(slot)
                + 1,
            None => config.run_position(slot) == config.functions.len() * config.iterations - 1,
        },
{
    let f = slot.function_index as int;
    let n = config.functions.len() as int;
    let it = config.iterations as int;
    let i = slot.iteration as int;
    assert(0 <= f * it + i < n * it) by (nonlinear_arith)
        requires
            0 <= f < n,
            0 <= i < it,
    ;
    assert((f + 1) * it == f * it + it) by (nonlinear_arith);
    if i + 1 >= it && f + 1 >= n {
        assert(n * it == f * it + it) by (nonlinear_arith)
            requires
                f + 1 == n,
        ;
    }
}

} // verus!
