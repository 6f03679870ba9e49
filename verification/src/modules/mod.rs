//! The modules that react to epochs, to messages and to the clock.

pub mod consensus;
pub mod gov;
pub mod staking;

pub use consensus::ConsensusModule;
pub use gov::GovModule;
pub use staking::StakingModule;

use vstd::prelude::*;

verus! {

/// Seconds between two looks of the scheduler at its tasks.
pub const SCHEDULER_TICK_SECONDS: u64 = 10;

/// The work a module asks to have done at fixed intervals.
#[derive(Clone, Copy, Debug, PartialEq, Eq, Structural)]
pub enum PeriodicTask {
    /// Refresh the tally of every proposal in its voting period.
    TallyActiveProposals,
    /// Refresh the average block time over the last hour.
    AverageBlockTimeInHour,
    /// Refresh the average block time over the last day.
    AverageBlockTimeInDay,
}

/// The modules, in the order in which they are called.
#[derive(Clone, Copy, Debug, PartialEq, Eq, Structural)]
pub enum Module {
    Staking,
    Governance,
    ConsensusTime,
}

/// Every module, in the order in which they are called.
pub open spec fn all_modules() -> Seq<Module> {
    seq![Module::Staking, Module::Governance, Module::ConsensusTime]
}

/// Every module, in the order in which they are called.
pub fn modules() -> (all: Vec<Module>)
    ensures
        all@ == all_modules(),
{
    let mut all: Vec<Module> = Vec::new();
    all.push(Module::Staking);
    all.push(Module::Governance);
    all.push(Module::ConsensusTime);
    assert(all@ =~= all_modules());
    all
}

/// The module to call next in a fan-out: the one after those already
/// called, unless every module was called or the last call failed. A failed
/// call ends the fan-out, and its error is the fan-out's.
pub fn fan_out_next<E>(calls: &Vec<Module>, called: usize, last: &Result<(), E>) -> (next: Option<
    Module,
>)
    ensures
        next == if last is Ok && called < calls@.len() {
            Some(calls@[called as int])
        } else {
            None
        },
{
    match last {
        Ok(_) => if called < calls.len() {
            Some(calls[called])
        } else {
            None
        },
        Err(_) => None,
    }
}

/// One task with its period.
pub struct PeriodicOperation {
    pub every_seconds: u64,
    pub task: PeriodicTask,
}

} // verus!
