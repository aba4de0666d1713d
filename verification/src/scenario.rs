//! The long-running exercise scenario as a state machine: deposit once,
//! spread the funds, rotate them, collect them back, withdraw.
//!
//! The core decides which phase comes next; performing a phase's network
//! work belongs to the surrounding driver.

use vstd::prelude::*;

verus! {

/// The phases of the scenario, in running order.
#[derive(Clone, Copy, Debug, PartialEq, Eq, Structural)]
pub enum TestPhase {
    /// Nothing has happened yet.
    Init,
    /// Funds move from the base chain into the rollup.
    Deposit,
    /// The deposit is split over the worker accounts.
    InitialTransfer,
    /// The funds rotate among the worker accounts.
    FundsRotation,
    /// The funds are gathered back into the initial account.
    CollectingFunds,
    /// The gathered funds leave to the base chain.
    Withdraw,
}

/// The scenario's progress.
pub struct ScenarioExecutor {
    /// The phase whose work runs next.
    pub phase: TestPhase,
}

/// The phase that follows `p`; the final phase repeats itself.
pub open spec fn next_phase(p: TestPhase) -> TestPhase {
    match p {
        TestPhase::Init => TestPhase::Deposit,
        TestPhase::Deposit => TestPhase::InitialTransfer,
        TestPhase::InitialTransfer => TestPhase::FundsRotation,
        TestPhase::FundsRotation => TestPhase::CollectingFunds,
        TestPhase::CollectingFunds => TestPhase::Withdraw,
        TestPhase::Withdraw => TestPhase::Withdraw,
    }
}

impl ScenarioExecutor {
    /// A scenario that has not started.
    pub fn new() -> (r: ScenarioExecutor)
        ensures
            r.phase == TestPhase::Init,
    {
        ScenarioExecutor { phase: TestPhase::Init }
    }

    /// Moves to the next phase; reports whether the scenario is finished.
    pub fn advance(&mut self) -> (done: bool)
        ensures
            final(self).phase == next_phase(old(self).phase),
            done == (old(self).phase is Withdraw),
    {
        let done = match self.phase {
            TestPhase::Withdraw => true,
            _ => false,
        };
        self.phase = match self.phase {
            TestPhase::Init => TestPhase::Deposit,
            TestPhase::Deposit => TestPhase::InitialTransfer,
            TestPhase::InitialTransfer => TestPhase::FundsRotation,
            TestPhase::FundsRotation => TestPhase::CollectingFunds,
            TestPhase::CollectingFunds => TestPhase::Withdraw,
            TestPhase::Withdraw => TestPhase::Withdraw,
        };
        done
    }
}

} // verus!
