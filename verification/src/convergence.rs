//! Waiting for the network to show enough nodes, and what the benchmark makes
//! of what it found.
use vstd::prelude::*;
use crate::config::BenchConfig;

verus! {

/// How many times the gossip table is looked at, one second apart.
pub const MAX_CONVERGE_ROUNDS: u32 = 30;

/// What follows one look at the gossip table.
#[derive(PartialEq, Eq, Structural, Debug, Clone, Copy)]
pub enum ConvergeAction {
    /// Enough nodes are known: stop waiting.
    Converged,
    /// Wait a second and look again; `report` when the leader is known, so
    /// that the number of nodes found so far is worth printing.
    Wait { report: bool },
}

/// The looks at the gossip table taken so far.
pub struct ConvergeWatch {
    wanted: usize,
    rounds: u32,
}

impl ConvergeWatch {
    pub closed spec fn wanted(&self) -> usize {
        self.wanted
    }

    pub closed spec fn rounds(&self) -> nat {
        self.rounds as nat
    }

    pub fn new(wanted: usize) -> (watch: ConvergeWatch)
        ensures
            watch.wanted() == wanted,
            watch.rounds() == 0,
    {
        ConvergeWatch { wanted, rounds: 0 }
    }

    /// Whether all looks have been taken.
    pub fn finished(&self) -> (done: bool)
        ensures
            done == (self.rounds() >= 30),
    {
        self.rounds >= MAX_CONVERGE_ROUNDS
    }

    /// One look: the leader is known or not, and so many nodes with a valid
    /// address are.
    pub fn observe(&mut self, leader_known: bool, discovered: usize) -> (action: ConvergeAction)
        requires
            old(self).rounds() < MAX_CONVERGE_ROUNDS,
        ensures
            final(self).rounds() == old(self).rounds() + 1,
            final(self).wanted() == old(self).wanted(),
            action == (if leader_known && discovered >= old(self).wanted() {
                ConvergeAction::Converged
            } else {
                ConvergeAction::Wait { report: leader_known }
            }),
    {
        self.rounds = self.rounds + 1;
        if leader_known && discovered >= self.wanted {
            ConvergeAction::Converged
        } else {
            ConvergeAction::Wait { report: leader_known }
        }
    }
}

/// What the benchmark does with the outcome of the wait.
#[derive(PartialEq, Eq, Structural, Debug, Clone, Copy)]
pub enum ConvergeVerdict {
    TooFewNodes,
    TooManyNodes,
    NoLeader,
    /// Only the wait was asked for: stop here.
    ConvergeOnly,
    Proceed,
}

/// Judges `discovered` nodes and whether a leader was found, against the
/// settings; the checks come in this order.
pub fn convergence_verdict(discovered: usize, leader_found: bool, config: &BenchConfig) -> (verdict: ConvergeVerdict)
    ensures
        verdict == (if discovered < config.num_nodes {
            ConvergeVerdict::TooFewNodes
        } else if config.reject_extra_nodes && discovered > config.num_nodes {
            ConvergeVerdict::TooManyNodes
        } else if !leader_found {
            ConvergeVerdict::NoLeader
        } else if config.converge_only {
            ConvergeVerdict::ConvergeOnly
        } else {
            ConvergeVerdict::Proceed
        }),
{
    if discovered < config.num_nodes {
        ConvergeVerdict::TooFewNodes
    } else if config.reject_extra_nodes && discovered > config.num_nodes {
        ConvergeVerdict::TooManyNodes
    } else if !leader_found {
        ConvergeVerdict::NoLeader
    } else if config.converge_only {
        ConvergeVerdict::ConvergeOnly
    } else {
        ConvergeVerdict::Proceed
    }
}

} // verus!
