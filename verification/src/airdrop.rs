//! Funding an account from the token service, then watching its balance
//! until the tokens arrive.
use vstd::prelude::*;
use crate::direction::NUM_TOKENS_PER_ACCOUNT;

verus! {

/// How many times the balance is read after an airdrop request.
pub const MAX_AIRDROP_POLLS: u32 = 20;

/// The balance the source account must reach before the benchmark starts,
/// when the first generated account holds fewer tokens than each account is
/// meant to hold: the shortfall for each of the `tx_count` transfers.
pub fn funding_target(keypair0_balance: i64, tx_count: i64) -> (target: Option<i64>)
    requires
        keypair0_balance < NUM_TOKENS_PER_ACCOUNT ==> NUM_TOKENS_PER_ACCOUNT - keypair0_balance
            <= i64::MAX,
        keypair0_balance < NUM_TOKENS_PER_ACCOUNT ==> i64::MIN <= (NUM_TOKENS_PER_ACCOUNT
            - keypair0_balance) * tx_count <= i64::MAX,
    ensures
        target == (if keypair0_balance < 20 {
            Some(((20 - keypair0_balance) * tx_count) as i64)
        } else {
            None::<i64>
        }),
{
    if NUM_TOKENS_PER_ACCOUNT > keypair0_balance {
        let shortfall = NUM_TOKENS_PER_ACCOUNT - keypair0_balance;
        Some(shortfall * tx_count)
    } else {
        None
    }
}

/// The tokens to request so that an account holding `starting_balance`
/// reaches `target`; `None` when it already holds enough.
pub fn airdrop_amount(starting_balance: i64, target: i64) -> (amount: Option<i64>)
    requires
        starting_balance < target ==> target - starting_balance <= i64::MAX,
    ensures
        amount == (if starting_balance < target {
            Some((target - starting_balance) as i64)
        } else {
            None::<i64>
        }),
{
    if starting_balance < target {
        Some(target - starting_balance)
    } else {
        None
    }
}

/// The balance readings after an airdrop request.
pub struct AirdropWatch {
    starting: i64,
    current: i64,
    polls: u32,
}

impl AirdropWatch {
    pub closed spec fn starting(&self) -> i64 {
        self.starting
    }

    /// The last balance read, or the starting balance where a read failed or
    /// nothing was read yet.
    pub closed spec fn current(&self) -> i64 {
        self.current
    }

    pub closed spec fn polls(&self) -> nat {
        self.polls as nat
    }

    pub fn new(starting_balance: i64) -> (watch: AirdropWatch)
        ensures
            watch.starting() == starting_balance,
            watch.current() == starting_balance,
            watch.polls() == 0,
    {
        AirdropWatch { starting: starting_balance, current: starting_balance, polls: 0 }
    }

    /// Whether all reads have been made.
    pub fn exhausted(&self) -> (done: bool)
        ensures
            done == (self.polls() >= 20),
    {
        self.polls >= MAX_AIRDROP_POLLS
    }

    pub fn current_balance(&self) -> (balance: i64)
        ensures
            balance == self.current(),
    {
        self.current
    }

    /// Takes one balance reading (`None` where the read failed, which counts
    /// as the starting balance) and says whether the balance has moved, in
    /// which case the watch is over.
    pub fn observe(&mut self, reading: Option<i64>) -> (moved: bool)
        requires
            old(self).polls() < MAX_AIRDROP_POLLS,
        ensures
            final(self).polls() == old(self).polls() + 1,
            final(self).starting() == old(self).starting(),
            final(self).current() == (match reading {
                Some(b) => b,
                None => old(self).starting(),
            }),
            moved == (final(self).current() != final(self).starting()),
    {
        self.current = match reading {
            Some(b) => b,
            None => self.starting,
        };
        self.polls = self.polls + 1;
        self.current != self.starting
    }

    /// Whether the balance grew by exactly the requested amount.
    pub fn succeeded(&self, amount: i64) -> (ok: bool)
        requires
            i64::MIN <= self.current() - self.starting() <= i64::MAX,
        ensures
            ok == (self.current() - self.starting() == amount),
    {
        self.current - self.starting == amount
    }
}

} // verus!
