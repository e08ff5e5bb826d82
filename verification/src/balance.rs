//! Balance of a client: available and held funds.

use vstd::prelude::*;

use crate::amount::Amount;

verus! {

/// Available and held funds of one client, in scaled amounts.
///
/// `total` is always derived as `available + held`, never stored.
#[derive(Clone, Copy, Debug, PartialEq, Eq, Structural)]
pub struct Balance {
    /// Funds the client may spend.
    pub available: Amount,
    /// Funds frozen pending dispute resolution.
    pub held: Amount,
}

impl Balance {
    /// The derived total of the account.
    pub open spec fn spec_total(self) -> int {
        self.available + self.held
    }

    /// The total fits in an amount, so deriving it cannot overflow.
    pub open spec fn wf(self) -> bool {
        self.available + self.held <= u64::MAX
    }

    /// A balance with the given available funds and nothing held.
    pub fn new(available: Amount) -> (b: Balance)
        ensures
            b.available == available,
            b.held == 0,
    {
        Balance { available, held: 0 }
    }

    /// The total of the account, exact because both parts are scaled
    /// integers.
    pub fn total(&self) -> (t: Amount)
        requires
            self.wf(),
        ensures
            t == self.spec_total(),
    {
        self.available + self.held
    }
}

impl Default for Balance {
    /// An empty balance: nothing available, nothing held.
    fn default() -> (b: Balance)
        ensures
            b.available == 0,
            b.held == 0,
    {
        Balance { available: 0, held: 0 }
    }
}

} // verus!
