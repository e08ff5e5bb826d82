//! Per-client stores: the recorded-transaction map and the disputed set.
//!
//! Both are collections of outside crates. Verus cannot read their
//! declarations (their generics carry bounds the crates keep private, and
//! `SetU32` is a raw-pointer structure), so each is held in an opaque struct
//! of this crate whose contents are named by an uninterpreted spec function,
//! and every method the ledger calls is a trusted wrapper whose contract
//! states what the crate's source shows.

use vstd::prelude::*;

use crate::amount::Amount;

verus! {

/// The amounts of the deposits and withdrawals a ledger has recorded, keyed
/// by transaction id. Holds a `hashbrown::HashMap<u32, u64>`.
#[verifier::external_body]
#[derive(Debug)]
pub struct Transactions {
    entries: hashbrown::HashMap<u32, Amount>,
}

/// What a `Transactions` store holds: each recorded transaction id mapped to
/// its amount.
pub uninterp spec fn transactions_map(t: Transactions) -> Map<u32, Amount>;

/// The contents of a store with nothing recorded.
pub open spec fn no_transactions() -> Map<u32, Amount> {
    Map::empty()
}

impl Transactions {
    /// Relies on `hashbrown::HashMap::new`: the new map is empty.
    #[verifier::external_body]
    pub(crate) fn new() -> (r: Transactions)
        ensures
            transactions_map(r) == no_transactions(),
    {
        Transactions { entries: hashbrown::HashMap::new() }
    }

    /// Relies on `hashbrown::HashMap::insert`: the entry is added, replacing
    /// any earlier one under the same id.
    #[verifier::external_body]
    pub(crate) fn insert(&mut self, tx_id: u32, amount: Amount)
        ensures
            transactions_map(*final(self)) == transactions_map(*old(self)).insert(tx_id, amount),
    {
        self.entries.insert(tx_id, amount);
    }

    /// Relies on `hashbrown::HashMap::get`: returns the amount recorded under
    /// the id, or nothing when the id was never recorded.
    #[verifier::external_body]
    pub(crate) fn get(&self, tx_id: u32) -> (r: Option<Amount>)
        ensures
            r == (if transactions_map(*self).contains_key(tx_id) {
                Some(transactions_map(*self)[tx_id])
            } else {
                None::<Amount>
            }),
    {
        self.entries.get(&tx_id).copied()
    }
}

/// The transaction ids currently under dispute. Holds a `tinyset::SetU32`.
#[verifier::external_body]
#[derive(Debug)]
pub struct DisputeSet {
    ids: tinyset::SetU32,
}

/// What a `DisputeSet` holds: the set of disputed transaction ids.
pub uninterp spec fn dispute_set(s: DisputeSet) -> Set<u32>;

impl DisputeSet {
    /// Relies on `tinyset::SetU32::new`: the new set is empty.
    #[verifier::external_body]
    pub(crate) fn new() -> (r: DisputeSet)
        ensures
            dispute_set(r) == Set::<u32>::empty(),
    {
        DisputeSet { ids: tinyset::SetU32::new() }
    }

    /// Relies on `tinyset::SetU32::contains`.
    #[verifier::external_body]
    pub(crate) fn contains(&self, tx_id: u32) -> (r: bool)
        ensures
            r == dispute_set(*self).contains(tx_id),
    {
        self.ids.contains(tx_id)
    }

    /// Relies on `tinyset::SetU32::insert`: the id is added; the result says
    /// whether it was absent before.
    #[verifier::external_body]
    pub(crate) fn insert(&mut self, tx_id: u32) -> (r: bool)
        ensures
            dispute_set(*final(self)) == dispute_set(*old(self)).insert(tx_id),
            r == !dispute_set(*old(self)).contains(tx_id),
    {
        self.ids.insert(tx_id)
    }

    /// Relies on `tinyset::SetU32::remove`: the id is taken out; the result
    /// says whether it was present.
    #[verifier::external_body]
    pub(crate) fn remove(&mut self, tx_id: u32) -> (r: bool)
        ensures
            dispute_set(*final(self)) == dispute_set(*old(self)).remove(tx_id),
            r == dispute_set(*old(self)).contains(tx_id),
    {
        self.ids.remove(tx_id)
    }
}

} // verus!
