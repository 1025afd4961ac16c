//! Transaction grouping for block payloads.

use vstd::prelude::*;

verus! {

/// A payload item that can be ordered into a block.
pub trait Transaction {
}

/// A set of transactions, either sequential or parallelizable.
pub enum TransactionSet<T> {
    /// A single transaction.
    Transaction(T),
    /// Transactions that must execute in order.
    Serial(Vec<TransactionSet<T>>),
    /// Transactions that may execute concurrently.
    Parallel(Vec<TransactionSet<T>>),
}

impl<T> Default for TransactionSet<T> {
    /// The empty serial set.
    fn default() -> (r: Self)
        ensures
            r matches TransactionSet::Serial(v) && v@.len() == 0,
    {
        Self::Serial(Vec::new())
    }
}

} // verus!
