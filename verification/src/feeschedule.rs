//! The fee schedule: the gas costs that a transaction pays before it runs.

use vstd::prelude::*;

verus! {

/// Gas paid by every contract-creating transaction.
pub const TX_CREATE: u64 = 32000;

/// Gas paid for every zero byte of data or code of a transaction.
pub const TX_DATA_ZERO: u64 = 4;

/// Gas paid for every non-zero byte of data or code of a transaction.
pub const TX_DATA_NON_ZERO: u64 = 68;

/// Gas paid by every transaction.
pub const TRANSACTION: u64 = 21000;

/// The relative costs, in gas, of the operations a transaction may effect.
#[derive(Clone, Copy, Debug, PartialEq, Eq, Structural)]
pub struct FeeSchedule {
    /// Paid by all contract-creating transactions.
    pub tx_create: u64,
    /// Paid for every zero byte of data or code for a transaction.
    pub tx_data_zero: u64,
    /// Paid for every non-zero byte of data or code for a transaction.
    pub tx_data_non_zero: u64,
    /// Paid for every transaction.
    pub transaction: u64,
}

/// The schedule in force.
pub open spec fn reference_schedule() -> FeeSchedule {
    FeeSchedule {
        tx_create: TX_CREATE,
        tx_data_zero: TX_DATA_ZERO,
        tx_data_non_zero: TX_DATA_NON_ZERO,
        transaction: TRANSACTION,
    }
}

impl FeeSchedule {
    /// The schedule in force.
    pub fn new() -> (fees: FeeSchedule)
        ensures
            fees == reference_schedule(),
    {
        FeeSchedule {
            tx_create: TX_CREATE,
            tx_data_zero: TX_DATA_ZERO,
            tx_data_non_zero: TX_DATA_NON_ZERO,
            transaction: TRANSACTION,
        }
    }
}

impl Default for FeeSchedule {
    fn default() -> (fees: FeeSchedule)
        ensures
            fees == reference_schedule(),
    {
        FeeSchedule::new()
    }
}

} // verus!
