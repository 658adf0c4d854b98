use vstd::prelude::*;

verus! {

/// Why an operation was refused. Every refusal leaves all state unchanged.
#[derive(Clone, Copy, Debug, PartialEq, Eq)]
pub enum Error {
    /// `initialize` was called on an already configured system.
    AlreadyInitialized,
    /// The caller lacks the authority the operation demands.
    NotAuthorized,
    /// The system is not configured yet, or the employee is unknown.
    NotFound,
    /// The employee exists but payments to them are stopped.
    InactiveEmployee,
    /// A salary for this employee and this (year, month) was already paid.
    AlreadyPaid,
    /// The treasury cannot cover the amount in full.
    InsufficientFunds,
    /// A negative amount, a malformed calendar pair, a payment period
    /// before the employment start, or a salary figure that exceeds the
    /// 128-bit currency range.
    InvalidInput,
}

} // verus!
