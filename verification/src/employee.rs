//! An employee record: identity, display name, annual base salary, the
//! calendar anchor of employment, the anchor of the most recent payment,
//! and the active gate. A `last_payment_month` of zero is the sentinel
//! for "never paid".

use vstd::prelude::*;

verus! {

#[derive(Debug, PartialEq, Eq)]
pub struct Employee {
    /// Opaque account identity, as interned by the host environment.
    pub address: u64,
    /// Display name.
    pub name: String,
    /// Annual base salary, in the smallest currency unit.
    pub base_salary: i128,
    /// Calendar year employment began.
    pub start_year: u64,
    /// Calendar month employment began, 1 to 12.
    pub start_month: u32,
    /// Year of the most recent successful payment.
    pub last_payment_year: u64,
    /// Month of the most recent successful payment, 1 to 12, or 0 for
    /// "never paid".
    pub last_payment_month: u32,
    /// Whether payments to this employee are allowed.
    pub is_active: bool,
}

impl Employee {
    /// The record's invariant: the base salary is nonnegative, the months
    /// are in range, and once a first payment occurs its calendar pair is
    /// never strictly before the employment anchor.
    pub open spec fn wf(&self) -> bool {
        &&& self.base_salary >= 0
        &&& 1 <= self.start_month <= 12
        &&& self.last_payment_month <= 12
        &&& (self.last_payment_month != 0 ==> (self.last_payment_year > self.start_year || (
        self.last_payment_year == self.start_year
            && self.last_payment_month >= self.start_month)))
    }

    /// Whether a payment for the calendar pair was already issued.
    pub open spec fn paid_for(&self, year: u64, month: u32) -> bool {
        self.last_payment_year == year && self.last_payment_month == month
    }
}

} // verus!
