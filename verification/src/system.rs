//! The payroll system: configuration, treasury, employee records and the
//! append-only roster, with the payment state machine over them. Every
//! operation takes the authenticated caller's identity and, where the
//! calendar matters, the current (year, month) pair; it either commits its
//! whole effect or returns an error with the state untouched.

use vstd::prelude::*;

use crate::accrual::current_monthly_salary;
use crate::accrual::monthly_salary_outcome;
use crate::calendar::month_of_timestamp;
use crate::calendar::year_month_from_timestamp;
use crate::calendar::year_of_timestamp;
use crate::employee::Employee;
use crate::error::Error;
use crate::projection::projected_years;
use crate::projection::roster_cost_for_year;
use crate::projection::roster_started_by;

verus! {

/// Whether some record carries the address.
pub open spec fn has_record(records: Seq<Employee>, address: u64) -> bool {
    exists|j: int| 0 <= j < records.len() && records[j].address == address
}

/// An index of the record carrying the address; with unique addresses it
/// is the only one. Meaningful only when `has_record` holds.
pub open spec fn record_index_of(records: Seq<Employee>, address: u64) -> int {
    choose|j: int| 0 <= j < records.len() && records[j].address == address
}

/// The record carrying the address. Meaningful only when `has_record` holds.
pub open spec fn record_of(records: Seq<Employee>, address: u64) -> Employee {
    records[record_index_of(records, address)]
}

pub struct SalarySystemContract {
    /// Whether `initialize` has run; before that, nothing is configured.
    pub initialized: bool,
    /// The single administrative identity, set at initialization.
    pub admin: u64,
    /// The annual raise, as a nonnegative integer percentage.
    pub annual_increment_percent: u32,
    /// The account salaries are paid from, set at initialization.
    pub token_account: u64,
    /// The organization's balance; never negative.
    pub treasury_balance: i128,
    /// One record per employee, keyed uniquely by address.
    pub records: Vec<Employee>,
    /// The append-only roster of employee addresses, in insertion order.
    pub roster: Vec<u64>,
}

impl SalarySystemContract {
    /// The system invariant: the treasury never goes negative, nothing is
    /// stored before initialization, records are keyed uniquely by address
    /// and each is well formed, and every roster entry has a record.
    pub open spec fn wf(&self) -> bool {
        &&& self.treasury_balance >= 0
        &&& (!self.initialized ==> self.records@.len() == 0 && self.roster@.len() == 0
            && self.treasury_balance == 0)
        &&& (forall|i: int, j: int|
            0 <= i < j < self.records@.len() ==> (#[trigger] self.records@[i]).address != (
            #[trigger] self.records@[j]).address)
        &&& (forall|i: int| 0 <= i < self.records@.len() ==> (#[trigger] self.records@[i]).wf())
        &&& (forall|i: int|
            0 <= i < self.roster@.len() ==> has_record(self.records@, #[trigger] self.roster@[i]))
    }

    /// A fresh, unconfigured system: empty and unfunded.
    pub fn new() -> (r: SalarySystemContract)
        ensures
            r.wf(),
            !r.initialized,
            r.treasury_balance == 0,
            r.records@.len() == 0,
            r.roster@.len() == 0,
    {
        SalarySystemContract {
            initialized: false,
            admin: 0,
            annual_increment_percent: 0,
            token_account: 0,
            treasury_balance: 0,
            records: Vec::new(),
            roster: Vec::new(),
        }
    }

    /// One-time configuration: the admin identity, the uniform annual
    /// raise, and the account payments are drawn from. Fails, changing
    /// nothing, when the system is already configured.
    pub fn initialize(&mut self, admin: u64, annual_increment_percent: u32, token_account: u64)
        -> (r: Result<(), Error>)
        requires
            old(self).wf(),
        ensures
            final(self).wf(),
            old(self).initialized ==> r == Err::<(), Error>(Error::AlreadyInitialized)
                && *final(self) == *old(self),
            !old(self).initialized ==> {
                &&& r == Ok::<(), Error>(())
                &&& final(self).initialized
                &&& final(self).admin == admin
                &&& final(self).annual_increment_percent == annual_increment_percent
                &&& final(self).token_account == token_account
                &&& final(self).treasury_balance == 0
                &&& final(self).records@ == old(self).records@
                &&& final(self).roster@ == old(self).roster@
            },
    {
        if self.initialized {
            return Err(Error::AlreadyInitialized);
        }
        self.initialized = true;
        self.admin = admin;
        self.annual_increment_percent = annual_increment_percent;
        self.token_account = token_account;
        self.treasury_balance = 0;
        Ok(())
    }

    /// What `fund_treasury` answers: funding an unconfigured system hits a
    /// missing key, a negative amount is invalid, and a credit that would
    /// leave the 128-bit range is invalid.
    pub open spec fn fund_outcome(s: SalarySystemContract, amount: i128) -> Result<(), Error> {
        if !s.initialized {
            Err(Error::NotFound)
        } else if amount < 0 {
            Err(Error::InvalidInput)
        } else if s.treasury_balance + amount > i128::MAX {
            Err(Error::InvalidInput)
        } else {
            Ok(())
        }
    }

    /// Credits the treasury after a successful external transfer into the
    /// organization's account.
    pub fn fund_treasury(&mut self, amount: i128) -> (r: Result<(), Error>)
        requires
            old(self).wf(),
        ensures
            final(self).wf(),
            r == Self::fund_outcome(*old(self), amount),
            r is Err ==> *final(self) == *old(self),
            r is Ok ==> {
                &&& final(self).treasury_balance == old(self).treasury_balance + amount
                &&& Self::same_configuration(*old(self), *final(self))
                &&& Self::same_employees(*old(self), *final(self))
            },
    {
        if !self.initialized {
            return Err(Error::NotFound);
        }
        if amount < 0 {
            return Err(Error::InvalidInput);
        }
        match self.treasury_balance.checked_add(amount) {
            None => Err(Error::InvalidInput),
            Some(v) => {
                self.treasury_balance = v;
                Ok(())
            },
        }
    }

    /// The configuration fields agree.
    pub open spec fn same_configuration(a: SalarySystemContract, b: SalarySystemContract) -> bool {
        &&& a.initialized == b.initialized
        &&& a.admin == b.admin
        &&& a.annual_increment_percent == b.annual_increment_percent
        &&& a.token_account == b.token_account
    }

    /// The records and the roster agree.
    pub open spec fn same_employees(a: SalarySystemContract, b: SalarySystemContract) -> bool {
        &&& a.records@ == b.records@
        &&& a.roster@ == b.roster@
    }

    /// What `add_employee` answers: it needs a configured system, the
    /// admin as caller, a calendar month in range, and a nonnegative base
    /// salary.
    pub open spec fn add_outcome(
        s: SalarySystemContract,
        caller: u64,
        base_salary: i128,
        current_month: u32,
    ) -> Result<(), Error> {
        if !s.initialized {
            Err(Error::NotFound)
        } else if caller != s.admin {
            Err(Error::NotAuthorized)
        } else if !(1 <= current_month <= 12) {
            Err(Error::InvalidInput)
        } else if base_salary < 0 {
            Err(Error::InvalidInput)
        } else {
            Ok(())
        }
    }

    /// The record a new hire starts with: anchored at the current calendar
    /// pair, active, and never paid.
    pub open spec fn fresh_record(
        address: u64,
        name: String,
        base_salary: i128,
        current_year: u64,
        current_month: u32,
    ) -> Employee {
        Employee {
            address,
            name,
            base_salary,
            start_year: current_year,
            start_month: current_month,
            last_payment_year: current_year,
            last_payment_month: 0,
            is_active: true,
        }
    }

    /// Hires an employee at the current calendar pair: stores the record
    /// under the address (overwriting a record already there) and appends
    /// the address to the roster. Admin-only.
    pub fn add_employee(
        &mut self,
        caller: u64,
        employee_address: u64,
        name: String,
        base_salary: i128,
        current_year: u64,
        current_month: u32,
    ) -> (r: Result<(), Error>)
        requires
            old(self).wf(),
        ensures
            final(self).wf(),
            r == Self::add_outcome(*old(self), caller, base_salary, current_month),
            r is Err ==> *final(self) == *old(self),
            r is Ok ==> {
                &&& final(self).roster@ == old(self).roster@.push(employee_address)
                &&& (has_record(old(self).records@, employee_address) ==> final(self).records@
                    == old(self).records@.update(
                    record_index_of(old(self).records@, employee_address),
                    Self::fresh_record(employee_address, name, base_salary, current_year,
                        current_month),
                ))
                &&& (!has_record(old(self).records@, employee_address) ==> final(self).records@
                    == old(self).records@.push(
                    Self::fresh_record(employee_address, name, base_salary, current_year,
                        current_month),
                ))
                &&& final(self).treasury_balance == old(self).treasury_balance
                &&& Self::same_configuration(*old(self), *final(self))
            },
    {
        if !self.initialized {
            return Err(Error::NotFound);
        }
        if caller != self.admin {
            return Err(Error::NotAuthorized);
        }
        if current_month < 1 || current_month > 12 {
            return Err(Error::InvalidInput);
        }
        if base_salary < 0 {
            return Err(Error::InvalidInput);
        }
        let record = Employee {
            address: employee_address,
            name,
            base_salary,
            start_year: current_year,
            start_month: current_month,
            last_payment_year: current_year,
            last_payment_month: 0,
            is_active: true,
        };
        match find_record(&self.records, employee_address) {
            Some(i) => {
                proof {
                    lemma_unique_record_index(old(self).records@, employee_address, i as int);
                }
                self.records[i] = record;
            },
            None => {
                self.records.push(record);
            },
        }
        self.roster.push(employee_address);
        proof {
            let pre = old(self).records@;
            let post = self.records@;
            assert forall|p: int, q: int| 0 <= p < q < post.len() implies (
            #[trigger] post[p]).address != (#[trigger] post[q]).address by {
                if q < pre.len() {
                    assert(pre[p].address != pre[q].address);
                } else {
                    assert(!has_record(pre, employee_address));
                    assert(pre[p].address != employee_address);
                }
            }
            lemma_roster_entries_still_found(pre, post, old(self).roster@);
            assert(has_record(post, employee_address)) by {
                if has_record(pre, employee_address) {
                    let j = record_index_of(pre, employee_address);
                    assert(post[j].address == employee_address);
                } else {
                    assert(post[pre.len() as int].address == employee_address);
                }
            }
        }
        Ok(())
    }

    /// What the activation toggles answer: a configured system, the admin
    /// as caller, and a known employee.
    pub open spec fn toggle_outcome(s: SalarySystemContract, caller: u64, address: u64) -> Result<
        (),
        Error,
    > {
        if !s.initialized {
            Err(Error::NotFound)
        } else if caller != s.admin {
            Err(Error::NotAuthorized)
        } else if !has_record(s.records@, address) {
            Err(Error::NotFound)
        } else {
            Ok(())
        }
    }

    /// The record with its active gate set.
    pub open spec fn with_active(e: Employee, active: bool) -> Employee {
        Employee { is_active: active, ..e }
    }

    fn set_employee_active(&mut self, caller: u64, employee_address: u64, active: bool) -> (r:
        Result<(), Error>)
        requires
            old(self).wf(),
        ensures
            final(self).wf(),
            r == Self::toggle_outcome(*old(self), caller, employee_address),
            r is Err ==> *final(self) == *old(self),
            r is Ok ==> {
                &&& final(self).records@ == old(self).records@.update(
                    record_index_of(old(self).records@, employee_address),
                    Self::with_active(record_of(old(self).records@, employee_address), active),
                )
                &&& final(self).roster@ == old(self).roster@
                &&& final(self).treasury_balance == old(self).treasury_balance
                &&& Self::same_configuration(*old(self), *final(self))
            },
    {
        if !self.initialized {
            return Err(Error::NotFound);
        }
        if caller != self.admin {
            return Err(Error::NotAuthorized);
        }
        match find_record(&self.records, employee_address) {
            None => Err(Error::NotFound),
            Some(i) => {
                proof {
                    lemma_unique_record_index(old(self).records@, employee_address, i as int);
                }
                self.records[i].is_active = active;
                proof {
                    lemma_roster_entries_still_found(old(self).records@, self.records@,
                        old(self).roster@);
                }
                Ok(())
            },
        }
    }

    /// Stops payments to the employee. Admin-only; idempotent; no other
    /// effect, and the employee stays on the roster.
    pub fn stop_employee_salary(&mut self, caller: u64, employee_address: u64) -> (r: Result<
        (),
        Error,
    >)
        requires
            old(self).wf(),
        ensures
            final(self).wf(),
            r == Self::toggle_outcome(*old(self), caller, employee_address),
            r is Err ==> *final(self) == *old(self),
            r is Ok ==> {
                &&& final(self).records@ == old(self).records@.update(
                    record_index_of(old(self).records@, employee_address),
                    Self::with_active(record_of(old(self).records@, employee_address), false),
                )
                &&& final(self).roster@ == old(self).roster@
                &&& final(self).treasury_balance == old(self).treasury_balance
                &&& Self::same_configuration(*old(self), *final(self))
            },
    {
        self.set_employee_active(caller, employee_address, false)
    }

    /// Resumes payments to the employee. Admin-only; idempotent; payment
    /// timestamps are not reset.
    pub fn resume_employee_salary(&mut self, caller: u64, employee_address: u64) -> (r: Result<
        (),
        Error,
    >)
        requires
            old(self).wf(),
        ensures
            final(self).wf(),
            r == Self::toggle_outcome(*old(self), caller, employee_address),
            r is Err ==> *final(self) == *old(self),
            r is Ok ==> {
                &&& final(self).records@ == old(self).records@.update(
                    record_index_of(old(self).records@, employee_address),
                    Self::with_active(record_of(old(self).records@, employee_address), true),
                )
                &&& final(self).roster@ == old(self).roster@
                &&& final(self).treasury_balance == old(self).treasury_balance
                &&& Self::same_configuration(*old(self), *final(self))
            },
    {
        self.set_employee_active(caller, employee_address, true)
    }

    /// What the shared payment transition answers for the record at `idx`,
    /// in the order the checks run: the active gate, the calendar pair,
    /// the one-payment-per-period guard, the accrual span, and treasury
    /// sufficiency.
    pub open spec fn payment_outcome_at(
        s: SalarySystemContract,
        idx: int,
        current_year: u64,
        current_month: u32,
    ) -> Result<i128, Error> {
        let e = s.records@[idx];
        if !e.is_active {
            Err(Error::InactiveEmployee)
        } else if !(1 <= current_month <= 12) {
            Err(Error::InvalidInput)
        } else if e.paid_for(current_year, current_month) {
            Err(Error::AlreadyPaid)
        } else if current_year == e.start_year && current_month < e.start_month {
            Err(Error::InvalidInput)
        } else {
            match monthly_salary_outcome(e.base_salary as int, e.start_year as int,
                s.annual_increment_percent as int, current_year as int) {
                Err(err) => Err(err),
                Ok(amount) => if s.treasury_balance < amount {
                    Err(Error::InsufficientFunds)
                } else {
                    Ok(amount)
                },
            }
        }
    }

    /// What `pay_salary` answers: the admin-driven entry point.
    pub open spec fn pay_outcome(
        s: SalarySystemContract,
        caller: u64,
        address: u64,
        current_year: u64,
        current_month: u32,
    ) -> Result<i128, Error> {
        if !s.initialized {
            Err(Error::NotFound)
        } else if caller != s.admin {
            Err(Error::NotAuthorized)
        } else if !has_record(s.records@, address) {
            Err(Error::NotFound)
        } else {
            Self::payment_outcome_at(s, record_index_of(s.records@, address), current_year,
                current_month)
        }
    }

    /// What `claim_salary` answers: the self-service entry point, with the
    /// same transition gated on the employee's own identity.
    pub open spec fn claim_outcome(
        s: SalarySystemContract,
        caller: u64,
        address: u64,
        current_year: u64,
        current_month: u32,
    ) -> Result<i128, Error> {
        if caller != address {
            Err(Error::NotAuthorized)
        } else if !has_record(s.records@, address) {
            Err(Error::NotFound)
        } else {
            Self::payment_outcome_at(s, record_index_of(s.records@, address), current_year,
                current_month)
        }
    }

    /// The record with its payment anchor advanced to the paid period.
    pub open spec fn paid_record(e: Employee, year: u64, month: u32) -> Employee {
        Employee { last_payment_year: year, last_payment_month: month, ..e }
    }

    /// How a successful payment changes the state: the treasury is debited
    /// by exactly the amount, the employee's payment anchor advances to the
    /// paid period, and nothing else moves.
    pub open spec fn payment_effect(
        pre: SalarySystemContract,
        post: SalarySystemContract,
        address: u64,
        year: u64,
        month: u32,
        amount: i128,
    ) -> bool {
        let idx = record_index_of(pre.records@, address);
        &&& post.records@ == pre.records@.update(idx, Self::paid_record(pre.records@[idx], year,
            month))
        &&& post.treasury_balance == pre.treasury_balance - amount
        &&& post.roster@ == pre.roster@
        &&& Self::same_configuration(pre, post)
    }

    /// The shared payment transition on the record at index `i`.
    fn execute_payment(&mut self, i: usize, current_year: u64, current_month: u32) -> (r: Result<
        i128,
        Error,
    >)
        requires
            old(self).wf(),
            i < old(self).records@.len(),
        ensures
            final(self).wf(),
            r == Self::payment_outcome_at(*old(self), i as int, current_year, current_month),
            r is Err ==> *final(self) == *old(self),
            r matches Ok(amount) ==> {
                &&& final(self).records@ == old(self).records@.update(
                    i as int,
                    Self::paid_record(old(self).records@[i as int], current_year, current_month),
                )
                &&& final(self).treasury_balance == old(self).treasury_balance - amount
                &&& amount >= 0
                &&& final(self).roster@ == old(self).roster@
                &&& Self::same_configuration(*old(self), *final(self))
            },
    {
        if !self.records[i].is_active {
            return Err(Error::InactiveEmployee);
        }
        if current_month < 1 || current_month > 12 {
            return Err(Error::InvalidInput);
        }
        if self.records[i].last_payment_year == current_year && self.records[i].last_payment_month
            == current_month {
            return Err(Error::AlreadyPaid);
        }
        if current_year == self.records[i].start_year && current_month
            < self.records[i].start_month {
            return Err(Error::InvalidInput);
        }
        let amount = match current_monthly_salary(
            self.records[i].base_salary,
            self.records[i].start_year,
            self.annual_increment_percent,
            current_year,
        ) {
            Err(err) => {
                return Err(err);
            },
            Ok(m) => m,
        };
        if self.treasury_balance < amount {
            return Err(Error::InsufficientFunds);
        }
        self.treasury_balance = self.treasury_balance - amount;
        self.records[i].last_payment_year = current_year;
        self.records[i].last_payment_month = current_month;
        proof {
            let pre = old(self).records@;
            let post = self.records@;
            assert(post =~= pre.update(i as int, Self::paid_record(pre[i as int], current_year,
                current_month)));
            assert forall|p: int, q: int| 0 <= p < q < post.len() implies (
            #[trigger] post[p]).address != (#[trigger] post[q]).address by {
                assert(pre[p].address != pre[q].address);
            }
            lemma_roster_entries_still_found(pre, post, old(self).roster@);
        }
        Ok(amount)
    }

    /// Pays one month of salary to the employee: debits the treasury by
    /// the accrued monthly amount and advances the employee's payment
    /// anchor, as one atomic effect. Admin-driven entry point; the caller
    /// performs the external value transfer of the returned amount.
    pub fn pay_salary(
        &mut self,
        caller: u64,
        employee_address: u64,
        current_year: u64,
        current_month: u32,
    ) -> (r: Result<i128, Error>)
        requires
            old(self).wf(),
        ensures
            final(self).wf(),
            r == Self::pay_outcome(*old(self), caller, employee_address, current_year,
                current_month),
            r is Err ==> *final(self) == *old(self),
            r matches Ok(amount) ==> amount >= 0 && Self::payment_effect(*old(self), *final(self),
                employee_address, current_year, current_month, amount),
    {
        if !self.initialized {
            return Err(Error::NotFound);
        }
        if caller != self.admin {
            return Err(Error::NotAuthorized);
        }
        match find_record(&self.records, employee_address) {
            None => Err(Error::NotFound),
            Some(i) => {
                proof {
                    lemma_unique_record_index(self.records@, employee_address, i as int);
                }
                self.execute_payment(i, current_year, current_month)
            },
        }
    }

    /// The self-service twin of `pay_salary`: the employee claims their
    /// own salary, with the identical transition and effect.
    pub fn claim_salary(
        &mut self,
        caller: u64,
        employee_address: u64,
        current_year: u64,
        current_month: u32,
    ) -> (r: Result<i128, Error>)
        requires
            old(self).wf(),
        ensures
            final(self).wf(),
            r == Self::claim_outcome(*old(self), caller, employee_address, current_year,
                current_month),
            r is Err ==> *final(self) == *old(self),
            r matches Ok(amount) ==> amount >= 0 && Self::payment_effect(*old(self), *final(self),
                employee_address, current_year, current_month, amount),
    {
        if caller != employee_address {
            return Err(Error::NotAuthorized);
        }
        match find_record(&self.records, employee_address) {
            None => Err(Error::NotFound),
            Some(i) => {
                proof {
                    lemma_unique_record_index(self.records@, employee_address, i as int);
                }
                self.execute_payment(i, current_year, current_month)
            },
        }
    }

    /// What `calculate_current_salary` answers: the stored record's base
    /// salary, compounded over its completed years of service.
    pub open spec fn salary_query_outcome(
        s: SalarySystemContract,
        address: u64,
        current_year: u64,
    ) -> Result<i128, Error> {
        if !has_record(s.records@, address) {
            Err(Error::NotFound)
        } else {
            monthly_salary_outcome(
                record_of(s.records@, address).base_salary as int,
                record_of(s.records@, address).start_year as int,
                s.annual_increment_percent as int,
                current_year as int,
            )
        }
    }

    /// Prices one month of salary for the employee as of the given year.
    /// Read-only: the result is a function of the stored record, the
    /// configured raise, and the year alone.
    pub fn calculate_current_salary(&self, employee_address: u64, current_year: u64) -> (r: Result<
        i128,
        Error,
    >)
        requires
            self.wf(),
        ensures
            r == Self::salary_query_outcome(*self, employee_address, current_year),
            r matches Ok(m) ==> m >= 0,
    {
        match find_record(&self.records, employee_address) {
            None => Err(Error::NotFound),
            Some(i) => {
                proof {
                    lemma_unique_record_index(self.records@, employee_address, i as int);
                }
                current_monthly_salary(
                    self.records[i].base_salary,
                    self.records[i].start_year,
                    self.annual_increment_percent,
                    current_year,
                )
            },
        }
    }

    /// What `calculate_sustainability_years` answers: zero for an empty
    /// roster, an invalid-input failure when some roster member's
    /// employment starts after the given year, and otherwise the simulated
    /// count of fully covered years.
    pub open spec fn sustainability_outcome(s: SalarySystemContract, current_year: u64) -> Result<
        u32,
        Error,
    > {
        if s.roster@.len() == 0 {
            Ok(0)
        } else if !roster_started_by(s.records@, s.roster@, current_year as int) {
            Err(Error::InvalidInput)
        } else {
            Ok(
                projected_years(
                    s.records@,
                    s.roster@,
                    s.annual_increment_percent as int,
                    current_year as int,
                    s.treasury_balance as int,
                    0,
                ) as u32,
            )
        }
    }

    /// Forecasts how many further years the treasury covers the whole
    /// roster's annual cost, compounding every member's salary forward
    /// under the configured raise. Stops at the thousand-year safety cap.
    /// Read-only: the result is a function of the state and the year alone.
    pub fn calculate_sustainability_years(&self, current_year: u64) -> (r: Result<u32, Error>)
        requires
            self.wf(),
        ensures
            r == Self::sustainability_outcome(*self, current_year),
    {
        if self.roster.len() == 0 {
            return Ok(0);
        }
        let mut i: usize = 0;
        while i < self.roster.len()
            invariant
                self.wf(),
                self.roster@.len() > 0,
                i <= self.roster@.len(),
                forall|j: int|
                    0 <= j < i ==> record_of(self.records@, #[trigger] self.roster@[j]).start_year
                        <= current_year,
            decreases self.roster@.len() - i,
        {
            let address = self.roster[i];
            let idx = match find_record(&self.records, address) {
                Some(x) => x,
                None => {
                    proof {
                        assert(false);
                    }
                    return Err(Error::NotFound);
                },
            };
            proof {
                lemma_unique_record_index(self.records@, address, idx as int);
            }
            if self.records[idx].start_year > current_year {
                return Err(Error::InvalidInput);
            }
            i = i + 1;
        }
        let ghost rate: int = self.annual_increment_percent as int;
        let ghost year: int = current_year as int;
        let mut remaining: i128 = self.treasury_balance;
        let mut years: u32 = 0;
        loop
            invariant
                self.wf(),
                self.roster@.len() > 0,
                roster_started_by(self.records@, self.roster@, year),
                rate == self.annual_increment_percent as int,
                year == current_year as int,
                remaining >= 0,
                years < 1000,
                projected_years(self.records@, self.roster@, rate, year,
                    self.treasury_balance as int, 0) == projected_years(self.records@,
                    self.roster@, rate, year, remaining as int, years as nat),
            decreases 1000 - years,
        {
            match roster_cost_for_year(&self.records, &self.roster, self.annual_increment_percent,
                current_year, years) {
                None => {
                    proof {
                        assert(projected_years(self.records@, self.roster@, rate, year,
                            remaining as int, years as nat) == years as nat);
                    }
                    return Ok(years);
                },
                Some(cost) => {
                    if remaining < cost {
                        proof {
                            assert(projected_years(self.records@, self.roster@, rate, year,
                                remaining as int, years as nat) == years as nat);
                        }
                        return Ok(years);
                    }
                    remaining = remaining - cost;
                    years = years + 1;
                    if years >= 1000 {
                        proof {
                            assert(projected_years(self.records@, self.roster@, rate, year,
                                remaining as int, years as nat) == years as nat);
                        }
                        return Ok(years);
                    }
                },
            }
        }
    }

    /// The calendar year a timestamp falls in.
    pub fn get_year(timestamp: u64) -> (r: u64)
        ensures
            r == year_of_timestamp(timestamp),
    {
        let (year, _month) = year_month_from_timestamp(timestamp);
        year
    }

    /// The calendar month, 1 to 12, a timestamp falls in.
    pub fn get_month(timestamp: u64) -> (r: u32)
        ensures
            r == month_of_timestamp(timestamp),
            1 <= r <= 12,
    {
        let (_year, month) = year_month_from_timestamp(timestamp);
        month
    }

    /// The treasury balance; zero before any funding.
    pub fn get_treasury_balance(&self) -> (r: i128)
        ensures
            r == self.treasury_balance,
    {
        self.treasury_balance
    }

    /// The annual raise percentage; a missing key before initialization.
    pub fn get_annual_increment(&self) -> (r: Result<u32, Error>)
        ensures
            self.initialized ==> r == Ok::<u32, Error>(self.annual_increment_percent),
            !self.initialized ==> r == Err::<u32, Error>(Error::NotFound),
    {
        if self.initialized {
            Ok(self.annual_increment_percent)
        } else {
            Err(Error::NotFound)
        }
    }

    /// The roster of employee addresses, in the order they were added.
    pub fn get_all_employees(&self) -> (r: Vec<u64>)
        ensures
            r@ == self.roster@,
    {
        let mut out: Vec<u64> = Vec::new();
        let mut i: usize = 0;
        while i < self.roster.len()
            invariant
                i <= self.roster@.len(),
                out@ == self.roster@.subrange(0, i as int),
            decreases self.roster@.len() - i,
        {
            out.push(self.roster[i]);
            i = i + 1;
        }
        proof {
            assert(out@ =~= self.roster@);
        }
        out
    }

    /// The record stored for the address, or a missing-key failure.
    pub fn get_employee(&self, employee_address: u64) -> (r: Result<Employee, Error>)
        requires
            self.wf(),
        ensures
            has_record(self.records@, employee_address) ==> r == Ok::<Employee, Error>(
                record_of(self.records@, employee_address),
            ),
            !has_record(self.records@, employee_address) ==> r == Err::<Employee, Error>(
                Error::NotFound,
            ),
    {
        match find_record(&self.records, employee_address) {
            None => Err(Error::NotFound),
            Some(i) => {
                proof {
                    lemma_unique_record_index(self.records@, employee_address, i as int);
                }
                let e = &self.records[i];
                Ok(
                    Employee {
                        address: e.address,
                        name: e.name.clone(),
                        base_salary: e.base_salary,
                        start_year: e.start_year,
                        start_month: e.start_month,
                        last_payment_year: e.last_payment_year,
                        last_payment_month: e.last_payment_month,
                        is_active: e.is_active,
                    },
                )
            },
        }
    }
}

/// Under unique addresses, any index carrying the address is the one
/// `record_index_of` picks.
pub proof fn lemma_unique_record_index(records: Seq<Employee>, address: u64, i: int)
    requires
        0 <= i < records.len(),
        records[i].address == address,
        forall|p: int, q: int|
            0 <= p < q < records.len() ==> (#[trigger] records[p]).address != (
            #[trigger] records[q]).address,
    ensures
        has_record(records, address),
        record_index_of(records, address) == i,
{
    assert(has_record(records, address));
    let j = record_index_of(records, address);
    if j < i {
        assert(records[j].address != records[i].address);
    } else if j > i {
        assert(records[i].address != records[j].address);
    }
}

/// Roster entries stay found when the records keep every address in place,
/// whether or not records were appended.
pub proof fn lemma_roster_entries_still_found(
    before: Seq<Employee>,
    after: Seq<Employee>,
    roster: Seq<u64>,
)
    requires
        before.len() <= after.len(),
        forall|j: int|
            0 <= j < before.len() ==> (#[trigger] after[j]).address == before[j].address,
        forall|k: int| 0 <= k < roster.len() ==> has_record(before, #[trigger] roster[k]),
    ensures
        forall|k: int| 0 <= k < roster.len() ==> has_record(after, #[trigger] roster[k]),
{
    assert forall|k: int| 0 <= k < roster.len() implies has_record(after, #[trigger] roster[k]) by {
        let j = record_index_of(before, roster[k]);
        assert(0 <= j < before.len() && before[j].address == roster[k]);
        assert(after[j].address == roster[k]);
    }
}

/// Linear search for the record carrying the address.
pub(crate) fn find_record(records: &Vec<Employee>, address: u64) -> (r: Option<usize>)
    ensures
        match r {
            Some(i) => i < records@.len() && records@[i as int].address == address,
            None => !has_record(records@, address),
        },
{
    let mut i: usize = 0;
    while i < records.len()
        invariant
            i <= records@.len(),
            forall|j: int| 0 <= j < i ==> (#[trigger] records@[j]).address != address,
        decreases records@.len() - i,
    {
        if records[i].address == address {
            return Some(i);
        }
        i = i + 1;
    }
    None
}

} // verus!
