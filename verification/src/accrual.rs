//! The salary accrual engine: an annual base salary compounds once per
//! completed year of service by an integer percentage, with truncating
//! division at every step, and the monthly salary is the compounded annual
//! figure truncated by 12. The compounding is deliberately iterative, so
//! truncation accumulates identically on every call.

use vstd::prelude::*;
use vstd::arithmetic::div_mod::lemma_div_is_ordered;
use vstd::arithmetic::mul::lemma_mul_nonnegative;

use crate::error::Error;

verus! {

/// The annual salary after `years` compounding steps: each step adds
/// `rate` percent of the running figure, truncated.
pub open spec fn compounded_annual(base: int, rate: int, years: nat) -> int
    decreases years,
{
    if years == 0 {
        base
    } else {
        let prev = compounded_annual(base, rate, (years - 1) as nat);
        prev + prev * rate / 100
    }
}

/// Whether every figure the compounding loop touches, the per-step product
/// included, stays within the signed 128-bit currency range.
pub open spec fn compounding_fits(base: int, rate: int, years: nat) -> bool
    decreases years,
{
    if years == 0 {
        true
    } else {
        &&& compounding_fits(base, rate, (years - 1) as nat)
        &&& compounded_annual(base, rate, (years - 1) as nat) * rate <= i128::MAX
        &&& compounded_annual(base, rate, years) <= i128::MAX
    }
}

/// The monthly salary after `years` compounding steps.
pub open spec fn monthly_salary(base: int, rate: int, years: nat) -> int {
    compounded_annual(base, rate, years) / 12
}

/// What the accrual engine answers for a service span: the span is invalid
/// when the current year lies before the start year, or when the compounded
/// figures leave the 128-bit range.
pub open spec fn monthly_salary_outcome(
    base: int,
    start_year: int,
    rate: int,
    current_year: int,
) -> Result<i128, Error> {
    if current_year < start_year {
        Err(Error::InvalidInput)
    } else if !compounding_fits(base, rate, (current_year - start_year) as nat) {
        Err(Error::InvalidInput)
    } else {
        Ok(monthly_salary(base, rate, (current_year - start_year) as nat) as i128)
    }
}

/// A nonnegative base stays nonnegative under compounding.
pub proof fn lemma_compounded_nonnegative(base: int, rate: int, years: nat)
    requires
        base >= 0,
        rate >= 0,
    ensures
        compounded_annual(base, rate, years) >= 0,
    decreases years,
{
    if years > 0 {
        lemma_compounded_nonnegative(base, rate, (years - 1) as nat);
        let prev = compounded_annual(base, rate, (years - 1) as nat);
        lemma_mul_nonnegative(prev, rate);
        lemma_div_is_ordered(0, prev * rate, 100);
    }
}

/// With a nonnegative rate, the compounded annual salary never decreases
/// from one year of service to the next.
pub proof fn lemma_compounded_monotonic(base: int, rate: int, m: nat, n: nat)
    requires
        base >= 0,
        rate >= 0,
        m <= n,
    ensures
        compounded_annual(base, rate, m) <= compounded_annual(base, rate, n),
    decreases n,
{
    if m < n {
        lemma_compounded_monotonic(base, rate, m, (n - 1) as nat);
        let prev = compounded_annual(base, rate, (n - 1) as nat);
        lemma_compounded_nonnegative(base, rate, (n - 1) as nat);
        lemma_mul_nonnegative(prev, rate);
        lemma_div_is_ordered(0, prev * rate, 100);
    }
}

/// If all figures fit for a span, they fit for every shorter span.
pub proof fn lemma_fits_shorter_span(base: int, rate: int, m: nat, n: nat)
    requires
        m <= n,
        compounding_fits(base, rate, n),
    ensures
        compounding_fits(base, rate, m),
    decreases n,
{
    if m < n {
        lemma_fits_shorter_span(base, rate, m, (n - 1) as nat);
    }
}

/// Runs the compounding loop over the whole service span, or reports that
/// some figure along the way leaves the 128-bit range.
pub fn compound_annual_salary(base: i128, rate: u32, years: u128) -> (r: Option<i128>)
    requires
        base >= 0,
    ensures
        r is Some <==> compounding_fits(base as int, rate as int, years as nat),
        r matches Some(v) ==> v == compounded_annual(base as int, rate as int, years as nat)
            && v >= 0,
{
    let mut current: i128 = base;
    let mut i: u128 = 0;
    while i < years
        invariant
            base >= 0,
            i <= years,
            current >= 0,
            current == compounded_annual(base as int, rate as int, i as nat),
            compounding_fits(base as int, rate as int, i as nat),
        decreases years - i,
    {
        let raised: i128 = match current.checked_mul(rate as i128) {
            Some(p) => p,
            None => {
                proof {
                    lemma_mul_nonnegative(current as int, rate as int);
                    if compounding_fits(base as int, rate as int, years as nat) {
                        lemma_fits_shorter_span(base as int, rate as int, (i + 1) as nat,
                            years as nat);
                    }
                }
                return None;
            },
        };
        proof {
            lemma_mul_nonnegative(current as int, rate as int);
            lemma_div_is_ordered(0, raised as int, 100);
        }
        let increase: i128 = raised / 100;
        let next: i128 = match current.checked_add(increase) {
            Some(v) => v,
            None => {
                proof {
                    if compounding_fits(base as int, rate as int, years as nat) {
                        lemma_fits_shorter_span(base as int, rate as int, (i + 1) as nat,
                            years as nat);
                    }
                }
                return None;
            },
        };
        current = next;
        i = i + 1;
    }
    Some(current)
}

/// The accrual engine of the system: prices one month of salary for an
/// employee whose annual base compounds once per completed year of service.
/// A span whose current year lies before the start year, or whose figures
/// leave the 128-bit range, is refused as invalid input.
pub fn current_monthly_salary(
    base_salary: i128,
    start_year: u64,
    annual_increment_percent: u32,
    current_year: u64,
) -> (r: Result<i128, Error>)
    requires
        base_salary >= 0,
    ensures
        r == monthly_salary_outcome(base_salary as int, start_year as int,
            annual_increment_percent as int, current_year as int),
        r matches Ok(m) ==> m >= 0,
{
    if current_year < start_year {
        return Err(Error::InvalidInput);
    }
    let years: u128 = (current_year - start_year) as u128;
    match compound_annual_salary(base_salary, annual_increment_percent, years) {
        None => Err(Error::InvalidInput),
        Some(annual) => {
            proof {
                lemma_div_is_ordered(0, annual as int, 12);
                lemma_div_is_ordered(annual as int, i128::MAX as int, 12);
            }
            Ok(annual / 12)
        },
    }
}

} // verus!
