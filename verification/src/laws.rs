//! System-wide laws, each proved from the public contracts' own spec
//! functions: accrual monotonicity, determinism of the read-only queries,
//! payment exclusivity within a period, and the insufficiency guard.

use vstd::prelude::*;
use vstd::arithmetic::div_mod::lemma_div_is_ordered;

use crate::accrual::compounded_annual;
use crate::accrual::compounding_fits;
use crate::accrual::lemma_compounded_nonnegative;
use crate::accrual::lemma_compounded_monotonic;
use crate::accrual::monthly_salary;
use crate::error::Error;
use crate::system::has_record;
use crate::system::lemma_unique_record_index;
use crate::system::record_index_of;
use crate::system::record_of;
use crate::system::SalarySystemContract;

verus! {

/// Accrual is monotonic: with a nonnegative rate and base, more years of
/// service never pay a smaller monthly salary.
pub proof fn lemma_accrual_monotonic(base: int, rate: int, m: nat, n: nat)
    requires
        base >= 0,
        rate >= 0,
        m <= n,
    ensures
        monthly_salary(base, rate, m) <= monthly_salary(base, rate, n),
{
    lemma_compounded_monotonic(base, rate, m, n);
    lemma_div_is_ordered(compounded_annual(base, rate, m), compounded_annual(base, rate, n), 12);
}

/// Accrual monotonicity at the query contract: whenever the salary query
/// answers for two years of the same employment, the later year never pays
/// less per month.
pub proof fn lemma_salary_query_monotonic(
    s: SalarySystemContract,
    address: u64,
    earlier_year: u64,
    later_year: u64,
    earlier: i128,
    later: i128,
)
    requires
        s.wf(),
        earlier_year <= later_year,
        SalarySystemContract::salary_query_outcome(s, address, earlier_year) == Ok::<i128, Error>(
            earlier,
        ),
        SalarySystemContract::salary_query_outcome(s, address, later_year) == Ok::<i128, Error>(
            later,
        ),
    ensures
        earlier <= later,
{
    let e = record_of(s.records@, address);
    let rate = s.annual_increment_percent as int;
    let m = (earlier_year - e.start_year) as nat;
    let n = (later_year - e.start_year) as nat;
    assert(e.wf());
    lemma_accrual_monotonic(e.base_salary as int, rate, m, n);
    lemma_compounded_nonnegative(e.base_salary as int, rate, m);
    lemma_compounded_nonnegative(e.base_salary as int, rate, n);
    lemma_div_is_ordered(0, compounded_annual(e.base_salary as int, rate, m), 12);
    lemma_div_is_ordered(0, compounded_annual(e.base_salary as int, rate, n), 12);
    lemma_div_is_ordered(compounded_annual(e.base_salary as int, rate, n), i128::MAX as int, 12);
}

/// Idempotence of the read-only queries: their contracts pin each result
/// to a function of the state and the inputs alone, so two calls with
/// identical inputs answer identically, and neither call mutates anything.
pub proof fn lemma_queries_idempotent(
    s: SalarySystemContract,
    address: u64,
    current_year: u64,
    first_salary: Result<i128, Error>,
    second_salary: Result<i128, Error>,
    first_projection: Result<u32, Error>,
    second_projection: Result<u32, Error>,
)
    requires
        first_salary == SalarySystemContract::salary_query_outcome(s, address, current_year),
        second_salary == SalarySystemContract::salary_query_outcome(s, address, current_year),
        first_projection == SalarySystemContract::sustainability_outcome(s, current_year),
        second_projection == SalarySystemContract::sustainability_outcome(s, current_year),
    ensures
        first_salary == second_salary,
        first_projection == second_projection,
{
}

/// Payment exclusivity: once one of the two entry points has paid an
/// employee for a (year, month), the other — and any repeat — fails with
/// `AlreadyPaid` for that same period, whoever is properly authenticated.
pub proof fn lemma_payment_exclusive(
    pre: SalarySystemContract,
    post: SalarySystemContract,
    address: u64,
    year: u64,
    month: u32,
    amount: i128,
)
    requires
        pre.wf(),
        SalarySystemContract::pay_outcome(pre, pre.admin, address, year, month) == Ok::<
            i128,
            Error,
        >(amount) || SalarySystemContract::claim_outcome(pre, address, address, year, month)
            == Ok::<i128, Error>(amount),
        SalarySystemContract::payment_effect(pre, post, address, year, month, amount),
    ensures
        SalarySystemContract::pay_outcome(post, post.admin, address, year, month) == Err::<
            i128,
            Error,
        >(Error::AlreadyPaid),
        SalarySystemContract::claim_outcome(post, address, address, year, month) == Err::<
            i128,
            Error,
        >(Error::AlreadyPaid),
{
    assert(has_record(pre.records@, address));
    let idx = record_index_of(pre.records@, address);
    assert(0 <= idx < pre.records@.len() && pre.records@[idx].address == address);
    assert(pre.initialized);
    assert forall|p: int, q: int| 0 <= p < q < post.records@.len() implies (
    #[trigger] post.records@[p]).address != (#[trigger] post.records@[q]).address by {
        assert(pre.records@[p].address != pre.records@[q].address);
    }
    lemma_unique_record_index(post.records@, address, idx);
    assert(post.records@[idx].paid_for(year, month));
    assert(post.records@[idx].is_active);
}

/// The insufficiency guard: when every other gate is open but the treasury
/// cannot cover the accrued monthly amount in full, both entry points fail
/// with `InsufficientFunds` — and their contracts leave a failed state
/// byte-for-byte unchanged.
pub proof fn lemma_insufficiency_guard(
    s: SalarySystemContract,
    address: u64,
    year: u64,
    month: u32,
)
    requires
        s.wf(),
        s.initialized,
        has_record(s.records@, address),
        record_of(s.records@, address).is_active,
        1 <= month <= 12,
        !record_of(s.records@, address).paid_for(year, month),
        year > record_of(s.records@, address).start_year || (year == record_of(s.records@,
            address).start_year && month >= record_of(s.records@, address).start_month),
        compounding_fits(
            record_of(s.records@, address).base_salary as int,
            s.annual_increment_percent as int,
            (year - record_of(s.records@, address).start_year) as nat,
        ),
        s.treasury_balance < monthly_salary(
            record_of(s.records@, address).base_salary as int,
            s.annual_increment_percent as int,
            (year - record_of(s.records@, address).start_year) as nat,
        ),
    ensures
        SalarySystemContract::pay_outcome(s, s.admin, address, year, month) == Err::<i128, Error>(
            Error::InsufficientFunds,
        ),
        SalarySystemContract::claim_outcome(s, address, address, year, month) == Err::<
            i128,
            Error,
        >(Error::InsufficientFunds),
{
}

} // verus!
