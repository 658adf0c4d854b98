//! The sustainability projector: simulates the treasury forward year by
//! year, pricing the whole roster's annual cost with the accrual engine's
//! compounding rule, until the balance no longer covers a year or the
//! thousand-year safety cap is reached. A forecast only: nothing is mutated.

use vstd::prelude::*;

use crate::accrual::compound_annual_salary;
use crate::accrual::compounded_annual;
use crate::accrual::compounding_fits;
use crate::accrual::lemma_compounded_nonnegative;
use crate::employee::Employee;
use crate::error::Error;
use crate::system::find_record;
use crate::system::has_record;
use crate::system::lemma_unique_record_index;
use crate::system::record_of;

verus! {

/// One employee's annual salary as of the given simulated year.
pub open spec fn annual_cost_term(
    records: Seq<Employee>,
    address: u64,
    rate: int,
    year: int,
) -> int {
    let e = record_of(records, address);
    compounded_annual(e.base_salary as int, rate, (year - e.start_year) as nat)
}

/// The whole roster's annual cost as of the given simulated year.
pub open spec fn roster_annual_cost(
    records: Seq<Employee>,
    roster: Seq<u64>,
    rate: int,
    year: int,
) -> int
    decreases roster.len(),
{
    if roster.len() == 0 {
        0
    } else {
        roster_annual_cost(records, roster.drop_last(), rate, year) + annual_cost_term(records,
            roster.last(), rate, year)
    }
}

/// Whether every roster member's compounded figures as of the given year
/// stay within the 128-bit currency range.
pub open spec fn roster_fits_at(
    records: Seq<Employee>,
    roster: Seq<u64>,
    rate: int,
    year: int,
) -> bool {
    forall|i: int|
        0 <= i < roster.len() ==> compounding_fits(
            record_of(records, #[trigger] roster[i]).base_salary as int,
            rate,
            (year - record_of(records, roster[i]).start_year) as nat,
        )
}

/// Whether every roster member was already employed by the given year.
pub open spec fn roster_started_by(records: Seq<Employee>, roster: Seq<u64>, year: int) -> bool {
    forall|i: int|
        0 <= i < roster.len() ==> record_of(records, #[trigger] roster[i]).start_year <= year
}

/// The simulation: with `k` years already covered, the projection stops at
/// `k` when the thousand-year safety cap is reached, when the roster's
/// figures leave the 128-bit range, or when the balance no longer covers
/// the year's cost; otherwise it covers the year and moves on.
pub open spec fn projected_years(
    records: Seq<Employee>,
    roster: Seq<u64>,
    rate: int,
    year: int,
    remaining: int,
    k: nat,
) -> nat
    decreases 1001 - k,
{
    if k >= 1000 {
        k
    } else if !roster_fits_at(records, roster, rate, year + k) {
        k
    } else {
        let cost = roster_annual_cost(records, roster, rate, year + k);
        if remaining < cost {
            k
        } else {
            projected_years(records, roster, rate, year, remaining - cost, (k + 1) as nat)
        }
    }
}

/// The projection never runs past the thousand-year safety cap.
pub proof fn lemma_projected_years_bounded(
    records: Seq<Employee>,
    roster: Seq<u64>,
    rate: int,
    year: int,
    remaining: int,
    k: nat,
)
    requires
        k <= 1000,
    ensures
        k <= projected_years(records, roster, rate, year, remaining, k) <= 1000,
    decreases 1001 - k,
{
    if k < 1000 && roster_fits_at(records, roster, rate, year + k) {
        let cost = roster_annual_cost(records, roster, rate, year + k);
        if remaining >= cost {
            lemma_projected_years_bounded(records, roster, rate, year, remaining - cost, (k
                + 1) as nat);
        }
    }
}

/// With well-formed, findable records and a nonnegative rate, every cost
/// term and the roster's total are nonnegative.
pub proof fn lemma_roster_cost_nonnegative(
    records: Seq<Employee>,
    roster: Seq<u64>,
    rate: int,
    year: int,
)
    requires
        rate >= 0,
        forall|j: int| 0 <= j < records.len() ==> (#[trigger] records[j]).wf(),
        forall|i: int| 0 <= i < roster.len() ==> has_record(records, #[trigger] roster[i]),
    ensures
        roster_annual_cost(records, roster, rate, year) >= 0,
    decreases roster.len(),
{
    if roster.len() > 0 {
        let rest = roster.drop_last();
        assert(forall|i: int| 0 <= i < rest.len() ==> #[trigger] rest[i] == roster[i]);
        lemma_roster_cost_nonnegative(records, rest, rate, year);
        let e = record_of(records, roster.last());
        assert(e.wf());
        lemma_compounded_nonnegative(e.base_salary as int, rate,
            (year - e.start_year as int) as nat);
    }
}

/// Extending a roster prefix by one member adds that member's cost term.
pub proof fn lemma_roster_cost_split(
    records: Seq<Employee>,
    roster: Seq<u64>,
    rate: int,
    year: int,
    i: int,
)
    requires
        0 <= i < roster.len(),
    ensures
        roster_annual_cost(records, roster.subrange(0, i + 1), rate, year) == roster_annual_cost(
            records, roster.subrange(0, i), rate, year) + annual_cost_term(records, roster[i],
            rate, year),
{
    let s = roster.subrange(0, i + 1);
    assert(s.drop_last() =~= roster.subrange(0, i));
    assert(s.last() == roster[i]);
}

/// The whole roster costs at least any of its prefixes.
pub proof fn lemma_roster_cost_prefix_bound(
    records: Seq<Employee>,
    roster: Seq<u64>,
    rate: int,
    year: int,
    i: int,
)
    requires
        0 <= i <= roster.len(),
        rate >= 0,
        forall|j: int| 0 <= j < records.len() ==> (#[trigger] records[j]).wf(),
        forall|k: int| 0 <= k < roster.len() ==> has_record(records, #[trigger] roster[k]),
    ensures
        roster_annual_cost(records, roster, rate, year) >= roster_annual_cost(records,
            roster.subrange(0, i), rate, year),
    decreases roster.len() - i,
{
    if i == roster.len() {
        assert(roster.subrange(0, i) =~= roster);
    } else {
        lemma_roster_cost_split(records, roster, rate, year, i);
        let e = record_of(records, roster[i]);
        assert(e.wf());
        lemma_compounded_nonnegative(e.base_salary as int, rate,
            (year - e.start_year as int) as nat);
        lemma_roster_cost_prefix_bound(records, roster, rate, year, i + 1);
    }
}

/// Prices the whole roster for the simulated year `base_year + offset`, or
/// reports that the figures leave the 128-bit currency range.
pub(crate) fn roster_cost_for_year(
    records: &Vec<Employee>,
    roster: &Vec<u64>,
    rate: u32,
    base_year: u64,
    offset: u32,
) -> (r: Option<i128>)
    requires
        forall|p: int, q: int|
            0 <= p < q < records@.len() ==> (#[trigger] records@[p]).address != (
            #[trigger] records@[q]).address,
        forall|j: int| 0 <= j < records@.len() ==> (#[trigger] records@[j]).wf(),
        forall|k: int| 0 <= k < roster@.len() ==> has_record(records@, #[trigger] roster@[k]),
        roster_started_by(records@, roster@, base_year as int),
    ensures
        r matches Some(c) ==> {
            &&& roster_fits_at(records@, roster@, rate as int, base_year + offset)
            &&& c == roster_annual_cost(records@, roster@, rate as int, base_year + offset)
            &&& c >= 0
        },
        r is None ==> !roster_fits_at(records@, roster@, rate as int, base_year + offset)
            || roster_annual_cost(records@, roster@, rate as int, base_year + offset) > i128::MAX,
{
    let ghost year: int = base_year + offset;
    let mut total: i128 = 0;
    let mut i: usize = 0;
    while i < roster.len()
        invariant
            forall|p: int, q: int|
                0 <= p < q < records@.len() ==> (#[trigger] records@[p]).address != (
                #[trigger] records@[q]).address,
            forall|j: int| 0 <= j < records@.len() ==> (#[trigger] records@[j]).wf(),
            forall|k: int| 0 <= k < roster@.len() ==> has_record(records@, #[trigger] roster@[k]),
            roster_started_by(records@, roster@, base_year as int),
            year == base_year + offset,
            i <= roster@.len(),
            total >= 0,
            total == roster_annual_cost(records@, roster@.subrange(0, i as int), rate as int,
                year),
            forall|j: int|
                0 <= j < i ==> compounding_fits(
                    record_of(records@, #[trigger] roster@[j]).base_salary as int,
                    rate as int,
                    (year - record_of(records@, roster@[j]).start_year) as nat,
                ),
        decreases roster@.len() - i,
    {
        let address = roster[i];
        let idx = match find_record(records, address) {
            Some(x) => x,
            None => {
                proof {
                    assert(false);
                }
                return None;
            },
        };
        proof {
            lemma_unique_record_index(records@, address, idx as int);
        }
        let years_of_service: u128 = ((base_year - records[idx].start_year) as u128) + (
        offset as u128);
        proof {
            assert((year - records@[idx as int].start_year) as nat == years_of_service as nat);
        }
        let salary = match compound_annual_salary(records[idx].base_salary, rate,
            years_of_service) {
            None => {
                proof {
                    assert(!compounding_fits(
                        record_of(records@, roster@[i as int]).base_salary as int,
                        rate as int,
                        (year - record_of(records@, roster@[i as int]).start_year) as nat,
                    ));
                }
                return None;
            },
            Some(s) => s,
        };
        match total.checked_add(salary) {
            None => {
                proof {
                    lemma_roster_cost_split(records@, roster@, rate as int, year, i as int);
                    lemma_roster_cost_prefix_bound(records@, roster@, rate as int, year, i + 1);
                }
                return None;
            },
            Some(t) => {
                proof {
                    lemma_roster_cost_split(records@, roster@, rate as int, year, i as int);
                }
                total = t;
            },
        }
        i = i + 1;
    }
    proof {
        assert(roster@.subrange(0, roster@.len() as int) =~= roster@);
    }
    Some(total)
}

} // verus!
