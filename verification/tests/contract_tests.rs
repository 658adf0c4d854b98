//! The end-to-end contract scenarios: initialization, funding, hiring,
//! payment, self-service claims, and the sustainability forecast, driven
//! through the public state machine with the fixed-length calendar.

use salary_system::Error;
use salary_system::SalarySystemContract;

const ADMIN: u64 = 1;
const EMPLOYEE: u64 = 2;
const EMPLOYEE_2: u64 = 3;
const TOKEN: u64 = 99;

const SECONDS_PER_MONTH: u64 = 30 * 24 * 60 * 60;

fn now(timestamp: u64) -> (u64, u32) {
    (
        SalarySystemContract::get_year(timestamp),
        SalarySystemContract::get_month(timestamp),
    )
}

#[test]
fn test_initialize() {
    let mut sys = SalarySystemContract::new();
    assert_eq!(sys.initialize(ADMIN, 5, TOKEN), Ok(()));

    assert_eq!(sys.get_annual_increment(), Ok(5));
    assert_eq!(sys.get_treasury_balance(), 0);
}

#[test]
fn test_fund_treasury() {
    let mut sys = SalarySystemContract::new();
    sys.initialize(ADMIN, 5, TOKEN).unwrap();
    assert_eq!(sys.fund_treasury(5_000_000), Ok(()));

    assert_eq!(sys.get_treasury_balance(), 5_000_000);
}

#[test]
fn test_add_employee() {
    let mut sys = SalarySystemContract::new();
    sys.initialize(ADMIN, 5, TOKEN).unwrap();

    let (year, month) = now(0);
    let employee_name = String::from("Alice");
    assert_eq!(
        sys.add_employee(ADMIN, EMPLOYEE, employee_name.clone(), 1_200_000, year, month),
        Ok(())
    );

    let employee_data = sys.get_employee(EMPLOYEE).unwrap();
    assert_eq!(employee_data.name, employee_name);
    assert_eq!(employee_data.base_salary, 1_200_000);

    let all_employees = sys.get_all_employees();
    assert_eq!(all_employees.len(), 1);
}

#[test]
fn test_monthly_salary_calculation() {
    let mut sys = SalarySystemContract::new();
    sys.initialize(ADMIN, 10, TOKEN).unwrap();

    let (year, month) = now(0);
    sys.add_employee(ADMIN, EMPLOYEE, String::from("Bob"), 1_200_000, year, month)
        .unwrap();

    let monthly_salary = sys.calculate_current_salary(EMPLOYEE, year).unwrap();
    assert_eq!(monthly_salary, 100_000);
}

#[test]
fn test_pay_monthly_salary() {
    let mut sys = SalarySystemContract::new();
    sys.initialize(ADMIN, 5, TOKEN).unwrap();
    sys.fund_treasury(5_000_000).unwrap();

    let (year, month) = now(0);
    sys.add_employee(ADMIN, EMPLOYEE, String::from("Charlie"), 1_200_000, year, month)
        .unwrap();

    let mut employee_balance: i128 = 0;
    let amount = sys.pay_salary(ADMIN, EMPLOYEE, year, month).unwrap();
    employee_balance += amount;

    assert_eq!(employee_balance, 100_000);
    assert_eq!(sys.get_treasury_balance(), 4_900_000);
}

#[test]
fn test_pay_multiple_months() {
    let mut sys = SalarySystemContract::new();
    sys.initialize(ADMIN, 5, TOKEN).unwrap();
    sys.fund_treasury(5_000_000).unwrap();

    let mut timestamp: u64 = 0;
    let (year, month) = now(timestamp);
    sys.add_employee(ADMIN, EMPLOYEE, String::from("Dave"), 1_200_000, year, month)
        .unwrap();

    let mut employee_balance: i128 = 0;
    employee_balance += sys.pay_salary(ADMIN, EMPLOYEE, year, month).unwrap();
    assert_eq!(employee_balance, 100_000);

    timestamp += SECONDS_PER_MONTH;
    let (year, month) = now(timestamp);
    employee_balance += sys.pay_salary(ADMIN, EMPLOYEE, year, month).unwrap();
    assert_eq!(employee_balance, 200_000);

    timestamp += SECONDS_PER_MONTH;
    let (year, month) = now(timestamp);
    employee_balance += sys.pay_salary(ADMIN, EMPLOYEE, year, month).unwrap();
    assert_eq!(employee_balance, 300_000);
}

#[test]
fn test_sustainability_years_calculation() {
    let mut sys = SalarySystemContract::new();
    sys.initialize(ADMIN, 10, TOKEN).unwrap();
    sys.fund_treasury(10_000_000).unwrap();

    let (year, month) = now(0);
    sys.add_employee(ADMIN, EMPLOYEE, String::from("Alice"), 1_200_000, year, month)
        .unwrap();
    sys.add_employee(ADMIN, EMPLOYEE_2, String::from("Bob"), 1_800_000, year, month)
        .unwrap();

    let years = sys.calculate_sustainability_years(year).unwrap();
    assert!(years >= 2);
    assert!(years <= 5);
}

#[test]
fn test_insufficient_treasury() {
    let mut sys = SalarySystemContract::new();
    sys.initialize(ADMIN, 5, TOKEN).unwrap();
    sys.fund_treasury(50_000).unwrap();

    let (year, month) = now(0);
    sys.add_employee(ADMIN, EMPLOYEE, String::from("Alice"), 1_200_000, year, month)
        .unwrap();

    let before = sys.get_employee(EMPLOYEE).unwrap();
    assert_eq!(
        sys.pay_salary(ADMIN, EMPLOYEE, year, month),
        Err(Error::InsufficientFunds)
    );

    // A rejected payment leaves treasury and employee state unchanged.
    assert_eq!(sys.get_treasury_balance(), 50_000);
    let after = sys.get_employee(EMPLOYEE).unwrap();
    assert_eq!(after.last_payment_year, before.last_payment_year);
    assert_eq!(after.last_payment_month, before.last_payment_month);
    assert_eq!(after.is_active, before.is_active);
}

#[test]
fn test_double_payment_same_month() {
    let mut sys = SalarySystemContract::new();
    sys.initialize(ADMIN, 5, TOKEN).unwrap();
    sys.fund_treasury(5_000_000).unwrap();

    let (year, month) = now(0);
    sys.add_employee(ADMIN, EMPLOYEE, String::from("Alice"), 1_200_000, year, month)
        .unwrap();

    assert!(sys.pay_salary(ADMIN, EMPLOYEE, year, month).is_ok());
    assert_eq!(
        sys.pay_salary(ADMIN, EMPLOYEE, year, month),
        Err(Error::AlreadyPaid)
    );
}

#[test]
fn test_employee_claim_salary() {
    let mut sys = SalarySystemContract::new();
    sys.initialize(ADMIN, 5, TOKEN).unwrap();

    sys.fund_treasury(5_000_000).unwrap();
    assert_eq!(sys.get_treasury_balance(), 5_000_000);

    let (year, month) = now(0);
    sys.add_employee(ADMIN, EMPLOYEE, String::from("Alice"), 1_200_000, year, month)
        .unwrap();

    let mut employee_balance: i128 = 0;
    employee_balance += sys.claim_salary(EMPLOYEE, EMPLOYEE, year, month).unwrap();

    assert_eq!(employee_balance, 100_000); // 1,200,000 / 12 = 100,000 monthly
    assert_eq!(sys.get_treasury_balance(), 4_900_000); // 5,000,000 - 100,000

    let employee_info = sys.get_employee(EMPLOYEE).unwrap();
    assert_eq!(employee_info.last_payment_month, 1);
}

#[test]
fn test_employee_cannot_claim_twice_same_month() {
    let mut sys = SalarySystemContract::new();
    sys.initialize(ADMIN, 5, TOKEN).unwrap();
    sys.fund_treasury(5_000_000).unwrap();

    let (year, month) = now(0);
    sys.add_employee(ADMIN, EMPLOYEE, String::from("Alice"), 1_200_000, year, month)
        .unwrap();

    assert!(sys.claim_salary(EMPLOYEE, EMPLOYEE, year, month).is_ok());
    assert_eq!(
        sys.claim_salary(EMPLOYEE, EMPLOYEE, year, month),
        Err(Error::AlreadyPaid)
    );
}
