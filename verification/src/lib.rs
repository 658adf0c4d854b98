//! A verified payroll ledger: a roster of employees, an organization
//! treasury, and monthly salary payments priced by a compounding annual
//! raise. The state machine is pure: callers supply the authenticated
//! caller identity and the current calendar pair, and receive either the
//! updated state (through `&mut self`) or a typed error with the state
//! untouched.

pub mod accrual;
pub mod calendar;
pub mod employee;
pub mod error;
pub mod laws;
pub mod projection;
pub mod system;

pub use employee::Employee;
pub use error::Error;
pub use system::SalarySystemContract;
