//! A crowdfunding ledger.
//!
//! An owner registers a project with a funding goal and a deadline;
//! contributors pledge funds before the deadline; every accepted pledge moves
//! the funds, adds to the project's running total and leaves a receipt, all
//! at once or not at all. Projects and receipts live at addresses derived
//! from what they are for, and an address is written once.
//!
//! - [`address`]: addresses, the seeds of projects and receipts, derivation.
//! - [`errors`]: why an operation is refused.
//! - [`instructions`]: the records and the two operations, `init_project`
//!   and `donate`, each with the step it takes on the ledger's value.
//! - [`ledger`]: the ledger itself, its mathematical value and what makes it
//!   consistent.
//! - [`laws`]: what holds of the ledger whatever is asked of it.

pub mod address;
pub mod errors;
pub mod instructions;
pub mod laws;
pub mod ledger;
