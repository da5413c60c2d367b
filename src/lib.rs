//! A task-assignment workflow with an escrow ledger: managers post funded
//! tasks on projects, developers apply and get assigned, and the compensation
//! is held until the manager approves the finished work.

mod host;
pub mod model;
pub mod ledger;
pub mod contract;
pub mod laws;

pub use model::{DevAsignError, Id, Identity, Payout, Project, Task, TaskStatus};
pub use ledger::EscrowLedger;
pub use contract::DevAsignContract;
