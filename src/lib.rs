//! Verified core of a bridge between a managed runtime's suspendable calls and
//! an asynchronous task scheduler: the failure policy for calls into the
//! managed runtime, the table of cancellation handles with the status of each
//! call, and the decisions of the resumption worker.

pub mod bridge;
pub mod failure;
pub mod worker;
