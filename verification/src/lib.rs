//! Progress aggregation and transaction orchestration for a system updater
//! that drives a pacman-style package manager.
//!
//! - [`progress`] turns download and install events into one percentage, in
//!   exact arithmetic ([`bignat`]) over records kept by name ([`table`]);
//!   [`order`] shows that the order of the records does not matter, and
//!   [`monotone`] that progress of a file or a package never lowers the
//!   percentage.
//! - [`machine`] is the state machine of one check or upgrade, and
//!   [`pacman`] the orchestrator that runs it, keeps the shared lock flag
//!   ([`lock`]) in step with it and reports progress ([`render`]).
//! - [`guard`] decides what a termination handler does with a lock that
//!   was left behind, [`session`] what a run does and how it exits, and
//!   [`error`] names what can fail.

pub mod bignat;
pub mod error;
pub mod guard;
pub mod lock;
pub mod machine;
pub mod monotone;
pub mod order;
pub mod pacman;
pub mod progress;
pub mod render;
pub mod session;
pub mod table;
