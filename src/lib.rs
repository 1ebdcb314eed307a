//! The state engine of a terminal process monitor: the process catalog with
//! its filter and sort strategies, the selection cursor, the modal screen
//! machine, the refresh scheduler and the two-step kill workflow.
//!
//! Reading the operating system and drawing the terminal are left to the
//! caller, which hands this crate plain values and performs the actions it
//! returns.
pub mod catalog;
pub mod columns;
pub mod cpu;
pub mod cursor;
pub mod gpu;
pub mod hdd;
pub mod info;
pub mod lines;
pub mod process;
pub mod ram;
pub mod scheduler;
pub mod sort;
pub mod state;
pub mod text;
pub mod units;

use vstd::prelude::*;

verus! {

} // verus!
