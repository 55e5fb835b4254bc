//! A verified model of the LiteOS-M kernel core: the static memory box
//! allocator, the time-ordered sort links, the tick timer bookkeeping, the
//! priority scheduler and the task manager.
//!
//! Kernel objects that are linked by pointers on the target are held here
//! as plain values: list links become ordered sequences of member ids, and
//! addresses on the 32-bit target are `u32` values.
#![allow(non_camel_case_types)]
#![allow(non_snake_case)]
#![allow(non_upper_case_globals)]
use vstd::prelude::*;

pub mod defs;
pub mod list;
pub mod membox;
pub mod sortlink;
pub mod tick;
pub mod sched;
pub mod task;

verus! {

} // verus!
