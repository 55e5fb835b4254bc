//! Configuration constants, error numbers and small bit helpers shared by
//! the kernel modules.
use vstd::prelude::*;

verus! {

/// Success return value.
pub const LOS_OK: u32 = 0;
/// Generic failure return value (`(UINT32)-1`).
pub const LOS_NOK: u32 = 0xFFFF_FFFF;
/// Invalid marker for 32-bit values.
pub const OS_INVALID: u32 = 0xFFFF_FFFF;
/// Null marker for 32-bit values.
pub const OS_NULL_INT: u32 = 0xFFFF_FFFF;

/// Highest task id the kernel is configured for (`LOSCFG_BASE_CORE_TSK_LIMIT`).
pub const LOSCFG_BASE_CORE_TSK_LIMIT: u32 = 15;

/// Ticks per second of the system tick (`LOSCFG_BASE_CORE_TICK_PER_SECOND`).
pub const LOSCFG_BASE_CORE_TICK_PER_SECOND: u32 = 100;
/// Whether software timers are configured (`LOSCFG_BASE_CORE_SWTMR`).
pub const LOSCFG_BASE_CORE_SWTMR: bool = true;

/// Task status: the control block is free.
pub const OS_TASK_STATUS_UNUSED: u16 = 0x0001;
/// Task status: suspended.
pub const OS_TASK_STATUS_SUSPEND: u16 = 0x0002;
/// Task status: ready to run.
pub const OS_TASK_STATUS_READY: u16 = 0x0004;
/// Task status: pending on a list.
pub const OS_TASK_STATUS_PEND: u16 = 0x0008;
/// Task status: running.
pub const OS_TASK_STATUS_RUNNING: u16 = 0x0010;
/// Task status: delayed.
pub const OS_TASK_STATUS_DELAY: u16 = 0x0020;
/// Task status: a pend timed out.
pub const OS_TASK_STATUS_TIMEOUT: u16 = 0x0040;
/// Task status: pending with a time limit.
pub const OS_TASK_STATUS_PEND_TIME: u16 = 0x0080;
/// Task status: exited.
pub const OS_TASK_STATUS_EXIT: u16 = 0x0100;
/// Task flag: other tasks may join it.
pub const OS_TASK_FLAG_JOINABLE: u16 = 0x0200;
/// Task flag: its stack was allocated by the kernel and is freed with it.
pub const OS_TASK_FLAG_STACK_FREE: u16 = 0x0800;
/// Task flag: a system task.
pub const OS_TASK_FLAG_SYSTEM_TASK: u16 = 0x1000;
/// Task flag: a signal is being processed.
pub const OS_TASK_FLAG_SIGNAL: u16 = 0x2000;
/// Task flag: its delay is frozen while the system is in low power.
pub const OS_TASK_FLAG_FREEZE: u16 = 0x4000;
/// Lowest task priority.
pub const OS_TASK_PRIORITY_LOWEST: u32 = 31;
/// Wait without a time limit.
pub const LOS_WAIT_FOREVER: u32 = 0xFFFF_FFFF;

/// Module id of the system module in error numbers.
pub const LOS_MOD_SYS: u32 = 0;
/// Module id of the task module in error numbers.
pub const LOS_MOD_TSK: u32 = 2;
/// Module id of the tick module in error numbers.
pub const LOS_MOD_TICK: u32 = 4;

/// The fields of an error number do not overlap: or-ing them adds them.
proof fn lemma_errno_layout(module_id: u32, errno: u32)
    ensures
        module_id < 0x100 && errno < 0x100 ==> (0x0200_0000u32 | (module_id << 8u32) | errno) == 0x0200_0000
            + module_id * 0x100 + errno,
        module_id < 0x100 && errno < 0x100 ==> (0x0300_0000u32 | (module_id << 8u32) | errno) == 0x0300_0000
            + module_id * 0x100 + errno,
{
    assert(
        (module_id < 0x100 && errno < 0x100 ==> (0x0200_0000u32 | (module_id << 8u32) | errno) == 0x0200_0000 + module_id * 0x100 + errno)
        && (module_id < 0x100 && errno < 0x100 ==> (0x0300_0000u32 | (module_id << 8u32) | errno) == 0x0300_0000 + module_id * 0x100 + errno)
    ) by (bit_vector);
}

/// Builds an error number of level "error": `0x02000000 | module << 8 | errno`.
pub fn los_errno_os_error(module_id: u32, errno: u32) -> (r: u32)
    ensures
        r == 0x0200_0000u32 | (module_id << 8u32) | errno,
        module_id < 0x100 && errno < 0x100 ==> r == 0x0200_0000 + module_id * 0x100 + errno,
{
    proof {
        lemma_errno_layout(module_id, errno);
    }
    0x0200_0000u32 | (module_id << 8u32) | errno
}

/// Builds an error number of level "fatal": `0x03000000 | module << 8 | errno`.
pub fn los_errno_os_fatal(module_id: u32, errno: u32) -> (r: u32)
    ensures
        r == 0x0300_0000u32 | (module_id << 8u32) | errno,
        module_id < 0x100 && errno < 0x100 ==> r == 0x0300_0000 + module_id * 0x100 + errno,
{
    proof {
        lemma_errno_layout(module_id, errno);
    }
    0x0300_0000u32 | (module_id << 8u32) | errno
}


/// A boundary that is a power of two, as every alignment in the kernel is.
pub open spec fn is_pow2(b: u32) -> bool {
    b > 0 && b & ((b - 1) as u32) == 0
}

/// For a power-of-two `b`, clearing the low bits gives the largest multiple
/// of `b` that is not above `x`.
pub proof fn lemma_mask_rounds_down(x: u32, b: u32)
    requires
        is_pow2(b),
    ensures
        x & !((b - 1) as u32) <= x,
        x - (x & !((b - 1) as u32)) < b,
        (x & !((b - 1) as u32)) & ((b - 1) as u32) == 0,
{
    assert(
        (b > 0 && b & ((b - 1) as u32) == 0 ==> x & !((b - 1) as u32) <= x)
        && (b > 0 && b & ((b - 1) as u32) == 0 ==> x - (x & !((b - 1) as u32)) < b)
        && ((x & !((b - 1) as u32)) & ((b - 1) as u32) == 0)
    ) by (bit_vector);
}

/// Rounds `value` up to a multiple of `boundary` (`ALIGN`); a zero boundary
/// leaves the value unchanged.  For a power-of-two boundary the result is
/// the least multiple of the boundary that is not below `value`.
pub fn align(value: u32, boundary: u32) -> (r: u32)
    requires
        boundary == 0 || value + boundary - 1 <= u32::MAX,
    ensures
        boundary == 0 ==> r == value,
        boundary != 0 ==> r == (((value + boundary - 1) as u32) & !((boundary - 1) as u32)),
        is_pow2(boundary) ==> value <= r < value + boundary,
        is_pow2(boundary) ==> r & ((boundary - 1) as u32) == 0,
{
    if boundary == 0 {
        value
    } else {
        let sum = value + (boundary - 1);
        let r = sum & !(boundary - 1);
        proof {
            if is_pow2(boundary) {
                lemma_mask_rounds_down(sum, boundary);
            }
        }
        r
    }
}

/// Rounds `value` down to a multiple of `boundary` (`TRUNCATE`); a zero
/// boundary leaves the value unchanged.  For a power-of-two boundary the
/// result is the greatest multiple of the boundary that is not above `value`.
pub fn truncate(value: u32, boundary: u32) -> (r: u32)
    ensures
        boundary == 0 ==> r == value,
        boundary != 0 ==> r == (value & !((boundary - 1) as u32)),
        is_pow2(boundary) ==> r <= value && value - r < boundary,
        is_pow2(boundary) ==> r & ((boundary - 1) as u32) == 0,
{
    if boundary == 0 {
        value
    } else {
        proof {
            if is_pow2(boundary) {
                lemma_mask_rounds_down(value, boundary);
            }
        }
        value & !(boundary - 1)
    }
}

/// Whether any bit of `flag` is set in the 16-bit `status` word.
pub fn has_flag(status: u16, flag: u32) -> (r: bool)
    ensures
        r == ((status as u32) & flag != 0),
{
    ((status as u32) & flag) != 0
}

} // verus!
