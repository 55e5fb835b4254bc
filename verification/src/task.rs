//! The task manager: creating, deleting, suspending, resuming, delaying,
//! joining and detaching tasks, their priorities, and the recycling of
//! control blocks and stacks.
//!
//! Work that touches memory or the hardware (allocating and freeing a
//! stack, filling it, reading a task's name or stack, switching context) is
//! done by the caller: it hands the results in and receives the requests
//! back.
use vstd::prelude::*;
use crate::defs::{
    LOS_OK, LOS_NOK, OS_INVALID, OS_NULL_INT, LOS_MOD_TSK, OS_TASK_STATUS_UNUSED, OS_TASK_STATUS_SUSPEND,
    OS_TASK_STATUS_READY, OS_TASK_STATUS_PEND, OS_TASK_STATUS_RUNNING, OS_TASK_STATUS_DELAY,
    OS_TASK_STATUS_PEND_TIME, OS_TASK_STATUS_EXIT, OS_TASK_FLAG_JOINABLE, OS_TASK_FLAG_STACK_FREE,
    OS_TASK_FLAG_SYSTEM_TASK, OS_TASK_FLAG_SIGNAL, OS_TASK_FLAG_FREEZE, OS_TASK_PRIORITY_LOWEST, LOS_WAIT_FOREVER,
    LOSCFG_BASE_CORE_TSK_LIMIT, LOSCFG_BASE_CORE_TICK_PER_SECOND, align, truncate, has_flag, is_pow2,
};
use crate::list::{LOS_DL_LIST, empty_list_node, lemma_remove_first};
use crate::sched::{
    LosKernel, LosTaskCB, LosTask, ListRef, EVENT_CB_S, unused_or_exit, bit_set, ready_status, wake_status,
    exit_status, OS_SCHED_MAX_RESPONSE_TIME, SchedHook,
};
use crate::sortlink::SortLinks;
use crate::tick::{TickState, LOS_MS2Tick};
use crate::sortlink::{SortLinkList, OS_SORT_LINK_INVALID_TIME};

verus! {

/// `LOS_ERRNO_TSK_NO_MEMORY`: not enough memory for the task.
pub const LOS_ERRNO_TSK_NO_MEMORY: u32 = 0x0300_0200;
/// `LOS_ERRNO_TSK_PTR_NULL`: a null pointer was given.
pub const LOS_ERRNO_TSK_PTR_NULL: u32 = 0x0200_0201;
/// `LOS_ERRNO_TSK_PRIOR_ERROR`: the priority is invalid.
pub const LOS_ERRNO_TSK_PRIOR_ERROR: u32 = 0x0200_0203;
/// `LOS_ERRNO_TSK_ENTRY_NULL`: the task entry is missing.
pub const LOS_ERRNO_TSK_ENTRY_NULL: u32 = 0x0200_0204;
/// `LOS_ERRNO_TSK_NAME_EMPTY`: the task name is missing.
pub const LOS_ERRNO_TSK_NAME_EMPTY: u32 = 0x0200_0205;
/// `LOS_ERRNO_TSK_STKSZ_TOO_SMALL`: the stack is too small.
pub const LOS_ERRNO_TSK_STKSZ_TOO_SMALL: u32 = 0x0200_0206;
/// `LOS_ERRNO_TSK_ID_INVALID`: the task id is invalid.
pub const LOS_ERRNO_TSK_ID_INVALID: u32 = 0x0200_0207;
/// `LOS_ERRNO_TSK_ALREADY_SUSPENDED`: the task is already suspended.
pub const LOS_ERRNO_TSK_ALREADY_SUSPENDED: u32 = 0x0200_0208;
/// `LOS_ERRNO_TSK_NOT_SUSPENDED`: the task is not suspended.
pub const LOS_ERRNO_TSK_NOT_SUSPENDED: u32 = 0x0200_0209;
/// `LOS_ERRNO_TSK_NOT_CREATED`: the task is not created.
pub const LOS_ERRNO_TSK_NOT_CREATED: u32 = 0x0200_020a;
/// `LOS_ERRNO_TSK_DELAY_IN_INT`: a delay was asked for in an interrupt.
pub const LOS_ERRNO_TSK_DELAY_IN_INT: u32 = 0x0300_020d;
/// `LOS_ERRNO_TSK_DELAY_IN_LOCK`: a delay was asked for with the task lock held.
pub const LOS_ERRNO_TSK_DELAY_IN_LOCK: u32 = 0x0200_020e;
/// `LOS_ERRNO_TSK_TCB_UNAVAILABLE`: no free task control block.
pub const LOS_ERRNO_TSK_TCB_UNAVAILABLE: u32 = 0x0200_0211;
/// `LOS_ERRNO_TSK_OPERATE_SYSTEM_TASK`: a system task cannot be operated on.
pub const LOS_ERRNO_TSK_OPERATE_SYSTEM_TASK: u32 = 0x0200_0214;
/// `LOS_ERRNO_TSK_OPERATE_IDLE`: the idle task cannot be operated on.
pub const LOS_ERRNO_TSK_OPERATE_IDLE: u32 = 0x0200_0214;
/// `LOS_ERRNO_TSK_SUSPEND_LOCKED`: a running task cannot be suspended with the lock held.
pub const LOS_ERRNO_TSK_SUSPEND_LOCKED: u32 = 0x0300_0215;
/// `LOS_ERRNO_TSK_STKSZ_TOO_LARGE`: the stack is too large.
pub const LOS_ERRNO_TSK_STKSZ_TOO_LARGE: u32 = 0x0200_0220;
/// `LOS_ERRNO_TSK_SUSPEND_SWTMR_NOT_ALLOWED`: the timer task cannot be operated on.
pub const LOS_ERRNO_TSK_SUSPEND_SWTMR_NOT_ALLOWED: u32 = 0x0200_0221;
/// `LOS_ERRNO_TSK_OPERATE_SWTMR`: the timer task's priority cannot be set.
pub const LOS_ERRNO_TSK_OPERATE_SWTMR: u32 = 0x0200_0222;
/// `LOS_ERRNO_TSK_NOT_JOIN`: the task is not joinable.
pub const LOS_ERRNO_TSK_NOT_JOIN: u32 = 0x0200_0224;
/// `LOS_ERRNO_TSK_NOT_JOIN_SELF`: a task cannot join itself.
pub const LOS_ERRNO_TSK_NOT_JOIN_SELF: u32 = 0x0200_0225;
/// `LOS_ERRNO_TSK_NOT_ALLOW_IN_INT`: not allowed in an interrupt.
pub const LOS_ERRNO_TSK_NOT_ALLOW_IN_INT: u32 = 0x0200_0226;
/// `LOS_ERRNO_TSK_ALREADY_EXIT`: the task has already exited.
pub const LOS_ERRNO_TSK_ALREADY_EXIT: u32 = 0x0200_0227;
/// `LOS_ERRNO_TSK_SCHED_LOCKED`: not allowed with the task lock held.
pub const LOS_ERRNO_TSK_SCHED_LOCKED: u32 = 0x0200_0228;
/// `LOS_ERRNO_TSK_PROCESS_SIGNAL`: the task is handling a signal.
pub const LOS_ERRNO_TSK_PROCESS_SIGNAL: u32 = 0x0200_0229;

/// Offset of the first stack word above the magic word.
pub const OS_TASK_STACK_TOP_OFFSET: u32 = 4;
/// Smallest task stack (`LOSCFG_BASE_CORE_TSK_MIN_STACK_SIZE`).
pub const LOSCFG_BASE_CORE_TSK_MIN_STACK_SIZE: u32 = 0x80;
/// Stack size of a task that asks for none (`LOSCFG_BASE_CORE_TSK_DEFAULT_STACK_SIZE`).
pub const LOSCFG_BASE_CORE_TSK_DEFAULT_STACK_SIZE: u32 = 0x400;
/// Stack size of the idle task (`LOSCFG_BASE_CORE_TSK_IDLE_STACK_SIZE`).
pub const LOSCFG_BASE_CORE_TSK_IDLE_STACK_SIZE: u32 = 0x180;
/// Size of the system heap, the largest task stack (`LOSCFG_SYS_HEAP_SIZE`).
pub const LOSCFG_SYS_HEAP_SIZE: u32 = 0x10000;
/// Alignment of a task stack's size and address (`OS_TASK_STACK_ADDR_ALIGN`).
pub const OS_TASK_STACK_ADDR_ALIGN: u32 = 8;
/// Alignment of a stack pointer (`LOSCFG_STACK_POINT_ALIGN_SIZE`).
pub const LOSCFG_STACK_POINT_ALIGN_SIZE: u32 = 8;
/// Word written at the top of a task stack to detect overflow.
pub const OS_TASK_MAGIC_WORD: u32 = 0xCCCC_CCCC;
/// Word an unused task stack is filled with.
pub const OS_TASK_STACK_INIT: u32 = 0xCACA_CACA;
/// Attribute bit of a task that other tasks may join (`LOS_TASK_ATTR_JOINABLE`).
pub const LOS_TASK_ATTR_JOINABLE: u32 = 0x8000_0000;
/// Length of a task name buffer (`LOS_TASK_NAMELEN`).
pub const LOS_TASK_NAMELEN: u32 = 32;
/// Number of semaphores, the id reported when a task waits on none.
pub const LOSCFG_BASE_IPC_SEM_LIMIT: u32 = 6;
/// Number of mutexes, the id reported when a task waits on none.
pub const LOSCFG_BASE_IPC_MUX_LIMIT: u32 = 6;
/// Return value of the bounded memory functions on success.
pub const EOK: i32 = 0;

/// Parameters of a task to create (`TSK_INIT_PARAM_S`); the entry and the
/// name are addresses, `None` or 0 when missing.
#[derive(Clone, Copy)]
pub struct TSK_INIT_PARAM_S {
    pub pfnTaskEntry: Option<u32>,
    pub usTaskPrio: u16,
    pub uwArg: u32,
    pub stackAddr: u32,
    pub uwStackSize: u32,
    pub pcName: u32,
    pub uwResved: u32,
}

/// Information about a task (`TSK_INFO_S`).
pub struct TSK_INFO_S {
    pub acName: Vec<u8>,
    pub uwTaskID: u32,
    pub usTaskStatus: u16,
    pub usTaskPrio: u16,
    pub pTaskSem: u32,
    pub pTaskMux: u32,
    pub uwSemID: u32,
    pub uwMuxID: u32,
    /// The events of the task's event control block.
    pub uwEventID: u32,
    pub uwEventMask: u32,
    pub uwStackSize: u32,
    pub uwTopOfStack: u32,
    pub uwBottomOfStack: u32,
    pub uwSP: u32,
    pub uwCurrUsed: u32,
    pub uwPeakUsed: u32,
    pub bOvf: bool,
}

/// Fills the first `count` bytes of `dest` (whose capacity is `dest_size`)
/// with `value` (`memset_s`); -1 and no change when `count` exceeds the
/// capacity.
pub fn memset_s(dest: &mut Vec<u8>, dest_size: usize, value: i32, count: usize) -> (r: i32)
    requires
        dest_size <= old(dest)@.len(),
    ensures
        count > dest_size ==> r == -1 && final(dest)@ == old(dest)@,
        count <= dest_size ==> r == EOK && final(dest)@.len() == old(dest)@.len() && (forall|i: int|
            0 <= i < count ==> #[trigger] final(dest)@[i] == value as u8) && (forall|i: int|
            count <= i < old(dest)@.len() ==> #[trigger] final(dest)@[i] == old(dest)@[i]),
{
    if count > dest_size {
        return -1;
    }
    let mut i: usize = 0;
    while i < count
        invariant
            count <= dest_size <= dest@.len(),
            dest@.len() == old(dest)@.len(),
            i <= count,
            forall|j: int| 0 <= j < i ==> #[trigger] dest@[j] == value as u8,
            forall|j: int| i <= j < dest@.len() ==> #[trigger] dest@[j] == old(dest)@[j],
        decreases count - i,
    {
        dest.set(i, value as u8);
        i = i + 1;
    }
    EOK
}

/// Copies the first `count` bytes of `src` into `dest` (whose capacity is
/// `dest_size`) (`memcpy_s`); -1 and no change when `count` exceeds the
/// capacity.
pub fn memcpy_s(dest: &mut Vec<u8>, dest_size: usize, src: &[u8], count: usize) -> (r: i32)
    requires
        dest_size <= old(dest)@.len(),
        count <= dest_size ==> count <= src@.len(),
    ensures
        count > dest_size ==> r == -1 && final(dest)@ == old(dest)@,
        count <= dest_size ==> r == EOK && final(dest)@ == src@.subrange(0, count as int) + old(
            dest,
        )@.subrange(count as int, old(dest)@.len() as int),
{
    if count > dest_size {
        return -1;
    }
    let mut i: usize = 0;
    while i < count
        invariant
            count <= dest_size <= dest@.len(),
            count <= src@.len(),
            dest@.len() == old(dest)@.len(),
            i <= count,
            forall|j: int| 0 <= j < i ==> #[trigger] dest@[j] == src@[j],
            forall|j: int| i <= j < dest@.len() ==> #[trigger] dest@[j] == old(dest)@[j],
        decreases count - i,
    {
        dest.set(i, src[i]);
        i = i + 1;
    }
    proof {
        assert(dest@ =~= src@.subrange(0, count as int) + old(dest)@.subrange(count as int, old(dest)@.len() as int));
    }
    EOK
}

/// Whether `new` is what `strncpy_s` leaves in `old` when `n` bytes of the
/// string `src` were copied: the first `n` bytes of `src`, none of them zero,
/// then a zero, the rest unchanged; `n` is the limit, or the string ends at
/// `n` (a zero byte there, or the end of `src`).
pub open spec fn strncpy_result(src: Seq<u8>, old: Seq<u8>, new: Seq<u8>, n: int, limit: int) -> bool {
    &&& 0 <= n <= limit
    &&& n <= src.len()
    &&& n < new.len()
    &&& new.len() == old.len()
    &&& forall|j: int| 0 <= j < n ==> #[trigger] new[j] == src[j]
    &&& forall|j: int| 0 <= j < n ==> #[trigger] src[j] != 0
    &&& new[n] == 0
    &&& (n == limit || n == src.len() || src[n] == 0)
    &&& forall|j: int| n < j < old.len() ==> #[trigger] new[j] == old[j]
}

/// How many bytes `strncpy_s` copies at most: `count`, but one less than
/// the capacity.
pub open spec fn strncpy_limit(dest_size: int, count: int) -> int {
    if count < dest_size - 1 { count } else { dest_size - 1 }
}

/// Copies the string `src` into `dest` (whose capacity is `dest_size`), at
/// most `count` bytes and always zero-terminated (`strncpy_s`); -1 when the
/// capacity is zero.  `src` holds the string's bytes; it ends at its first
/// zero byte or at its end.
pub fn strncpy_s(dest: &mut Vec<u8>, dest_size: usize, src: &[u8], count: usize) -> (r: i32)
    requires
        dest_size <= old(dest)@.len(),
    ensures
        dest_size == 0 ==> r == -1 && final(dest)@ == old(dest)@,
        dest_size > 0 ==> r == EOK && exists|n: int| #[trigger] strncpy_result(
            src@,
            old(dest)@,
            final(dest)@,
            n,
            strncpy_limit(dest_size as int, count as int),
        ),
{
    if dest_size == 0 {
        return -1;
    }
    let ghost limit: int = strncpy_limit(dest_size as int, count as int);
    let mut i: usize = 0;
    while i < count && i + 1 < dest_size && i < src.len()
        invariant
            0 < dest_size <= dest@.len(),
            dest@.len() == old(dest)@.len(),
            limit == strncpy_limit(dest_size as int, count as int),
            i <= limit,
            i <= src@.len(),
            forall|j: int| 0 <= j < i ==> #[trigger] dest@[j] == src@[j],
            forall|j: int| 0 <= j < i ==> #[trigger] src@[j] != 0,
            forall|j: int| i <= j < dest@.len() ==> #[trigger] dest@[j] == old(dest)@[j],
        decreases count - i,
    {
        let ch = src[i];
        dest.set(i, ch);
        if ch == 0 {
            proof {
                assert(strncpy_result(src@, old(dest)@, dest@, i as int, limit));
            }
            return EOK;
        }
        i = i + 1;
    }
    dest.set(i, 0);
    proof {
        assert(strncpy_result(src@, old(dest)@, dest@, i as int, limit));
    }
    EOK
}

/// The text `OsConvertTskStatus` gives for a status: the first of running,
/// ready, exit, suspend, delay, and pend (timed or not) that is set.
pub fn OsConvertTskStatus(task_status: u16) -> (r: &'static str)
    ensures
        task_status & OS_TASK_STATUS_RUNNING != 0 ==> r@ == "Running"@,
        task_status & OS_TASK_STATUS_RUNNING == 0 && task_status & OS_TASK_STATUS_READY != 0 ==> r@ == "Ready"@,
        task_status & 0x0014u16 == 0 && task_status & OS_TASK_STATUS_EXIT != 0 ==> r@ == "Exit"@,
        task_status & 0x0114u16 == 0 && task_status & OS_TASK_STATUS_SUSPEND != 0 ==> r@ == "Suspend"@,
        task_status & 0x0116u16 == 0 && task_status & OS_TASK_STATUS_DELAY != 0 ==> r@ == "Delay"@,
        task_status & 0x0136u16 == 0 && task_status & OS_TASK_STATUS_PEND != 0 && task_status
            & OS_TASK_STATUS_PEND_TIME != 0 ==> r@ == "PendTime"@,
        task_status & 0x0136u16 == 0 && task_status & OS_TASK_STATUS_PEND != 0 && task_status
            & OS_TASK_STATUS_PEND_TIME == 0 ==> r@ == "Pend"@,
        task_status & 0x013Eu16 == 0 ==> r@ == "Impossible"@,
{
    proof {
        let s = task_status;
        assert(
            ((s & 0x0014u16 == 0) == (s & 0x10u16 == 0 && s & 4u16 == 0))
            && ((s & 0x0114u16 == 0) == (s & 0x14u16 == 0 && s & 0x100u16 == 0))
            && ((s & 0x0116u16 == 0) == (s & 0x114u16 == 0 && s & 2u16 == 0))
            && ((s & 0x0136u16 == 0) == (s & 0x116u16 == 0 && s & 0x20u16 == 0))
            && ((s & 0x013Eu16 == 0) == (s & 0x136u16 == 0 && s & 8u16 == 0))
        ) by (bit_vector);
    }
    if has_flag(task_status, OS_TASK_STATUS_RUNNING as u32) {
        "Running"
    } else if has_flag(task_status, OS_TASK_STATUS_READY as u32) {
        "Ready"
    } else if has_flag(task_status, OS_TASK_STATUS_EXIT as u32) {
        "Exit"
    } else if has_flag(task_status, OS_TASK_STATUS_SUSPEND as u32) {
        "Suspend"
    } else if has_flag(task_status, OS_TASK_STATUS_DELAY as u32) {
        "Delay"
    } else if has_flag(task_status, OS_TASK_STATUS_PEND as u32) {
        if has_flag(task_status, OS_TASK_STATUS_PEND_TIME as u32) {
            "PendTime"
        } else {
            "Pend"
        }
    } else {
        "Impossible"
    }
}


/// Whether `t` is the control block of task `tid` as a free block: all
/// zero but its id, marked unused, its node on the free list, its timed
/// node its own and not linked.
pub open spec fn is_free_tcb(t: LosTaskCB, tid: u32) -> bool {
    &&& t.stackPointer == 0
    &&& t.taskStatus == OS_TASK_STATUS_UNUSED
    &&& t.priority == 0
    &&& t.timeSlice == 0
    &&& t.waitTimes == 0
    &&& t.sortList == (SortLinkList { sortLinkNode: tid, responseTime: 0 })
    &&& t.startTime == 0
    &&& t.stackSize == 0
    &&& t.topOfStack == 0
    &&& t.taskID == tid
    &&& t.taskEntry is None
    &&& t.taskSem == 0
    &&& t.taskMux == 0
    &&& t.arg == 0
    &&& t.taskName == 0
    &&& t.pendList == ListRef::FreeList
    &&& t.joinRetval == 0
    &&& t.event.uwEventID == 0
    &&& t.event.stEventList@.len() == 0
    &&& t.eventMask == 0
    &&& t.eventMode == 0
    &&& t.msg == 0
    &&& t.errorNo == 0
}

/// The control block of task `tid` as a free block.
pub fn free_tcb(tid: u32) -> (r: LosTaskCB)
    ensures
        is_free_tcb(r, tid),
{
    LosTaskCB {
        stackPointer: 0,
        taskStatus: OS_TASK_STATUS_UNUSED,
        priority: 0,
        timeSlice: 0,
        waitTimes: 0,
        sortList: SortLinkList { sortLinkNode: tid, responseTime: 0 },
        startTime: 0,
        stackSize: 0,
        topOfStack: 0,
        taskID: tid,
        taskEntry: None,
        taskSem: 0,
        taskMux: 0,
        arg: 0,
        taskName: 0,
        pendList: ListRef::FreeList,
        joinRetval: 0,
        event: EVENT_CB_S { uwEventID: 0, stEventList: empty_list_node() },
        eventMask: 0,
        eventMode: 0,
        msg: 0,
        errorNo: 0,
    }
}

/// What `OsCheckTaskIDValid` answers for `tid`.
pub open spec fn task_id_check_spec(k: LosKernel, tid: u32) -> u32 {
    if tid == k.g_idleTaskID {
        LOS_ERRNO_TSK_OPERATE_IDLE
    } else if tid == k.g_swtmrTaskID {
        LOS_ERRNO_TSK_SUSPEND_SWTMR_NOT_ALLOWED
    } else if tid >= k.g_taskMaxNum {
        LOS_ERRNO_TSK_ID_INVALID
    } else {
        LOS_OK
    }
}

/// The list heads other than the free list and the join list of `tid`
/// have the same members.
pub open spec fn lists_same_but_free(a: LosKernel, b: LosKernel, tid: int) -> bool {
    &&& a.same_shape(b)
    &&& a.g_taskRecycleList@ == b.g_taskRecycleList@
    &&& forall|w: int| 0 <= w < a.wait_lists@.len() ==> #[trigger] a.wait_lists@[w]@ == b.wait_lists@[w]@
    &&& forall|t: int| 0 <= t < a.join_lists@.len() && t != tid ==> #[trigger] a.join_lists@[t]@
        == b.join_lists@[t]@
    &&& a.same_queues(b)
}

impl LosKernel {
    /// Checks that `tid` names a task that may be operated on
    /// (`OsCheckTaskIDValid`): not the idle task, not the timer task, and
    /// below the task count.
    pub fn OsCheckTaskIDValid(&self, tid: u32) -> (r: u32)
        ensures
            r == task_id_check_spec(*self, tid),
    {
        if tid == self.g_idleTaskID {
            return LOS_ERRNO_TSK_OPERATE_IDLE;
        }
        if tid == self.g_swtmrTaskID {
            return LOS_ERRNO_TSK_SUSPEND_SWTMR_NOT_ALLOWED;
        }
        if tid >= self.g_taskMaxNum {
            return LOS_ERRNO_TSK_ID_INVALID;
        }
        LOS_OK
    }

    /// Returns the control block of task `tid` to the free list
    /// (`OsInsertTCBToFreeList`): it is cleared but for its id, marked
    /// unused, its join list emptied, and linked first on the free list.
    pub fn OsInsertTCBToFreeList(&mut self, tid: u32)
        requires
            old(self).wf(),
            tid < old(self).g_taskMaxNum,
        ensures
            final(self).wf(),
            is_free_tcb(final(self).tcb(tid as int), tid),
            final(self).g_losFreeTask@ == seq![tid] + old(self).g_losFreeTask@,
            final(self).join_lists@[tid as int]@.len() == 0,
            lists_same_but_free(*old(self), *final(self), tid as int),
            final(self).same_tasks_except(*old(self), tid as int),
            final(self).same_sched(*old(self)),
            final(self).same_task_globals(*old(self)),
    {
        let ghost before = *self;
        let t = free_tcb(tid);
        self.g_taskCBArray.set(tid as usize, t);
        self.join_lists[tid as usize].LOS_ListInit();
        self.g_losFreeTask.LOS_ListAdd(tid);
        proof {
            assert forall|t2: int| 0 <= t2 < self.join_lists@.len() implies self.ids_valid(
                #[trigger] self.join_lists@[t2]@) by {
                if t2 != tid {
                    assert(self.join_lists@[t2] == before.join_lists@[t2]);
                }
            }
            assert forall|t2: int| 0 <= t2 < self.join_lists@.len() && t2 != tid implies #[trigger] before.join_lists@[t2]@
                == self.join_lists@[t2]@ by {
                assert(self.join_lists@[t2] == before.join_lists@[t2]);
            }
            assert(self.tcb(self.g_taskMaxNum as int) == before.tcb(self.g_taskMaxNum as int));
        }
    }

    /// Releases what an exited task `tid` holds (`OsRecycleTaskResources`):
    /// a stack the kernel allocated is handed back (returned, 0 for none) and
    /// forgotten, and a task that is not joinable goes back to the free
    /// list.
    pub fn OsRecycleTaskResources(&mut self, tid: u32) -> (r: u32)
        requires
            old(self).wf(),
            tid < old(self).g_taskMaxNum,
        ensures
            final(self).wf(),
            r == (if old(self).has(tid as int, OS_TASK_FLAG_STACK_FREE) && old(self).tcb(tid as int).topOfStack != 0 {
                old(self).tcb(tid as int).topOfStack
            } else {
                0
            }),
            old(self).has(tid as int, OS_TASK_FLAG_JOINABLE) ==> {
                &&& final(self).tcb(tid as int) == (LosTaskCB {
                    taskStatus: if r != 0 {
                        old(self).status(tid as int) & !OS_TASK_FLAG_STACK_FREE
                    } else {
                        old(self).status(tid as int)
                    },
                    topOfStack: if r != 0 { 0 } else { old(self).tcb(tid as int).topOfStack },
                    ..old(self).tcb(tid as int)
                })
                &&& final(self).g_losFreeTask@ == old(self).g_losFreeTask@
                &&& final(self).join_lists@[tid as int]@ == old(self).join_lists@[tid as int]@
            },
            !old(self).has(tid as int, OS_TASK_FLAG_JOINABLE) ==> {
                &&& is_free_tcb(final(self).tcb(tid as int), tid)
                &&& final(self).g_losFreeTask@ == seq![tid] + old(self).g_losFreeTask@
                &&& final(self).join_lists@[tid as int]@.len() == 0
            },
            lists_same_but_free(*old(self), *final(self), tid as int),
            final(self).same_tasks_except(*old(self), tid as int),
            final(self).same_sched(*old(self)),
            final(self).same_task_globals(*old(self)),
    {
        let mut stack: u32 = 0;
        let status = self.g_taskCBArray[tid as usize].taskStatus;
        let top = self.g_taskCBArray[tid as usize].topOfStack;
        if has_flag(status, OS_TASK_FLAG_STACK_FREE as u32) && top != 0 {
            stack = top;
            self.g_taskCBArray[tid as usize].topOfStack = 0;
            self.g_taskCBArray[tid as usize].taskStatus = status & !OS_TASK_FLAG_STACK_FREE;
        }
        let status2 = self.g_taskCBArray[tid as usize].taskStatus;
        proof {
            assert(
                ((status & !0x800u16) & 0x200u16 == status & 0x200u16)
                && (((status as u32) & 0x800u32 != 0) == (status & 0x800u16 != 0))
                && (((status2 as u32) & 0x200u32 != 0) == (status2 & 0x200u16 != 0))
            ) by (bit_vector);
        }
        if !has_flag(status2, OS_TASK_FLAG_JOINABLE as u32) {
            self.OsInsertTCBToFreeList(tid);
        }
        stack
    }

    /// Sets the hook the idle task calls to enter low power
    /// (`OsPmEnterHandlerSet`): `LOS_NOK` and no change for none.
    pub fn OsPmEnterHandlerSet(&mut self, func: Option<u32>) -> (r: u32)
        ensures
            func is None ==> r == LOS_NOK && *final(self) == *old(self),
            func is Some ==> r == LOS_OK && *final(self) == (LosKernel { pm_enter: func, ..*old(self) }),
    {
        match func {
            None => LOS_NOK,
            Some(f) => {
                self.pm_enter = Some(f);
                LOS_OK
            },
        }
    }
}


/// Whether recycling a task hands its stack back: the kernel allocated it
/// and it is still held.
pub open spec fn stack_released(t: LosTaskCB) -> bool {
    t.taskStatus & OS_TASK_FLAG_STACK_FREE != 0 && t.topOfStack != 0
}

/// Whether `n` is the control block `o` of task `tid` after its resources
/// were recycled: a task that is not joinable is a free block, a joinable
/// one has only given up its stack.
pub open spec fn recycle_result(o: LosTaskCB, n: LosTaskCB, tid: u32) -> bool {
    if o.taskStatus & OS_TASK_FLAG_JOINABLE == 0 {
        is_free_tcb(n, tid)
    } else {
        n == (LosTaskCB {
            taskStatus: if stack_released(o) {
                o.taskStatus & !OS_TASK_FLAG_STACK_FREE
            } else {
                o.taskStatus
            },
            topOfStack: if stack_released(o) { 0 } else { o.topOfStack },
            ..o
        })
    }
}

/// A recycled block keeps whether it is joinable and holds no stack to
/// hand back.
proof fn lemma_recycle_flags(o: LosTaskCB, n: LosTaskCB, tid: u32)
    requires
        recycle_result(o, n, tid),
    ensures
        (n.taskStatus & OS_TASK_FLAG_JOINABLE == 0) == (o.taskStatus & OS_TASK_FLAG_JOINABLE == 0),
        !stack_released(n),
{
    let s = o.taskStatus;
    assert(
        ((s & !0x800u16) & 0x200u16 == s & 0x200u16)
        && ((s & !0x800u16) & 0x800u16 == 0)
        && (1u16 & 0x200u16 == 0 && 1u16 & 0x800u16 == 0)
    ) by (bit_vector);
}

/// The last of the first `n` tasks on the recycle list `rec` that is not
/// joinable in `k`: recycling it puts its control block first on the free
/// list.
pub open spec fn last_freed(rec: Seq<u32>, k: LosKernel, n: int) -> Option<u32>
    decreases n,
{
    if n <= 0 {
        None
    } else if !k.has(rec[n - 1] as int, OS_TASK_FLAG_JOINABLE) {
        Some(rec[n - 1])
    } else {
        last_freed(rec, k, n - 1)
    }
}

/// Whether `f` is the free list of `k` once its finished tasks are
/// recycled: the old free list behind the blocks of the recycled tasks that
/// are not joinable, the last of which comes first.
pub open spec fn recycled_free_list(k: LosKernel, f: Seq<u32>) -> bool {
    let n = f.len() - k.g_losFreeTask@.len();
    &&& k.g_losFreeTask@.len() <= f.len()
    &&& f.subrange(n, f.len() as int) == k.g_losFreeTask@
    &&& forall|i: int| 0 <= i < n ==> {
        &&& k.g_taskRecycleList@.contains(#[trigger] f[i])
        &&& !k.has(f[i] as int, OS_TASK_FLAG_JOINABLE)
    }
    &&& forall|j: u32| k.g_taskRecycleList@.contains(j) && !k.has(j as int, OS_TASK_FLAG_JOINABLE)
        ==> #[trigger] f.contains(j)
    &&& match last_freed(k.g_taskRecycleList@, k, k.g_taskRecycleList@.len() as int) {
        Some(j) => f.len() > 0 && f[0] == j,
        None => f == k.g_losFreeTask@,
    }
}

/// Recycling a block twice is recycling it once.
proof fn lemma_recycle_twice(o: LosTaskCB, n: LosTaskCB, m: LosTaskCB, tid: u32)
    requires
        recycle_result(o, n, tid),
        recycle_result(n, m, tid),
    ensures
        recycle_result(o, m, tid),
        !stack_released(n),
{
    lemma_recycle_flags(o, n, tid);
    lemma_recycle_flags(n, m, tid);
}

impl LosKernel {
    /// Recycles every task on the recycle list (`OsRecycleFinishedTask`),
    /// first to last, with `OsRecycleTaskResources`; returns, for each, the
    /// stack to free (0 for none).
    pub fn OsRecycleFinishedTask(&mut self) -> (r: Vec<u32>)
        requires
            old(self).wf(),
        ensures
            final(self).wf(),
            final(self).g_taskRecycleList@.len() == 0,
            r@.len() == old(self).g_taskRecycleList@.len(),
            forall|k: int| 0 <= k < r@.len() ==> #[trigger] r@[k] == 0 || r@[k] == old(self).tcb(
                old(self).g_taskRecycleList@[k] as int,
            ).topOfStack,
            forall|k: int|
                0 <= k < r@.len() && stack_released(old(self).tcb(old(self).g_taskRecycleList@[k] as int))
                    && !old(self).g_taskRecycleList@.subrange(0, k).contains(old(self).g_taskRecycleList@[k])
                    ==> #[trigger] r@[k] == old(self).tcb(old(self).g_taskRecycleList@[k] as int).topOfStack,
            forall|j: int|
                0 <= j < old(self).g_taskMaxNum && old(self).g_taskRecycleList@.contains(j as u32)
                    ==> recycle_result(old(self).tcb(j), #[trigger] final(self).tcb(j), j as u32),
            forall|j: int|
                0 <= j < old(self).g_taskCBArray@.len() && !old(self).g_taskRecycleList@.contains(j as u32)
                    ==> #[trigger] final(self).tcb(j) == old(self).tcb(j),
            final(self).g_taskCBArray@.len() == old(self).g_taskCBArray@.len(),
            old(self).g_losFreeTask@.len() <= final(self).g_losFreeTask@.len(),
            final(self).g_losFreeTask@.subrange(
                final(self).g_losFreeTask@.len() - old(self).g_losFreeTask@.len(),
                final(self).g_losFreeTask@.len() as int,
            ) == old(self).g_losFreeTask@,
            forall|k: int| 0 <= k < final(self).g_losFreeTask@.len() - old(self).g_losFreeTask@.len() ==> {
                &&& old(self).g_taskRecycleList@.contains(#[trigger] final(self).g_losFreeTask@[k])
                &&& !old(self).has(final(self).g_losFreeTask@[k] as int, OS_TASK_FLAG_JOINABLE)
            },
            forall|j: u32|
                old(self).g_taskRecycleList@.contains(j) && !old(self).has(j as int, OS_TASK_FLAG_JOINABLE)
                    ==> #[trigger] final(self).g_losFreeTask@.contains(j),
            match last_freed(old(self).g_taskRecycleList@, *old(self), old(self).g_taskRecycleList@.len() as int) {
                Some(j) => final(self).g_losFreeTask@.len() > 0 && final(self).g_losFreeTask@[0] == j,
                None => final(self).g_losFreeTask@ == old(self).g_losFreeTask@,
            },
            final(self).join_lists@.len() == old(self).join_lists@.len(),
            forall|t: int|
                0 <= t < old(self).join_lists@.len() && !(old(self).g_taskRecycleList@.contains(t as u32)
                    && !old(self).has(t, OS_TASK_FLAG_JOINABLE)) ==> #[trigger] final(self).join_lists@[t]@
                    == old(self).join_lists@[t]@,
            forall|t: int|
                0 <= t < old(self).g_taskMaxNum && old(self).g_taskRecycleList@.contains(t as u32) && !old(
                    self,
                ).has(t, OS_TASK_FLAG_JOINABLE) ==> (#[trigger] final(self).join_lists@[t]@).len() == 0,
            final(self).wait_lists@.len() == old(self).wait_lists@.len(),
            forall|w: int| 0 <= w < old(self).wait_lists@.len() ==> #[trigger] final(self).wait_lists@[w]@
                == old(self).wait_lists@[w]@,
            final(self).same_queues(*old(self)),
            final(self).same_sched(*old(self)),
            final(self).same_task_globals(*old(self)),
    {
        let ghost rec = self.g_taskRecycleList@;
        let ghost o = *self;
        let mut stacks: Vec<u32> = Vec::new();
        let total = self.g_taskRecycleList.len();
        let mut i: usize = 0;
        while !self.g_taskRecycleList.LOS_ListEmpty()
            invariant
                self.wf(),
                o.wf(),
                i <= rec.len(),
                rec.len() == total,
                rec == o.g_taskRecycleList@,
                self.g_taskRecycleList@ == rec.subrange(i as int, rec.len() as int),
                stacks@.len() == i,
                forall|k: int| 0 <= k < i ==> #[trigger] stacks@[k] == 0 || stacks@[k] == o.tcb(rec[k] as int).topOfStack,
                forall|k: int|
                    0 <= k < i && stack_released(o.tcb(rec[k] as int)) && !rec.subrange(0, k).contains(rec[k])
                        ==> #[trigger] stacks@[k] == o.tcb(rec[k] as int).topOfStack,
                self.g_taskCBArray@.len() == o.g_taskCBArray@.len(),
                forall|j: int| 0 <= j < o.g_taskMaxNum && rec.subrange(0, i as int).contains(j as u32)
                    ==> recycle_result(o.tcb(j), #[trigger] self.tcb(j), j as u32),
                forall|j: int| 0 <= j < o.g_taskCBArray@.len() && !rec.subrange(0, i as int).contains(j as u32)
                    ==> #[trigger] self.tcb(j) == o.tcb(j),
                o.g_losFreeTask@.len() <= self.g_losFreeTask@.len(),
                self.g_losFreeTask@.subrange(
                    self.g_losFreeTask@.len() - o.g_losFreeTask@.len(),
                    self.g_losFreeTask@.len() as int,
                ) == o.g_losFreeTask@,
                forall|k: int| 0 <= k < self.g_losFreeTask@.len() - o.g_losFreeTask@.len() ==> {
                    &&& rec.subrange(0, i as int).contains(#[trigger] self.g_losFreeTask@[k])
                    &&& !o.has(self.g_losFreeTask@[k] as int, OS_TASK_FLAG_JOINABLE)
                },
                forall|j: u32| rec.subrange(0, i as int).contains(j) && !o.has(j as int, OS_TASK_FLAG_JOINABLE)
                    ==> #[trigger] self.g_losFreeTask@.contains(j),
                match last_freed(rec, o, i as int) {
                    Some(j) => self.g_losFreeTask@.len() > 0 && self.g_losFreeTask@[0] == j,
                    None => self.g_losFreeTask@ == o.g_losFreeTask@,
                },
                self.join_lists@.len() == o.join_lists@.len(),
                forall|t: int| 0 <= t < o.join_lists@.len() && !(rec.subrange(0, i as int).contains(t as u32)
                    && !o.has(t, OS_TASK_FLAG_JOINABLE)) ==> #[trigger] self.join_lists@[t]@ == o.join_lists@[t]@,
                forall|t: int| 0 <= t < o.g_taskMaxNum && rec.subrange(0, i as int).contains(t as u32)
                    && !o.has(t, OS_TASK_FLAG_JOINABLE) ==> (#[trigger] self.join_lists@[t]@).len() == 0,
                self.wait_lists@.len() == o.wait_lists@.len(),
                forall|w: int| 0 <= w < o.wait_lists@.len() ==> #[trigger] self.wait_lists@[w]@ == o.wait_lists@[w]@,
                self.same_queues(o),
                self.same_sched(o),
                self.same_task_globals(o),
            decreases self.g_taskRecycleList@.len(),
        {
            let ghost before = *self;
            let first = self.g_taskRecycleList.get(0);
            proof {
                lemma_remove_first(self.g_taskRecycleList@);
                assert(first == rec[i as int]);
                assert(first < self.g_taskMaxNum);
            }
            self.g_taskRecycleList.LOS_ListDelete(first);
            let ghost mid = *self;
            assert(mid.wf()) by {
                assert(mid.ids_valid(mid.g_taskRecycleList@)) by {
                    assert forall|k: int| 0 <= k < mid.g_taskRecycleList@.len() implies #[trigger] mid.g_taskRecycleList@[k]
                        < mid.g_taskMaxNum by {
                        assert(mid.g_taskRecycleList@[k] == before.g_taskRecycleList@[k + 1]);
                    }
                }
            }
            let stack = self.OsRecycleTaskResources(first);
            let ghost old_st = stacks@;
            stacks.push(stack);
            proof {
                let p0 = rec.subrange(0, i as int);
                let p1 = rec.subrange(0, i + 1);
                assert forall|x: u32| #[trigger] p1.contains(x) <==> (p0.contains(x) || x == first) by {
                    if p1.contains(x) {
                        let k = choose|k: int| 0 <= k < p1.len() && p1[k] == x;
                        if k < i {
                            assert(p0[k] == x);
                        }
                    }
                    if p0.contains(x) {
                        let k = choose|k: int| 0 <= k < p0.len() && p0[k] == x;
                        assert(p1[k] == x);
                    }
                    if x == first {
                        assert(p1[i as int] == x);
                    }
                }
                assert(self.g_taskRecycleList@ =~= rec.subrange(i + 1, rec.len() as int));
                let fo = o.tcb(first as int);
                let fb = before.tcb(first as int);
                if p0.contains(first) {
                    lemma_recycle_flags(fo, fb, first);
                    lemma_recycle_twice(fo, fb, self.tcb(first as int), first);
                } else {
                    assert(fb == fo);
                }
                assert(stacks@[i as int] == stack);
                assert forall|k: int| 0 <= k < i implies #[trigger] stacks@[k] == old_st[k] by {}
                assert forall|j: int| 0 <= j < o.g_taskMaxNum && p1.contains(j as u32) implies recycle_result(
                    o.tcb(j),
                    #[trigger] self.tcb(j),
                    j as u32,
                ) by {
                    if j != first {
                        assert(self.tcb(j) == before.tcb(j));
                        assert(p0.contains(j as u32));
                    }
                }
                assert forall|j: int| 0 <= j < o.g_taskCBArray@.len() && !p1.contains(j as u32) implies #[trigger] self.tcb(j)
                    == o.tcb(j) by {
                    assert(j != first as int);
                    assert(self.tcb(j) == before.tcb(j));
                }
                let nonj = !o.has(first as int, OS_TASK_FLAG_JOINABLE);
                assert(nonj == !before.has(first as int, OS_TASK_FLAG_JOINABLE));
                let lf = self.g_losFreeTask@;
                let bf = before.g_losFreeTask@;
                assert(rec[i as int] == first);
                if nonj {
                    assert(last_freed(rec, o, i + 1) == Some(first));
                    assert(lf == seq![first] + bf);
                    assert(lf.subrange(lf.len() - o.g_losFreeTask@.len(), lf.len() as int) =~= bf.subrange(
                        bf.len() - o.g_losFreeTask@.len(),
                        bf.len() as int,
                    ));
                    assert forall|k: int| 0 <= k < lf.len() - o.g_losFreeTask@.len() implies {
                        &&& p1.contains(#[trigger] lf[k])
                        &&& !o.has(lf[k] as int, OS_TASK_FLAG_JOINABLE)
                    } by {
                        if k > 0 {
                            assert(lf[k] == bf[k - 1]);
                        }
                    }
                    assert forall|j: u32| p1.contains(j) && !o.has(j as int, OS_TASK_FLAG_JOINABLE) implies #[trigger] lf.contains(
                        j,
                    ) by {
                        if j == first {
                            assert(lf[0] == j);
                        } else {
                            assert(bf.contains(j));
                            let k = choose|k: int| 0 <= k < bf.len() && bf[k] == j;
                            assert(lf[k + 1] == j);
                        }
                    }
                } else {
                    assert(last_freed(rec, o, i + 1) == last_freed(rec, o, i as int));
                    assert(lf == bf);
                }
                assert forall|q: int| 0 <= q < 32 implies #[trigger] self.queue(q) == o.queue(q) by {
                    assert(self.queue(q) == mid.queue(q));
                }
                assert forall|w: int| 0 <= w < o.wait_lists@.len() implies #[trigger] self.wait_lists@[w]@
                    == o.wait_lists@[w]@ by {
                    assert(self.wait_lists@[w]@ == mid.wait_lists@[w]@);
                }
                assert forall|t: int| 0 <= t < o.join_lists@.len() && !(p1.contains(t as u32) && !o.has(
                    t,
                    OS_TASK_FLAG_JOINABLE,
                )) implies #[trigger] self.join_lists@[t]@ == o.join_lists@[t]@ by {
                    if t != first {
                        assert(self.join_lists@[t]@ == before.join_lists@[t]@);
                    }
                }
                assert forall|t: int| 0 <= t < o.g_taskMaxNum && p1.contains(t as u32) && !o.has(
                    t,
                    OS_TASK_FLAG_JOINABLE,
                ) implies (#[trigger] self.join_lists@[t]@).len() == 0 by {
                    if t != first {
                        assert(self.join_lists@[t]@ == before.join_lists@[t]@);
                    }
                }
            }
            i = i + 1;
        }
        proof {
            assert(rec.subrange(0, i as int) =~= rec);
        }
        stacks
    }
}


/// Whether the water-line scan of a stack stops at word `k`: the words
/// from the one above the magic word up to `k` (excluded) are still the
/// fill pattern and below the stack pointer, and word `k` is at or above
/// the stack pointer or was written.  `stack[j]` is the word at
/// `top + 4 * j`.
pub open spec fn water_scan_stop(stack: Seq<u32>, top: u32, sp: u32, k: int) -> bool {
    &&& 1 <= k
    &&& (top + 4 * k >= sp || (k < stack.len() && stack[k] != OS_TASK_STACK_INIT))
    &&& forall|j: int| 1 <= j < k ==> top + 4 * j < sp && #[trigger] stack[j] == OS_TASK_STACK_INIT
}

/// The peak stack use reported for a stack of `size` bytes whose scan
/// stopped at word `k`: the size less the scanned bytes, modulo 2^32.
pub open spec fn water_line_value(size: u32, k: int) -> u32 {
    ((size - 4 * k) % 0x1_0000_0000) as u32
}

/// What the idle task does in one round (`OsIdleTask`): the stacks of
/// recycled tasks to free, and the low-power hook to call (`None`: enter
/// sleep).
pub struct IdleRound {
    pub stacks: Vec<u32>,
    pub pm_enter: Option<u32>,
}

impl LosKernel {
    /// One round of the idle task (`OsIdleTask`): finished tasks are
    /// recycled, then the low-power hook runs if one is set, else the CPU
    /// sleeps.
    pub fn OsIdleTask(&mut self) -> (r: IdleRound)
        requires
            old(self).wf(),
        ensures
            final(self).wf(),
            final(self).g_taskRecycleList@.len() == 0,
            r.stacks@.len() == old(self).g_taskRecycleList@.len(),
            forall|k: int| 0 <= k < r.stacks@.len() ==> #[trigger] r.stacks@[k] == 0 || r.stacks@[k] == old(
                self,
            ).tcb(old(self).g_taskRecycleList@[k] as int).topOfStack,
            forall|k: int|
                0 <= k < r.stacks@.len() && stack_released(old(self).tcb(old(self).g_taskRecycleList@[k] as int))
                    && !old(self).g_taskRecycleList@.subrange(0, k).contains(old(self).g_taskRecycleList@[k])
                    ==> #[trigger] r.stacks@[k] == old(self).tcb(old(self).g_taskRecycleList@[k] as int).topOfStack,
            r.pm_enter == old(self).pm_enter,
            forall|j: int|
                0 <= j < old(self).g_taskMaxNum && old(self).g_taskRecycleList@.contains(j as u32)
                    ==> recycle_result(old(self).tcb(j), #[trigger] final(self).tcb(j), j as u32),
            final(self).same_task_globals(*old(self)),
            final(self).same_queues(*old(self)),
    {
        let stacks = self.OsRecycleFinishedTask();
        IdleRound { stacks, pm_enter: self.pm_enter }
    }

    /// The peak stack use of task `tid` (`OsGetTaskWaterLine`): when the
    /// magic word at the top of its stack is intact, the stack size less the
    /// bytes from the top up to the first word above the magic word that is
    /// at the stack pointer or no longer the fill pattern; `OS_NULL_INT` when
    /// the stack overflowed (or there is none).  `stack` holds the words of
    /// the stack from its top up to at least the stack pointer.
    pub fn OsGetTaskWaterLine(&self, tid: u32, stack: &[u32]) -> (r: u32)
        requires
            self.wf(),
            tid <= self.g_taskMaxNum,
            self.tcb(tid as int).topOfStack != 0 ==> stack@.len() >= 1 && self.tcb(tid as int).topOfStack + 4
                * stack@.len() >= self.tcb(tid as int).stackPointer,
        ensures
            self.tcb(tid as int).topOfStack == 0 || stack@[0] != OS_TASK_MAGIC_WORD ==> r == OS_NULL_INT,
            self.tcb(tid as int).topOfStack != 0 && stack@[0] == OS_TASK_MAGIC_WORD ==> exists|k: int|
                #[trigger] water_scan_stop(
                    stack@,
                    self.tcb(tid as int).topOfStack,
                    self.tcb(tid as int).stackPointer,
                    k,
                ) && r == water_line_value(self.tcb(tid as int).stackSize, k),
    {
        let top = self.g_taskCBArray[tid as usize].topOfStack;
        let sp = self.g_taskCBArray[tid as usize].stackPointer;
        let size = self.g_taskCBArray[tid as usize].stackSize;
        if top == 0 || stack[0] != OS_TASK_MAGIC_WORD {
            return OS_NULL_INT;
        }
        let mut k: usize = 1;
        while (top as u64) + 4 * (k as u64) < sp as u64 && stack[k] == OS_TASK_STACK_INIT
            invariant
                1 <= k,
                top + 4 * (k - 1) < sp || k == 1,
                top + 4 * stack@.len() >= sp,
                k <= stack@.len(),
                forall|j: int| 1 <= j < k ==> top + 4 * j < sp && #[trigger] stack@[j] == OS_TASK_STACK_INIT,
            decreases stack@.len() - k,
        {
            k = k + 1;
        }
        proof {
            assert(water_scan_stop(stack@, top, sp, k as int));
        }
        let off: u64 = 4 * (k as u64);
        let r = ((size as u64 + 0x2_0000_0000u64 - off) % 0x1_0000_0000u64) as u32;
        proof {
            let a = size - 4 * k;
            vstd::arithmetic::div_mod::lemma_mod_add_multiples_vanish(a + 0x1_0000_0000, 0x1_0000_0000);
            vstd::arithmetic::div_mod::lemma_mod_add_multiples_vanish(a, 0x1_0000_0000);
            assert(r == water_line_value(size, k as int));
        }
        r
    }

    /// The tasks the task listing shows (`OsGetAllTskInfo`): every task
    /// control block that is in use, by id.
    pub fn OsGetAllTskInfo(&self) -> (r: Vec<u32>)
        requires
            self.wf(),
        ensures
            forall|k: int| 0 <= k < r@.len() ==> #[trigger] r@[k] < self.g_taskMaxNum && !self.has(
                r@[k] as int,
                OS_TASK_STATUS_UNUSED,
            ),
            forall|i: int| 0 <= i < self.g_taskMaxNum && !self.has(i, OS_TASK_STATUS_UNUSED) ==> #[trigger] r@.contains(
                i as u32,
            ),
            forall|k1: int, k2: int| 0 <= k1 < k2 < r@.len() ==> #[trigger] r@[k1] < #[trigger] r@[k2],
    {
        let mut ids: Vec<u32> = Vec::new();
        let mut i: u32 = 0;
        while i < self.g_taskMaxNum
            invariant
                self.wf(),
                i <= self.g_taskMaxNum,
                forall|k: int| 0 <= k < ids@.len() ==> #[trigger] ids@[k] < i && !self.has(ids@[k] as int, OS_TASK_STATUS_UNUSED),
                forall|j: int| 0 <= j < i && !self.has(j, OS_TASK_STATUS_UNUSED) ==> #[trigger] ids@.contains(j as u32),
                forall|k1: int, k2: int| 0 <= k1 < k2 < ids@.len() ==> #[trigger] ids@[k1] < #[trigger] ids@[k2],
            decreases self.g_taskMaxNum - i,
        {
            let st = self.g_taskCBArray[i as usize].taskStatus;
            proof {
                assert(((st as u32) & 1u32 != 0) == (st & 1u16 != 0)) by (bit_vector);
            }
            if !has_flag(st, OS_TASK_STATUS_UNUSED as u32) {
                let ghost prev = ids@;
                ids.push(i);
                proof {
                    assert forall|j: int| 0 <= j < i + 1 && !self.has(j, OS_TASK_STATUS_UNUSED) implies #[trigger] ids@.contains(
                        j as u32,
                    ) by {
                        if j < i {
                            assert(prev.contains(j as u32));
                            let k = choose|k: int| 0 <= k < prev.len() && prev[k] == j as u32;
                            assert(ids@[k] == j as u32);
                        } else {
                            assert(ids@[prev.len() as int] == j as u32);
                        }
                    }
                }
            }
            i = i + 1;
        }
        ids
    }

    /// Id of the running task (`LOS_CurTaskIDGet`).
    pub fn LOS_CurTaskIDGet(&self) -> (r: u32)
        requires
            self.wf(),
        ensures
            r == self.tcb(self.g_losTask.runTask as int).taskID,
    {
        self.g_taskCBArray[self.g_losTask.runTask as usize].taskID
    }

    /// Id of the task that would run next (`LOS_NextTaskIDGet`), or
    /// `LOS_ERRNO_TSK_ID_INVALID` when there is none.
    pub fn LOS_NextTaskIDGet(&self) -> (r: u32)
        requires
            self.wf(),
        ensures
            r == match self.OsGetTopTask_spec() {
                Some(n) => self.tcb(n as int).taskID,
                None => LOS_ERRNO_TSK_ID_INVALID,
            },
    {
        match self.OsGetTopTask() {
            Some(n) => self.g_taskCBArray[n as usize].taskID,
            None => LOS_ERRNO_TSK_ID_INVALID,
        }
    }

    /// Name of the running task (`LOS_CurTaskNameGet`).
    pub fn LOS_CurTaskNameGet(&self) -> (r: u32)
        requires
            self.wf(),
        ensures
            r == self.tcb(self.g_losTask.runTask as int).taskName,
    {
        self.g_taskCBArray[self.g_losTask.runTask as usize].taskName
    }

    /// Whether the scheduler has started (`LOS_TaskIsRunning`).
    pub fn LOS_TaskIsRunning(&self) -> (r: bool)
        ensures
            r == self.g_taskScheduled,
    {
        self.g_taskScheduled
    }

    /// Id of the task that would run next (`LOS_NewTaskIDGet`).
    pub fn LOS_NewTaskIDGet(&self) -> (r: u32)
        requires
            self.wf(),
        ensures
            r == match self.OsGetTopTask_spec() {
                Some(n) => self.tcb(n as int).taskID,
                None => LOS_ERRNO_TSK_ID_INVALID,
            },
    {
        self.LOS_NextTaskIDGet()
    }

    /// Name of task `tid` (`LOS_TaskNameGet`), 0 when `tid` is not a task or
    /// its control block is unused.
    pub fn LOS_TaskNameGet(&self, tid: u32) -> (r: u32)
        requires
            self.wf(),
        ensures
            tid >= self.g_taskMaxNum || self.has(tid as int, OS_TASK_STATUS_UNUSED) ==> r == 0,
            tid < self.g_taskMaxNum && !self.has(tid as int, OS_TASK_STATUS_UNUSED) ==> r == self.tcb(
                tid as int,
            ).taskName,
    {
        if tid >= self.g_taskMaxNum {
            return 0;
        }
        if (self.g_taskCBArray[tid as usize].taskStatus & OS_TASK_STATUS_UNUSED) != 0 {
            return 0;
        }
        self.g_taskCBArray[tid as usize].taskName
    }

    /// Status word of task `tid` (`LOS_TaskStatusGet`):
    /// `LOS_ERRNO_TSK_ID_INVALID` when `tid` is not a task,
    /// `LOS_ERRNO_TSK_NOT_CREATED` when its control block is unused.
    pub fn LOS_TaskStatusGet(&self, tid: u32) -> (r: Result<u32, u32>)
        requires
            self.wf(),
        ensures
            tid >= self.g_taskMaxNum ==> r == Err::<u32, u32>(LOS_ERRNO_TSK_ID_INVALID),
            tid < self.g_taskMaxNum && self.has(tid as int, OS_TASK_STATUS_UNUSED) ==> r == Err::<u32, u32>(
                LOS_ERRNO_TSK_NOT_CREATED,
            ),
            tid < self.g_taskMaxNum && !self.has(tid as int, OS_TASK_STATUS_UNUSED) ==> r == Ok::<u32, u32>(
                self.status(tid as int) as u32,
            ),
    {
        if tid >= self.g_taskMaxNum {
            return Err(LOS_ERRNO_TSK_ID_INVALID);
        }
        let st = self.g_taskCBArray[tid as usize].taskStatus;
        if (st & OS_TASK_STATUS_UNUSED) != 0 {
            return Err(LOS_ERRNO_TSK_NOT_CREATED);
        }
        Ok(st as u32)
    }

    /// Priority of task `tid` (`LOS_TaskPriGet`), `0xFFFF` when `tid` is not
    /// a task or its control block is unused.
    pub fn LOS_TaskPriGet(&self, tid: u32) -> (r: u16)
        requires
            self.wf(),
        ensures
            tid >= self.g_taskMaxNum || self.has(tid as int, OS_TASK_STATUS_UNUSED) ==> r == 0xFFFF,
            tid < self.g_taskMaxNum && !self.has(tid as int, OS_TASK_STATUS_UNUSED) ==> r == self.tcb(
                tid as int,
            ).priority,
    {
        if tid >= self.g_taskMaxNum {
            return 0xFFFF;
        }
        if (self.g_taskCBArray[tid as usize].taskStatus & OS_TASK_STATUS_UNUSED) != 0 {
            return 0xFFFF;
        }
        self.g_taskCBArray[tid as usize].priority
    }

    /// Takes the task lock once more (`LOS_TaskLock`); the count wraps.
    pub fn LOS_TaskLock(&mut self)
        ensures
            *final(self) == (LosKernel { g_losTaskLock: old(self).g_losTaskLock.wrapping_add(1), ..*old(self) }),
    {
        self.g_losTaskLock = self.g_losTaskLock.wrapping_add(1);
    }

    /// Releases the task lock once (`LOS_TaskUnlock`); returns whether it
    /// became free, when a rescheduling is asked for.
    pub fn LOS_TaskUnlock(&mut self) -> (r: bool)
        ensures
            old(self).g_losTaskLock == 0 ==> !r && *final(self) == *old(self),
            old(self).g_losTaskLock > 0 ==> r == (old(self).g_losTaskLock == 1) && *final(self) == (LosKernel {
                g_losTaskLock: (old(self).g_losTaskLock - 1) as u16,
                ..*old(self)
            }),
    {
        if self.g_losTaskLock > 0 {
            self.g_losTaskLock = self.g_losTaskLock - 1;
            return self.g_losTaskLock == 0;
        }
        false
    }

    /// Gives up the rest of the running task's time slice
    /// (`LOS_TaskYield`); a rescheduling follows.  Returns `LOS_OK`.
    pub fn LOS_TaskYield(&mut self) -> (r: u32)
        requires
            old(self).wf(),
        ensures
            final(self).wf(),
            r == LOS_OK,
            final(self).tcb(old(self).g_losTask.runTask as int) == (LosTaskCB {
                timeSlice: 0,
                ..old(self).tcb(old(self).g_losTask.runTask as int)
            }),
            final(self).same_tasks_except(*old(self), old(self).g_losTask.runTask as int),
            final(self).same_but_timing(*old(self)),
            final(self).same_sched(*old(self)),
    {
        self.OsSchedYield();
        LOS_OK
    }

    /// The task switch record at `index` (`LOS_TaskSwitchInfoGet`); switch
    /// recording is not configured, so the record is all zero: the switch
    /// count and the name bytes.
    pub fn LOS_TaskSwitchInfoGet(&self, index: u32) -> (r: (u32, Vec<u8>))
        ensures
            r.0 == 0,
            r.1@.len() == LOS_TASK_NAMELEN,
            forall|k: int| 0 <= k < r.1@.len() ==> #[trigger] r.1@[k] == 0,
    {
        let mut name: Vec<u8> = Vec::new();
        let mut k: u32 = 0;
        while k < LOS_TASK_NAMELEN
            invariant
                k <= LOS_TASK_NAMELEN,
                name@.len() == k,
                forall|j: int| 0 <= j < k ==> #[trigger] name@[j] == 0,
            decreases LOS_TASK_NAMELEN - k,
        {
            name.push(0);
            k = k + 1;
        }
        (0, name)
    }
}

/// The task switch monitor (`OsTaskSwitchCheck`); it is not configured, so
/// there is nothing to check.
pub fn OsTaskSwitchCheck() {
}

/// Sets up the task switch monitor (`OsTaskMonInit`); it is not
/// configured, so there is nothing to set up.
pub fn OsTaskMonInit() {
}


/// Whether `t` is the spare control block of a kernel of `max` tasks right
/// after `OsTaskInit`: all zero but its id `max`, unused and running, and
/// below the lowest priority.
pub open spec fn is_spare_init(t: LosTaskCB, max: u32) -> bool {
    &&& t.taskID == max
    &&& t.taskStatus == OS_TASK_STATUS_UNUSED | OS_TASK_STATUS_RUNNING
    &&& t.priority == OS_TASK_PRIORITY_LOWEST + 1
    &&& t.stackPointer == 0
    &&& t.timeSlice == 0
    &&& t.waitTimes == 0
    &&& t.sortList == (SortLinkList { sortLinkNode: 0, responseTime: 0 })
    &&& t.startTime == 0
    &&& t.stackSize == 0
    &&& t.topOfStack == 0
    &&& t.taskEntry is None
    &&& t.taskName == 0
    &&& t.pendList == ListRef::Unlinked
    &&& t.joinRetval == 0
    &&& t.event.uwEventID == 0
    &&& t.event.stEventList@.len() == 0
}

/// The state `OsTaskInit` leaves: every task control block free and on the
/// free list in id order, the spare block running, no task scheduled, all
/// lists empty, the scheduler set up on the clock of `tick`, and
/// `wait_lists` pend lists for the IPC objects.
pub open spec fn task_init_state(k: LosKernel, tick: TickState, wait_lists: u32) -> bool {
    let max = (LOSCFG_BASE_CORE_TSK_LIMIT + 1) as u32;
    &&& k.wf()
    &&& k.g_taskMaxNum == max
    &&& forall|i: int| 0 <= i < max ==> is_free_tcb(#[trigger] k.tcb(i), i as u32)
    &&& is_spare_init(k.tcb(max as int), max)
    &&& k.g_losFreeTask@ == Seq::new(max as nat, |i: int| i as u32)
    &&& k.g_taskRecycleList@.len() == 0
    &&& k.g_losTask == (LosTask { runTask: max, newTask: None })
    &&& k.g_losTaskLock == 0
    &&& k.g_idleTaskID == OS_INVALID
    &&& k.g_swtmrTaskID == OS_INVALID
    &&& !k.g_taskScheduled
    &&& k.pm_enter is None
    &&& k.swtmr_scan is None
    &&& k.wait_lists@.len() == wait_lists
    &&& forall|w: int| 0 <= w < wait_lists ==> (#[trigger] k.wait_lists@[w]@).len() == 0
    &&& forall|t: int| 0 <= t <= max ==> (#[trigger] k.join_lists@[t]@).len() == 0
    &&& forall|p: int| 0 <= p < 32 ==> (#[trigger] k.queue(p)).len() == 0
    &&& k.queue_bitmap == 0
    &&& k.task_sort_link_ready
    &&& k.sort_links.g_taskSortLink@.len() == 0
    &&& k.sort_links.g_swtmrSortLink@.len() == 0
    &&& k.sched_response_time == OS_SCHED_MAX_RESPONSE_TIME
    &&& k.sched_response_id == 0
    &&& k.tick_int_lock == 0
    &&& k.tick == tick
}

/// An empty list head for each of `n` lists.
fn empty_lists(n: u32) -> (r: Vec<LOS_DL_LIST>)
    ensures
        r@.len() == n,
        forall|i: int| 0 <= i < n ==> (#[trigger] r@[i]@).len() == 0,
{
    let mut v: Vec<LOS_DL_LIST> = Vec::new();
    let mut i: u32 = 0;
    while i < n
        invariant
            i <= n,
            v@.len() == i,
            forall|j: int| 0 <= j < i ==> (#[trigger] v@[j]@).len() == 0,
        decreases n - i,
    {
        v.push(empty_list_node());
        i = i + 1;
    }
    v
}

/// Sets up the task manager (`OsTaskInit`) on the tick state `tick`, with
/// `wait_lists` pend lists for the IPC objects; `alloc_ok` tells whether
/// the memory for the task control blocks could be had
/// (`LOS_ERRNO_TSK_NO_MEMORY` when not).  Every task control block is
/// free and on the free list in id order, the spare block stands for the
/// running task, and the scheduler is set up (`OsSchedInit`).
pub fn OsTaskInit(tick: TickState, wait_lists: u32, alloc_ok: bool) -> (r: Result<LosKernel, u32>)
    ensures
        !alloc_ok ==> r is Err && r->Err_0 == LOS_ERRNO_TSK_NO_MEMORY,
        alloc_ok ==> (r matches Ok(k) && task_init_state(k, tick, wait_lists)),
{
    if !alloc_ok {
        return Err(LOS_ERRNO_TSK_NO_MEMORY);
    }
    let max: u32 = LOSCFG_BASE_CORE_TSK_LIMIT + 1;
    let mut tcbs: Vec<LosTaskCB> = Vec::new();
    let mut free = empty_list_node();
    let mut index: u32 = 0;
    while index <= LOSCFG_BASE_CORE_TSK_LIMIT
        invariant
            max == LOSCFG_BASE_CORE_TSK_LIMIT + 1,
            index <= max,
            tcbs@.len() == index,
            forall|i: int| 0 <= i < index ==> is_free_tcb(#[trigger] tcbs@[i], i as u32),
            free@ == Seq::new(index as nat, |i: int| i as u32),
        decreases max - index,
    {
        tcbs.push(free_tcb(index));
        free.LOS_ListTailInsert(index);
        proof {
            assert(free@ =~= Seq::new((index + 1) as nat, |i: int| i as u32));
        }
        index = index + 1;
    }
    let spare = LosTaskCB {
        stackPointer: 0,
        taskStatus: OS_TASK_STATUS_UNUSED | OS_TASK_STATUS_RUNNING,
        priority: (OS_TASK_PRIORITY_LOWEST + 1) as u16,
        timeSlice: 0,
        waitTimes: 0,
        sortList: SortLinkList { sortLinkNode: 0, responseTime: 0 },
        startTime: 0,
        stackSize: 0,
        topOfStack: 0,
        taskID: index,
        taskEntry: None,
        taskSem: 0,
        taskMux: 0,
        arg: 0,
        taskName: 0,
        pendList: ListRef::Unlinked,
        joinRetval: 0,
        event: EVENT_CB_S { uwEventID: 0, stEventList: empty_list_node() },
        eventMask: 0,
        eventMode: 0,
        msg: 0,
        errorNo: 0,
    };
    tcbs.push(spare);
    let mut k = LosKernel {
        g_taskCBArray: tcbs,
        g_taskMaxNum: max,
        g_losTask: LosTask { runTask: max, newTask: None },
        g_losTaskLock: 0,
        g_idleTaskID: OS_INVALID,
        g_swtmrTaskID: OS_INVALID,
        g_losFreeTask: free,
        g_taskRecycleList: empty_list_node(),
        g_taskScheduled: false,
        pm_enter: None,
        wait_lists: empty_lists(wait_lists),
        join_lists: empty_lists(max + 1),
        swtmr_scan: None,
        task_sort_link_ready: false,
        pri_queue_list: empty_lists(32),
        sched_hooks: Vec::new(),
        queue_bitmap: 0,
        sched_response_id: 0,
        tick_int_lock: 0,
        sched_response_time: OS_SCHED_MAX_RESPONSE_TIME,
        sched_time_slice: 0,
        sched_time_slice_min: 0,
        sched_tick_min_period: 0,
        tick_response_precision: 0,
        sort_links: SortLinks::new(),
        tick,
    };
    proof {
        assert((1u16 | 0x10u16) & 0x0101u16 != 0) by (bit_vector);
        assert(k.tcb(max as int) == spare);
        assert forall|p: int| 0 <= p < 32 implies (#[trigger] bit_set(k.queue_bitmap, p) <==> k.queue(p).len() > 0) by {
            crate::sched::lemma_zero_bitmap_bit(p as u32);
        }
        assert forall|i: int| 0 <= i <= k.g_taskMaxNum implies k.valid_ref(#[trigger] k.tcb(i).pendList) by {
            if i < max {
                assert(is_free_tcb(k.tcb(i), i as u32));
            }
        }
        assert forall|i: int| 0 <= i <= k.g_taskMaxNum implies (#[trigger] k.tcb(i)).sortList.sortLinkNode
            < k.g_taskMaxNum by {
            if i < max {
                assert(is_free_tcb(k.tcb(i), i as u32));
            }
        }
        assert(k.wf());
    }
    let ghost before = k;
    let _ = k.OsSchedInit();
    proof {
        assert forall|i: int| 0 <= i < max implies is_free_tcb(#[trigger] k.tcb(i), i as u32) by {
            assert(k.tcb(i) == before.tcb(i));
        }
        assert forall|w: int| 0 <= w < wait_lists implies (#[trigger] k.wait_lists@[w]@).len() == 0 by {
            assert(k.wait_lists@[w]@ == before.wait_lists@[w]@);
        }
        assert forall|t: int| 0 <= t <= max implies (#[trigger] k.join_lists@[t]@).len() == 0 by {
            assert(k.join_lists@[t]@ == before.join_lists@[t]@);
        }
    }
    Ok(k)
}


/// What `OsTaskInitParamCheck` answers for the parameters `p` when the
/// idle task's entry is `idle_entry`.
pub open spec fn param_check_spec(p: TSK_INIT_PARAM_S, idle_entry: u32) -> u32 {
    if p.pcName == 0 {
        LOS_ERRNO_TSK_NAME_EMPTY
    } else if p.pfnTaskEntry is None {
        LOS_ERRNO_TSK_ENTRY_NULL
    } else if p.usTaskPrio > OS_TASK_PRIORITY_LOWEST {
        LOS_ERRNO_TSK_PRIOR_ERROR
    } else if p.usTaskPrio == OS_TASK_PRIORITY_LOWEST && p.pfnTaskEntry != Some(idle_entry) {
        LOS_ERRNO_TSK_PRIOR_ERROR
    } else if p.uwStackSize > LOSCFG_SYS_HEAP_SIZE {
        LOS_ERRNO_TSK_STKSZ_TOO_LARGE
    } else if p.uwStackSize != 0 && p.uwStackSize < LOSCFG_BASE_CORE_TSK_MIN_STACK_SIZE {
        LOS_ERRNO_TSK_STKSZ_TOO_SMALL
    } else {
        LOS_OK
    }
}

/// The stack size the parameters `p` ask for: the default for 0.
pub open spec fn requested_stack_size(p: TSK_INIT_PARAM_S) -> u32 {
    if p.uwStackSize == 0 { LOSCFG_BASE_CORE_TSK_DEFAULT_STACK_SIZE } else { p.uwStackSize }
}

/// The parameters after `OsTaskInitParamCheck`: a zero stack size is
/// replaced by the default once the checks before it have passed.
pub open spec fn checked_param(p: TSK_INIT_PARAM_S) -> TSK_INIT_PARAM_S {
    if p.pcName != 0 && p.pfnTaskEntry is Some && p.usTaskPrio <= OS_TASK_PRIORITY_LOWEST
        && p.uwStackSize == 0 {
        TSK_INIT_PARAM_S { uwStackSize: LOSCFG_BASE_CORE_TSK_DEFAULT_STACK_SIZE, ..p }
    } else {
        p
    }
}

/// Checks the parameters of a task to create (`OsTaskInitParamCheck`),
/// replacing a zero stack size by the default; `idle_entry` is the idle
/// task's entry, the only one allowed at the lowest priority.
pub fn OsTaskInitParamCheck(param: &mut TSK_INIT_PARAM_S, idle_entry: u32) -> (r: u32)
    ensures
        r == param_check_spec(*old(param), idle_entry),
        *final(param) == (if param_check_spec(*old(param), idle_entry) == LOS_ERRNO_TSK_PRIOR_ERROR {
            *old(param)
        } else {
            checked_param(*old(param))
        }),
{
    if param.pcName == 0 {
        return LOS_ERRNO_TSK_NAME_EMPTY;
    }
    if param.pfnTaskEntry.is_none() {
        return LOS_ERRNO_TSK_ENTRY_NULL;
    }
    if param.usTaskPrio as u32 > OS_TASK_PRIORITY_LOWEST {
        return LOS_ERRNO_TSK_PRIOR_ERROR;
    }
    if param.usTaskPrio as u32 == OS_TASK_PRIORITY_LOWEST {
        let is_idle = match param.pfnTaskEntry {
            Some(e) => e == idle_entry,
            None => false,
        };
        if !is_idle {
            return LOS_ERRNO_TSK_PRIOR_ERROR;
        }
    }
    if param.uwStackSize > LOSCFG_SYS_HEAP_SIZE {
        return LOS_ERRNO_TSK_STKSZ_TOO_LARGE;
    }
    if param.uwStackSize == 0 {
        param.uwStackSize = LOSCFG_BASE_CORE_TSK_DEFAULT_STACK_SIZE;
    }
    if param.uwStackSize < LOSCFG_BASE_CORE_TSK_MIN_STACK_SIZE {
        return LOS_ERRNO_TSK_STKSZ_TOO_SMALL;
    }
    LOS_OK
}

/// The number of bytes to allocate for the stack of a task created with
/// the parameters `p` when it brings no stack: the requested size rounded
/// up to the stack alignment.
pub open spec fn stack_alloc_size(p: TSK_INIT_PARAM_S) -> u32 {
    ((requested_stack_size(p) + 7) as u32) & !7u32
}

/// The number of bytes to allocate for the stack of a task created with
/// `param` when it brings no stack (`stackAddr` 0).
pub fn os_task_stack_alloc_size(param: &TSK_INIT_PARAM_S) -> (r: u32)
    requires
        param.uwStackSize <= LOSCFG_SYS_HEAP_SIZE,
    ensures
        r == stack_alloc_size(*param),
{
    let size = if param.uwStackSize == 0 {
        LOSCFG_BASE_CORE_TSK_DEFAULT_STACK_SIZE
    } else {
        param.uwStackSize
    };
    align(size, OS_TASK_STACK_ADDR_ALIGN)
}

/// Sets up an event control block with no event and no waiting task, as
/// `LOS_EventInit` does.
pub fn event_init(event: &mut EVENT_CB_S)
    ensures
        final(event).uwEventID == 0,
        final(event).stEventList@.len() == 0,
{
    event.uwEventID = 0;
    event.stEventList.LOS_ListInit();
}

/// The status of a task created with the parameters `p`: suspended,
/// joinable when asked for, and owning its stack when it brings none.
pub open spec fn new_task_status(p: TSK_INIT_PARAM_S) -> u16 {
    let s1 = if p.uwResved & LOS_TASK_ATTR_JOINABLE != 0 {
        OS_TASK_STATUS_SUSPEND | OS_TASK_FLAG_JOINABLE
    } else {
        OS_TASK_STATUS_SUSPEND
    };
    if p.stackAddr == 0 { s1 | OS_TASK_FLAG_STACK_FREE } else { s1 }
}

/// Whether `t` is task `tid` as `OsNewTaskInit` sets it up from the
/// parameters `p` (after `OsTaskInitParamCheck`), with `stack_mem` the
/// memory allocated for a task that brings no stack.
pub open spec fn is_new_task(t: LosTaskCB, tid: u32, p: TSK_INIT_PARAM_S, stack_mem: u32) -> bool {
    &&& t.taskID == tid
    &&& t.arg == p.uwArg
    &&& t.taskSem == 0
    &&& t.taskMux == 0
    &&& t.taskStatus == new_task_status(p)
    &&& t.priority == p.usTaskPrio
    &&& t.timeSlice == 0
    &&& t.waitTimes == 0
    &&& t.taskEntry == p.pfnTaskEntry
    &&& t.event.uwEventID == 0
    &&& t.event.stEventList@.len() == 0
    &&& t.eventMask == 0
    &&& t.taskName == p.pcName
    &&& t.msg == 0
    &&& t.errorNo == 0
    &&& t.sortList == (SortLinkList { sortLinkNode: tid, responseTime: OS_SORT_LINK_INVALID_TIME })
    &&& p.stackAddr == 0 ==> t.topOfStack == stack_mem && t.stackSize == ((p.uwStackSize + 7) as u32) & !7u32
    &&& p.stackAddr != 0 ==> {
        &&& t.topOfStack == ((p.stackAddr + 7) as u32) & !7u32
        &&& t.stackSize == ((p.uwStackSize - (t.topOfStack - p.stackAddr)) as u32) & !7u32
    }
}

/// Parameters `OsNewTaskInit` accepts: checked, and a stack address that
/// can be aligned without overflow.
pub open spec fn param_valid(p: TSK_INIT_PARAM_S) -> bool {
    &&& LOSCFG_BASE_CORE_TSK_MIN_STACK_SIZE <= p.uwStackSize <= LOSCFG_SYS_HEAP_SIZE
    &&& p.stackAddr == 0 || p.stackAddr + 7 <= u32::MAX
}

/// How a new task's stack is to be prepared, which the memory owner does:
/// every word of `[top, top + size)` set to `fill`, then the word at `top`
/// set to `magic`, then the first context written (`ArchTskStackInit`),
/// whose stack pointer is handed back with `os_task_stack_ready`.
pub struct StackSetup {
    pub top: u32,
    pub size: u32,
    pub fill: u32,
    pub magic: u32,
}

/// The stack preparation of the control block `t`: filled with
/// `OS_TASK_STACK_INIT`, topped with `OS_TASK_MAGIC_WORD`.
pub open spec fn stack_setup_of(t: LosTaskCB) -> StackSetup {
    StackSetup { top: t.topOfStack, size: t.stackSize, fill: OS_TASK_STACK_INIT, magic: OS_TASK_MAGIC_WORD }
}

impl LosKernel {
    /// Sets up the control block of task `tid` from the parameters
    /// (`OsNewTaskInit`): a task that brings no stack gets `stack_mem`
    /// (`LOS_ERRNO_TSK_NO_MEMORY` when 0) and owns it, one that brings a
    /// stack gets it aligned; a joinable task gets an empty join list.  On
    /// success the stack preparation is returned (see `StackSetup`).
    pub fn OsNewTaskInit(&mut self, tid: u32, param: &TSK_INIT_PARAM_S, stack_mem: u32) -> (r: Result<
        StackSetup,
        u32,
    >)
        requires
            old(self).wf(),
            tid < old(self).g_taskMaxNum,
            param_valid(*param),
        ensures
            final(self).wf(),
            param.stackAddr == 0 && stack_mem == 0 ==> r == Err::<StackSetup, u32>(LOS_ERRNO_TSK_NO_MEMORY),
            !(param.stackAddr == 0 && stack_mem == 0) ==> {
                &&& is_new_task(final(self).tcb(tid as int), tid, *param, stack_mem)
                &&& r == Ok::<StackSetup, u32>(stack_setup_of(final(self).tcb(tid as int)))
            },
            final(self).tcb(tid as int).pendList == old(self).tcb(tid as int).pendList,
            param.uwResved & LOS_TASK_ATTR_JOINABLE != 0 ==> final(self).join_lists@[tid as int]@.len() == 0,
            param.uwResved & LOS_TASK_ATTR_JOINABLE == 0 ==> final(self).join_lists@[tid as int]@ == old(
                self,
            ).join_lists@[tid as int]@,
            lists_same_but_free(*old(self), *final(self), tid as int),
            final(self).g_losFreeTask@ == old(self).g_losFreeTask@,
            final(self).same_tasks_except(*old(self), tid as int),
            final(self).same_sched(*old(self)),
            final(self).same_task_globals(*old(self)),
    {
        let ghost before = *self;
        proof {
            assert(is_pow2(8u32)) by (bit_vector);
        }
        let t = tid as usize;
        self.g_taskCBArray[t].arg = param.uwArg;
        self.g_taskCBArray[t].stackSize = param.uwStackSize;
        self.g_taskCBArray[t].taskSem = 0;
        self.g_taskCBArray[t].taskMux = 0;
        self.g_taskCBArray[t].taskStatus = OS_TASK_STATUS_SUSPEND;
        self.g_taskCBArray[t].priority = param.usTaskPrio;
        self.g_taskCBArray[t].timeSlice = 0;
        self.g_taskCBArray[t].waitTimes = 0;
        self.g_taskCBArray[t].taskEntry = param.pfnTaskEntry;
        self.g_taskCBArray[t].event.uwEventID = OS_NULL_INT;
        self.g_taskCBArray[t].eventMask = 0;
        self.g_taskCBArray[t].taskName = param.pcName;
        self.g_taskCBArray[t].msg = 0;
        self.g_taskCBArray[t].errorNo = 0;
        self.g_taskCBArray[t].sortList.responseTime = OS_SORT_LINK_INVALID_TIME;
        event_init(&mut self.g_taskCBArray[t].event);
        let joinable = (param.uwResved & LOS_TASK_ATTR_JOINABLE) != 0;
        if joinable {
            self.g_taskCBArray[t].taskStatus = OS_TASK_STATUS_SUSPEND | OS_TASK_FLAG_JOINABLE;
            self.join_lists[t].LOS_ListInit();
        }
        let ghost mid = *self;
        let mut ret = LOS_OK;
        if param.stackAddr == 0 {
            self.g_taskCBArray[t].stackSize = align(param.uwStackSize, OS_TASK_STACK_ADDR_ALIGN);
            self.g_taskCBArray[t].topOfStack = stack_mem;
            if stack_mem == 0 {
                ret = LOS_ERRNO_TSK_NO_MEMORY;
            } else {
                let st = self.g_taskCBArray[t].taskStatus;
                self.g_taskCBArray[t].taskStatus = st | OS_TASK_FLAG_STACK_FREE;
            }
        } else {
            let top = align(param.stackAddr, LOSCFG_STACK_POINT_ALIGN_SIZE);
            self.g_taskCBArray[t].topOfStack = top;
            let size = param.uwStackSize - (top - param.stackAddr);
            self.g_taskCBArray[t].stackSize = truncate(size, OS_TASK_STACK_ADDR_ALIGN);
        }
        proof {
            assert forall|t2: int| 0 <= t2 < self.join_lists@.len() implies self.ids_valid(
                #[trigger] self.join_lists@[t2]@) by {
                if t2 != tid {
                    assert(self.join_lists@[t2] == before.join_lists@[t2]);
                }
            }
            assert forall|t2: int| 0 <= t2 < self.join_lists@.len() && t2 != tid implies #[trigger] before.join_lists@[t2]@
                == self.join_lists@[t2]@ by {
                assert(self.join_lists@[t2] == before.join_lists@[t2]);
            }
            assert(self.tcb(self.g_taskMaxNum as int) == before.tcb(self.g_taskMaxNum as int));
        }
        if ret != LOS_OK {
            return Err(ret);
        }
        Ok(StackSetup {
            top: self.g_taskCBArray[t].topOfStack,
            size: self.g_taskCBArray[t].stackSize,
            fill: OS_TASK_STACK_INIT,
            magic: OS_TASK_MAGIC_WORD,
        })
    }

    /// Records the stack pointer of task `tid` once its stack is filled and
    /// its first context is set up.
    pub fn os_task_stack_ready(&mut self, tid: u32, stack_pointer: u32)
        requires
            old(self).wf(),
            tid <= old(self).g_taskMaxNum,
        ensures
            final(self).wf(),
            final(self).tcb(tid as int) == (LosTaskCB { stackPointer: stack_pointer, ..old(self).tcb(tid as int) }),
            final(self).same_tasks_except(*old(self), tid as int),
            final(self).same_but_timing(*old(self)),
            final(self).same_sched(*old(self)),
    {
        self.g_taskCBArray[tid as usize].stackPointer = stack_pointer;
    }
}


/// The ready queues are the same along a chain of states.
proof fn lemma_queues_chain(a: LosKernel, b: LosKernel, c: LosKernel)
    requires
        b.same_queues(a),
        c.same_queues(b),
    ensures
        c.same_queues(a),
{
    assert forall|p: int| 0 <= p < 32 implies #[trigger] c.queue(p) == a.queue(p) by {
        assert(c.queue(p) == b.queue(p));
    }
}

/// What creating a task answers: the result code, the new task's id, the
/// stacks of recycled tasks to free, the new task's stack preparation, and
/// whether a rescheduling follows.
pub struct TaskCreateReply {
    pub ret: u32,
    pub task_id: u32,
    pub freed_stacks: Vec<u32>,
    pub stack: Option<StackSetup>,
    pub schedule: bool,
}

/// Whether a control block is to be had after recycling: one is free, or
/// a recycled task that is not joinable frees one.
pub open spec fn tcb_available(k: LosKernel) -> bool {
    k.g_losFreeTask@.len() > 0 || exists|j: u32| #[trigger] k.g_taskRecycleList@.contains(j) && !k.has(
        j as int,
        OS_TASK_FLAG_JOINABLE,
    )
}

/// The result code of creating a task with the parameters `p` in the
/// kernel `k`, with `stack_mem` allocated for a task that brings no stack.
pub open spec fn create_ret_spec(k: LosKernel, p: TSK_INIT_PARAM_S, idle_entry: u32, stack_mem: u32) -> u32 {
    if param_check_spec(p, idle_entry) != LOS_OK {
        param_check_spec(p, idle_entry)
    } else if !tcb_available(k) {
        LOS_ERRNO_TSK_TCB_UNAVAILABLE
    } else if p.stackAddr == 0 && stack_mem == 0 {
        LOS_ERRNO_TSK_NO_MEMORY
    } else {
        LOS_OK
    }
}

impl LosKernel {
    /// Creates a task without making it ready (`LOS_TaskCreateOnly`): the
    /// parameters are checked, finished tasks are recycled, the first free
    /// control block is taken and set up (`OsNewTaskInit`), and given back
    /// when that fails.  The new task is suspended.  `stack_mem` is the
    /// memory allocated (`os_task_stack_alloc_size` bytes) for a task that
    /// brings no stack, 0 when none could be had.
    pub fn LOS_TaskCreateOnly(
        &mut self,
        param: &mut TSK_INIT_PARAM_S,
        idle_entry: u32,
        stack_mem: u32,
    ) -> (r: TaskCreateReply)
        requires
            old(self).wf(),
            old(param).stackAddr == 0 || old(param).stackAddr + 7 <= u32::MAX,
        ensures
            final(self).wf(),
            r.ret == create_ret_spec(*old(self), *old(param), idle_entry, stack_mem),
            !r.schedule,
            param_check_spec(*old(param), idle_entry) != LOS_OK ==> *final(self) == *old(self)
                && r.freed_stacks@.len() == 0,
            param_check_spec(*old(param), idle_entry) == LOS_OK ==> {
                &&& *final(param) == checked_param(*old(param))
                &&& r.freed_stacks@.len() == old(self).g_taskRecycleList@.len()
                &&& final(self).g_taskRecycleList@.len() == 0
            },
            r.ret != LOS_OK ==> r.task_id == 0 && r.stack is None,
            param_check_spec(*old(param), idle_entry) == LOS_OK ==> exists|f: Seq<u32>| {
                &&& #[trigger] recycled_free_list(*old(self), f)
                &&& r.ret == LOS_OK ==> f.len() > 0 && f[0] == r.task_id && final(self).g_losFreeTask@
                    == f.subrange(1, f.len() as int)
                &&& r.ret != LOS_OK ==> final(self).g_losFreeTask@ == f
            },
            param_check_spec(*old(param), idle_entry) == LOS_OK && tcb_available(*old(self)) && old(param).stackAddr
                == 0 && stack_mem == 0 ==> {
                let id = match last_freed(
                    old(self).g_taskRecycleList@,
                    *old(self),
                    old(self).g_taskRecycleList@.len() as int,
                ) {
                    Some(j) => j,
                    None => old(self).g_losFreeTask@[0],
                };
                &&& final(self).g_losFreeTask@.len() > 0
                &&& final(self).g_losFreeTask@[0] == id
                &&& is_free_tcb(final(self).tcb(id as int), id)
            },
            r.ret == LOS_OK ==> {
                &&& r.task_id < old(self).g_taskMaxNum
                &&& r.task_id == match last_freed(
                    old(self).g_taskRecycleList@,
                    *old(self),
                    old(self).g_taskRecycleList@.len() as int,
                ) {
                    Some(j) => j,
                    None => old(self).g_losFreeTask@[0],
                }
                &&& is_new_task(final(self).tcb(r.task_id as int), r.task_id, *final(param), stack_mem)
                &&& final(self).tcb(r.task_id as int).pendList == ListRef::Unlinked
                &&& r.stack == Some(stack_setup_of(final(self).tcb(r.task_id as int)))
            },
            final(self).same_task_globals(*old(self)),
            final(self).same_queues(*old(self)),
            final(self).same_sched(*old(self)),
    {
        let ret = OsTaskInitParamCheck(param, idle_entry);
        if ret != LOS_OK {
            return TaskCreateReply { ret, task_id: 0, freed_stacks: Vec::new(), stack: None, schedule: false };
        }
        let ghost o = *self;
        let freed = self.OsRecycleFinishedTask();
        let ghost g1 = *self;
        proof {
            assert(recycled_free_list(o, g1.g_losFreeTask@));
            if o.g_losFreeTask@.len() > 0 {
                assert(self.g_losFreeTask@.len() > 0);
            }
            if exists|j: u32| #[trigger] o.g_taskRecycleList@.contains(j) && !o.has(j as int, OS_TASK_FLAG_JOINABLE) {
                let j = choose|j: u32| #[trigger] o.g_taskRecycleList@.contains(j) && !o.has(j as int, OS_TASK_FLAG_JOINABLE);
                assert(self.g_losFreeTask@.contains(j));
            }
            if self.g_losFreeTask@.len() > 0 && o.g_losFreeTask@.len() == 0 {
                let j = self.g_losFreeTask@[0];
                assert(o.g_taskRecycleList@.contains(j) && !o.has(j as int, OS_TASK_FLAG_JOINABLE));
            }
        }
        if self.g_losFreeTask.LOS_ListEmpty() {
            return TaskCreateReply { ret: LOS_ERRNO_TSK_TCB_UNAVAILABLE, task_id: 0, freed_stacks: freed, stack: None, schedule: false };
        }
        let first = self.g_losFreeTask.get(0);
        proof {
            lemma_remove_first(self.g_losFreeTask@);
            let d = self.g_losFreeTask@.len() - o.g_losFreeTask@.len();
            if d > 0 {
                assert(o.g_taskRecycleList@.contains(first) && !o.has(first as int, OS_TASK_FLAG_JOINABLE));
            } else {
                assert(self.g_losFreeTask@.subrange(0, self.g_losFreeTask@.len() as int) == o.g_losFreeTask@);
                assert(o.g_losFreeTask@[0] == first);
            }
        }
        let ghost before_del = *self;
        self.g_losFreeTask.LOS_ListDelete(first);
        self.g_taskCBArray[first as usize].pendList = ListRef::Unlinked;
        proof {
            assert(self.ids_valid(self.g_losFreeTask@)) by {
                assert forall|k: int| 0 <= k < self.g_losFreeTask@.len() implies #[trigger] self.g_losFreeTask@[k]
                    < self.g_taskMaxNum by {
                    assert(self.g_losFreeTask@[k] == before_del.g_losFreeTask@[k + 1]);
                }
            }
            assert(self.tcb(self.g_taskMaxNum as int) == before_del.tcb(self.g_taskMaxNum as int));
        }
        let ghost g2 = *self;
        let init = self.OsNewTaskInit(first, param, stack_mem);
        let ghost g3 = *self;
        proof {
            lemma_queues_chain(o, g1, g2);
            lemma_queues_chain(o, g2, g3);
        }
        match init {
            Err(ret) => {
                self.OsInsertTCBToFreeList(first);
                proof {
                    lemma_queues_chain(o, g3, *self);
                    let f = g1.g_losFreeTask@;
                    assert(self.g_losFreeTask@ =~= f);
                }
                TaskCreateReply { ret, task_id: 0, freed_stacks: freed, stack: None, schedule: false }
            },
            Ok(setup) => TaskCreateReply {
                ret: LOS_OK,
                task_id: first,
                freed_stacks: freed,
                stack: Some(setup),
                schedule: false,
            },
        }
    }

    /// Creates a task and makes it ready (`LOS_TaskCreate`): as
    /// `LOS_TaskCreateOnly`, then the task joins its ready queue and a
    /// rescheduling follows once the scheduler runs.
    pub fn LOS_TaskCreate(&mut self, param: &mut TSK_INIT_PARAM_S, idle_entry: u32, stack_mem: u32) -> (r:
        TaskCreateReply)
        requires
            old(self).wf(),
            old(param).stackAddr == 0 || old(param).stackAddr + 7 <= u32::MAX,
        ensures
            final(self).wf(),
            r.ret == create_ret_spec(*old(self), *old(param), idle_entry, stack_mem),
            r.schedule == (r.ret == LOS_OK && old(self).g_taskScheduled),
            param_check_spec(*old(param), idle_entry) != LOS_OK ==> *final(self) == *old(self)
                && r.freed_stacks@.len() == 0,
            param_check_spec(*old(param), idle_entry) == LOS_OK ==> {
                &&& *final(param) == checked_param(*old(param))
                &&& r.freed_stacks@.len() == old(self).g_taskRecycleList@.len()
            },
            r.ret == LOS_OK ==> {
                &&& r.task_id < old(self).g_taskMaxNum
                &&& r.task_id == match last_freed(
                    old(self).g_taskRecycleList@,
                    *old(self),
                    old(self).g_taskRecycleList@.len() as int,
                ) {
                    Some(j) => j,
                    None => old(self).g_losFreeTask@[0],
                }
                &&& final(self).tcb(r.task_id as int).taskStatus == ready_status(new_task_status(*final(param)))
                &&& is_new_task(
                    LosTaskCB {
                        taskStatus: new_task_status(*final(param)),
                        timeSlice: 0,
                        ..final(self).tcb(r.task_id as int)
                    },
                    r.task_id,
                    *final(param),
                    stack_mem,
                )
                &&& final(self).tcb(r.task_id as int).priority == final(param).usTaskPrio
                &&& r.task_id != old(self).g_idleTaskID ==> final(self).queue(
                    ((final(param).usTaskPrio as u32) % 32) as int,
                ).contains(r.task_id)
                &&& r.task_id != old(self).g_idleTaskID ==> old(self).queues_after_enqueue(
                    *final(self),
                    r.task_id,
                    final(param).usTaskPrio as u32,
                    0 > old(self).sched_time_slice_min,
                )
                &&& r.stack == Some(stack_setup_of(final(self).tcb(r.task_id as int)))
            },
            final(self).same_task_globals(*old(self)),
    {
        let mut reply = self.LOS_TaskCreateOnly(param, idle_entry, stack_mem);
        if reply.ret != LOS_OK {
            return reply;
        }
        let tid = reply.task_id;
        let ghost mid = *self;
        self.OsSchedTaskEnQueue(tid);
        proof {
            if tid != mid.g_idleTaskID {
                assert(mid.same_queues(*old(self)));
                let q = ((mid.tcb(tid as int).priority as u32) % 32) as int;
                if mid.tcb(tid as int).timeSlice > mid.sched_time_slice_min {
                    assert(self.queue(q)[0] == tid);
                } else {
                    assert(self.queue(q)[self.queue(q).len() - 1] == tid);
                }
            }
        }
        reply.schedule = self.g_taskScheduled;
        reply
    }

    /// Creates the idle task (`OsIdleTaskCreate`) with the entry
    /// `idle_entry`, the name at `name`, the idle stack size and the lowest
    /// priority, records its id and puts it on the scheduler.
    pub fn OsIdleTaskCreate(&mut self, idle_entry: u32, name: u32, stack_mem: u32) -> (r: TaskCreateReply)
        requires
            old(self).wf(),
        ensures
            final(self).wf(),
            r.ret == create_ret_spec(*old(self), idle_param(idle_entry, name), idle_entry, stack_mem),
            r.ret == LOS_OK ==> {
                &&& final(self).g_idleTaskID == r.task_id
                &&& r.task_id < final(self).g_taskMaxNum
                &&& final(self).has(r.task_id as int, OS_TASK_STATUS_READY)
                &&& final(self).tcb(r.task_id as int).priority == OS_TASK_PRIORITY_LOWEST
                &&& final(self).tcb(r.task_id as int).taskEntry == Some(idle_entry)
            },
            r.ret != LOS_OK ==> final(self).g_idleTaskID == old(self).g_idleTaskID,
    {
        let mut param = TSK_INIT_PARAM_S {
            pfnTaskEntry: Some(idle_entry),
            usTaskPrio: OS_TASK_PRIORITY_LOWEST as u16,
            uwArg: 0,
            stackAddr: 0,
            uwStackSize: LOSCFG_BASE_CORE_TSK_IDLE_STACK_SIZE,
            pcName: name,
            uwResved: 0,
        };
        let reply = self.LOS_TaskCreateOnly(&mut param, idle_entry, stack_mem);
        if reply.ret != LOS_OK {
            return reply;
        }
        let tid = reply.task_id;
        self.g_idleTaskID = tid;
        self.OsSchedSetIdleTaskSchedParam(tid);
        proof {
            let s0 = new_task_status(param);
            assert(ready_status(s0) & 4u16 != 0) by (bit_vector);
        }
        reply
    }
}

/// The parameters of the idle task: entry `idle_entry`, name at `name`, the
/// idle stack size and the lowest priority.
pub open spec fn idle_param(idle_entry: u32, name: u32) -> TSK_INIT_PARAM_S {
    TSK_INIT_PARAM_S {
        pfnTaskEntry: Some(idle_entry),
        usTaskPrio: OS_TASK_PRIORITY_LOWEST as u16,
        uwArg: 0,
        stackAddr: 0,
        uwStackSize: LOSCFG_BASE_CORE_TSK_IDLE_STACK_SIZE,
        pcName: name,
        uwResved: 0,
    }
}


/// What a task operation answers: the result code, whether a rescheduling
/// follows, and a stack to free (0 for none).
pub struct TaskReply {
    pub ret: u32,
    pub schedule: bool,
    pub stack: u32,
}

/// The result code of resuming task `tid` in the kernel `k`.
pub open spec fn resume_ret_spec(k: LosKernel, tid: u32) -> u32 {
    if tid >= k.g_taskMaxNum {
        LOS_ERRNO_TSK_ID_INVALID
    } else if k.has(tid as int, OS_TASK_STATUS_UNUSED) {
        LOS_ERRNO_TSK_NOT_CREATED
    } else if !k.has(tid as int, OS_TASK_STATUS_SUSPEND) {
        LOS_ERRNO_TSK_NOT_SUSPENDED
    } else {
        LOS_OK
    }
}

/// The result code of suspending task `tid` in the kernel `k`.
pub open spec fn suspend_ret_spec(k: LosKernel, tid: u32) -> u32 {
    if task_id_check_spec(k, tid) != LOS_OK {
        task_id_check_spec(k, tid)
    } else if k.has(tid as int, OS_TASK_STATUS_UNUSED) {
        LOS_ERRNO_TSK_NOT_CREATED
    } else if k.has(tid as int, OS_TASK_FLAG_SYSTEM_TASK) {
        LOS_ERRNO_TSK_OPERATE_SYSTEM_TASK
    } else if k.has(tid as int, OS_TASK_STATUS_SUSPEND) {
        LOS_ERRNO_TSK_ALREADY_SUSPENDED
    } else if k.has(tid as int, OS_TASK_STATUS_RUNNING) && k.g_losTaskLock != 0 {
        LOS_ERRNO_TSK_SUSPEND_LOCKED
    } else {
        LOS_OK
    }
}

impl LosKernel {
    /// Resumes the suspended task `tid` (`LOS_TaskResume`) at cycle count
    /// `curr_time`: it is no longer suspended, and made ready unless it is
    /// delayed or pending; a rescheduling follows when it was made ready
    /// and the scheduler runs.
    pub fn LOS_TaskResume(&mut self, tid: u32, curr_time: u64) -> (r: TaskReply)
        requires
            old(self).wf(),
        ensures
            final(self).wf(),
            r.ret == resume_ret_spec(*old(self), tid),
            r.stack == 0,
            r.ret != LOS_OK ==> *final(self) == *old(self) && !r.schedule,
            r.ret == LOS_OK ==> {
                let base = old(self).resume_base_status(tid, curr_time);
                let ready = base & 0x0028u16 == 0;
                &&& !final(self).has(tid as int, OS_TASK_STATUS_SUSPEND)
                &&& r.schedule == (ready && old(self).g_taskScheduled)
                &&& final(self).status(tid as int) == if ready { ready_status(base) } else { base }
                &&& final(self).tcb(tid as int).priority == old(self).tcb(tid as int).priority
                &&& !old(self).has(tid as int, OS_TASK_FLAG_FREEZE) && ready && tid != old(self).g_idleTaskID
                    ==> old(self).queues_after_enqueue(
                    *final(self),
                    tid,
                    old(self).tcb(tid as int).priority as u32,
                    old(self).tcb(tid as int).timeSlice > old(self).sched_time_slice_min,
                )
                &&& !old(self).has(tid as int, OS_TASK_FLAG_FREEZE) && !ready ==> {
                    &&& final(self).tcb(tid as int) == (LosTaskCB { taskStatus: base, ..old(self).tcb(tid as int) })
                    &&& final(self).same_queues(*old(self))
                    &&& final(self).same_aux_lists(*old(self))
                    &&& final(self).sort_links.g_taskSortLink@ == old(self).sort_links.g_taskSortLink@
                }
                &&& final(self).same_tasks_except(*old(self), tid as int)
                &&& final(self).same_task_globals(*old(self))
            },
    {
        if tid >= self.g_taskMaxNum {
            return TaskReply { ret: LOS_ERRNO_TSK_ID_INVALID, schedule: false, stack: 0 };
        }
        let st = self.g_taskCBArray[tid as usize].taskStatus;
        if (st & OS_TASK_STATUS_UNUSED) != 0 {
            return TaskReply { ret: LOS_ERRNO_TSK_NOT_CREATED, schedule: false, stack: 0 };
        }
        if (st & OS_TASK_STATUS_SUSPEND) == 0 {
            return TaskReply { ret: LOS_ERRNO_TSK_NOT_SUSPENDED, schedule: false, stack: 0 };
        }
        let need_sched = self.OsSchedResume(tid, curr_time);
        TaskReply { ret: LOS_OK, schedule: need_sched && self.g_taskScheduled, stack: 0 }
    }

    /// Suspends task `tid` (`LOS_TaskSuspend`): a ready task leaves its
    /// ready queue and the task is marked suspended; a rescheduling follows
    /// when it is the running task.
    pub fn LOS_TaskSuspend(&mut self, tid: u32) -> (r: TaskReply)
        requires
            old(self).wf(),
        ensures
            final(self).wf(),
            r.ret == suspend_ret_spec(*old(self), tid),
            r.stack == 0,
            r.ret != LOS_OK ==> *final(self) == *old(self) && !r.schedule,
            r.ret == LOS_OK ==> {
                &&& final(self).status(tid as int) == (if old(self).has(tid as int, OS_TASK_STATUS_READY) {
                    old(self).status(tid as int) & !OS_TASK_STATUS_READY
                } else {
                    old(self).status(tid as int)
                }) | OS_TASK_STATUS_SUSPEND
                &&& old(self).has(tid as int, OS_TASK_STATUS_READY) ==> old(self).queues_after_delete(
                    *final(self),
                    tid,
                    old(self).tcb(tid as int).priority as u32,
                )
                &&& !old(self).has(tid as int, OS_TASK_STATUS_READY) ==> final(self).same_queues(*old(self))
                &&& final(self).tcb(tid as int).priority == old(self).tcb(tid as int).priority
                &&& final(self).sched_hooks@ == old(self).sched_hooks@.push(SchedHook::MovedTaskToSuspended(tid))
                &&& r.schedule == (tid == old(self).tcb(old(self).g_losTask.runTask as int).taskID)
                &&& final(self).same_tasks_except(*old(self), tid as int)
                &&& final(self).same_task_globals(*old(self))
                &&& final(self).same_aux_lists(*old(self))
            },
    {
        let ret = self.OsCheckTaskIDValid(tid);
        if ret != LOS_OK {
            return TaskReply { ret, schedule: false, stack: 0 };
        }
        let st = self.g_taskCBArray[tid as usize].taskStatus;
        let mut err = LOS_OK;
        if (st & OS_TASK_STATUS_UNUSED) != 0 {
            err = LOS_ERRNO_TSK_NOT_CREATED;
        } else if (st & OS_TASK_FLAG_SYSTEM_TASK) != 0 {
            err = LOS_ERRNO_TSK_OPERATE_SYSTEM_TASK;
        } else if (st & OS_TASK_STATUS_SUSPEND) != 0 {
            err = LOS_ERRNO_TSK_ALREADY_SUSPENDED;
        } else if (st & OS_TASK_STATUS_RUNNING) != 0 && self.g_losTaskLock != 0 {
            err = LOS_ERRNO_TSK_SUSPEND_LOCKED;
        }
        if err != LOS_OK {
            return TaskReply { ret: err, schedule: false, stack: 0 };
        }
        let run_id = self.g_taskCBArray[self.g_losTask.runTask as usize].taskID;
        self.OsSchedSuspend(tid);
        TaskReply { ret: LOS_OK, schedule: tid == run_id, stack: 0 }
    }
}


/// The result code of joining task `tid` from the running task of the
/// kernel `k`, before it pends (`LOS_TaskJoin`).
pub open spec fn join_ret_spec(k: LosKernel, tid: u32, int_active: bool) -> u32 {
    if task_id_check_spec(k, tid) != LOS_OK {
        task_id_check_spec(k, tid)
    } else if int_active {
        LOS_ERRNO_TSK_NOT_ALLOW_IN_INT
    } else if k.g_losTaskLock != 0 {
        LOS_ERRNO_TSK_SCHED_LOCKED
    } else if tid == k.tcb(k.g_losTask.runTask as int).taskID {
        LOS_ERRNO_TSK_NOT_JOIN_SELF
    } else if k.has(tid as int, OS_TASK_STATUS_UNUSED) {
        LOS_ERRNO_TSK_NOT_CREATED
    } else if k.has(tid as int, OS_TASK_STATUS_EXIT) {
        LOS_OK
    } else if k.has(tid as int, OS_TASK_FLAG_JOINABLE) && k.join_lists@[tid as int]@.len() == 0
        && k.g_losTask.runTask < k.g_taskMaxNum {
        LOS_OK
    } else {
        LOS_NOK
    }
}

/// The result code of `LOS_TaskDelete` on task `tid` in the kernel `k`.
pub open spec fn delete_ret_spec(k: LosKernel, tid: u32) -> u32 {
    if task_id_check_spec(k, tid) != LOS_OK {
        task_id_check_spec(k, tid)
    } else if k.has(tid as int, OS_TASK_FLAG_SYSTEM_TASK) {
        LOS_ERRNO_TSK_OPERATE_SYSTEM_TASK
    } else if k.has(tid as int, OS_TASK_STATUS_UNUSED) {
        LOS_ERRNO_TSK_NOT_CREATED
    } else if k.has(tid as int, OS_TASK_STATUS_EXIT) {
        LOS_ERRNO_TSK_ALREADY_EXIT
    } else if k.has(tid as int, OS_TASK_FLAG_SIGNAL) {
        LOS_ERRNO_TSK_PROCESS_SIGNAL
    } else {
        LOS_OK
    }
}

/// What `exit_lists` says of a state stays true of a later one with the
/// same ready queues, task sort link, wait lists and join lists but that of
/// `tid`.
proof fn lemma_exit_lists_kept(g: LosKernel, a: LosKernel, b: LosKernel, tid: u32)
    requires
        g.wf(),
        tid <= g.g_taskMaxNum,
        g.exit_lists(a, tid),
        g.same_shape(a),
        a.same_shape(b),
        a.same_queues(b),
        a.sort_links.g_taskSortLink@ == b.sort_links.g_taskSortLink@,
        forall|w: int| 0 <= w < a.wait_lists@.len() ==> #[trigger] a.wait_lists@[w]@ == b.wait_lists@[w]@,
        forall|t: int| 0 <= t < a.join_lists@.len() && t != tid ==> #[trigger] a.join_lists@[t]@
            == b.join_lists@[t]@,
    ensures
        g.exit_lists(b, tid),
{
    let r = g.tcb(tid as int).pendList;
    assert(g.valid_ref(r));
    if let ListRef::WaitList(w) = r {
        assert(a.wait_lists@[w as int]@ == b.wait_lists@[w as int]@);
    }
    if let ListRef::JoinList(j) = r {
        if j != tid {
            assert(a.join_lists@[j as int]@ == b.join_lists@[j as int]@);
        }
    }
}

/// Whether `g` is `k` once the task waiting to join task `tid` was woken:
/// when `tid` is joinable and a task waits, the first waiter gets the
/// status of a woken task and only its control block changes (its status,
/// list links, time slice and sort node); otherwise nothing but the task
/// lock count may differ.
pub open spec fn join_post_state(k: LosKernel, g: LosKernel, tid: u32) -> bool {
    if k.has(tid as int, OS_TASK_FLAG_JOINABLE) && k.join_lists@[tid as int]@.len() > 0 {
        let w = k.join_lists@[tid as int]@[0];
        &&& g.status(w as int) == wake_status(k.status(w as int))
        &&& g.tcb(w as int) == (LosTaskCB {
            taskStatus: g.status(w as int),
            pendList: g.tcb(w as int).pendList,
            timeSlice: g.tcb(w as int).timeSlice,
            sortList: g.tcb(w as int).sortList,
            ..k.tcb(w as int)
        })
        &&& g.same_tasks_except(k, w as int)
        &&& g.g_idleTaskID == k.g_idleTaskID
    } else {
        g == (LosKernel { g_losTaskLock: g.g_losTaskLock, ..k })
    }
}

impl LosKernel {
    /// Wakes the task waiting to join task `tid`, if it is joinable and one
    /// waits (`OsTaskJoinPostUnsafe`).
    pub fn OsTaskJoinPostUnsafe(&mut self, tid: u32)
        requires
            old(self).wf(),
            tid <= old(self).g_taskMaxNum,
        ensures
            final(self).wf(),
            !(old(self).has(tid as int, OS_TASK_FLAG_JOINABLE) && old(self).join_lists@[tid as int]@.len() > 0)
                ==> *final(self) == *old(self),
            old(self).has(tid as int, OS_TASK_FLAG_JOINABLE) && old(self).join_lists@[tid as int]@.len() > 0 ==> {
                let w = old(self).join_lists@[tid as int]@[0];
                &&& final(self).status(w as int) == wake_status(old(self).status(w as int))
                &&& final(self).tcb(w as int) == (LosTaskCB {
                    taskStatus: final(self).status(w as int),
                    pendList: final(self).tcb(w as int).pendList,
                    timeSlice: final(self).tcb(w as int).timeSlice,
                    sortList: final(self).tcb(w as int).sortList,
                    ..old(self).tcb(w as int)
                })
                &&& final(self).same_tasks_except(*old(self), w as int)
                &&& final(self).same_task_globals(*old(self))
            },
    {
        let st = self.g_taskCBArray[tid as usize].taskStatus;
        if (st & OS_TASK_FLAG_JOINABLE) != 0 {
            if let Some(w) = self.join_lists[tid as usize].LOS_DL_LIST_FIRST() {
                proof {
                    assert(self.ids_valid(self.join_lists@[tid as int]@));
                    assert(self.join_lists@[tid as int]@[0] < self.g_taskMaxNum);
                }
                self.OsSchedTaskWake(w);
            }
        }
    }

    /// Makes the running task wait for task `tid` to exit
    /// (`OsTaskJoinPendUnsafe`): `LOS_OK` at once when it has exited, `LOS_OK`
    /// after linking the running task on its join list when it is joinable
    /// and nobody waits yet, `LOS_NOK` otherwise.  The spare control block,
    /// which stands for a task that deleted itself (or for the boot context
    /// before the scheduler starts), is no task and cannot wait: joining a
    /// live task from it gives `LOS_NOK`.
    pub fn OsTaskJoinPendUnsafe(&mut self, tid: u32) -> (r: u32)
        requires
            old(self).wf(),
            tid < old(self).g_taskMaxNum,
        ensures
            final(self).wf(),
            old(self).has(tid as int, OS_TASK_STATUS_EXIT) ==> r == LOS_OK && *final(self) == *old(self),
            !old(self).has(tid as int, OS_TASK_STATUS_EXIT) && old(self).has(tid as int, OS_TASK_FLAG_JOINABLE)
                && old(self).join_lists@[tid as int]@.len() == 0 && old(self).g_losTask.runTask
                == old(self).g_taskMaxNum ==> r == LOS_NOK && *final(self) == *old(self),
            !old(self).has(tid as int, OS_TASK_STATUS_EXIT) && old(self).has(tid as int, OS_TASK_FLAG_JOINABLE)
                && old(self).join_lists@[tid as int]@.len() == 0 && old(self).g_losTask.runTask
                < old(self).g_taskMaxNum ==> {
                let run = old(self).g_losTask.runTask;
                &&& r == LOS_OK
                &&& final(self).join_lists@[tid as int]@ == seq![run]
                &&& final(self).tcb(run as int).pendList == ListRef::JoinList(tid)
                &&& final(self).has(run as int, OS_TASK_STATUS_PEND)
                &&& final(self).same_tasks_except(*old(self), run as int)
                &&& final(self).same_task_globals(*old(self))
            },
            !old(self).has(tid as int, OS_TASK_STATUS_EXIT) && !(old(self).has(tid as int, OS_TASK_FLAG_JOINABLE)
                && old(self).join_lists@[tid as int]@.len() == 0) ==> r == LOS_NOK && *final(self) == *old(self),
    {
        let st = self.g_taskCBArray[tid as usize].taskStatus;
        if (st & OS_TASK_STATUS_EXIT) != 0 {
            return LOS_OK;
        }
        if (st & OS_TASK_FLAG_JOINABLE) != 0 && self.join_lists[tid as usize].LOS_ListEmpty() {
            let ghost before = *self;
            let run = self.g_losTask.runTask;
            if run >= self.g_taskMaxNum {
                return LOS_NOK;
            }
            self.OsSchedTaskWait(ListRef::JoinList(tid), LOS_WAIT_FOREVER);
            proof {
                assert(self.list_view(ListRef::JoinList(tid)) == before.list_view(ListRef::JoinList(tid)).push(run));
                assert(self.join_lists@[tid as int]@ =~= seq![run]);
                let s0 = before.status(run as int);
                assert((s0 | 8u16) & 8u16 != 0) by (bit_vector);
            }
            return LOS_OK;
        }
        LOS_NOK
    }

    /// Makes task `tid` detached (`OsTaskSetDetachUnsafe`): a joinable task
    /// nobody waits for is no longer joinable (`LOS_OK`);
    /// `LOS_ERRNO_TSK_NOT_JOIN` when one waits; `LOS_NOK` when it is not
    /// joinable.
    pub fn OsTaskSetDetachUnsafe(&mut self, tid: u32) -> (r: u32)
        requires
            old(self).wf(),
            tid <= old(self).g_taskMaxNum,
        ensures
            final(self).wf(),
            !old(self).has(tid as int, OS_TASK_FLAG_JOINABLE) ==> r == LOS_NOK && *final(self) == *old(self),
            old(self).has(tid as int, OS_TASK_FLAG_JOINABLE) && old(self).join_lists@[tid as int]@.len() > 0 ==> r
                == LOS_ERRNO_TSK_NOT_JOIN && *final(self) == *old(self),
            old(self).has(tid as int, OS_TASK_FLAG_JOINABLE) && old(self).join_lists@[tid as int]@.len() == 0 ==> {
                &&& r == LOS_OK
                &&& final(self).tcb(tid as int) == (LosTaskCB {
                    taskStatus: old(self).status(tid as int) & !OS_TASK_FLAG_JOINABLE,
                    ..old(self).tcb(tid as int)
                })
                &&& final(self).same_tasks_except(*old(self), tid as int)
                &&& final(self).same_but_timing(*old(self))
                &&& final(self).same_sched(*old(self))
            },
    {
        let st = self.g_taskCBArray[tid as usize].taskStatus;
        if (st & OS_TASK_FLAG_JOINABLE) != 0 {
            if self.join_lists[tid as usize].LOS_ListEmpty() {
                self.g_taskCBArray[tid as usize].taskStatus = st & !OS_TASK_FLAG_JOINABLE;
                proof {
                    if tid == self.g_taskMaxNum {
                        assert(st & 0x0101u16 != 0 ==> (st & !0x200u16) & 0x0101u16 != 0) by (bit_vector);
                    }
                }
                return LOS_OK;
            }
            return LOS_ERRNO_TSK_NOT_JOIN;
        }
        LOS_NOK
    }

    /// Joins task `tid` from the running task (`LOS_TaskJoin`), first part:
    /// the checks, then the running task waits on `tid`'s join list unless
    /// `tid` has already exited.  On `LOS_OK` a rescheduling follows, and
    /// once the running task runs again `os_task_join_finish` completes the
    /// join.  `int_active` tells whether an interrupt is being handled.
    pub fn LOS_TaskJoin(&mut self, tid: u32, int_active: bool) -> (r: TaskReply)
        requires
            old(self).wf(),
        ensures
            final(self).wf(),
            r.ret == join_ret_spec(*old(self), tid, int_active),
            r.schedule == (r.ret == LOS_OK),
            r.stack == 0,
            r.ret != LOS_OK || old(self).has(tid as int, OS_TASK_STATUS_EXIT) ==> *final(self) == *old(self),
            r.ret == LOS_OK && !old(self).has(tid as int, OS_TASK_STATUS_EXIT) ==> {
                let run = old(self).g_losTask.runTask;
                &&& final(self).join_lists@[tid as int]@ == seq![run]
                &&& final(self).tcb(run as int).pendList == ListRef::JoinList(tid)
                &&& final(self).has(run as int, OS_TASK_STATUS_PEND)
                &&& final(self).same_tasks_except(*old(self), run as int)
                &&& final(self).same_task_globals(*old(self))
            },
    {
        let ret = self.OsCheckTaskIDValid(tid);
        if ret != LOS_OK {
            return TaskReply { ret, schedule: false, stack: 0 };
        }
        if int_active {
            return TaskReply { ret: LOS_ERRNO_TSK_NOT_ALLOW_IN_INT, schedule: false, stack: 0 };
        }
        if self.g_losTaskLock != 0 {
            return TaskReply { ret: LOS_ERRNO_TSK_SCHED_LOCKED, schedule: false, stack: 0 };
        }
        if tid == self.LOS_CurTaskIDGet() {
            return TaskReply { ret: LOS_ERRNO_TSK_NOT_JOIN_SELF, schedule: false, stack: 0 };
        }
        if (self.g_taskCBArray[tid as usize].taskStatus & OS_TASK_STATUS_UNUSED) != 0 {
            return TaskReply { ret: LOS_ERRNO_TSK_NOT_CREATED, schedule: false, stack: 0 };
        }
        let ret = self.OsTaskJoinPendUnsafe(tid);
        TaskReply { ret, schedule: ret == LOS_OK, stack: 0 }
    }

    /// Completes a join of task `tid` once it has exited
    /// (`LOS_TaskJoin`, second part): returns its exit value and the stack
    /// to free; it is no longer joinable and its control block is recycled.
    pub fn os_task_join_finish(&mut self, tid: u32) -> (r: (u32, u32))
        requires
            old(self).wf(),
            tid < old(self).g_taskMaxNum,
        ensures
            final(self).wf(),
            r.0 == old(self).tcb(tid as int).joinRetval,
            r.1 == (if stack_released(old(self).tcb(tid as int)) { old(self).tcb(tid as int).topOfStack } else { 0 }),
            is_free_tcb(final(self).tcb(tid as int), tid),
            final(self).g_losFreeTask@ == seq![tid] + old(self).g_losFreeTask@,
            final(self).same_tasks_except(*old(self), tid as int),
            final(self).same_task_globals(*old(self)),
    {
        let retval = self.g_taskCBArray[tid as usize].joinRetval;
        let st = self.g_taskCBArray[tid as usize].taskStatus;
        self.g_taskCBArray[tid as usize].taskStatus = st & !OS_TASK_FLAG_JOINABLE;
        proof {
            assert(
                ((st & !0x200u16) & 0x200u16 == 0)
                && ((st & !0x200u16) & 0x800u16 == st & 0x800u16)
            ) by (bit_vector);
            assert(self.tcb(self.g_taskMaxNum as int) == old(self).tcb(self.g_taskMaxNum as int));
        }
        let stack = self.OsRecycleTaskResources(tid);
        (retval, stack)
    }

    /// Detaches task `tid` (`LOS_TaskDetach`): an exited task is joined at
    /// once (its control block and stack are recycled), a live joinable task
    /// nobody waits for is no longer joinable.  `int_active` tells whether
    /// an interrupt is being handled.
    pub fn LOS_TaskDetach(&mut self, tid: u32, int_active: bool) -> (r: TaskReply)
        requires
            old(self).wf(),
        ensures
            final(self).wf(),
            task_id_check_spec(*old(self), tid) != LOS_OK ==> r.ret == task_id_check_spec(*old(self), tid),
            task_id_check_spec(*old(self), tid) == LOS_OK && int_active ==> r.ret == LOS_ERRNO_TSK_NOT_ALLOW_IN_INT,
            task_id_check_spec(*old(self), tid) == LOS_OK && !int_active && old(self).has(tid as int, OS_TASK_STATUS_UNUSED)
                ==> r.ret == LOS_ERRNO_TSK_NOT_CREATED,
            task_id_check_spec(*old(self), tid) == LOS_OK && !int_active && !old(self).has(tid as int, OS_TASK_STATUS_UNUSED)
                && old(self).has(tid as int, OS_TASK_STATUS_EXIT) ==> {
                &&& r.ret == join_ret_spec(*old(self), tid, int_active)
                &&& r.ret == LOS_OK ==> is_free_tcb(final(self).tcb(tid as int), tid) && r.stack == (if stack_released(
                    old(self).tcb(tid as int),
                ) {
                    old(self).tcb(tid as int).topOfStack
                } else {
                    0
                }) && r.schedule
            },
            task_id_check_spec(*old(self), tid) == LOS_OK && !int_active && !old(self).has(tid as int, OS_TASK_STATUS_UNUSED)
                && !old(self).has(tid as int, OS_TASK_STATUS_EXIT) ==> {
                &&& !r.schedule && r.stack == 0
                &&& !old(self).has(tid as int, OS_TASK_FLAG_JOINABLE) ==> r.ret == LOS_NOK
                &&& old(self).has(tid as int, OS_TASK_FLAG_JOINABLE) && old(self).join_lists@[tid as int]@.len() > 0
                    ==> r.ret == LOS_ERRNO_TSK_NOT_JOIN
                &&& old(self).has(tid as int, OS_TASK_FLAG_JOINABLE) && old(self).join_lists@[tid as int]@.len() == 0
                    ==> r.ret == LOS_OK && !final(self).has(tid as int, OS_TASK_FLAG_JOINABLE)
            },
            r.ret != LOS_OK ==> *final(self) == *old(self),
    {
        let ret = self.OsCheckTaskIDValid(tid);
        if ret != LOS_OK {
            return TaskReply { ret, schedule: false, stack: 0 };
        }
        if int_active {
            return TaskReply { ret: LOS_ERRNO_TSK_NOT_ALLOW_IN_INT, schedule: false, stack: 0 };
        }
        let st = self.g_taskCBArray[tid as usize].taskStatus;
        if (st & OS_TASK_STATUS_UNUSED) != 0 {
            return TaskReply { ret: LOS_ERRNO_TSK_NOT_CREATED, schedule: false, stack: 0 };
        }
        if (st & OS_TASK_STATUS_EXIT) != 0 {
            let mut reply = self.LOS_TaskJoin(tid, int_active);
            if reply.ret == LOS_OK {
                let (_, stack) = self.os_task_join_finish(tid);
                reply.stack = stack;
            }
            return reply;
        }
        let ret = self.OsTaskSetDetachUnsafe(tid);
        proof {
            assert((st & !0x200u16) & 0x200u16 == 0) by (bit_vector);
        }
        TaskReply { ret, schedule: false, stack: 0 }
    }
}


impl LosKernel {
    /// Deletes the running task `tid` (`OsRunningTaskDelete`): it goes on
    /// the recycle list, and the spare control block takes its place as the
    /// running task, with its id, status (running), stack and name, until
    /// the switch away from it.
    pub fn OsRunningTaskDelete(&mut self, tid: u32)
        requires
            old(self).wf(),
            tid < old(self).g_taskMaxNum,
            unused_or_exit(old(self).status(tid as int)),
        ensures
            final(self).wf(),
            final(self).g_taskRecycleList@ == old(self).g_taskRecycleList@.push(tid),
            final(self).tcb(tid as int) == (LosTaskCB { pendList: ListRef::RecycleList, ..old(self).tcb(tid as int) }),
            final(self).g_losTask == (LosTask { runTask: old(self).g_taskMaxNum, ..old(self).g_losTask }),
            final(self).tcb(old(self).g_taskMaxNum as int) == (LosTaskCB {
                taskID: tid,
                taskStatus: old(self).status(tid as int) | OS_TASK_STATUS_RUNNING,
                topOfStack: old(self).tcb(tid as int).topOfStack,
                taskName: old(self).tcb(tid as int).taskName,
                ..old(self).tcb(old(self).g_taskMaxNum as int)
            }),
            forall|j: int| 0 <= j < old(self).g_taskMaxNum && j != tid ==> #[trigger] final(self).tcb(j) == old(
                self,
            ).tcb(j),
            final(self).g_taskCBArray@.len() == old(self).g_taskCBArray@.len(),
            final(self).g_losTaskLock == old(self).g_losTaskLock,
            final(self).g_idleTaskID == old(self).g_idleTaskID,
            final(self).g_swtmrTaskID == old(self).g_swtmrTaskID,
            final(self).g_taskScheduled == old(self).g_taskScheduled,
            final(self).g_losFreeTask@ == old(self).g_losFreeTask@,
            final(self).wait_lists@ == old(self).wait_lists@,
            final(self).join_lists@ == old(self).join_lists@,
            final(self).same_sched(*old(self)),
            final(self).same_queues(*old(self)),
    {
        self.g_taskRecycleList.LOS_ListTailInsert(tid);
        self.g_taskCBArray[tid as usize].pendList = ListRef::RecycleList;
        let max = self.g_taskMaxNum;
        self.g_losTask.runTask = max;
        let st = self.g_taskCBArray[tid as usize].taskStatus;
        let top = self.g_taskCBArray[tid as usize].topOfStack;
        let name = self.g_taskCBArray[tid as usize].taskName;
        self.g_taskCBArray[max as usize].taskID = tid;
        self.g_taskCBArray[max as usize].taskStatus = st | OS_TASK_STATUS_RUNNING;
        self.g_taskCBArray[max as usize].topOfStack = top;
        self.g_taskCBArray[max as usize].taskName = name;
        proof {
            assert(st & 0x0101u16 != 0 ==> (st | 0x10u16) & 0x0101u16 != 0) by (bit_vector);
        }
    }

    /// Deletes task `tid` (`LOS_TaskDelete`).  The task is taken off every
    /// scheduler list and marked exited, a task waiting to join it is woken,
    /// and its event state cleared.  A running task that is not joinable is
    /// marked unused and left for recycling, the spare control block taking
    /// its place; a running task asks for a rescheduling (and drops the task
    /// lock).  Another task gets the running task's id as its exit value and
    /// is recycled at once (its stack, if the kernel allocated it, is
    /// returned to free).
    pub fn LOS_TaskDelete(&mut self, tid: u32) -> (r: TaskReply)
        requires
            old(self).wf(),
        ensures
            final(self).wf(),
            r.ret == delete_ret_spec(*old(self), tid),
            r.ret != LOS_OK ==> *final(self) == *old(self) && !r.schedule && r.stack == 0,
            r.ret == LOS_OK ==> {
                let running = old(self).has(tid as int, OS_TASK_STATUS_RUNNING);
                let joinable = old(self).has(tid as int, OS_TASK_FLAG_JOINABLE);
                &&& r.schedule == running
                &&& running ==> final(self).g_losTaskLock == 0 && r.stack == 0 && final(self).tcb(tid as int).joinRetval
                    == old(self).tcb(tid as int).joinRetval
                &&& running && !joinable ==> {
                    &&& final(self).g_losTask.runTask == old(self).g_taskMaxNum
                    &&& final(self).tcb(old(self).g_taskMaxNum as int).taskID == tid
                    &&& final(self).g_taskRecycleList@.last() == tid
                    &&& final(self).has(tid as int, OS_TASK_STATUS_UNUSED)
                    &&& final(self).has(tid as int, OS_TASK_STATUS_EXIT)
                }
                &&& running && joinable ==> final(self).has(tid as int, OS_TASK_STATUS_EXIT) && !final(self).has(
                    tid as int,
                    OS_TASK_STATUS_UNUSED,
                ) && final(self).has(tid as int, OS_TASK_FLAG_JOINABLE)
                &&& !running && !joinable ==> is_free_tcb(final(self).tcb(tid as int), tid)
                    && final(self).g_losFreeTask@.len() > 0 && final(self).g_losFreeTask@[0] == tid
                &&& !running && joinable ==> {
                    &&& final(self).has(tid as int, OS_TASK_STATUS_EXIT)
                    &&& final(self).tcb(tid as int).joinRetval == old(self).tcb(old(self).g_losTask.runTask as int).taskID
                }
                &&& !running ==> r.stack == (if old(self).has(tid as int, OS_TASK_FLAG_STACK_FREE) && old(
                    self,
                ).tcb(tid as int).topOfStack != 0 {
                    old(self).tcb(tid as int).topOfStack
                } else {
                    0
                })
                &&& exists|g: LosKernel| #[trigger] join_post_state(*old(self), g, tid) && g.exit_lists(*final(self), tid)
                &&& running || joinable ==> final(self).tcb(tid as int).event.uwEventID == OS_NULL_INT
                    && final(self).tcb(tid as int).eventMask == 0
                &&& joinable && old(self).join_lists@[tid as int]@.len() > 0 && old(self).join_lists@[tid as int]@[0]
                    != tid ==> final(self).status(old(self).join_lists@[tid as int]@[0] as int) == wake_status(
                    old(self).status(old(self).join_lists@[tid as int]@[0] as int),
                )
            },
    {
        let ret = self.OsCheckTaskIDValid(tid);
        if ret != LOS_OK {
            return TaskReply { ret, schedule: false, stack: 0 };
        }
        let st = self.g_taskCBArray[tid as usize].taskStatus;
        if (st & OS_TASK_FLAG_SYSTEM_TASK) != 0 {
            return TaskReply { ret: LOS_ERRNO_TSK_OPERATE_SYSTEM_TASK, schedule: false, stack: 0 };
        }
        if (st & OS_TASK_STATUS_UNUSED) != 0 {
            return TaskReply { ret: LOS_ERRNO_TSK_NOT_CREATED, schedule: false, stack: 0 };
        }
        if (st & OS_TASK_STATUS_EXIT) != 0 {
            return TaskReply { ret: LOS_ERRNO_TSK_ALREADY_EXIT, schedule: false, stack: 0 };
        }
        if (st & OS_TASK_FLAG_SIGNAL) != 0 {
            return TaskReply { ret: LOS_ERRNO_TSK_PROCESS_SIGNAL, schedule: false, stack: 0 };
        }
        let ghost o = *self;
        let cur = self.LOS_CurTaskIDGet();
        if (st & OS_TASK_STATUS_RUNNING) != 0 && self.g_losTaskLock != 0 {
            self.g_losTaskLock = 0;
        }
        let ghost g0 = *self;
        self.OsTaskJoinPostUnsafe(tid);
        let ghost g1 = *self;
        self.OsSchedTaskExit(tid);
        let ghost g2 = *self;
        self.g_taskCBArray[tid as usize].event.uwEventID = OS_NULL_INT;
        self.g_taskCBArray[tid as usize].eventMask = 0;
        let ghost g3 = *self;
        proof {
            assert(self.tcb(self.g_taskMaxNum as int) == g2.tcb(self.g_taskMaxNum as int));
        }
        let st2 = self.g_taskCBArray[tid as usize].taskStatus;
        proof {
            let s0 = g0.status(tid as int);
            let s1 = g1.status(tid as int);
            assert(
                (wake_status(s0) & 0x0211u16 == s0 & 0x0211u16)
                && (exit_status(s1) & 0x0211u16 == s1 & 0x0211u16)
                && (exit_status(s1) & 0x0100u16 != 0)
                && ((st2 & 0x0211u16 == st & 0x0211u16) ==> ((st2 & 0x200u16 == 0) == (st & 0x200u16 == 0)))
                && ((st2 & 0x0211u16 == st & 0x0211u16) ==> ((st2 & 0x1u16 == 0) == (st & 0x1u16 == 0)))
                && (st2 & 0x100u16 != 0 ==> (st2 & !0x800u16) & 0x100u16 != 0)
                && (st2 & 0x200u16 != 0 ==> (st2 & !0x800u16) & 0x200u16 != 0)
                && (wake_status(s0) & 0x0800u16 == s0 & 0x0800u16)
                && (exit_status(s1) & 0x0800u16 == s1 & 0x0800u16)
            ) by (bit_vector);
            assert(join_post_state(o, g1, tid));
            assert(g1.exit_lists(g2, tid));
            assert(s1 == s0 || s1 == wake_status(s0));
            assert(st2 & 0x0211u16 == st & 0x0211u16);
            assert(g1.tcb(tid as int).topOfStack == o.tcb(tid as int).topOfStack);
            assert(self.tcb(tid as int).topOfStack == o.tcb(tid as int).topOfStack);
            assert(self.tcb(tid as int).joinRetval == g1.tcb(tid as int).joinRetval);
        }
        if (st & OS_TASK_STATUS_RUNNING) != 0 {
            if (st2 & OS_TASK_FLAG_JOINABLE) == 0 {
                self.g_taskCBArray[tid as usize].taskStatus = st2 | OS_TASK_STATUS_UNUSED;
                proof {
                    assert(
                        ((st2 | 1u16) & 0x0101u16 != 0)
                        && ((st2 | 1u16) & 1u16 != 0)
                        && (st2 & 0x100u16 != 0 ==> (st2 | 1u16) & 0x100u16 != 0)
                    ) by (bit_vector);
                }
                let ghost g4 = *self;
                self.OsRunningTaskDelete(tid);
                proof {
                    assert(self.g_taskRecycleList@.last() == tid);
                    lemma_exit_lists_kept(g1, g2, g4, tid);
                    lemma_exit_lists_kept(g1, g4, *self, tid);
                }
            } else {
                proof {
                    lemma_exit_lists_kept(g1, g2, *self, tid);
                }
            }
            return TaskReply { ret: LOS_OK, schedule: true, stack: 0 };
        }
        self.g_taskCBArray[tid as usize].joinRetval = cur;
        proof {
            assert(self.tcb(self.g_taskMaxNum as int) == g2.tcb(self.g_taskMaxNum as int));
        }
        let ghost g5 = *self;
        let stack = self.OsRecycleTaskResources(tid);
        proof {
            lemma_exit_lists_kept(g1, g2, g5, tid);
            lemma_exit_lists_kept(g1, g5, *self, tid);
        }
        TaskReply { ret: LOS_OK, schedule: false, stack }
    }
}


/// The result code of `LOS_TaskPriSet` for task `tid` and priority `prio`
/// in the kernel `k`.
pub open spec fn pri_set_ret_spec(k: LosKernel, tid: u32, prio: u16) -> u32 {
    if prio > OS_TASK_PRIORITY_LOWEST {
        LOS_ERRNO_TSK_PRIOR_ERROR
    } else if tid == k.g_idleTaskID {
        LOS_ERRNO_TSK_OPERATE_IDLE
    } else if tid == k.g_swtmrTaskID {
        LOS_ERRNO_TSK_OPERATE_SWTMR
    } else if tid >= k.g_taskMaxNum {
        LOS_ERRNO_TSK_ID_INVALID
    } else if k.has(tid as int, OS_TASK_STATUS_UNUSED) {
        LOS_ERRNO_TSK_NOT_CREATED
    } else if k.has(tid as int, OS_TASK_FLAG_SYSTEM_TASK) {
        LOS_ERRNO_TSK_OPERATE_SYSTEM_TASK
    } else {
        LOS_OK
    }
}

/// The result code of `LOS_TaskDelay` in the kernel `k`.
pub open spec fn delay_ret_spec(k: LosKernel, int_active: bool) -> u32 {
    if int_active {
        LOS_ERRNO_TSK_DELAY_IN_INT
    } else if k.g_losTaskLock != 0 {
        LOS_ERRNO_TSK_DELAY_IN_LOCK
    } else if k.has(k.g_losTask.runTask as int, OS_TASK_FLAG_SYSTEM_TASK) {
        LOS_ERRNO_TSK_OPERATE_SYSTEM_TASK
    } else {
        LOS_OK
    }
}

/// The ticks `LOS_Msleep` delays for `ms` milliseconds: none for 0, else
/// the ticks in `ms` (`LOS_MS2Tick`, which keeps `OS_NULL_INT`) but at
/// least one.
pub open spec fn msleep_ticks(ms: u32) -> u32 {
    if ms == 0 {
        0
    } else if ms == OS_NULL_INT {
        OS_NULL_INT
    } else {
        let t = ((ms * LOSCFG_BASE_CORE_TICK_PER_SECOND) / 1000) as u32;
        if t == 0 { 1 } else { t }
    }
}

impl LosKernel {
    /// Runs the end of task `tid`'s entry (`OsTaskEntry`) once the entry
    /// function returned `ret_val`: the value is kept as its exit value and
    /// the task deletes itself.
    pub fn OsTaskEntry(&mut self, tid: u32, ret_val: u32) -> (r: TaskReply)
        requires
            old(self).wf(),
            tid < old(self).g_taskMaxNum,
        ensures
            final(self).wf(),
            r.ret == delete_ret_spec(*old(self), tid),
            r.ret != LOS_OK ==> final(self).tcb(tid as int) == (LosTaskCB {
                joinRetval: ret_val,
                ..old(self).tcb(tid as int)
            }),
            r.ret == LOS_OK && old(self).has(tid as int, OS_TASK_STATUS_RUNNING) && old(self).has(
                tid as int,
                OS_TASK_FLAG_JOINABLE,
            ) ==> final(self).tcb(tid as int).joinRetval == ret_val && final(self).has(
                tid as int,
                OS_TASK_STATUS_EXIT,
            ),
            r.ret == LOS_OK ==> r.schedule == old(self).has(tid as int, OS_TASK_STATUS_RUNNING),
    {
        self.g_taskCBArray[tid as usize].joinRetval = ret_val;
        proof {
            assert(self.tcb(self.g_taskMaxNum as int) == old(self).tcb(self.g_taskMaxNum as int));
        }
        let id = self.g_taskCBArray[tid as usize].taskID;
        self.LOS_TaskDelete(id)
    }

    /// Delays the running task by `tick` ticks (`LOS_TaskDelay`); 0 ticks
    /// yields its time slice instead.  A rescheduling follows.  Not allowed
    /// in an interrupt (`int_active`), with the task lock held, or for a
    /// system task.
    pub fn LOS_TaskDelay(&mut self, tick: u32, int_active: bool) -> (r: TaskReply)
        requires
            old(self).wf(),
        ensures
            final(self).wf(),
            r.ret == delay_ret_spec(*old(self), int_active),
            r.schedule == (r.ret == LOS_OK),
            r.stack == 0,
            r.ret != LOS_OK ==> *final(self) == *old(self),
            r.ret == LOS_OK && tick == 0 ==> final(self).tcb(old(self).g_losTask.runTask as int) == (LosTaskCB {
                timeSlice: 0,
                ..old(self).tcb(old(self).g_losTask.runTask as int)
            }),
            r.ret == LOS_OK && tick != 0 ==> final(self).tcb(old(self).g_losTask.runTask as int) == (LosTaskCB {
                taskStatus: old(self).status(old(self).g_losTask.runTask as int) | OS_TASK_STATUS_DELAY,
                waitTimes: tick,
                ..old(self).tcb(old(self).g_losTask.runTask as int)
            }),
            r.ret == LOS_OK ==> final(self).same_tasks_except(*old(self), old(self).g_losTask.runTask as int)
                && final(self).same_but_timing(*old(self)),
    {
        if int_active {
            return TaskReply { ret: LOS_ERRNO_TSK_DELAY_IN_INT, schedule: false, stack: 0 };
        }
        if self.g_losTaskLock != 0 {
            return TaskReply { ret: LOS_ERRNO_TSK_DELAY_IN_LOCK, schedule: false, stack: 0 };
        }
        let run = self.g_losTask.runTask;
        if (self.g_taskCBArray[run as usize].taskStatus & OS_TASK_FLAG_SYSTEM_TASK) != 0 {
            return TaskReply { ret: LOS_ERRNO_TSK_OPERATE_SYSTEM_TASK, schedule: false, stack: 0 };
        }
        if tick == 0 {
            let ret = self.LOS_TaskYield();
            return TaskReply { ret, schedule: true, stack: 0 };
        }
        self.OsSchedDelay(run, tick);
        TaskReply { ret: LOS_OK, schedule: true, stack: 0 }
    }

    /// Sets the priority of task `tid` to `prio` (`LOS_TaskPriSet`): a ready
    /// task moves to the ready queue of the new priority, and a rescheduling
    /// follows when the task is ready or running.
    pub fn LOS_TaskPriSet(&mut self, tid: u32, prio: u16) -> (r: TaskReply)
        requires
            old(self).wf(),
        ensures
            final(self).wf(),
            r.ret == pri_set_ret_spec(*old(self), tid, prio),
            r.stack == 0,
            r.ret != LOS_OK ==> *final(self) == *old(self) && !r.schedule,
            r.ret == LOS_OK ==> {
                &&& final(self).tcb(tid as int).priority == prio
                &&& r.schedule == (old(self).has(tid as int, OS_TASK_STATUS_READY) || old(self).has(
                    tid as int,
                    OS_TASK_STATUS_RUNNING,
                ))
                &&& old(self).has(tid as int, OS_TASK_STATUS_READY) ==> final(self).queue(
                    ((prio as u32) % 32) as int,
                ).contains(tid)
                &&& old(self).has(tid as int, OS_TASK_STATUS_READY) ==> final(self).status(tid as int)
                    == ready_status(old(self).status(tid as int) & !OS_TASK_STATUS_READY)
                &&& old(self).has(tid as int, OS_TASK_STATUS_READY) ==> exists|mid: LosKernel|
                    {
                    &&& #[trigger] old(self).queues_after_delete(mid, tid, old(self).tcb(tid as int).priority as u32)
                    &&& mid.queues_after_enqueue(
                        *final(self),
                        tid,
                        prio as u32,
                        old(self).tcb(tid as int).timeSlice > old(self).sched_time_slice_min,
                    )
                }
                &&& !old(self).has(tid as int, OS_TASK_STATUS_READY) ==> final(self).tcb(tid as int) == (LosTaskCB {
                    priority: prio,
                    ..old(self).tcb(tid as int)
                }) && final(self).same_queues(*old(self))
                &&& final(self).sched_hooks@ == old(self).sched_hooks@.push(
                    if old(self).has(tid as int, OS_TASK_STATUS_READY) {
                        SchedHook::MovedTaskToReady(tid)
                    } else {
                        SchedHook::TaskPriModify(tid, prio)
                    },
                )
                &&& final(self).same_tasks_except(*old(self), tid as int)
                &&& final(self).same_task_globals(*old(self))
            },
    {
        if prio as u32 > OS_TASK_PRIORITY_LOWEST {
            return TaskReply { ret: LOS_ERRNO_TSK_PRIOR_ERROR, schedule: false, stack: 0 };
        }
        if tid == self.g_idleTaskID {
            return TaskReply { ret: LOS_ERRNO_TSK_OPERATE_IDLE, schedule: false, stack: 0 };
        }
        if tid == self.g_swtmrTaskID {
            return TaskReply { ret: LOS_ERRNO_TSK_OPERATE_SWTMR, schedule: false, stack: 0 };
        }
        if tid >= self.g_taskMaxNum {
            return TaskReply { ret: LOS_ERRNO_TSK_ID_INVALID, schedule: false, stack: 0 };
        }
        let st = self.g_taskCBArray[tid as usize].taskStatus;
        if (st & OS_TASK_STATUS_UNUSED) != 0 {
            return TaskReply { ret: LOS_ERRNO_TSK_NOT_CREATED, schedule: false, stack: 0 };
        }
        if (st & OS_TASK_FLAG_SYSTEM_TASK) != 0 {
            return TaskReply { ret: LOS_ERRNO_TSK_OPERATE_SYSTEM_TASK, schedule: false, stack: 0 };
        }
        let is_ready = self.OsSchedModifyTaskSchedParam(tid, prio);
        TaskReply { ret: LOS_OK, schedule: is_ready, stack: 0 }
    }

    /// Sets the priority of the running task (`LOS_CurTaskPriSet`).
    pub fn LOS_CurTaskPriSet(&mut self, prio: u16) -> (r: TaskReply)
        requires
            old(self).wf(),
        ensures
            final(self).wf(),
            r.ret == pri_set_ret_spec(*old(self), old(self).tcb(old(self).g_losTask.runTask as int).taskID, prio),
            r.ret != LOS_OK ==> *final(self) == *old(self),
            r.ret == LOS_OK ==> final(self).tcb(old(self).tcb(old(self).g_losTask.runTask as int).taskID as int).priority
                == prio,
    {
        let id = self.LOS_CurTaskIDGet();
        self.LOS_TaskPriSet(id, prio)
    }

    /// Sleeps the running task for `ms` milliseconds (`LOS_Msleep`): nothing
    /// in an interrupt (`int_active`); else a delay of `msleep_ticks(ms)`
    /// ticks.  Returns whether a rescheduling follows.
    pub fn LOS_Msleep(&mut self, ms: u32, int_active: bool) -> (r: bool)
        requires
            old(self).wf(),
        ensures
            final(self).wf(),
            int_active ==> !r && *final(self) == *old(self),
            !int_active ==> r == (delay_ret_spec(*old(self), false) == LOS_OK),
            !int_active && r && msleep_ticks(ms) != 0 ==> final(self).tcb(old(self).g_losTask.runTask as int)
                == (LosTaskCB {
                taskStatus: old(self).status(old(self).g_losTask.runTask as int) | OS_TASK_STATUS_DELAY,
                waitTimes: msleep_ticks(ms),
                ..old(self).tcb(old(self).g_losTask.runTask as int)
            }),
    {
        if int_active {
            return false;
        }
        let interval = if ms == 0 {
            0
        } else {
            let ticks = LOS_MS2Tick(ms);
            if ticks == 0 {
                1
            } else {
                ticks
            }
        };
        let reply = self.LOS_TaskDelay(interval, false);
        reply.schedule
    }

    /// Recycles the finished tasks now (`LOS_TaskResRecycle`); returns the
    /// stacks to free, one entry per recycled task (0 for none).
    pub fn LOS_TaskResRecycle(&mut self) -> (r: Vec<u32>)
        requires
            old(self).wf(),
        ensures
            final(self).wf(),
            final(self).g_taskRecycleList@.len() == 0,
            r@.len() == old(self).g_taskRecycleList@.len(),
            forall|k: int| 0 <= k < r@.len() ==> #[trigger] r@[k] == 0 || r@[k] == old(self).tcb(
                old(self).g_taskRecycleList@[k] as int,
            ).topOfStack,
            forall|k: int|
                0 <= k < r@.len() && stack_released(old(self).tcb(old(self).g_taskRecycleList@[k] as int))
                    && !old(self).g_taskRecycleList@.subrange(0, k).contains(old(self).g_taskRecycleList@[k])
                    ==> #[trigger] r@[k] == old(self).tcb(old(self).g_taskRecycleList@[k] as int).topOfStack,
            forall|j: int|
                0 <= j < old(self).g_taskMaxNum && old(self).g_taskRecycleList@.contains(j as u32)
                    ==> recycle_result(old(self).tcb(j), #[trigger] final(self).tcb(j), j as u32),
            final(self).same_task_globals(*old(self)),
            final(self).same_queues(*old(self)),
    {
        self.OsRecycleFinishedTask()
    }

    /// The tasks the task listing shows (`LOS_TaskInfoMonitor`): every task
    /// control block in use, by id.
    pub fn LOS_TaskInfoMonitor(&self) -> (r: Vec<u32>)
        requires
            self.wf(),
        ensures
            forall|k: int| 0 <= k < r@.len() ==> #[trigger] r@[k] < self.g_taskMaxNum && !self.has(
                r@[k] as int,
                OS_TASK_STATUS_UNUSED,
            ),
            forall|i: int| 0 <= i < self.g_taskMaxNum && !self.has(i, OS_TASK_STATUS_UNUSED) ==> #[trigger] r@.contains(
                i as u32,
            ),
    {
        self.OsGetAllTskInfo()
    }
}


/// Whether `buf` holds the name `name` as `LOS_TaskInfoGet` copies it into
/// a zeroed buffer of `LOS_TASK_NAMELEN` bytes, the name ending at `n` (a
/// zero byte, its end, or the buffer's last byte): its first `n` bytes,
/// none zero, and zeros after.
pub open spec fn name_copied_at(name: Seq<u8>, buf: Seq<u8>, n: int) -> bool {
    &&& buf.len() == LOS_TASK_NAMELEN
    &&& 0 <= n <= LOS_TASK_NAMELEN - 1
    &&& n <= name.len()
    &&& (n == LOS_TASK_NAMELEN - 1 || n == name.len() || name[n] == 0)
    &&& forall|j: int| 0 <= j < n ==> #[trigger] buf[j] == name[j] && name[j] != 0
    &&& forall|j: int| n <= j < LOS_TASK_NAMELEN ==> #[trigger] buf[j] == 0
}

/// Whether `buf` holds the name `name` as `LOS_TaskInfoGet` copies it.
pub open spec fn name_copied(name: Seq<u8>, buf: Seq<u8>) -> bool {
    exists|n: int| #[trigger] name_copied_at(name, buf, n)
}

/// Whether `peak` is the peak stack use `OsGetTaskWaterLine` reports for
/// the task control block `t` whose stack words are `stack`.
pub open spec fn water_line_ok(t: LosTaskCB, stack: Seq<u32>, peak: u32) -> bool {
    &&& t.topOfStack == 0 || stack[0] != OS_TASK_MAGIC_WORD ==> peak == OS_NULL_INT
    &&& t.topOfStack != 0 && stack[0] == OS_TASK_MAGIC_WORD ==> exists|k: int|
        #[trigger] water_scan_stop(stack, t.topOfStack, t.stackPointer, k) && peak == water_line_value(
            t.stackSize,
            k,
        )
}

/// A buffer of `n` zero bytes.
fn zero_bytes(n: u32) -> (r: Vec<u8>)
    ensures
        r@.len() == n,
        forall|i: int| 0 <= i < n ==> #[trigger] r@[i] == 0,
{
    let mut v: Vec<u8> = Vec::new();
    let mut i: u32 = 0;
    while i < n
        invariant
            i <= n,
            v@.len() == i,
            forall|j: int| 0 <= j < i ==> #[trigger] v@[j] == 0,
        decreases n - i,
    {
        v.push(0);
        i = i + 1;
    }
    v
}

impl LosKernel {
    /// Information about task `tid` (`LOS_TaskInfoGet`):
    /// `LOS_ERRNO_TSK_ID_INVALID` when `tid` is not a task,
    /// `LOS_ERRNO_TSK_NOT_CREATED` when its control block is unused.  The
    /// caller hands in what lies in memory: the bytes of the task's name,
    /// the ids of the semaphore and the mutex it waits on (read when it
    /// waits on one), and the words of its stack from the top up to at
    /// least the stack pointer.
    pub fn LOS_TaskInfoGet(&self, tid: u32, name: &[u8], sem_id: u32, mux_id: u32, stack: &[u32]) -> (r:
        Result<TSK_INFO_S, u32>)
        requires
            self.wf(),
            tid < self.g_taskMaxNum && self.tcb(tid as int).topOfStack != 0 ==> stack@.len() >= 1
                && self.tcb(tid as int).topOfStack + 4 * stack@.len() >= self.tcb(tid as int).stackPointer,
        ensures
            tid >= self.g_taskMaxNum ==> r is Err && r->Err_0 == LOS_ERRNO_TSK_ID_INVALID,
            tid < self.g_taskMaxNum && self.has(tid as int, OS_TASK_STATUS_UNUSED) ==> r is Err && r->Err_0
                == LOS_ERRNO_TSK_NOT_CREATED,
            tid < self.g_taskMaxNum && !self.has(tid as int, OS_TASK_STATUS_UNUSED) ==> (r matches Ok(info) && {
                let t = self.tcb(tid as int);
                &&& info.uwTaskID == tid
                &&& info.uwSP == t.stackPointer
                &&& info.usTaskStatus == t.taskStatus
                &&& info.usTaskPrio == t.priority
                &&& info.uwStackSize == t.stackSize
                &&& info.uwTopOfStack == t.topOfStack
                &&& info.uwEventID == t.event.uwEventID
                &&& info.uwEventMask == t.eventMask
                &&& info.pTaskSem == t.taskSem
                &&& info.pTaskMux == t.taskMux
                &&& info.uwSemID == (if t.taskSem != 0 { sem_id } else { LOSCFG_BASE_IPC_SEM_LIMIT })
                &&& info.uwMuxID == (if t.taskMux != 0 { mux_id } else { LOSCFG_BASE_IPC_MUX_LIMIT })
                &&& name_copied(name@, info.acName@)
                &&& info.uwBottomOfStack == ((t.topOfStack + t.stackSize) % 0x1_0000_0000) as u32 & !7u32
                &&& info.uwCurrUsed == ((info.uwBottomOfStack - t.stackPointer) % 0x1_0000_0000) as u32
                &&& water_line_ok(t, stack@, info.uwPeakUsed)
                &&& info.bOvf == (info.uwPeakUsed == OS_NULL_INT)
            }),
    {
        if tid >= self.g_taskMaxNum {
            return Err(LOS_ERRNO_TSK_ID_INVALID);
        }
        let t = &self.g_taskCBArray[tid as usize];
        if (t.taskStatus & OS_TASK_STATUS_UNUSED) != 0 {
            return Err(LOS_ERRNO_TSK_NOT_CREATED);
        }
        let mut ac_name = zero_bytes(LOS_TASK_NAMELEN);
        let ghost zeros = ac_name@;
        let _ = strncpy_s(&mut ac_name, LOS_TASK_NAMELEN as usize, name, (LOS_TASK_NAMELEN - 1) as usize);
        let ghost copied = ac_name@;
        ac_name.set((LOS_TASK_NAMELEN - 1) as usize, 0);
        proof {
            let n = choose|n: int| #[trigger] strncpy_result(name@, zeros, copied, n, strncpy_limit(32, 31));
            assert(strncpy_limit(32, 31) == 31);
            assert forall|j: int| n <= j < LOS_TASK_NAMELEN implies #[trigger] ac_name@[j] == 0 by {
                if j < 31 {
                    assert(ac_name@[j] == copied[j]);
                    if j > n {
                        assert(copied[j] == zeros[j]);
                    }
                }
            }
            assert forall|j: int| 0 <= j < n implies #[trigger] ac_name@[j] == name@[j] && name@[j] != 0 by {
                assert(ac_name@[j] == copied[j]);
            }
            assert(name_copied_at(name@, ac_name@, n));
        }
        let top = t.topOfStack;
        let size = t.stackSize;
        let sp = t.stackPointer;
        let bottom = truncate(top.wrapping_add(size), OS_TASK_STACK_ADDR_ALIGN);
        let curr = bottom.wrapping_sub(sp);
        let peak = self.OsGetTaskWaterLine(tid, stack);
        proof {
            assert(top + size < 0x1_0000_0000 ==> (top + size) % 0x1_0000_0000 == top + size);
            assert(top + size >= 0x1_0000_0000 ==> (top + size) % 0x1_0000_0000 == top + size - 0x1_0000_0000);
            assert(bottom - sp >= 0 ==> (bottom - sp) % 0x1_0000_0000 == bottom - sp);
            assert(bottom - sp < 0 ==> (bottom - sp) % 0x1_0000_0000 == bottom - sp + 0x1_0000_0000);
        }
        let info = TSK_INFO_S {
            acName: ac_name,
            uwTaskID: tid,
            usTaskStatus: t.taskStatus,
            usTaskPrio: t.priority,
            pTaskSem: t.taskSem,
            pTaskMux: t.taskMux,
            uwSemID: if t.taskSem != 0 { sem_id } else { LOSCFG_BASE_IPC_SEM_LIMIT },
            uwMuxID: if t.taskMux != 0 { mux_id } else { LOSCFG_BASE_IPC_MUX_LIMIT },
            uwEventID: t.event.uwEventID,
            uwEventMask: t.eventMask,
            uwStackSize: size,
            uwTopOfStack: top,
            uwBottomOfStack: bottom,
            uwSP: sp,
            uwCurrUsed: curr,
            uwPeakUsed: peak,
            bOvf: peak == OS_NULL_INT,
        };
        Ok(info)
    }
}


/// Taking the task lock and releasing it again leaves the kernel as it
/// was, unless the lock count wrapped.
pub proof fn lemma_lock_unlock_roundtrip(a: LosKernel, b: LosKernel, c: LosKernel)
    requires
        a.g_losTaskLock < 0xFFFF,
        b == (LosKernel { g_losTaskLock: a.g_losTaskLock.wrapping_add(1), ..a }),
        c == (LosKernel { g_losTaskLock: (b.g_losTaskLock - 1) as u16, ..b }),
    ensures
        c == a,
        b.g_losTaskLock > 0,
{
}

} // verus!
