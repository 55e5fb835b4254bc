//! The scheduler: ready queues per priority with their bitmap, time slices,
//! the programming of the next tick response, and the state changes of
//! tasks between ready, pending, delayed, suspended and exited.
//!
//! The kernel state is one `LosKernel` value.  What the hardware provides
//! (the current cycle count, whether an interrupt is active) is passed in,
//! and what the hardware must do (reload the tick timer, switch context) is
//! returned as an action.
use vstd::prelude::*;
use vstd::std_specs::bits::u32_leading_zeros;
use crate::defs::{
    LOSCFG_BASE_CORE_TICK_PER_SECOND, LOS_OK, LOS_NOK, OS_INVALID, OS_TASK_STATUS_UNUSED, OS_TASK_STATUS_SUSPEND,
    OS_TASK_STATUS_READY, OS_TASK_STATUS_PEND, OS_TASK_STATUS_RUNNING, OS_TASK_STATUS_DELAY,
    OS_TASK_STATUS_TIMEOUT, OS_TASK_STATUS_PEND_TIME, OS_TASK_STATUS_EXIT, OS_TASK_FLAG_FREEZE,
    LOS_WAIT_FOREVER, LOSCFG_BASE_CORE_TSK_LIMIT,
};
use crate::list::{LOS_DL_LIST, empty_list_node};
use crate::sortlink::{SortLinkList, SortLinks, OS_SORT_LINK_INVALID_TIME, OS_SORT_LINK_TASK};
use crate::tick::{TickState, tick_convert_ok, tick_convert_spec, LOS_ERRNO_SYS_HOOK_IS_NULL, LOS_ERRNO_SYS_CLOCK_INVALID};

verus! {

/// Number of priority levels (`OS_PRIORITY_QUEUE_NUM`).
pub const OS_PRIORITY_QUEUE_NUM: u32 = 32;
/// Mask that clamps a priority to a queue index.
pub const OS_PRIORITY_QUEUE_MASK: u32 = 31;
/// Bitmap bit of priority 0; priority `p` has this bit shifted right by `p`.
pub const PRIQUEUE_PRIOR0_BIT: u32 = 0x8000_0000;
/// Response time meaning "no tick response programmed".
pub const OS_SCHED_MAX_RESPONSE_TIME: u64 = 0xFFFF_FFFF_FFFF_FFFF;
/// Shortest tick period as a fraction of a second (`LOSCFG_BASE_CORE_TICK_PER_SECOND_MINI`).
pub const LOSCFG_BASE_CORE_TICK_PER_SECOND_MINI: u32 = 1000;
/// Length of a time slice in microseconds (`LOSCFG_BASE_CORE_TIMESLICE_TIMEOUT`).
pub const LOSCFG_BASE_CORE_TIMESLICE_TIMEOUT: u32 = 20_000;
/// Whether the low-power mode support is configured (`LOSCFG_KERNEL_PM`).
pub const LOSCFG_KERNEL_PM: bool = false;
/// Statuses in which a task is not put back on a ready queue.
pub const OS_TASK_BLOCKED_STATUS: u16 = 0x010B;

/// Count of leading zero bits (`CLZ`).
pub fn clz(x: u32) -> (r: u32)
    ensures
        r == u32_leading_zeros(x),
        r <= 32,
        x != 0 ==> r < 32,
{
    proof {
        vstd::std_specs::bits::axiom_u32_leading_zeros(x);
    }
    x.leading_zeros()
}

/// The ready queue index of a priority: its low five bits.
pub fn priority_idx(prio: u32) -> (r: usize)
    ensures
        r == prio % 32,
{
    proof {
        lemma_low_bits(prio);
    }
    (prio & OS_PRIORITY_QUEUE_MASK) as usize
}

/// The low five bits of a priority are its queue index.
proof fn lemma_low_bits(prio: u32)
    ensures
        prio & 31u32 == prio % 32,
{
    assert(prio & 31u32 == prio % 32) by (bit_vector);
}

/// The bitmap bit of a priority's ready queue.
pub open spec fn prio_bit(p: int) -> u32 {
    PRIQUEUE_PRIOR0_BIT >> (p as u32)
}

/// Whether the bit of priority `p` is set in `bitmap`.
pub open spec fn bit_set(bitmap: u32, p: int) -> bool {
    bitmap & prio_bit(p) != 0
}

/// The bitmap bit of a priority, after clamping it to a queue index.
pub fn priority_bit(prio: u32) -> (r: u32)
    ensures
        r == prio_bit((prio % 32) as int),
{
    proof {
        lemma_low_bits(prio);
    }
    PRIQUEUE_PRIOR0_BIT >> (prio & OS_PRIORITY_QUEUE_MASK)
}

/// Setting the bit of `p` sets exactly that bit.
proof fn lemma_bit_or(bitmap: u32, p: int)
    requires
        0 <= p < 32,
    ensures
        forall|q: int| 0 <= q < 32 ==> (#[trigger] bit_set(bitmap | prio_bit(p), q) <==> (bit_set(bitmap, q) || q == p)),
{
    assert forall|q: int| 0 <= q < 32 implies (#[trigger] bit_set(bitmap | prio_bit(p), q) <==> (
    bit_set(bitmap, q) || q == p)) by {
        let pu = p as u32;
        let qu = q as u32;
        assert(pu < 32 && qu < 32 ==> ((bitmap | (0x8000_0000u32 >> pu)) & (0x8000_0000u32 >> qu) != 0
            <==> (bitmap & (0x8000_0000u32 >> qu) != 0 || pu == qu))) by (bit_vector);
    }
}

/// Clearing the bit of `p` clears exactly that bit.
proof fn lemma_bit_clear(bitmap: u32, p: int)
    requires
        0 <= p < 32,
    ensures
        forall|q: int| 0 <= q < 32 ==> (#[trigger] bit_set(bitmap & !prio_bit(p), q) <==> (bit_set(bitmap, q) && q != p)),
{
    assert forall|q: int| 0 <= q < 32 implies (#[trigger] bit_set(bitmap & !prio_bit(p), q) <==> (
    bit_set(bitmap, q) && q != p)) by {
        let pu = p as u32;
        let qu = q as u32;
        assert(pu < 32 && qu < 32 ==> ((bitmap & !(0x8000_0000u32 >> pu)) & (0x8000_0000u32 >> qu) != 0
            <==> (bitmap & (0x8000_0000u32 >> qu) != 0 && pu != qu))) by (bit_vector);
    }
}

/// The leading zeros of a non-zero bitmap count the priorities above the
/// highest one whose bit is set.
proof fn lemma_clz_first_set(bitmap: u32)
    requires
        bitmap != 0,
    ensures
        u32_leading_zeros(bitmap) < 32,
        bit_set(bitmap, u32_leading_zeros(bitmap) as int),
        forall|q: int| 0 <= q < u32_leading_zeros(bitmap) ==> !#[trigger] bit_set(bitmap, q),
{
    vstd::std_specs::bits::axiom_u32_leading_zeros(bitmap);
    let lz = u32_leading_zeros(bitmap);
    assert((bitmap >> ((31 - lz) as u32)) & 1u32 != 0u32);
    assert(lz < 32 && (bitmap >> ((31 - lz) as u32)) & 1u32 != 0u32 ==> bitmap & (0x8000_0000u32 >> lz) != 0)
        by (bit_vector);
    assert forall|q: int| 0 <= q < lz implies !#[trigger] bit_set(bitmap, q) by {
        let qu = q as u32;
        let j = (31 - q) as u32;
        assert(32 - lz <= j < 32);
        assert((bitmap >> j) & 1u32 == 0u32);
        assert(qu < 32 && j == 31 - qu && (bitmap >> j) & 1u32 == 0u32 ==> bitmap & (0x8000_0000u32 >> qu) == 0)
            by (bit_vector);
    }
}

/// Whether a status has the unused or the exit flag: the spare control
/// block always has one of them, so it is never made ready.
pub open spec fn unused_or_exit(s: u16) -> bool {
    s & 0x0101u16 != 0
}

/// The list that a task's pend node is linked into.
#[derive(Clone, Copy, PartialEq, Eq, Structural)]
pub enum ListRef {
    Unlinked,
    FreeList,
    RecycleList,
    PriQueue(u32),
    WaitList(u32),
    JoinList(u32),
}

/// An event control block: the events that occurred and the tasks that
/// wait for some.
pub struct EVENT_CB_S {
    pub uwEventID: u32,
    pub stEventList: LOS_DL_LIST,
}

/// A task control block.  Addresses (stack, name, semaphore, mutex,
/// message) are 32-bit values, 0 for none.
pub struct LosTaskCB {
    pub stackPointer: u32,
    pub taskStatus: u16,
    pub priority: u16,
    pub timeSlice: i32,
    pub waitTimes: u32,
    pub sortList: SortLinkList,
    pub startTime: u64,
    pub stackSize: u32,
    pub topOfStack: u32,
    pub taskID: u32,
    pub taskEntry: Option<u32>,
    pub taskSem: u32,
    pub taskMux: u32,
    pub arg: u32,
    pub taskName: u32,
    pub pendList: ListRef,
    pub joinRetval: u32,
    pub event: EVENT_CB_S,
    pub eventMask: u32,
    pub eventMode: u32,
    pub msg: u32,
    pub errorNo: i32,
}

/// The running task and the task chosen to run next, as indices into the
/// task control block array.
#[derive(Clone, Copy)]
pub struct LosTask {
    pub runTask: u32,
    pub newTask: Option<u32>,
}

/// The kernel state of the scheduler and the task manager.
pub struct LosKernel {
    /// Task control blocks: `g_taskMaxNum` tasks and one spare block that
    /// stands for a running task that deleted itself.
    pub g_taskCBArray: Vec<LosTaskCB>,
    pub g_taskMaxNum: u32,
    pub g_losTask: LosTask,
    pub g_losTaskLock: u16,
    pub g_idleTaskID: u32,
    pub g_swtmrTaskID: u32,
    pub g_losFreeTask: LOS_DL_LIST,
    pub g_taskRecycleList: LOS_DL_LIST,
    pub g_taskScheduled: bool,
    pub pm_enter: Option<u32>,
    /// Pend lists of the IPC objects (semaphores, mutexes, queues, events).
    pub wait_lists: Vec<LOS_DL_LIST>,
    /// The join list of each task control block: the task waiting to join it.
    pub join_lists: Vec<LOS_DL_LIST>,
    pub swtmr_scan: Option<u32>,
    /// Whether the task sort link has been attached by `OsSchedInit`.
    pub task_sort_link_ready: bool,
    pub pri_queue_list: Vec<LOS_DL_LIST>,
    pub queue_bitmap: u32,
    pub sched_response_id: u32,
    pub tick_int_lock: u16,
    pub sched_response_time: u64,
    pub sched_time_slice: i32,
    pub sched_time_slice_min: i32,
    pub sched_tick_min_period: u32,
    pub tick_response_precision: u32,
    pub sort_links: SortLinks,
    pub tick: TickState,
    /// The scheduler trace hooks called so far and not yet run by the
    /// platform, in call order.
    pub sched_hooks: Vec<SchedHook>,
}

/// A scheduler trace hook call (`OsHookSched*`), with the task it is about.
pub enum SchedHook {
    /// `OsHookSchedMovedTaskToReadyState`: the task joined a ready queue.
    MovedTaskToReady(u32),
    /// `OsHookSchedMovedTaskToSuspendedList`: the task was suspended.
    MovedTaskToSuspended(u32),
    /// `OsHookSchedTaskPriModify`: a task that is not ready got a new priority.
    TaskPriModify(u32, u16),
    /// `OsHookSchedTaskSwitchedIn`: a new task was chosen to run.
    TaskSwitchedIn,
}

impl LosKernel {
    /// Task control block `i`.
    #[verifier::inline]
    pub open spec fn tcb(self, i: int) -> LosTaskCB {
        self.g_taskCBArray@[i]
    }

    /// Status word of task `i`.
    #[verifier::inline]
    pub open spec fn status(self, i: int) -> u16 {
        self.g_taskCBArray@[i].taskStatus
    }

    /// Whether task `i` has one of the status flags of `f`.
    #[verifier::inline]
    pub open spec fn has(self, i: int, f: u16) -> bool {
        self.g_taskCBArray@[i].taskStatus & f != 0
    }

    /// The ready queue of priority `p`.
    #[verifier::inline]
    pub open spec fn queue(self, p: int) -> Seq<u32> {
        self.pri_queue_list@[p]@
    }

    /// Whether `r` names a list of this kernel.
    pub open spec fn valid_ref(self, r: ListRef) -> bool {
        match r {
            ListRef::PriQueue(p) => p < OS_PRIORITY_QUEUE_NUM,
            ListRef::WaitList(w) => w < self.wait_lists@.len(),
            ListRef::JoinList(t) => t < self.join_lists@.len(),
            _ => true,
        }
    }

    /// The members of the list `r` names.
    pub open spec fn list_view(self, r: ListRef) -> Seq<u32> {
        match r {
            ListRef::Unlinked => Seq::empty(),
            ListRef::FreeList => self.g_losFreeTask@,
            ListRef::RecycleList => self.g_taskRecycleList@,
            ListRef::PriQueue(p) => self.pri_queue_list@[p as int]@,
            ListRef::WaitList(w) => self.wait_lists@[w as int]@,
            ListRef::JoinList(t) => self.join_lists@[t as int]@,
        }
    }

    /// Whether every member of `s` is a task id.
    pub open spec fn ids_valid(self, s: Seq<u32>) -> bool {
        forall|k: int| 0 <= k < s.len() ==> #[trigger] s[k] < self.g_taskMaxNum
    }

    /// The bitmap has the bit of a priority set exactly when its ready
    /// queue is not empty.
    pub open spec fn bitmap_consistent(self) -> bool {
        forall|p: int| 0 <= p < 32 ==> (#[trigger] bit_set(self.queue_bitmap, p) <==> self.queue(p).len() > 0)
    }

    /// Well-formedness of the kernel state.
    pub open spec fn wf(self) -> bool {
        &&& self.g_taskMaxNum == LOSCFG_BASE_CORE_TSK_LIMIT + 1
        &&& self.g_taskCBArray@.len() == self.g_taskMaxNum + 1
        &&& forall|i: int| 0 <= i < self.g_taskMaxNum ==> (#[trigger] self.tcb(i)).taskID == i
        &&& forall|i: int| 0 <= i <= self.g_taskMaxNum ==> self.valid_ref(#[trigger] self.tcb(i).pendList)
        &&& self.g_losTask.runTask <= self.g_taskMaxNum
        &&& (self.g_losTask.newTask matches Some(n) ==> n <= self.g_taskMaxNum)
        &&& self.pri_queue_list@.len() == OS_PRIORITY_QUEUE_NUM
        &&& self.bitmap_consistent()
        &&& forall|p: int| 0 <= p < 32 ==> self.ids_valid(#[trigger] self.queue(p))
        &&& forall|w: int| 0 <= w < self.wait_lists@.len() ==> self.ids_valid(#[trigger] self.wait_lists@[w]@)
        &&& self.join_lists@.len() == self.g_taskMaxNum + 1
        &&& forall|t: int| 0 <= t < self.join_lists@.len() ==> self.ids_valid(#[trigger] self.join_lists@[t]@)
        &&& unused_or_exit(self.status(self.g_taskMaxNum as int))
        &&& forall|i: int| 0 <= i <= self.g_taskMaxNum ==> (#[trigger] self.tcb(i)).sortList.sortLinkNode
            < self.g_taskMaxNum
        &&& forall|i: int| 0 <= i < self.g_taskMaxNum ==> (#[trigger] self.tcb(i)).sortList.sortLinkNode == i
        &&& forall|k: int| 0 <= k < self.sort_links.g_taskSortLink@.len()
            ==> (#[trigger] self.sort_links.g_taskSortLink@[k]).sortLinkNode < self.g_taskMaxNum
        &&& self.ids_valid(self.g_losFreeTask@)
        &&& self.ids_valid(self.g_taskRecycleList@)
    }
}

/// The lowest priority whose ready queue is not empty, given a bitmap
/// consistent with the queues: the leading zeros of the bitmap.
pub open spec fn top_priority(bitmap: u32) -> int {
    u32_leading_zeros(bitmap) as int
}

impl LosKernel {
    /// All scheduler bookkeeping other than the queues and the tasks.
    pub open spec fn same_sched(self, other: LosKernel) -> bool {
        &&& self.sched_response_id == other.sched_response_id
        &&& self.tick_int_lock == other.tick_int_lock
        &&& self.sched_response_time == other.sched_response_time
        &&& self.sched_time_slice == other.sched_time_slice
        &&& self.sched_time_slice_min == other.sched_time_slice_min
        &&& self.sched_tick_min_period == other.sched_tick_min_period
        &&& self.tick_response_precision == other.tick_response_precision
        &&& self.swtmr_scan == other.swtmr_scan
        &&& self.task_sort_link_ready == other.task_sort_link_ready
        &&& self.sort_links.g_taskSortLink@ == other.sort_links.g_taskSortLink@
        &&& self.sort_links.g_swtmrSortLink@ == other.sort_links.g_swtmrSortLink@
        &&& self.tick == other.tick
    }

    /// The task manager's globals and its free and recycle lists.
    pub open spec fn same_globals(self, other: LosKernel) -> bool {
        &&& self.g_taskMaxNum == other.g_taskMaxNum
        &&& self.g_losTask == other.g_losTask
        &&& self.g_losTaskLock == other.g_losTaskLock
        &&& self.g_idleTaskID == other.g_idleTaskID
        &&& self.g_swtmrTaskID == other.g_swtmrTaskID
        &&& self.g_taskScheduled == other.g_taskScheduled
        &&& self.pm_enter == other.pm_enter
        &&& self.g_losFreeTask@ == other.g_losFreeTask@
        &&& self.g_taskRecycleList@ == other.g_taskRecycleList@
        &&& self.wait_lists@.len() == other.wait_lists@.len()
        &&& forall|w: int| 0 <= w < self.wait_lists@.len() ==> #[trigger] self.wait_lists@[w]@
            == other.wait_lists@[w]@
        &&& self.join_lists@.len() == other.join_lists@.len()
        &&& forall|t: int| 0 <= t < self.join_lists@.len() ==> #[trigger] self.join_lists@[t]@
            == other.join_lists@[t]@
        &&& self.sched_hooks@ == other.sched_hooks@
    }

    /// The ready queues and their bitmap.
    pub open spec fn same_queues(self, other: LosKernel) -> bool {
        &&& self.queue_bitmap == other.queue_bitmap
        &&& self.pri_queue_list@.len() == other.pri_queue_list@.len()
        &&& forall|p: int| 0 <= p < 32 ==> #[trigger] self.queue(p) == other.queue(p)
    }

    /// Every task control block but `i` is the same.
    pub open spec fn same_tasks_except(self, other: LosKernel, i: int) -> bool {
        &&& self.g_taskCBArray@.len() == other.g_taskCBArray@.len()
        &&& forall|j: int| 0 <= j < self.g_taskCBArray@.len() && j != i ==> #[trigger] self.tcb(j)
            == other.tcb(j)
    }

    /// The queues after linking task `tid` at the head (`head`) or the
    /// tail of the ready queue of priority `prio`.
    pub open spec fn queues_after_enqueue(self, other: LosKernel, tid: u32, prio: u32, head: bool) -> bool {
        let q = (prio % 32) as int;
        &&& other.pri_queue_list@.len() == self.pri_queue_list@.len()
        &&& other.queue(q) == (if head { seq![tid] + self.queue(q) } else { self.queue(q).push(tid) })
        &&& forall|p: int| 0 <= p < 32 && p != q ==> #[trigger] other.queue(p) == self.queue(p)
        &&& other.queue_bitmap == self.queue_bitmap | prio_bit(q)
    }

    /// The queues after unlinking task `tid` from the ready queue of
    /// priority `prio`.
    pub open spec fn queues_after_delete(self, other: LosKernel, tid: u32, prio: u32) -> bool {
        let q = (prio % 32) as int;
        &&& other.pri_queue_list@.len() == self.pri_queue_list@.len()
        &&& other.queue(q) == self.queue(q).remove_value(tid)
        &&& forall|p: int| 0 <= p < 32 && p != q ==> #[trigger] other.queue(p) == self.queue(p)
        &&& other.queue_bitmap == (if other.queue(q).len() == 0 {
            self.queue_bitmap & !prio_bit(q)
        } else {
            self.queue_bitmap
        })
    }

    /// Links task `tid` into the ready queue of priority `prio`, at the head
    /// or the tail, and sets the queue's bitmap bit
    /// (`OsSchedPriQueueEnHead` / `OsSchedPriQueueEnTail`).
    pub fn os_sched_pri_queue_enqueue(&mut self, tid: u32, prio: u32, head: bool)
        requires
            old(self).wf(),
            tid < old(self).g_taskMaxNum,
        ensures
            final(self).wf(),
            old(self).queues_after_enqueue(*final(self), tid, prio, head),
            final(self).same_sched(*old(self)),
            final(self).same_globals(*old(self)),
            final(self).g_taskCBArray@ == old(self).g_taskCBArray@,
    {
        let idx = priority_idx(prio);
        let bit = priority_bit(prio);
        proof {
            lemma_bit_or(self.queue_bitmap, idx as int);
        }
        if self.pri_queue_list[idx].LOS_ListEmpty() {
            self.queue_bitmap = self.queue_bitmap | bit;
        } else {
            proof {
                assert(bit_set(self.queue_bitmap, idx as int));
                assert(self.queue_bitmap & prio_bit(idx as int) != 0);
                assert(self.queue_bitmap | prio_bit(idx as int) == self.queue_bitmap) by {
                    let b = self.queue_bitmap;
                    let i = idx as u32;
                    assert(i < 32 && b & (0x8000_0000u32 >> i) != 0 ==> b | (0x8000_0000u32 >> i) == b)
                        by (bit_vector);
                }
            }
        }
        let ghost before = self.pri_queue_list@;
        if head {
            self.pri_queue_list[idx].LOS_ListAdd(tid);
        } else {
            self.pri_queue_list[idx].LOS_ListTailInsert(tid);
        }
        proof {
            assert forall|p: int| 0 <= p < 32 && p != idx implies #[trigger] self.queue(p) == old(self).queue(p) by {
                assert(self.pri_queue_list@[p] == before[p]);
            }
            assert forall|p: int| 0 <= p < 32 implies self.ids_valid(#[trigger] self.queue(p)) by {
                if p != idx {
                    assert(self.queue(p) == old(self).queue(p));
                } else {
                    assert(old(self).ids_valid(old(self).queue(p)));
                }
            }
            assert forall|p: int| 0 <= p < 32 implies (#[trigger] bit_set(self.queue_bitmap, p)
                <==> self.queue(p).len() > 0) by {
                assert(bit_set(old(self).queue_bitmap, p) <==> old(self).queue(p).len() > 0);
                if p != idx {
                    assert(self.queue(p) == old(self).queue(p));
                }
            }
        }
    }

    /// Unlinks task `tid` from the ready queue of priority `prio` and clears
    /// the queue's bitmap bit when it becomes empty (`OsSchedPriQueueDelete`).
    pub fn os_sched_pri_queue_delete(&mut self, tid: u32, prio: u32)
        requires
            old(self).wf(),
        ensures
            final(self).wf(),
            old(self).queues_after_delete(*final(self), tid, prio),
            final(self).same_sched(*old(self)),
            final(self).same_globals(*old(self)),
            final(self).g_taskCBArray@ == old(self).g_taskCBArray@,
    {
        let idx = priority_idx(prio);
        let ghost before = self.pri_queue_list@;
        self.pri_queue_list[idx].LOS_ListDelete(tid);
        proof {
            assert forall|p: int| 0 <= p < 32 && p != idx implies #[trigger] self.queue(p) == old(self).queue(p) by {
                assert(self.pri_queue_list@[p] == before[p]);
            }
            let q = old(self).queue(idx as int);
            assert(self.queue(idx as int) == q.remove_value(tid));
            assert forall|k: int| 0 <= k < q.remove_value(tid).len() implies #[trigger] q.remove_value(tid)[k]
                < self.g_taskMaxNum by {
                q.index_of_first_ensures(tid);
                match q.index_of_first(tid) {
                    Some(i) => {
                        assert(q.remove_value(tid) == q.remove(i));
                        if k < i {
                            assert(q.remove(i)[k] == q[k]);
                        } else {
                            assert(q.remove(i)[k] == q[k + 1]);
                        }
                    },
                    None => {},
                }
            }
            lemma_bit_clear(self.queue_bitmap, idx as int);
        }
        let bit = priority_bit(prio);
        let ghost old_bitmap = self.queue_bitmap;
        if self.pri_queue_list[idx].LOS_ListEmpty() {
            self.queue_bitmap = self.queue_bitmap & !bit;
        }
        proof {
            assert forall|q: int| 0 <= q < 32 implies (#[trigger] bit_set(old_bitmap & !prio_bit(idx as int), q)
                <==> (bit_set(old_bitmap, q) && q != idx)) by {
            }
        }
        proof {
            assert forall|p: int| 0 <= p < 32 implies self.ids_valid(#[trigger] self.queue(p)) by {
                if p != idx {
                    assert(self.queue(p) == old(self).queue(p));
                }
            }
            assert forall|p: int| 0 <= p < 32 implies (#[trigger] bit_set(self.queue_bitmap, p)
                <==> self.queue(p).len() > 0) by {
                assert(bit_set(old(self).queue_bitmap, p) <==> old(self).queue(p).len() > 0);
                if p != idx {
                    assert(self.queue(p) == old(self).queue(p));
                } else {
                    let q = old(self).queue(p);
                    if q.len() == 0 {
                        q.index_of_first_ensures(tid);
                        assert(q.remove_value(tid) == q);
                    }
                }
            }
        }
    }

    /// The task to run next (`OsGetTopTask`): the first task of the ready
    /// queue of the highest priority (lowest number) that is not empty, or
    /// the idle task when all are empty; `None` when the idle task id is not
    /// a task.
    pub fn OsGetTopTask(&self) -> (r: Option<u32>)
        requires
            self.wf(),
        ensures
            self.queue_bitmap != 0 ==> {
                &&& 0 <= top_priority(self.queue_bitmap) < 32
                &&& self.queue(top_priority(self.queue_bitmap)).len() > 0
                &&& forall|p: int| 0 <= p < top_priority(self.queue_bitmap) ==> #[trigger] self.queue(p).len() == 0
                &&& r == Some(self.queue(top_priority(self.queue_bitmap))[0])
            },
            self.queue_bitmap == 0 ==> {
                &&& forall|p: int| 0 <= p < 32 ==> #[trigger] self.queue(p).len() == 0
                &&& r == (if self.g_idleTaskID < self.g_taskMaxNum {
                    Some(self.g_idleTaskID)
                } else {
                    None
                })
            },
            r matches Some(t) ==> t < self.g_taskMaxNum,
    {
        let bitmap = self.queue_bitmap;
        if bitmap != 0 {
            let priority = clz(bitmap);
            proof {
                lemma_clz_first_set(bitmap);
                assert forall|p: int| 0 <= p < top_priority(bitmap) implies #[trigger] self.queue(p).len() == 0 by {
                    assert(!bit_set(bitmap, p));
                }
                assert(self.ids_valid(self.queue(priority as int)));
            }
            match self.pri_queue_list[priority as usize].LOS_DL_LIST_FIRST() {
                Some(first) => Some(first),
                None => {
                    if self.g_idleTaskID < self.g_taskMaxNum {
                        Some(self.g_idleTaskID)
                    } else {
                        None
                    }
                },
            }
        } else {
            proof {
                assert forall|p: int| 0 <= p < 32 implies #[trigger] self.queue(p).len() == 0 by {
                    assert(!bit_set(bitmap, p)) by {
                        lemma_zero_bitmap_bit(p as u32);
                    }
                }
            }
            if self.g_idleTaskID < self.g_taskMaxNum {
                Some(self.g_idleTaskID)
            } else {
                None
            }
        }
    }
}

/// Removing a value from a list of task ids leaves a list of task ids.
proof fn lemma_remove_value_ids(s: Seq<u32>, v: u32, max: u32)
    requires
        forall|k: int| 0 <= k < s.len() ==> #[trigger] s[k] < max,
    ensures
        forall|k: int| 0 <= k < s.remove_value(v).len() ==> #[trigger] s.remove_value(v)[k] < max,
        s.len() == 0 ==> s.remove_value(v).len() == 0,
{
    s.index_of_first_ensures(v);
    match s.index_of_first(v) {
        Some(i) => {
            assert forall|k: int| 0 <= k < s.remove_value(v).len() implies #[trigger] s.remove_value(v)[k] < max by {
                if k < i {
                    assert(s.remove(i)[k] == s[k]);
                } else {
                    assert(s.remove(i)[k] == s[k + 1]);
                }
            }
        },
        None => {},
    }
}

/// Removing one value keeps every other member.
proof fn lemma_remove_value_keeps_others(s: Seq<u32>, v: u32, x: u32)
    requires
        x != v,
        s.contains(x),
    ensures
        s.remove_value(v).contains(x),
{
    s.index_of_first_ensures(v);
    let j = choose|j: int| 0 <= j < s.len() && s[j] == x;
    match s.index_of_first(v) {
        Some(i) => {
            if j < i {
                assert(s.remove(i)[j] == x);
            } else {
                assert(j != i);
                assert(s.remove(i)[j - 1] == x);
            }
        },
        None => {},
    }
}

/// The status after a task is made ready: pend, suspend, delay and timed
/// pend cleared, ready set.
pub open spec fn ready_status(s: u16) -> u16 {
    (s & !(0x00AAu16))
        | OS_TASK_STATUS_READY
}

/// Every task other than `tid` that is on a ready queue of `a` is on the
/// same ready queue of `b`.
pub open spec fn queue_members_kept(a: LosKernel, b: LosKernel, tid: u32) -> bool {
    forall|p: int, x: u32| 0 <= p < 32 && x != tid && #[trigger] a.queue(p).contains(x) ==> b.queue(p).contains(x)
}

impl LosKernel {
    /// Vector lengths of the lists are the same.
    pub open spec fn same_shape(self, other: LosKernel) -> bool {
        &&& self.pri_queue_list@.len() == other.pri_queue_list@.len()
        &&& self.wait_lists@.len() == other.wait_lists@.len()
        &&& self.join_lists@.len() == other.join_lists@.len()
        &&& self.g_taskCBArray@.len() == other.g_taskCBArray@.len()
    }

    /// Every list other than `r` has the same members.
    pub open spec fn lists_same_except(self, other: LosKernel, r: ListRef) -> bool {
        &&& self.same_shape(other)
        &&& forall|r2: ListRef| self.valid_ref(r2) && r2 != r ==> #[trigger] other.list_view(r2) == self.list_view(r2)
    }

    /// The scalar task manager globals are the same.
    pub open spec fn same_task_globals(self, other: LosKernel) -> bool {
        &&& self.g_taskMaxNum == other.g_taskMaxNum
        &&& self.g_losTask == other.g_losTask
        &&& self.g_losTaskLock == other.g_losTaskLock
        &&& self.g_idleTaskID == other.g_idleTaskID
        &&& self.g_swtmrTaskID == other.g_swtmrTaskID
        &&& self.g_taskScheduled == other.g_taskScheduled
        &&& self.pm_enter == other.pm_enter
    }

    /// Unlinks task `tid` from the list its pend node is in (`LOS_ListDelete`
    /// on the task's `pendList`), keeping the bitmap of a ready queue it
    /// leaves in step.
    pub fn os_task_pend_unlink(&mut self, tid: u32)
        requires
            old(self).wf(),
            tid <= old(self).g_taskMaxNum,
        ensures
            final(self).wf(),
            old(self).lists_same_except(*final(self), old(self).tcb(tid as int).pendList),
            final(self).list_view(old(self).tcb(tid as int).pendList) == old(self).list_view(
                old(self).tcb(tid as int).pendList,
            ).remove_value(tid),
            old(self).tcb(tid as int).pendList matches ListRef::PriQueue(p) ==> old(self).queues_after_delete(
                *final(self),
                tid,
                p,
            ),
            !(old(self).tcb(tid as int).pendList is PriQueue) ==> final(self).queue_bitmap == old(self).queue_bitmap,
            final(self).tcb(tid as int) == (LosTaskCB { pendList: ListRef::Unlinked, ..old(self).tcb(tid as int) }),
            final(self).same_tasks_except(*old(self), tid as int),
            final(self).same_sched(*old(self)),
            final(self).same_task_globals(*old(self)),
    {
        let r = self.g_taskCBArray[tid as usize].pendList;
        let ghost before = *self;
        match r {
            ListRef::Unlinked => {
                proof {
                    assert(Seq::<u32>::empty().remove_value(tid) == Seq::<u32>::empty()) by {
                        Seq::<u32>::empty().index_of_first_ensures(tid);
                    }
                }
            },
            ListRef::FreeList => {
                proof { lemma_remove_value_ids(self.g_losFreeTask@, tid, self.g_taskMaxNum); }
                self.g_losFreeTask.LOS_ListDelete(tid);
            },
            ListRef::RecycleList => {
                proof { lemma_remove_value_ids(self.g_taskRecycleList@, tid, self.g_taskMaxNum); }
                self.g_taskRecycleList.LOS_ListDelete(tid);
            },
            ListRef::PriQueue(p) => {
                self.os_sched_pri_queue_delete(tid, p);
                proof {
                    assert(p % 32 == p);
                    assert forall|r2: ListRef| before.valid_ref(r2) && r2 != r implies #[trigger] self.list_view(r2)
                        == before.list_view(r2) by {
                        if let ListRef::PriQueue(p2) = r2 {
                            assert(self.queue(p2 as int) == before.queue(p2 as int));
                        }
                    }
                }
            },
            ListRef::WaitList(w) => {
                proof { lemma_remove_value_ids(self.wait_lists@[w as int]@, tid, self.g_taskMaxNum); }
                self.wait_lists[w as usize].LOS_ListDelete(tid);
                proof {
                    assert forall|r2: ListRef| before.valid_ref(r2) && r2 != r implies #[trigger] self.list_view(r2)
                        == before.list_view(r2) by {
                        if let ListRef::WaitList(w2) = r2 {
                            assert(self.wait_lists@[w2 as int] == before.wait_lists@[w2 as int]);
                        }
                    }
                    assert forall|w2: int| 0 <= w2 < self.wait_lists@.len() implies self.ids_valid(
                        #[trigger] self.wait_lists@[w2]@) by {
                        if w2 != w {
                            assert(self.wait_lists@[w2] == before.wait_lists@[w2]);
                        }
                    }
                }
            },
            ListRef::JoinList(j) => {
                proof { lemma_remove_value_ids(self.join_lists@[j as int]@, tid, self.g_taskMaxNum); }
                self.join_lists[j as usize].LOS_ListDelete(tid);
                proof {
                    assert forall|r2: ListRef| before.valid_ref(r2) && r2 != r implies #[trigger] self.list_view(r2)
                        == before.list_view(r2) by {
                        if let ListRef::JoinList(j2) = r2 {
                            assert(self.join_lists@[j2 as int] == before.join_lists@[j2 as int]);
                        }
                    }
                    assert forall|t: int| 0 <= t < self.join_lists@.len() implies self.ids_valid(
                        #[trigger] self.join_lists@[t]@) by {
                        if t != j {
                            assert(self.join_lists@[t] == before.join_lists@[t]);
                        }
                    }
                }
            },
        }
        self.g_taskCBArray[tid as usize].pendList = ListRef::Unlinked;
    }
}

impl LosKernel {
    /// The scheduler configuration: time slices, tick precision, the timer
    /// scan hook, the attached sort link and the tick state.
    pub open spec fn same_config(self, other: LosKernel) -> bool {
        &&& self.sched_time_slice == other.sched_time_slice
        &&& self.sched_time_slice_min == other.sched_time_slice_min
        &&& self.sched_tick_min_period == other.sched_tick_min_period
        &&& self.tick_response_precision == other.tick_response_precision
        &&& self.swtmr_scan == other.swtmr_scan
        &&& self.task_sort_link_ready == other.task_sort_link_ready
        &&& self.tick == other.tick
        &&& self.tick_int_lock == other.tick_int_lock
    }

    /// The free, recycle, wait and join lists have the same members.
    pub open spec fn same_aux_lists(self, other: LosKernel) -> bool {
        &&& self.g_losFreeTask@ == other.g_losFreeTask@
        &&& self.g_taskRecycleList@ == other.g_taskRecycleList@
        &&& self.wait_lists@.len() == other.wait_lists@.len()
        &&& forall|w: int| 0 <= w < self.wait_lists@.len() ==> #[trigger] self.wait_lists@[w]@
            == other.wait_lists@[w]@
        &&& self.join_lists@.len() == other.join_lists@.len()
        &&& forall|t: int| 0 <= t < self.join_lists@.len() ==> #[trigger] self.join_lists@[t]@
            == other.join_lists@[t]@
    }

    /// Everything but the sort links, the scheduled response time and the
    /// tasks is the same.
    pub open spec fn same_but_timing(self, other: LosKernel) -> bool {
        &&& self.same_task_globals(other)
        &&& self.same_aux_lists(other)
        &&& self.same_queues(other)
        &&& self.sched_response_id == other.sched_response_id
        &&& self.tick_int_lock == other.tick_int_lock
        &&& self.sched_time_slice == other.sched_time_slice
        &&& self.sched_time_slice_min == other.sched_time_slice_min
        &&& self.sched_tick_min_period == other.sched_tick_min_period
        &&& self.tick_response_precision == other.tick_response_precision
        &&& self.swtmr_scan == other.swtmr_scan
        &&& self.task_sort_link_ready == other.task_sort_link_ready
        &&& self.tick == other.tick
        &&& self.sched_hooks@ == other.sched_hooks@
    }

    /// Makes task `tid` ready (`OsSchedTaskEnQueue`): a task other than the
    /// idle task joins the ready queue of its priority, at the head when it
    /// has time slice left above the minimum, else at the tail with a fresh
    /// time slice; its pend, suspend, delay and timed-pend flags are cleared
    /// and ready is set.
    pub fn OsSchedTaskEnQueue(&mut self, tid: u32)
        requires
            old(self).wf(),
            tid < old(self).g_taskMaxNum,
        ensures
            final(self).wf(),
            tid != old(self).g_idleTaskID ==> old(self).queues_after_enqueue(
                *final(self),
                tid,
                old(self).tcb(tid as int).priority as u32,
                old(self).tcb(tid as int).timeSlice > old(self).sched_time_slice_min,
            ),
            tid == old(self).g_idleTaskID ==> final(self).same_queues(*old(self)),
            final(self).tcb(tid as int) == (LosTaskCB {
                taskStatus: ready_status(old(self).tcb(tid as int).taskStatus),
                timeSlice: if tid != old(self).g_idleTaskID && old(self).tcb(tid as int).timeSlice
                    <= old(self).sched_time_slice_min {
                    old(self).sched_time_slice
                } else {
                    old(self).tcb(tid as int).timeSlice
                },
                pendList: if tid != old(self).g_idleTaskID {
                    ListRef::PriQueue(((old(self).tcb(tid as int).priority as u32) % 32) as u32)
                } else {
                    old(self).tcb(tid as int).pendList
                },
                ..old(self).tcb(tid as int)
            }),
            final(self).same_tasks_except(*old(self), tid as int),
            final(self).same_sched(*old(self)),
            final(self).same_task_globals(*old(self)),
            final(self).same_aux_lists(*old(self)),
            final(self).sched_hooks@ == if tid != old(self).g_idleTaskID {
                old(self).sched_hooks@.push(SchedHook::MovedTaskToReady(tid))
            } else {
                old(self).sched_hooks@
            },
    {
        if tid != self.g_idleTaskID {
            let prio = self.g_taskCBArray[tid as usize].priority as u32;
            if self.g_taskCBArray[tid as usize].timeSlice > self.sched_time_slice_min {
                self.os_sched_pri_queue_enqueue(tid, prio, true);
            } else {
                self.g_taskCBArray[tid as usize].timeSlice = self.sched_time_slice;
                self.os_sched_pri_queue_enqueue(tid, prio, false);
            }
            let idx = priority_idx(prio) as u32;
            self.g_taskCBArray[tid as usize].pendList = ListRef::PriQueue(idx);
            self.sched_hooks.push(SchedHook::MovedTaskToReady(tid));
        }
        let status = self.g_taskCBArray[tid as usize].taskStatus;
        self.g_taskCBArray[tid as usize].taskStatus = (status & !0x00AAu16) | OS_TASK_STATUS_READY;
        proof {
            let m = self.g_taskMaxNum as int;
            assert(tid != m);
        }
    }

    /// Takes task `tid` off the ready queues (`OsSchedTaskDeQueue`): when it
    /// is ready, a task other than the idle task leaves the ready queue of
    /// its priority, and ready is cleared; otherwise nothing changes.
    pub fn OsSchedTaskDeQueue(&mut self, tid: u32)
        requires
            old(self).wf(),
            tid <= old(self).g_taskMaxNum,
        ensures
            final(self).wf(),
            !old(self).has(tid as int, OS_TASK_STATUS_READY) ==> *final(self) == *old(self),
            old(self).has(tid as int, OS_TASK_STATUS_READY) ==> {
                &&& tid != old(self).g_idleTaskID ==> old(self).queues_after_delete(
                    *final(self),
                    tid,
                    old(self).tcb(tid as int).priority as u32,
                )
                &&& tid == old(self).g_idleTaskID ==> final(self).same_queues(*old(self))
                &&& final(self).tcb(tid as int) == (LosTaskCB {
                    taskStatus: old(self).tcb(tid as int).taskStatus & !OS_TASK_STATUS_READY,
                    pendList: if tid != old(self).g_idleTaskID {
                        ListRef::Unlinked
                    } else {
                        old(self).tcb(tid as int).pendList
                    },
                    ..old(self).tcb(tid as int)
                })
                &&& final(self).same_tasks_except(*old(self), tid as int)
                &&& final(self).same_sched(*old(self))
                &&& final(self).same_task_globals(*old(self))
                &&& final(self).same_aux_lists(*old(self))
                &&& final(self).sched_hooks@ == old(self).sched_hooks@
            },
    {
        let status = self.g_taskCBArray[tid as usize].taskStatus;
        if (status & OS_TASK_STATUS_READY) != 0 {
            if tid != self.g_idleTaskID {
                let prio = self.g_taskCBArray[tid as usize].priority as u32;
                self.os_sched_pri_queue_delete(tid, prio);
                self.g_taskCBArray[tid as usize].pendList = ListRef::Unlinked;
            }
            self.g_taskCBArray[tid as usize].taskStatus = status & !OS_TASK_STATUS_READY;
            proof {
                let m = self.g_taskMaxNum as int;
                let s0 = status;
                if tid as int == m {
                    assert(s0 & 0x101u16 != 0 ==> (s0 & !4u16) & 0x101u16 != 0) by (bit_vector);
                }
            }
        }
    }

    /// Drops the programmed tick response when a node that expires at
    /// `response_time` or earlier leaves (`OsSchedResetSchedResponseTime`).
    pub fn OsSchedResetSchedResponseTime(&mut self, response_time: u64)
        ensures
            final(self).sched_response_time == if response_time <= old(self).sched_response_time {
                OS_SCHED_MAX_RESPONSE_TIME
            } else {
                old(self).sched_response_time
            },
            *final(self) == (LosKernel { sched_response_time: final(self).sched_response_time, ..*old(self) }),
    {
        if response_time <= self.sched_response_time {
            self.sched_response_time = OS_SCHED_MAX_RESPONSE_TIME;
        }
    }

    /// Takes task `tid`'s node off the task sort link (`OsDeleteSortLink`):
    /// when it is linked (its response time is valid), the programmed tick
    /// response is dropped if it was not later, the node is unlinked and its
    /// response time becomes invalid.
    pub fn OsDeleteSortLink(&mut self, tid: u32)
        requires
            old(self).wf(),
            tid <= old(self).g_taskMaxNum,
        ensures
            final(self).wf(),
            old(self).tcb(tid as int).sortList.responseTime == OS_SORT_LINK_INVALID_TIME ==> *final(self)
                == *old(self),
            old(self).tcb(tid as int).sortList.responseTime != OS_SORT_LINK_INVALID_TIME ==> {
                let rt = old(self).tcb(tid as int).sortList.responseTime;
                &&& final(self).sched_response_time == (if rt <= old(self).sched_response_time {
                    OS_SCHED_MAX_RESPONSE_TIME
                } else {
                    old(self).sched_response_time
                })
                &&& final(self).sort_links.g_taskSortLink@ == crate::sortlink::remove_owner(
                    old(self).sort_links.g_taskSortLink@,
                    old(self).tcb(tid as int).sortList.sortLinkNode,
                )
                &&& final(self).sort_links.g_swtmrSortLink@ == old(self).sort_links.g_swtmrSortLink@
                &&& final(self).tcb(tid as int) == (LosTaskCB {
                    sortList: SortLinkList {
                        responseTime: OS_SORT_LINK_INVALID_TIME,
                        ..old(self).tcb(tid as int).sortList
                    },
                    ..old(self).tcb(tid as int)
                })
                &&& final(self).same_tasks_except(*old(self), tid as int)
                &&& final(self).same_but_timing(*old(self))
            },
    {
        let rt = self.g_taskCBArray[tid as usize].sortList.responseTime;
        if rt != OS_SORT_LINK_INVALID_TIME {
            self.OsSchedResetSchedResponseTime(rt);
            let owner = self.g_taskCBArray[tid as usize].sortList.sortLinkNode;
            proof {
                lemma_remove_owner_members(self.sort_links.g_taskSortLink@, owner, self.g_taskMaxNum);
            }
            self.sort_links.g_taskSortLink.remove_owner(owner);
            self.g_taskCBArray[tid as usize].sortList.responseTime = OS_SORT_LINK_INVALID_TIME;
        }
    }
}

/// The empty bitmap has no priority bit set.
pub(crate) proof fn lemma_zero_bitmap_bit(pu: u32)
    by (bit_vector)
    ensures
        pu < 32 ==> 0u32 & (0x8000_0000u32 >> pu) == 0,
{
}

/// Clearing flags other than unused and exit, and setting flags, keeps a
/// status unused or exited.
proof fn lemma_unused_or_exit_kept(s: u16, clear: u16, set: u16)
    requires
        unused_or_exit(s),
        clear % 2 == 0,
        (clear / 256) % 2 == 0,
    ensures
        unused_or_exit((s & !clear) | set),
        unused_or_exit(s & !clear),
        unused_or_exit(s | set),
{
    assert(
        (clear % 2 == 0 && (clear / 256) % 2 == 0 ==> clear & 0x0101u16 == 0)
        && (s & 0x0101u16 != 0 && clear & 0x0101u16 == 0 ==> ((s & !clear) | set) & 0x0101u16 != 0
            && (s & !clear) & 0x0101u16 != 0 && (s | set) & 0x0101u16 != 0)
    ) by (bit_vector);
}

/// Removing an owner's node from a sort link of task nodes leaves task nodes.
proof fn lemma_remove_owner_members(s: Seq<SortLinkList>, owner: u32, max: u32)
    requires
        forall|k: int| 0 <= k < s.len() ==> (#[trigger] s[k]).sortLinkNode < max,
    ensures
        forall|k: int| 0 <= k < crate::sortlink::remove_owner(s, owner).len()
            ==> (#[trigger] crate::sortlink::remove_owner(s, owner)[k]).sortLinkNode < max,
{
    crate::sortlink::lemma_node_pos(s, owner);
    match crate::sortlink::node_pos(s, owner) {
        Some(i) => {
            assert forall|k: int| 0 <= k < s.remove(i).len() implies (#[trigger] s.remove(i)[k]).sortLinkNode
                < max by {
                if k < i {
                    assert(s[k] == s.remove(i)[k]);
                } else {
                    assert(s[k + 1] == s.remove(i)[k]);
                }
            }
        },
        None => {},
    }
}

/// The status after `OsSchedTaskExit`: ready (or else pend) cleared, delay
/// and timed pend cleared, exit set.
pub open spec fn exit_status(s: u16) -> u16 {
    let s1 = if s & OS_TASK_STATUS_READY != 0 {
        s & !OS_TASK_STATUS_READY
    } else if s & OS_TASK_STATUS_PEND != 0 {
        s & !OS_TASK_STATUS_PEND
    } else {
        s
    };
    (s1 & !0x00A0u16) | OS_TASK_STATUS_EXIT
}

impl LosKernel {
    /// Whether `f` has task `tid` taken off the scheduler lists it is on in
    /// `self`: off its ready queue when ready (but the idle task, which is
    /// never queued), else off the wait or join list it pends on when
    /// pending, and off the task sort link when delayed or timed-pending.
    pub open spec fn exit_lists(self, f: LosKernel, tid: u32) -> bool {
        let t = self.tcb(tid as int);
        let q = ((t.priority as u32) % 32) as int;
        &&& self.has(tid as int, OS_TASK_STATUS_READY) && tid != self.g_idleTaskID ==> f.queue(q)
            == self.queue(q).remove_value(tid)
        &&& !self.has(tid as int, OS_TASK_STATUS_READY) && self.has(tid as int, OS_TASK_STATUS_PEND) && (
        t.pendList is WaitList || (t.pendList matches ListRef::JoinList(j) && j != tid)) ==> f.list_view(t.pendList)
            == self.list_view(t.pendList).remove_value(tid)
        &&& self.has(tid as int, 0x00A0u16) && t.sortList.responseTime != OS_SORT_LINK_INVALID_TIME
            ==> f.sort_links.g_taskSortLink@ == crate::sortlink::remove_owner(
            self.sort_links.g_taskSortLink@,
            t.sortList.sortLinkNode,
        )
    }

    /// Takes an exiting task `tid` off every scheduler list
    /// (`OsSchedTaskExit`): off its ready queue when ready, else off its pend
    /// list when pending; off the task sort link when delayed or pending with
    /// a time limit; its status becomes `exit_status` of the old one.
    pub fn OsSchedTaskExit(&mut self, tid: u32)
        requires
            old(self).wf(),
            tid <= old(self).g_taskMaxNum,
        ensures
            final(self).wf(),
            final(self).status(tid as int) == exit_status(old(self).status(tid as int)),
            old(self).exit_lists(*final(self), tid),
            final(self).same_shape(*old(self)),
            old(self).has(tid as int, OS_TASK_STATUS_READY) && tid != old(self).g_idleTaskID ==> final(self).queue(
                ((old(self).tcb(tid as int).priority as u32) % 32) as int,
            ) == old(self).queue(((old(self).tcb(tid as int).priority as u32) % 32) as int).remove_value(tid),
            !old(self).has(tid as int, OS_TASK_STATUS_READY) && old(self).has(tid as int, OS_TASK_STATUS_PEND)
                ==> final(self).list_view(old(self).tcb(tid as int).pendList) == old(self).list_view(
                old(self).tcb(tid as int).pendList,
            ).remove_value(tid),
            (old(self).has(tid as int, OS_TASK_STATUS_READY) && tid != old(self).g_idleTaskID) || (!old(self).has(
                tid as int,
                OS_TASK_STATUS_READY,
            ) && old(self).has(tid as int, OS_TASK_STATUS_PEND))
                ==> final(self).tcb(tid as int).pendList == ListRef::Unlinked,
            old(self).has(tid as int, 0x00A0u16) && old(self).tcb(
                tid as int,
            ).sortList.responseTime != OS_SORT_LINK_INVALID_TIME ==> final(self).sort_links.g_taskSortLink@
                == crate::sortlink::remove_owner(
                old(self).sort_links.g_taskSortLink@,
                old(self).tcb(tid as int).sortList.sortLinkNode,
            ) && final(self).tcb(tid as int).sortList.responseTime == OS_SORT_LINK_INVALID_TIME,
            final(self).tcb(tid as int) == (LosTaskCB {
                taskStatus: final(self).status(tid as int),
                pendList: final(self).tcb(tid as int).pendList,
                sortList: final(self).tcb(tid as int).sortList,
                ..old(self).tcb(tid as int)
            }),
            final(self).same_tasks_except(*old(self), tid as int),
            final(self).same_task_globals(*old(self)),
    {
        let status = self.g_taskCBArray[tid as usize].taskStatus;
        if (status & OS_TASK_STATUS_READY) != 0 {
            self.OsSchedTaskDeQueue(tid);
        } else if (status & OS_TASK_STATUS_PEND) != 0 {
            self.os_task_pend_unlink(tid);
            let st = self.g_taskCBArray[tid as usize].taskStatus;
            self.g_taskCBArray[tid as usize].taskStatus = st & !OS_TASK_STATUS_PEND;
            proof {
                if tid == self.g_taskMaxNum {
                    lemma_unused_or_exit_kept(st, OS_TASK_STATUS_PEND, 0);
                }
            }
        }
        let ghost mid = *self;
        let status = self.g_taskCBArray[tid as usize].taskStatus;
        if (status & 0x00A0u16) != 0 {
            self.OsDeleteSortLink(tid);
            let st = self.g_taskCBArray[tid as usize].taskStatus;
            self.g_taskCBArray[tid as usize].taskStatus = st & !0x00A0u16;
            proof {
                if tid == self.g_taskMaxNum {
                    lemma_unused_or_exit_kept(st, 0x00A0u16, 0);
                }
            }
        }
        let st = self.g_taskCBArray[tid as usize].taskStatus;
        self.g_taskCBArray[tid as usize].taskStatus = st | OS_TASK_STATUS_EXIT;
        proof {
            let s0 = old(self).status(tid as int);
            let s1 = mid.status(tid as int);
            assert(
                ((s0 & !4u16) & 0xA0u16 == s0 & 0xA0u16)
                && ((s0 & !8u16) & 0xA0u16 == s0 & 0xA0u16)
                && (s1 & 0xA0u16 == 0 ==> s1 & !0xA0u16 == s1)
            ) by (bit_vector);
            if tid == self.g_taskMaxNum {
                lemma_unused_or_exit_kept(st, 0, OS_TASK_STATUS_EXIT);
            }
        }
    }
}

/// The status after `OsSchedTaskWake`: pend and timed pend cleared, and
/// made ready unless suspended or running.
pub open spec fn wake_status(s: u16) -> u16 {
    let s2 = s & !0x0088u16;
    if s2 & 0x0012u16 == 0 {
        ready_status(s2)
    } else {
        s2
    }
}

/// Whether a list reference names a pend list (an IPC object's or a join list).
pub open spec fn is_pend_list(r: ListRef) -> bool {
    r is WaitList || r is JoinList
}

impl LosKernel {
    /// Ends the running task's time slice (`OsSchedYield`).
    pub fn OsSchedYield(&mut self)
        requires
            old(self).wf(),
        ensures
            final(self).wf(),
            final(self).tcb(old(self).g_losTask.runTask as int) == (LosTaskCB {
                timeSlice: 0,
                ..old(self).tcb(old(self).g_losTask.runTask as int)
            }),
            final(self).same_tasks_except(*old(self), old(self).g_losTask.runTask as int),
            final(self).same_but_timing(*old(self)),
            final(self).same_sched(*old(self)),
    {
        let run = self.g_losTask.runTask;
        self.g_taskCBArray[run as usize].timeSlice = 0;
    }

    /// Marks task `tid` delayed for `tick` ticks (`OsSchedDelay`).
    pub fn OsSchedDelay(&mut self, tid: u32, tick: u32)
        requires
            old(self).wf(),
            tid <= old(self).g_taskMaxNum,
        ensures
            final(self).wf(),
            final(self).tcb(tid as int) == (LosTaskCB {
                taskStatus: old(self).tcb(tid as int).taskStatus | OS_TASK_STATUS_DELAY,
                waitTimes: tick,
                ..old(self).tcb(tid as int)
            }),
            final(self).same_tasks_except(*old(self), tid as int),
            final(self).same_but_timing(*old(self)),
            final(self).same_sched(*old(self)),
    {
        let st = self.g_taskCBArray[tid as usize].taskStatus;
        self.g_taskCBArray[tid as usize].taskStatus = st | OS_TASK_STATUS_DELAY;
        self.g_taskCBArray[tid as usize].waitTimes = tick;
        proof {
            if tid == self.g_taskMaxNum {
                lemma_unused_or_exit_kept(st, 0, OS_TASK_STATUS_DELAY);
            }
        }
    }

    /// Makes the running task pend on the list `list` (`OsSchedTaskWait`):
    /// it is linked last, marked pending, and with a time limit other than
    /// `LOS_WAIT_FOREVER` also marked timed with `ticks` to wait.
    pub fn OsSchedTaskWait(&mut self, list: ListRef, ticks: u32)
        requires
            old(self).wf(),
            old(self).g_losTask.runTask < old(self).g_taskMaxNum,
            is_pend_list(list),
            old(self).valid_ref(list),
        ensures
            final(self).wf(),
            final(self).list_view(list) == old(self).list_view(list).push(old(self).g_losTask.runTask),
            old(self).lists_same_except(*final(self), list),
            final(self).queue_bitmap == old(self).queue_bitmap,
            final(self).tcb(old(self).g_losTask.runTask as int) == (LosTaskCB {
                taskStatus: if ticks != LOS_WAIT_FOREVER {
                    old(self).tcb(old(self).g_losTask.runTask as int).taskStatus | OS_TASK_STATUS_PEND
                        | OS_TASK_STATUS_PEND_TIME
                } else {
                    old(self).tcb(old(self).g_losTask.runTask as int).taskStatus | OS_TASK_STATUS_PEND
                },
                waitTimes: if ticks != LOS_WAIT_FOREVER {
                    ticks
                } else {
                    old(self).tcb(old(self).g_losTask.runTask as int).waitTimes
                },
                pendList: list,
                ..old(self).tcb(old(self).g_losTask.runTask as int)
            }),
            final(self).same_tasks_except(*old(self), old(self).g_losTask.runTask as int),
            final(self).same_sched(*old(self)),
            final(self).same_task_globals(*old(self)),
    {
        let run = self.g_losTask.runTask;
        let ghost before = *self;
        let st = self.g_taskCBArray[run as usize].taskStatus;
        self.g_taskCBArray[run as usize].taskStatus = st | OS_TASK_STATUS_PEND;
        match list {
            ListRef::WaitList(w) => {
                self.wait_lists[w as usize].LOS_ListTailInsert(run);
                proof {
                    assert forall|r2: ListRef| before.valid_ref(r2) && r2 != list implies #[trigger] self.list_view(r2)
                        == before.list_view(r2) by {
                        if let ListRef::WaitList(w2) = r2 {
                            assert(self.wait_lists@[w2 as int] == before.wait_lists@[w2 as int]);
                        }
                    }
                    assert forall|w2: int| 0 <= w2 < self.wait_lists@.len() implies self.ids_valid(
                        #[trigger] self.wait_lists@[w2]@) by {
                        if w2 != w {
                            assert(self.wait_lists@[w2] == before.wait_lists@[w2]);
                        } else {
                            assert(before.ids_valid(before.wait_lists@[w2]@));
                        }
                    }
                }
            },
            ListRef::JoinList(j) => {
                self.join_lists[j as usize].LOS_ListTailInsert(run);
                proof {
                    assert forall|r2: ListRef| before.valid_ref(r2) && r2 != list implies #[trigger] self.list_view(r2)
                        == before.list_view(r2) by {
                        if let ListRef::JoinList(j2) = r2 {
                            assert(self.join_lists@[j2 as int] == before.join_lists@[j2 as int]);
                        }
                    }
                    assert forall|t: int| 0 <= t < self.join_lists@.len() implies self.ids_valid(
                        #[trigger] self.join_lists@[t]@) by {
                        if t != j {
                            assert(self.join_lists@[t] == before.join_lists@[t]);
                        } else {
                            assert(before.ids_valid(before.join_lists@[t]@));
                        }
                    }
                }
            },
            _ => {},
        }
        self.g_taskCBArray[run as usize].pendList = list;
        if ticks != LOS_WAIT_FOREVER {
            let st2 = self.g_taskCBArray[run as usize].taskStatus;
            self.g_taskCBArray[run as usize].taskStatus = st2 | OS_TASK_STATUS_PEND_TIME;
            self.g_taskCBArray[run as usize].waitTimes = ticks;
        }
    }

    /// Wakes task `tid` from its pend list (`OsSchedTaskWake`): it is
    /// unlinked, pend is cleared, a timed pend leaves the task sort link, and
    /// the task is made ready unless it is suspended or running.
    pub fn OsSchedTaskWake(&mut self, tid: u32)
        requires
            old(self).wf(),
            tid < old(self).g_taskMaxNum,
        ensures
            final(self).wf(),
            final(self).status(tid as int) == wake_status(old(self).status(tid as int)),
            is_pend_list(old(self).tcb(tid as int).pendList) ==> final(self).list_view(
                old(self).tcb(tid as int).pendList,
            ) == old(self).list_view(old(self).tcb(tid as int).pendList).remove_value(tid),
            old(self).has(tid as int, OS_TASK_STATUS_PEND_TIME) && old(self).tcb(tid as int).sortList.responseTime
                != OS_SORT_LINK_INVALID_TIME ==> final(self).sort_links.g_taskSortLink@
                == crate::sortlink::remove_owner(old(self).sort_links.g_taskSortLink@, tid),
            old(self).has(tid as int, OS_TASK_STATUS_PEND_TIME) ==> final(self).tcb(tid as int).sortList.responseTime
                == OS_SORT_LINK_INVALID_TIME,
            !old(self).has(tid as int, 0x0012u16) && tid != old(self).g_idleTaskID ==> {
                &&& final(self).tcb(tid as int).pendList == ListRef::PriQueue(
                    ((old(self).tcb(tid as int).priority as u32) % 32) as u32,
                )
                &&& final(self).queue(((old(self).tcb(tid as int).priority as u32) % 32) as int).contains(tid)
            },
            final(self).tcb(tid as int) == (LosTaskCB {
                taskStatus: final(self).status(tid as int),
                pendList: final(self).tcb(tid as int).pendList,
                timeSlice: final(self).tcb(tid as int).timeSlice,
                sortList: final(self).tcb(tid as int).sortList,
                ..old(self).tcb(tid as int)
            }),
            final(self).status(tid as int) & OS_TASK_STATUS_SUSPEND == old(self).status(tid as int)
                & OS_TASK_STATUS_SUSPEND,
            old(self).has(tid as int, OS_TASK_STATUS_SUSPEND) ==> final(self).status(tid as int)
                & OS_TASK_STATUS_READY == old(self).status(tid as int) & OS_TASK_STATUS_READY,
            old(self).has(tid as int, OS_TASK_STATUS_SUSPEND) && !(old(self).tcb(tid as int).pendList is PriQueue)
                ==> final(self).same_queues(*old(self)),
            final(self).same_tasks_except(*old(self), tid as int),
            final(self).same_task_globals(*old(self)),
    {
        let ghost s0 = self.status(tid as int);
        proof {
            lemma_status_flag_facts(s0);
        }
        self.os_task_pend_unlink(tid);
        proof {
            if !(old(self).tcb(tid as int).pendList is PriQueue) {
                lemma_unlink_keeps_queues(*old(self), *self, old(self).tcb(tid as int).pendList);
            }
        }
        let ghost unlinked = *self;
        let st = self.g_taskCBArray[tid as usize].taskStatus;
        self.g_taskCBArray[tid as usize].taskStatus = st & !OS_TASK_STATUS_PEND;
        let st = self.g_taskCBArray[tid as usize].taskStatus;
        if (st & OS_TASK_STATUS_PEND_TIME) != 0 {
            self.OsDeleteSortLink(tid);
            self.g_taskCBArray[tid as usize].taskStatus = st & !OS_TASK_STATUS_PEND_TIME;
        }
        let ghost mid = *self;
        proof {
            assert(mid.same_queues(unlinked));
            if !(old(self).tcb(tid as int).pendList is PriQueue) {
                assert forall|p: int| 0 <= p < 32 implies #[trigger] mid.queue(p) == old(self).queue(p) by {
                    assert(mid.queue(p) == unlinked.queue(p));
                }
            }
        }
        let st = self.g_taskCBArray[tid as usize].taskStatus;
        proof {
            assert(
                ((s0 & !8u16) & 0x80u16 == s0 & 0x80u16)
                && ((s0 & !8u16) & 0x80u16 != 0 ==> (s0 & !8u16) & !0x80u16 == s0 & !0x88u16)
                && ((s0 & !8u16) & 0x80u16 == 0 ==> (s0 & !8u16) == s0 & !0x88u16)
                && ((s0 & !0x88u16) & 0x12u16 == s0 & 0x12u16)
                && ((s0 & !0x88u16) & 0x10u16 == s0 & 0x10u16)
                && ((s0 & !0x88u16) & 0x02u16 == s0 & 0x02u16)
                && ((s0 & 0x12u16 == 0) == (s0 & 0x02u16 == 0 && s0 & 0x10u16 == 0))
            ) by (bit_vector);
        }
        if (st & OS_TASK_STATUS_SUSPEND) == 0 && (st & OS_TASK_STATUS_RUNNING) == 0 {
            self.OsSchedTaskEnQueue(tid);
            proof {
                assert(mid.tcb(tid as int).priority == old(self).tcb(tid as int).priority);
                if tid != mid.g_idleTaskID {
                    let q = ((mid.tcb(tid as int).priority as u32) % 32) as int;
                    if mid.tcb(tid as int).timeSlice > mid.sched_time_slice_min {
                        assert(self.queue(q)[0] == tid);
                    } else {
                        assert(self.queue(q)[self.queue(q).len() - 1] == tid);
                    }
                }
            }
        }
    }
}

/// Inserting a task node into a sort link of task nodes leaves task nodes.
proof fn lemma_insert_members(s: Seq<SortLinkList>, i: int, node: SortLinkList, max: u32)
    requires
        0 <= i <= s.len(),
        forall|k: int| 0 <= k < s.len() ==> (#[trigger] s[k]).sortLinkNode < max,
        node.sortLinkNode < max,
    ensures
        forall|k: int| 0 <= k < s.insert(i, node).len() ==> (#[trigger] s.insert(i, node)[k]).sortLinkNode < max,
{
    assert forall|k: int| 0 <= k < s.insert(i, node).len() implies (#[trigger] s.insert(i, node)[k]).sortLinkNode
        < max by {
        if k < i {
            assert(s.insert(i, node)[k] == s[k]);
        } else if k > i {
            assert(s.insert(i, node)[k] == s[k - 1]);
        }
    }
}

/// Whether the system is in low-power mode (`OsIsPmMode`); always false
/// without the low-power configuration.
pub fn is_pm_mode() -> (r: bool)
    ensures
        r == LOSCFG_KERNEL_PM,
{
    LOSCFG_KERNEL_PM
}

/// The status after a delayed or timed-pending task is woken by its time
/// running out (`OsSchedWakePendTimeTask`): pend, timed pend and delay
/// cleared, timeout set when it was pending, then made ready unless
/// suspended.
pub open spec fn timeout_status(s: u16) -> u16 {
    let s1 = s & !0x00A8u16;
    let s2 = if s & OS_TASK_STATUS_PEND != 0 { s1 | OS_TASK_STATUS_TIMEOUT } else { s1 };
    if s & OS_TASK_STATUS_SUSPEND == 0 { ready_status(s2) } else { s2 }
}

/// `a - b`, or 0 when `b` is larger.
pub open spec fn sat_sub_u64(a: u64, b: u64) -> u64 {
    if a >= b { (a - b) as u64 } else { 0 }
}

/// `a - b` on 32 signed bits, clamped to the 32-bit range.
pub open spec fn sat_sub_i32(a: i32, b: i32) -> i32 {
    if a - b > i32::MAX { i32::MAX } else if a - b < i32::MIN { i32::MIN } else { (a - b) as i32 }
}

impl LosKernel {
    /// Adds task `tid`'s node to the task sort link, `ticks` ticks after
    /// `start` (`OsAdd2SortLink` with `OS_SORT_LINK_TASK`).
    pub fn os_add_task_sort_link(&mut self, tid: u32, start: u64, ticks: u32)
        requires
            old(self).wf(),
            tid <= old(self).g_taskMaxNum,
        ensures
            final(self).wf(),
            final(self).tcb(tid as int).sortList.responseTime == start.wrapping_add(
                crate::sortlink::sys_tick_to_cycle_spec(ticks, old(self).tick.g_sysClock),
            ),
            final(self).tcb(tid as int) == (LosTaskCB {
                sortList: final(self).tcb(tid as int).sortList,
                ..old(self).tcb(tid as int)
            }),
            final(self).tcb(tid as int).sortList.sortLinkNode == old(self).tcb(tid as int).sortList.sortLinkNode,
            final(self).sort_links.g_taskSortLink@ == old(self).sort_links.g_taskSortLink@.insert(
                crate::sortlink::sort_link_insert_pos(
                    old(self).sort_links.g_taskSortLink@,
                    final(self).tcb(tid as int).sortList.responseTime,
                ),
                final(self).tcb(tid as int).sortList,
            ),
            final(self).sort_links.g_swtmrSortLink@ == old(self).sort_links.g_swtmrSortLink@,
            final(self).same_tasks_except(*old(self), tid as int),
            final(self).same_but_timing(*old(self)),
            final(self).sched_response_time == old(self).sched_response_time,
    {
        let mut node = self.g_taskCBArray[tid as usize].sortList;
        let clock = self.tick.g_sysClock;
        self.sort_links.OsAdd2SortLink(&mut node, start, ticks, OS_SORT_LINK_TASK, clock);
        proof {
            crate::sortlink::lemma_insert_pos_bounds(old(self).sort_links.g_taskSortLink@, node.responseTime);
            lemma_insert_members(
                old(self).sort_links.g_taskSortLink@,
                crate::sortlink::sort_link_insert_pos(old(self).sort_links.g_taskSortLink@, node.responseTime),
                node,
                self.g_taskMaxNum,
            );
        }
        self.g_taskCBArray[tid as usize].sortList = node;
    }

    /// Freezes the delay of task `tid` in low-power mode (`OsSchedFreezeTask`):
    /// its node leaves the task sort link but keeps its response time, and
    /// the freeze flag is set.
    pub fn os_sched_freeze_task(&mut self, tid: u32)
        requires
            old(self).wf(),
            tid <= old(self).g_taskMaxNum,
        ensures
            final(self).wf(),
            final(self).tcb(tid as int) == (LosTaskCB {
                taskStatus: old(self).tcb(tid as int).taskStatus | OS_TASK_FLAG_FREEZE,
                ..old(self).tcb(tid as int)
            }),
            final(self).same_tasks_except(*old(self), tid as int),
            final(self).same_but_timing(*old(self)),
            old(self).tcb(tid as int).sortList.responseTime != OS_SORT_LINK_INVALID_TIME
                ==> final(self).sort_links.g_taskSortLink@ == crate::sortlink::remove_owner(
                old(self).sort_links.g_taskSortLink@,
                old(self).tcb(tid as int).sortList.sortLinkNode,
            ),
    {
        let rt = self.g_taskCBArray[tid as usize].sortList.responseTime;
        self.OsDeleteSortLink(tid);
        self.g_taskCBArray[tid as usize].sortList.responseTime = rt;
        let st = self.g_taskCBArray[tid as usize].taskStatus;
        self.g_taskCBArray[tid as usize].taskStatus = st | OS_TASK_FLAG_FREEZE;
        proof {
            if tid == self.g_taskMaxNum {
                lemma_unused_or_exit_kept(st, 0, OS_TASK_FLAG_FREEZE);
            }
        }
    }

    /// Thaws task `tid` at cycle count `curr_time` (`OsSchedUnfreezeTask`):
    /// the freeze flag is cleared; a delay that has time left goes back on
    /// the task sort link for the remaining ticks (rounded up, at most
    /// `u32::MAX`); otherwise the delay is over: the response time becomes
    /// invalid, a pending task leaves its pend list, and delay, timed pend
    /// and pend are cleared.
    pub fn os_sched_unfreeze_task(&mut self, tid: u32, curr_time: u64)
        requires
            old(self).wf(),
            tid <= old(self).g_taskMaxNum,
        ensures
            final(self).wf(),
            old(self).tcb(tid as int).sortList.responseTime > curr_time ==> {
                &&& final(self).status(tid as int) == old(self).status(tid as int) & !OS_TASK_FLAG_FREEZE
                &&& final(self).tcb(tid as int).sortList.responseTime == curr_time.wrapping_add(
                    crate::sortlink::sys_tick_to_cycle_spec(
                        remain_ticks_spec(
                            (old(self).tcb(tid as int).sortList.responseTime - curr_time) as u64,
                            old(self).tick.g_cyclesPerTick,
                        ),
                        old(self).tick.g_sysClock,
                    ),
                )
                &&& final(self).sort_links.g_taskSortLink@ == old(self).sort_links.g_taskSortLink@.insert(
                    crate::sortlink::sort_link_insert_pos(
                        old(self).sort_links.g_taskSortLink@,
                        final(self).tcb(tid as int).sortList.responseTime,
                    ),
                    final(self).tcb(tid as int).sortList,
                )
                &&& final(self).tcb(tid as int).sortList.sortLinkNode == old(self).tcb(tid as int).sortList.sortLinkNode
            },
            old(self).tcb(tid as int).sortList.responseTime <= curr_time ==> {
                &&& final(self).sort_links.g_taskSortLink@ == old(self).sort_links.g_taskSortLink@
                &&& final(self).status(tid as int) == old(self).status(tid as int) & !(OS_TASK_FLAG_FREEZE
                    | 0x00A8u16)
                &&& final(self).tcb(tid as int).sortList.responseTime == OS_SORT_LINK_INVALID_TIME
                &&& old(self).has(tid as int, OS_TASK_STATUS_PEND) && is_pend_list(old(self).tcb(tid as int).pendList)
                    ==> final(self).list_view(old(self).tcb(tid as int).pendList) == old(self).list_view(
                    old(self).tcb(tid as int).pendList,
                ).remove_value(tid)
                &&& old(self).has(tid as int, OS_TASK_STATUS_PEND) ==> final(self).tcb(tid as int).pendList
                    == ListRef::Unlinked
            },
            final(self).tcb(tid as int).priority == old(self).tcb(tid as int).priority,
            final(self).tcb(tid as int).timeSlice == old(self).tcb(tid as int).timeSlice,
            final(self).sort_links.g_swtmrSortLink@ == old(self).sort_links.g_swtmrSortLink@,
            final(self).same_tasks_except(*old(self), tid as int),
            final(self).same_task_globals(*old(self)),
            final(self).same_config(*old(self)),
    {
        let st0 = self.g_taskCBArray[tid as usize].taskStatus;
        self.g_taskCBArray[tid as usize].taskStatus = st0 & !OS_TASK_FLAG_FREEZE;
        proof {
            if tid == self.g_taskMaxNum {
                lemma_unused_or_exit_kept(st0, OS_TASK_FLAG_FREEZE, 0);
            }
        }
        let response_time = self.g_taskCBArray[tid as usize].sortList.responseTime;
        if response_time > curr_time {
            let remain_tick = remain_ticks(response_time - curr_time, self.tick.g_cyclesPerTick);
            self.os_add_task_sort_link(tid, curr_time, remain_tick);
            return;
        }
        self.g_taskCBArray[tid as usize].sortList.responseTime = OS_SORT_LINK_INVALID_TIME;
        let st = self.g_taskCBArray[tid as usize].taskStatus;
        if (st & OS_TASK_STATUS_PEND) != 0 {
            self.os_task_pend_unlink(tid);
        }
        let st2 = self.g_taskCBArray[tid as usize].taskStatus;
        self.g_taskCBArray[tid as usize].taskStatus = st2 & !0x00A8u16;
        proof {
            assert(
                ((st0 & !0x4000u16) & !0x00A8u16 == st0 & !(0x4000u16 | 0x00A8u16))
                && ((st0 & !0x4000u16) & 8u16 == st0 & 8u16)
            ) by (bit_vector);
            if tid == self.g_taskMaxNum {
                lemma_unused_or_exit_kept(st2, 0x00A8u16, 0);
            }
        }
    }
}

/// Whole ticks, rounded up and capped at `u32::MAX`, in `cycles` cycles at
/// `cycles_per_tick` cycles per tick; 0 when the tick length is unknown.
pub open spec fn remain_ticks_spec(cycles: u64, cycles_per_tick: u32) -> u32 {
    if cycles_per_tick == 0 {
        0
    } else {
        let q = cycles as int / (cycles_per_tick as int);
        let ceil = if cycles as int % (cycles_per_tick as int) == 0 { q } else { q + 1 };
        if ceil > u32::MAX { u32::MAX } else { ceil as u32 }
    }
}

/// Whole ticks left in `cycles` cycles, rounded up (see `remain_ticks_spec`).
pub fn remain_ticks(cycles: u64, cycles_per_tick: u32) -> (r: u32)
    ensures
        r == remain_ticks_spec(cycles, cycles_per_tick),
{
    if cycles_per_tick == 0 {
        return 0;
    }
    let quot = cycles / cycles_per_tick as u64;
    let rem = cycles % cycles_per_tick as u64;
    let ceil = if rem == 0 {
        quot
    } else {
        proof {
            let c = cycles_per_tick as int;
            assert(c >= 2);
            assert(quot * c <= cycles) by (nonlinear_arith)
                requires quot == cycles as int / c, c >= 1, cycles >= 0;
            assert(quot < u64::MAX) by (nonlinear_arith)
                requires quot * c <= cycles, c >= 2, cycles <= u64::MAX, quot >= 0;
        }
        quot + 1
    };
    if ceil > u32::MAX as u64 {
        u32::MAX
    } else {
        ceil as u32
    }
}

impl LosKernel {
    /// Suspends task `tid` (`OsSchedSuspend`): a ready task leaves its ready
    /// queue; in low-power mode a delay is frozen; suspend is set.
    pub fn OsSchedSuspend(&mut self, tid: u32)
        requires
            old(self).wf(),
            tid <= old(self).g_taskMaxNum,
        ensures
            final(self).wf(),
            final(self).status(tid as int) == (if old(self).has(tid as int, OS_TASK_STATUS_READY) {
                old(self).status(tid as int) & !OS_TASK_STATUS_READY
            } else {
                old(self).status(tid as int)
            }) | OS_TASK_STATUS_SUSPEND,
            old(self).has(tid as int, OS_TASK_STATUS_READY) && tid != old(self).g_idleTaskID
                ==> old(self).queues_after_delete(*final(self), tid, old(self).tcb(tid as int).priority as u32),
            !(old(self).has(tid as int, OS_TASK_STATUS_READY) && tid != old(self).g_idleTaskID) ==> final(self).same_queues(*old(self)),
            final(self).tcb(tid as int).priority == old(self).tcb(tid as int).priority,
            final(self).tcb(tid as int).timeSlice == old(self).tcb(tid as int).timeSlice,
            final(self).same_tasks_except(*old(self), tid as int),
            final(self).same_task_globals(*old(self)),
            final(self).same_aux_lists(*old(self)),
            final(self).sched_hooks@ == old(self).sched_hooks@.push(SchedHook::MovedTaskToSuspended(tid)),
    {
        let status = self.g_taskCBArray[tid as usize].taskStatus;
        if (status & OS_TASK_STATUS_READY) != 0 {
            self.OsSchedTaskDeQueue(tid);
        }
        let pm_mode = is_pm_mode();
        let status = self.g_taskCBArray[tid as usize].taskStatus;
        if (status & 0x00A0u16) != 0 && pm_mode {
            self.os_sched_freeze_task(tid);
        }
        let st = self.g_taskCBArray[tid as usize].taskStatus;
        self.g_taskCBArray[tid as usize].taskStatus = st | OS_TASK_STATUS_SUSPEND;
        self.sched_hooks.push(SchedHook::MovedTaskToSuspended(tid));
        proof {
            if tid == self.g_taskMaxNum {
                lemma_unused_or_exit_kept(st, 0, OS_TASK_STATUS_SUSPEND);
            }
        }
    }

    /// Task `tid`'s status once resumed at `curr_time`, before it is made
    /// ready: a frozen task is thawed (its delay flags cleared when the
    /// delay is over), and suspend is cleared.
    pub open spec fn resume_base_status(self, tid: u32, curr_time: u64) -> u16 {
        let s = self.status(tid as int);
        let thawed = if s & OS_TASK_FLAG_FREEZE == 0 {
            s
        } else if self.tcb(tid as int).sortList.responseTime > curr_time {
            s & !OS_TASK_FLAG_FREEZE
        } else {
            s & !(OS_TASK_FLAG_FREEZE | 0x00A8u16)
        };
        thawed & !OS_TASK_STATUS_SUSPEND
    }

    /// Resumes task `tid` at cycle count `curr_time` (`OsSchedResume`): a
    /// frozen delay is thawed, suspend is cleared, and a task that is then
    /// neither delayed nor pending is made ready; returns whether it was.
    pub fn OsSchedResume(&mut self, tid: u32, curr_time: u64) -> (r: bool)
        requires
            old(self).wf(),
            tid < old(self).g_taskMaxNum,
        ensures
            final(self).wf(),
            r == (old(self).resume_base_status(tid, curr_time) & 0x0028u16 == 0),
            old(self).has(tid as int, OS_TASK_STATUS_PEND) && !old(self).has(tid as int, OS_TASK_FLAG_FREEZE) ==> !r
                && final(self).has(tid as int, OS_TASK_STATUS_PEND) && final(self).same_queues(*old(self)),
            final(self).status(tid as int) == if r {
                ready_status(old(self).resume_base_status(tid, curr_time))
            } else {
                old(self).resume_base_status(tid, curr_time)
            },
            !old(self).has(tid as int, OS_TASK_FLAG_FREEZE) && r && tid != old(self).g_idleTaskID
                ==> old(self).queues_after_enqueue(
                *final(self),
                tid,
                old(self).tcb(tid as int).priority as u32,
                old(self).tcb(tid as int).timeSlice > old(self).sched_time_slice_min,
            ),
            !old(self).has(tid as int, OS_TASK_FLAG_FREEZE) && r ==> final(self).tcb(tid as int).timeSlice == if tid
                != old(self).g_idleTaskID && old(self).tcb(tid as int).timeSlice <= old(self).sched_time_slice_min {
                old(self).sched_time_slice
            } else {
                old(self).tcb(tid as int).timeSlice
            },
            !old(self).has(tid as int, OS_TASK_FLAG_FREEZE) && !r ==> {
                &&& final(self).tcb(tid as int) == (LosTaskCB {
                    taskStatus: old(self).resume_base_status(tid, curr_time),
                    ..old(self).tcb(tid as int)
                })
                &&& final(self).same_queues(*old(self))
                &&& final(self).same_aux_lists(*old(self))
                &&& final(self).sort_links.g_taskSortLink@ == old(self).sort_links.g_taskSortLink@
            },
            final(self).tcb(tid as int).priority == old(self).tcb(tid as int).priority,
            r && tid != old(self).g_idleTaskID ==> final(self).queue(
                ((old(self).tcb(tid as int).priority as u32) % 32) as int,
            ).contains(tid),
            !final(self).has(tid as int, OS_TASK_STATUS_SUSPEND),
            final(self).same_tasks_except(*old(self), tid as int),
            final(self).same_task_globals(*old(self)),
    {
        proof {
            if !old(self).has(tid as int, OS_TASK_FLAG_FREEZE) {
                lemma_resume_keeps_pend(*old(self), tid, curr_time);
            }
        }
        let status = self.g_taskCBArray[tid as usize].taskStatus;
        if (status & OS_TASK_FLAG_FREEZE) != 0 {
            self.os_sched_unfreeze_task(tid, curr_time);
        }
        let st = self.g_taskCBArray[tid as usize].taskStatus;
        self.g_taskCBArray[tid as usize].taskStatus = st & !OS_TASK_STATUS_SUSPEND;
        let ghost mid = *self;
        let st2 = self.g_taskCBArray[tid as usize].taskStatus;
        proof {
            assert(((st & !2u16) & 2u16 == 0) && ((st & !2u16) & 0x28u16 == st & 0x28u16)) by (bit_vector);
        }
        if (st2 & 0x0028u16) == 0 {
            self.OsSchedTaskEnQueue(tid);
            proof {
                assert(ready_status(st2) & 2u16 == 0) by (bit_vector);
                if tid != mid.g_idleTaskID {
                    let q = ((mid.tcb(tid as int).priority as u32) % 32) as int;
                    if mid.tcb(tid as int).timeSlice > mid.sched_time_slice_min {
                        assert(self.queue(q)[0] == tid);
                    } else {
                        assert(self.queue(q)[self.queue(q).len() - 1] == tid);
                    }
                }
            }
            true
        } else {
            false
        }
    }

    /// Changes the priority of task `tid` to `priority`
    /// (`OsSchedModifyTaskSchedParam`): a ready task moves to the ready queue
    /// of its new priority; returns whether the change may call for
    /// rescheduling (the task is ready or running).
    pub fn OsSchedModifyTaskSchedParam(&mut self, tid: u32, priority: u16) -> (r: bool)
        requires
            old(self).wf(),
            tid < old(self).g_taskMaxNum,
        ensures
            final(self).wf(),
            final(self).tcb(tid as int).priority == priority,
            r == (old(self).has(tid as int, OS_TASK_STATUS_READY) || old(self).has(
                tid as int,
                OS_TASK_STATUS_RUNNING,
            )),
            old(self).has(tid as int, OS_TASK_STATUS_READY) ==> final(self).has(tid as int, OS_TASK_STATUS_READY),
            old(self).has(tid as int, OS_TASK_STATUS_READY) ==> final(self).status(tid as int) == ready_status(
                old(self).status(tid as int) & !OS_TASK_STATUS_READY,
            ),
            old(self).has(tid as int, OS_TASK_STATUS_READY) && tid != old(self).g_idleTaskID
                ==> final(self).queue(((priority as u32) % 32) as int).contains(tid),
            old(self).has(tid as int, OS_TASK_STATUS_READY) && tid != old(self).g_idleTaskID ==> exists|mid: LosKernel|
                {
                &&& #[trigger] old(self).queues_after_delete(mid, tid, old(self).tcb(tid as int).priority as u32)
                &&& mid.queues_after_enqueue(
                    *final(self),
                    tid,
                    priority as u32,
                    old(self).tcb(tid as int).timeSlice > old(self).sched_time_slice_min,
                )
            },
            !old(self).has(tid as int, OS_TASK_STATUS_READY) ==> final(self).tcb(tid as int) == (LosTaskCB {
                priority,
                ..old(self).tcb(tid as int)
            }) && final(self).same_queues(*old(self)),
            final(self).same_tasks_except(*old(self), tid as int),
            final(self).same_task_globals(*old(self)),
            final(self).same_aux_lists(*old(self)),
            final(self).same_sched(*old(self)),
            final(self).sched_hooks@ == if !old(self).has(tid as int, OS_TASK_STATUS_READY) {
                old(self).sched_hooks@.push(SchedHook::TaskPriModify(tid, priority))
            } else if tid != old(self).g_idleTaskID {
                old(self).sched_hooks@.push(SchedHook::MovedTaskToReady(tid))
            } else {
                old(self).sched_hooks@
            },
    {
        let status = self.g_taskCBArray[tid as usize].taskStatus;
        if (status & OS_TASK_STATUS_READY) != 0 {
            self.OsSchedTaskDeQueue(tid);
            self.g_taskCBArray[tid as usize].priority = priority;
            let ghost mid = *self;
            self.OsSchedTaskEnQueue(tid);
            proof {
                if tid != mid.g_idleTaskID {
                    assert(old(self).queues_after_delete(mid, tid, old(self).tcb(tid as int).priority as u32));
                }
                assert(ready_status(status & !4u16) & 4u16 != 0) by (bit_vector);
                if tid != mid.g_idleTaskID {
                    let q = ((priority as u32) % 32) as int;
                    if mid.tcb(tid as int).timeSlice > mid.sched_time_slice_min {
                        assert(self.queue(q)[0] == tid);
                    } else {
                        assert(self.queue(q)[self.queue(q).len() - 1] == tid);
                    }
                }
            }
            return true;
        }
        self.g_taskCBArray[tid as usize].priority = priority;
        self.sched_hooks.push(SchedHook::TaskPriModify(tid, priority));
        (status & OS_TASK_STATUS_RUNNING) != 0
    }

    /// Puts the idle task on the scheduler (`OsSchedSetIdleTaskSchedParam`).
    pub fn OsSchedSetIdleTaskSchedParam(&mut self, idle: u32)
        requires
            old(self).wf(),
            idle < old(self).g_taskMaxNum,
        ensures
            final(self).wf(),
            final(self).status(idle as int) == ready_status(old(self).status(idle as int)),
            idle == old(self).g_idleTaskID ==> final(self).tcb(idle as int) == (LosTaskCB {
                taskStatus: ready_status(old(self).status(idle as int)),
                ..old(self).tcb(idle as int)
            }) && final(self).same_queues(*old(self)),
            final(self).same_tasks_except(*old(self), idle as int),
            final(self).same_task_globals(*old(self)),
            final(self).same_aux_lists(*old(self)),
            final(self).same_sched(*old(self)),
    {
        self.OsSchedTaskEnQueue(idle);
    }

    /// Registers the software timer scan called at each tick
    /// (`OsSchedSwtmrScanRegister`): `LOS_NOK` and no change for none.
    pub fn OsSchedSwtmrScanRegister(&mut self, func: Option<u32>) -> (r: u32)
        ensures
            func is None ==> r == LOS_NOK && *final(self) == *old(self),
            func is Some ==> r == LOS_OK && *final(self) == (LosKernel { swtmr_scan: func, ..*old(self) }),
    {
        match func {
            None => LOS_NOK,
            Some(f) => {
                self.swtmr_scan = Some(f);
                LOS_OK
            },
        }
    }

    /// Cycles until the first delayed task expires at `curr_time`, truncated
    /// to 32 bits; 0 before the scheduler is set up (`OsTaskNextSwitchTimeGet`).
    pub fn OsTaskNextSwitchTimeGet(&self, curr_time: u64) -> (r: u32)
        ensures
            !self.task_sort_link_ready ==> r == 0,
            self.task_sort_link_ready && self.sort_links.g_taskSortLink@.len() == 0 ==> r == 0,
            self.task_sort_link_ready && self.sort_links.g_taskSortLink@.len() > 0 ==> r
                == crate::sortlink::target_expire_spec(curr_time, self.sort_links.g_taskSortLink@[0].responseTime) as u32,
    {
        if !self.task_sort_link_ready {
            return 0;
        }
        self.sort_links.g_taskSortLink.OsSortLinkGetNextExpireTime(curr_time) as u32
    }

    /// The next expiry to program from `start_time` over both sort links
    /// (`OsSchedGetNextExpireTime`).
    pub fn OsSchedGetNextExpireTime(&self, start_time: u64) -> (r: u64)
        ensures
            r == next_expire_both(self.sort_links, start_time, self.tick_response_precision),
    {
        self.sort_links.os_get_next_expire_time(start_time, self.tick_response_precision)
    }

    /// Charges the time since its start to task `tid`'s time slice (not for
    /// the idle task) and restarts it at `curr_time` (`OsTimeSliceUpdate`).
    pub fn os_time_slice_update(&mut self, tid: u32, curr_time: u64)
        requires
            old(self).wf(),
            tid <= old(self).g_taskMaxNum,
        ensures
            final(self).wf(),
            final(self).tcb(tid as int) == (LosTaskCB {
                timeSlice: if old(self).tcb(tid as int).taskID != old(self).g_idleTaskID {
                    sat_sub_i32(
                        old(self).tcb(tid as int).timeSlice,
                        clamp_i32(sat_sub_u64(curr_time, old(self).tcb(tid as int).startTime)),
                    )
                } else {
                    old(self).tcb(tid as int).timeSlice
                },
                startTime: curr_time,
                ..old(self).tcb(tid as int)
            }),
            final(self).same_tasks_except(*old(self), tid as int),
            final(self).same_but_timing(*old(self)),
            final(self).same_sched(*old(self)),
    {
        let start_time = self.g_taskCBArray[tid as usize].startTime;
        let inc_time = curr_time.saturating_sub(start_time);
        if self.g_taskCBArray[tid as usize].taskID != self.g_idleTaskID {
            let inc_i32: i32 = if inc_time > i32::MAX as u64 {
                i32::MAX
            } else {
                inc_time as i32
            };
            let ts = self.g_taskCBArray[tid as usize].timeSlice;
            let diff = ts as i64 - inc_i32 as i64;
            let new_ts: i32 = if diff > i32::MAX as i64 {
                i32::MAX
            } else if diff < i32::MIN as i64 {
                i32::MIN
            } else {
                diff as i32
            };
            self.g_taskCBArray[tid as usize].timeSlice = new_ts;
        }
        self.g_taskCBArray[tid as usize].startTime = curr_time;
    }

    /// Wakes task `tid` whose delay or timed pend ran out
    /// (`OsSchedWakePendTimeTask`); returns whether it was made ready.
    pub fn os_sched_wake_pend_time_task(&mut self, tid: u32) -> (r: bool)
        requires
            old(self).wf(),
            tid < old(self).g_taskMaxNum,
        ensures
            final(self).wf(),
            !old(self).has(tid as int, 0x0028u16) ==> !r && *final(self) == *old(self),
            old(self).has(tid as int, 0x0028u16) ==> {
                &&& final(self).status(tid as int) == timeout_status(old(self).status(tid as int))
                &&& r == !old(self).has(tid as int, OS_TASK_STATUS_SUSPEND)
                &&& old(self).has(tid as int, OS_TASK_STATUS_PEND) ==> final(self).tcb(tid as int).taskSem == 0
                    && final(self).tcb(tid as int).taskMux == 0
                &&& old(self).has(tid as int, OS_TASK_STATUS_PEND) && is_pend_list(old(self).tcb(tid as int).pendList)
                    ==> final(self).list_view(old(self).tcb(tid as int).pendList) == old(self).list_view(
                    old(self).tcb(tid as int).pendList,
                ).remove_value(tid)
                &&& r && tid != old(self).g_idleTaskID ==> final(self).tcb(tid as int).pendList == ListRef::PriQueue(
                    ((old(self).tcb(tid as int).priority as u32) % 32) as u32,
                )
                &&& r && tid != old(self).g_idleTaskID ==> final(self).queue(
                    ((old(self).tcb(tid as int).priority as u32) % 32) as int,
                ).contains(tid)
                &&& old(self).has(tid as int, OS_TASK_STATUS_PEND) && !r ==> final(self).tcb(tid as int).pendList
                    == ListRef::Unlinked
            },
            queue_members_kept(*old(self), *final(self), tid),
            final(self).status(tid as int) & OS_TASK_STATUS_SUSPEND == old(self).status(tid as int)
                & OS_TASK_STATUS_SUSPEND,
            old(self).has(tid as int, OS_TASK_STATUS_SUSPEND) ==> !r && !(final(self).has(tid as int, OS_TASK_STATUS_READY)
                && !old(self).has(tid as int, OS_TASK_STATUS_READY)),
            old(self).has(tid as int, OS_TASK_STATUS_SUSPEND) && !(old(self).tcb(tid as int).pendList is PriQueue)
                ==> final(self).same_queues(*old(self)),
            final(self).tcb(tid as int).sortList == old(self).tcb(tid as int).sortList,
            final(self).tcb(tid as int).priority == old(self).tcb(tid as int).priority,
            final(self).same_tasks_except(*old(self), tid as int),
            final(self).same_task_globals(*old(self)),
            final(self).sort_links.g_taskSortLink@ == old(self).sort_links.g_taskSortLink@,
            final(self).sort_links.g_swtmrSortLink@ == old(self).sort_links.g_swtmrSortLink@,
            final(self).same_config(*old(self)),
    {
        let temp_status = self.g_taskCBArray[tid as usize].taskStatus;
        proof {
            lemma_status_flag_facts(temp_status);
        }
        if (temp_status & 0x0028u16) == 0 {
            return false;
        }
        self.g_taskCBArray[tid as usize].taskStatus = temp_status & !0x00A8u16;
        if (temp_status & OS_TASK_STATUS_PEND) != 0 {
            let st = self.g_taskCBArray[tid as usize].taskStatus;
            self.g_taskCBArray[tid as usize].taskStatus = st | OS_TASK_STATUS_TIMEOUT;
            let ghost before_unlink = *self;
            self.os_task_pend_unlink(tid);
            proof {
                if !(before_unlink.tcb(tid as int).pendList is PriQueue) {
                    lemma_unlink_keeps_queues(before_unlink, *self, before_unlink.tcb(tid as int).pendList);
                }
                assert forall|p: int, x: u32| 0 <= p < 32 && x != tid && #[trigger] before_unlink.queue(p).contains(x)
                    implies self.queue(p).contains(x) by {
                    if before_unlink.tcb(tid as int).pendList == ListRef::PriQueue(p as u32) {
                        lemma_remove_value_keeps_others(before_unlink.queue(p), tid, x);
                    } else {
                        assert(before_unlink.valid_ref(ListRef::PriQueue(p as u32)));
                        assert(self.list_view(ListRef::PriQueue(p as u32)) == before_unlink.list_view(
                            ListRef::PriQueue(p as u32),
                        ));
                    }
                }
            }
            self.g_taskCBArray[tid as usize].taskMux = 0;
            self.g_taskCBArray[tid as usize].taskSem = 0;
        }
        let ghost before_enqueue = *self;
        proof {
            assert(queue_members_kept(*old(self), before_enqueue, tid));
        }
        if (temp_status & OS_TASK_STATUS_SUSPEND) == 0 {
            self.OsSchedTaskEnQueue(tid);
            proof {
                if tid != before_enqueue.g_idleTaskID {
                    let q = ((before_enqueue.tcb(tid as int).priority as u32) % 32) as int;
                    if before_enqueue.tcb(tid as int).timeSlice > before_enqueue.sched_time_slice_min {
                        assert(self.queue(q)[0] == tid);
                    } else {
                        assert(self.queue(q)[self.queue(q).len() - 1] == tid);
                    }
                    assert forall|p: int, x: u32| 0 <= p < 32 && x != tid && #[trigger] before_enqueue.queue(
                        p,
                    ).contains(x) implies self.queue(p).contains(x) by {
                        let j = choose|j: int| 0 <= j < before_enqueue.queue(p).len() && before_enqueue.queue(p)[j] == x;
                        if p == q {
                            if before_enqueue.tcb(tid as int).timeSlice > before_enqueue.sched_time_slice_min {
                                assert(self.queue(p)[j + 1] == x);
                            } else {
                                assert(self.queue(p)[j] == x);
                            }
                        }
                    }
                }
            }
            return true;
        }
        false
    }

    /// Wakes every delayed or timed-pending task whose response time is due
    /// at `curr_time`, first to last, at most one more than the number of
    /// tasks (`OsSchedScanTimerList`); returns whether a task was made ready.
    pub fn os_sched_scan_timer_list(&mut self, curr_time: u64) -> (r: bool)
        requires
            old(self).wf(),
        ensures
            final(self).wf(),
            final(self).same_task_globals(*old(self)),
            final(self).same_config(*old(self)),
            old(self).task_sort_link_ready && old(self).sort_links.g_taskSortLink@.len() <= old(self).g_taskMaxNum + 1
                ==> final(self).sort_links.g_taskSortLink@.len() == 0 || final(self).sort_links.g_taskSortLink@[0].responseTime
                > curr_time,
            old(self).task_sort_link_ready ==> exists|k: int| #[trigger] due_prefix_removed(
                old(self).sort_links.g_taskSortLink@,
                final(self).sort_links.g_taskSortLink@,
                k,
                curr_time,
            ),
            final(self).sort_links.g_swtmrSortLink@ == old(self).sort_links.g_swtmrSortLink@,
            !old(self).task_sort_link_ready ==> !r && *final(self) == *old(self),
            old(self).task_sort_link_ready ==> exists|k: int| {
                &&& #[trigger] due_prefix_removed(
                    old(self).sort_links.g_taskSortLink@,
                    final(self).sort_links.g_taskSortLink@,
                    k,
                    curr_time,
                )
                &&& r == scan_makes_ready(*old(self), old(self).sort_links.g_taskSortLink@, k)
                &&& forall|t: int| 0 <= t < old(self).g_taskCBArray@.len() ==> #[trigger] scan_task_after(
                    *old(self),
                    *final(self),
                    old(self).sort_links.g_taskSortLink@,
                    k,
                    t,
                )
            },
            final(self).g_taskCBArray@.len() == old(self).g_taskCBArray@.len(),
    {
        let mut need_schedule = false;
        if !self.task_sort_link_ready {
            return need_schedule;
        }
        let max_iters = self.g_taskMaxNum;
        let mut i: u32 = 0;
        proof {
            let os = self.sort_links.g_taskSortLink@;
            assert(os.subrange(0, os.len() as int) =~= os);
        }
        while i <= max_iters
            invariant
                self.wf(),
                self.task_sort_link_ready,
                max_iters == self.g_taskMaxNum,
                self.same_task_globals(*old(self)),
                self.same_config(*old(self)),
                i <= max_iters + 1,
                old(self).sort_links.g_taskSortLink@.len() <= old(self).g_taskMaxNum + 1 ==> self.sort_links.g_taskSortLink@.len()
                    + i <= old(self).sort_links.g_taskSortLink@.len(),
                i <= old(self).sort_links.g_taskSortLink@.len(),
                due_prefix_removed(old(self).sort_links.g_taskSortLink@, self.sort_links.g_taskSortLink@, i as int, curr_time),
                self.sort_links.g_swtmrSortLink@ == old(self).sort_links.g_swtmrSortLink@,
                self.g_taskCBArray@.len() == old(self).g_taskCBArray@.len(),
                need_schedule == scan_makes_ready(*old(self), old(self).sort_links.g_taskSortLink@, i as int),
                forall|t: int| 0 <= t < old(self).g_taskCBArray@.len() ==> #[trigger] scan_task_after(
                    *old(self),
                    *self,
                    old(self).sort_links.g_taskSortLink@,
                    i as int,
                    t,
                ),
            ensures
                exists|k: int| #[trigger] due_prefix_removed(
                    old(self).sort_links.g_taskSortLink@,
                    self.sort_links.g_taskSortLink@,
                    k,
                    curr_time,
                ),
                exists|k: int| {
                    &&& #[trigger] due_prefix_removed(
                        old(self).sort_links.g_taskSortLink@,
                        self.sort_links.g_taskSortLink@,
                        k,
                        curr_time,
                    )
                    &&& need_schedule == scan_makes_ready(*old(self), old(self).sort_links.g_taskSortLink@, k)
                    &&& forall|t: int| 0 <= t < old(self).g_taskCBArray@.len() ==> #[trigger] scan_task_after(
                        *old(self),
                        *self,
                        old(self).sort_links.g_taskSortLink@,
                        k,
                        t,
                    )
                },
                self.g_taskCBArray@.len() == old(self).g_taskCBArray@.len(),
                self.sort_links.g_swtmrSortLink@ == old(self).sort_links.g_swtmrSortLink@,
                old(self).sort_links.g_taskSortLink@.len() <= old(self).g_taskMaxNum + 1 ==> self.sort_links.g_taskSortLink@.len()
                    == 0 || self.sort_links.g_taskSortLink@[0].responseTime > curr_time,
                self.wf(),
                self.same_task_globals(*old(self)),
                self.same_config(*old(self)),
            decreases max_iters + 1 - i,
        {
            if self.sort_links.g_taskSortLink.len() == 0 {
                break;
            }
            let first = self.sort_links.g_taskSortLink.get(0);
            if first.responseTime > curr_time {
                break;
            }
            let tid = first.sortLinkNode;
            let ghost before = *self;
            proof {
                crate::sortlink::lemma_node_pos(self.sort_links.g_taskSortLink@, tid);
                lemma_remove_owner_members(self.sort_links.g_taskSortLink@, tid, self.g_taskMaxNum);
                let sl = self.sort_links.g_taskSortLink@;
                let os = old(self).sort_links.g_taskSortLink@;
                assert(crate::sortlink::remove_owner(sl, tid) =~= sl.subrange(1, sl.len() as int));
                assert(sl[0] == os[i as int]);
                assert(sl.subrange(1, sl.len() as int) =~= os.subrange(i + 1, os.len() as int));
            }
            self.sort_links.g_taskSortLink.remove_owner(tid);
            self.g_taskCBArray[tid as usize].sortList.responseTime = OS_SORT_LINK_INVALID_TIME;
            let ghost unlinked = *self;
            let woke = self.os_sched_wake_pend_time_task(tid);
            if woke {
                need_schedule = true;
            }
            proof {
                let os = old(self).sort_links.g_taskSortLink@;
                let ii = i as int;
                assert(os[ii].sortLinkNode == tid);
                assert(owner_removed(os, ii + 1, tid as int));
                let was = owner_removed(os, ii, tid as int);
                assert(scan_task_after(*old(self), before, os, ii, tid as int));
                if was {
                    lemma_woken_status_idem(old(self).status(tid as int));
                    assert(before.status(tid as int) == woken_status(old(self).status(tid as int)));
                    assert(unlinked.status(tid as int) == before.status(tid as int));
                    assert(!woke);
                    assert(need_schedule == scan_makes_ready(*old(self), os, ii + 1)) by {
                        let j0 = choose|j: int| 0 <= j < ii && os[j].sortLinkNode == tid;
                        if old(self).has(tid as int, 0x0028u16) && !old(self).has(tid as int, OS_TASK_STATUS_SUSPEND) {
                            assert(scan_makes_ready(*old(self), os, ii));
                        }
                    }
                } else {
                    assert(before.tcb(tid as int) == old(self).tcb(tid as int));
                    assert(unlinked.status(tid as int) == old(self).status(tid as int));
                    assert(need_schedule == scan_makes_ready(*old(self), os, ii + 1)) by {
                        if woke {
                            assert(scan_makes_ready(*old(self), os, ii + 1));
                        }
                        if scan_makes_ready(*old(self), os, ii + 1) && !scan_makes_ready(*old(self), os, ii) {
                            let j0 = choose|j: int|
                                0 <= j < ii + 1 && old(self).has(os[j].sortLinkNode as int, 0x0028u16) && !old(
                                    self,
                                ).has(os[j].sortLinkNode as int, OS_TASK_STATUS_SUSPEND);
                            assert(j0 == ii);
                        }
                    }
                }
                if !was {
                    lemma_woken_status_idem(old(self).status(tid as int));
                }
                assert forall|t: int| 0 <= t < old(self).g_taskCBArray@.len() implies #[trigger] scan_task_after(
                    *old(self),
                    *self,
                    os,
                    ii + 1,
                    t,
                ) by {
                    assert(scan_task_after(*old(self), before, os, ii, t));
                    if t != tid {
                        assert(self.tcb(t) == before.tcb(t));
                        let q = ((old(self).tcb(t).priority as u32) % 32) as int;
                        if owner_removed(os, ii, t) && old(self).has(t, 0x0028u16) && !old(self).has(
                            t,
                            OS_TASK_STATUS_SUSPEND,
                        ) && t != old(self).g_idleTaskID {
                            assert(before.queue(q).contains(t as u32));
                            assert(unlinked.queue(q) == before.queue(q));
                            assert(unlinked.queue(q).contains(t as u32));
                        }
                        if owner_removed(os, ii + 1, t) {
                            let j0 = choose|j: int| 0 <= j < ii + 1 && os[j].sortLinkNode == t;
                            assert(j0 != ii);
                            assert(owner_removed(os, ii, t));
                        } else {
                            if owner_removed(os, ii, t) {
                                let j0 = choose|j: int| 0 <= j < ii && os[j].sortLinkNode == t;
                                assert(owner_removed(os, ii + 1, t));
                            }
                        }
                    }
                }
            }
            i = i + 1;
        }
        need_schedule
    }
}

/// Whether task `t` owns one of the first `k` nodes of the sort link `s`.
pub open spec fn owner_removed(s: Seq<SortLinkList>, k: int, t: int) -> bool {
    exists|j: int| 0 <= j < k && s[j].sortLinkNode == t
}

/// The status of a task whose sort link node ran out: woken as a delayed
/// or timed-pending task (`timeout_status`) when it is one, else unchanged.
pub open spec fn woken_status(s: u16) -> u16 {
    if s & 0x0028u16 != 0 { timeout_status(s) } else { s }
}

/// Whether one of the owners of the first `k` nodes of `s` is, in `a`, a
/// delayed or timed-pending task that is not suspended: waking it makes it
/// ready.
pub open spec fn scan_makes_ready(a: LosKernel, s: Seq<SortLinkList>, k: int) -> bool {
    exists|j: int|
        0 <= j < k && a.has(s[j].sortLinkNode as int, 0x0028u16) && !a.has(
            s[j].sortLinkNode as int,
            OS_TASK_STATUS_SUSPEND,
        )
}

/// Task `t` of `a` as `b` has it after the owners of the first `k` nodes
/// of `s` were woken: such an owner has an invalid response time, the
/// woken status and its priority, is linked on the ready queue of its
/// priority when waking made it ready, and when it was pending has its
/// semaphore and mutex cleared and, if suspended, its pend node unlinked;
/// any other task is unchanged.
pub open spec fn scan_task_after(a: LosKernel, b: LosKernel, s: Seq<SortLinkList>, k: int, t: int) -> bool {
    if owner_removed(s, k, t) {
        &&& b.status(t) == woken_status(a.status(t))
        &&& b.tcb(t).sortList.responseTime == OS_SORT_LINK_INVALID_TIME
        &&& b.tcb(t).priority == a.tcb(t).priority
        &&& a.has(t, 0x0028u16) && !a.has(t, OS_TASK_STATUS_SUSPEND) && t != a.g_idleTaskID ==> {
            &&& b.tcb(t).pendList == ListRef::PriQueue(((a.tcb(t).priority as u32) % 32) as u32)
            &&& b.queue(((a.tcb(t).priority as u32) % 32) as int).contains(t as u32)
        }
        &&& a.has(t, OS_TASK_STATUS_PEND) ==> b.tcb(t).taskSem == 0 && b.tcb(t).taskMux == 0
        &&& a.has(t, OS_TASK_STATUS_PEND) && a.has(t, OS_TASK_STATUS_SUSPEND) ==> b.tcb(t).pendList
            == ListRef::Unlinked
    } else {
        b.tcb(t) == a.tcb(t)
    }
}

/// Whether `m` is `a` as the tick handler's timer scan at `scan_time`
/// leaves it: when the programmed response was not a time slice end and the
/// task sort link is set up, the due nodes are gone and their owners woken
/// (see `scan_task_after`); otherwise the tasks and the task sort link are
/// as they were.
pub open spec fn tick_scan_state(a: LosKernel, m: LosKernel, scan_time: u64) -> bool {
    if a.sched_response_id == OS_INVALID && a.task_sort_link_ready {
        &&& m.g_losTask == a.g_losTask
        &&& m.g_idleTaskID == a.g_idleTaskID
        &&& m.g_taskCBArray@.len() == a.g_taskCBArray@.len()
        &&& exists|k: int| {
            &&& #[trigger] due_prefix_removed(a.sort_links.g_taskSortLink@, m.sort_links.g_taskSortLink@, k, scan_time)
            &&& forall|t: int| 0 <= t < a.g_taskCBArray@.len() ==> #[trigger] scan_task_after(
                a,
                m,
                a.sort_links.g_taskSortLink@,
                k,
                t,
            )
        }
    } else {
        &&& m.g_losTask == a.g_losTask
        &&& m.g_idleTaskID == a.g_idleTaskID
        &&& m.g_taskCBArray@ == a.g_taskCBArray@
        &&& m.sort_links.g_taskSortLink@ == a.sort_links.g_taskSortLink@
    }
}

/// Whether `f` is `m`, the state after the tick handler's timer scan, once
/// the running task `run` is charged its slice up to `tick_start` and
/// restarted at `restart`: the ready queues, the other lists and every
/// other task are as in `m`.
pub open spec fn tick_after_scan(m: LosKernel, f: LosKernel, run: int, tick_start: u64, restart: u64) -> bool {
    &&& f.same_queues(m)
    &&& f.same_aux_lists(m)
    &&& f.g_taskCBArray@.len() == m.g_taskCBArray@.len()
    &&& forall|t: int| 0 <= t < m.g_taskCBArray@.len() && t != run ==> #[trigger] f.tcb(t) == m.tcb(t)
    &&& f.tcb(run) == (LosTaskCB { timeSlice: m.charged_slice(tick_start), startTime: restart, ..m.tcb(run) })
}

/// Making a task ready and taking its ready flag away keeps its running
/// flag, and taking the ready flag away clears it.
proof fn lemma_ready_keeps_running(s: u16)
    ensures
        (ready_status(s) & !4u16) & 0x10u16 == s & 0x10u16,
        (s & !4u16) & 0x10u16 == s & 0x10u16,
        (ready_status(s) & !4u16) & 4u16 == 0,
        (s & !4u16) & 4u16 == 0,
{
    assert(
        ((((s & !0xAAu16) | 4u16) & !4u16) & 0x10u16 == s & 0x10u16)
        && ((s & !4u16) & 0x10u16 == s & 0x10u16)
        && ((((s & !0xAAu16) | 4u16) & !4u16) & 4u16 == 0)
        && ((s & !4u16) & 4u16 == 0)
    ) by (bit_vector);
}

/// Waking a task twice leaves the status of the first wake.
proof fn lemma_woken_status_idem(s: u16)
    ensures
        woken_status(woken_status(s)) == woken_status(s),
        woken_status(s) & 0x0028u16 == 0,
        s & 8u16 != 0 ==> s & 0x0028u16 != 0,
{
    assert(((s & !0xA8u16) | 0x40u16) & 0x28u16 == 0 && (s & !0xA8u16) & 0x28u16 == 0
        && ((((s & !0xA8u16) | 0x40u16) & !0xAAu16) | 4u16) & 0x28u16 == 0
        && (((s & !0xA8u16) & !0xAAu16) | 4u16) & 0x28u16 == 0
        && (s & 8u16 != 0 ==> s & 0x28u16 != 0)) by (bit_vector);
    assert(timeout_status(s) & 0x0028u16 == 0);
}

/// Whether `f` is the sort link `s` without its first `k` nodes, all of
/// which are due at `curr_time`.
pub open spec fn due_prefix_removed(s: Seq<SortLinkList>, f: Seq<SortLinkList>, k: int, curr_time: u64) -> bool {
    &&& 0 <= k <= s.len()
    &&& f == s.subrange(k, s.len() as int)
    &&& forall|j: int| 0 <= j < k ==> #[trigger] s[j].responseTime <= curr_time
}

/// The earlier of the next expiries of the two sort links.
pub open spec fn next_expire_both(links: SortLinks, start: u64, precision: u32) -> u64 {
    let t = crate::sortlink::next_expire_spec(links.g_taskSortLink@, start, precision);
    let w = crate::sortlink::next_expire_spec(links.g_swtmrSortLink@, start, precision);
    if t < w { t } else { w }
}

/// `start` plus the slice `ts` (none when negative), saturating.
pub open spec fn slice_end(start: u64, ts: i32) -> u64 {
    let t: u64 = if ts < 0 { 0 } else { ts as u64 };
    if start + t > u64::MAX { u64::MAX } else { (start + t) as u64 }
}

/// A 64-bit count clamped to the positive 32-bit signed range.
pub open spec fn clamp_i32(v: u64) -> i32 {
    if v > i32::MAX { i32::MAX } else { v as i32 }
}

/// The next response to program when the running task's slice ends at
/// `end`: the earlier of the sort links' next expiry and `end`, where the
/// slice end counts only when it comes more than `min_period` earlier;
/// returns that time and whether the slice end was taken.
pub open spec fn next_response_plan(k: LosKernel, end: u64, curr: u64) -> (u64, bool) {
    let next0 = next_expire_both(k.sort_links, curr, k.tick_response_precision);
    if next0 > end && next0 - end > k.sched_tick_min_period {
        (end, true)
    } else {
        (next0, false)
    }
}

/// Whether the response already programmed is early enough that nothing
/// needs reprogramming for a next response at `next`.
pub open spec fn response_is_current(k: LosKernel, next: u64) -> bool {
    k.sched_response_time <= next || sat_sub_u64(k.sched_response_time, next) < k.tick_response_precision
}

/// The period to reload the tick timer with for a response at `next`: the
/// time until then, but at least the tick precision.
pub open spec fn reload_period(next: u64, curr: u64, precision: u32) -> u64 {
    let d = sat_sub_u64(next, curr);
    if d < precision { precision as u64 } else { d }
}

/// Converts a time between frequencies, leaving it unchanged when a
/// frequency is zero and saturating on overflow (`OsTimeConvertFreq` of the
/// scheduler).
pub open spec fn sched_convert_spec(time: u64, old_freq: u32, new_freq: u32) -> u64 {
    if old_freq >= new_freq {
        if new_freq == 0 { time } else { time / ((old_freq / new_freq) as u64) }
    } else {
        if old_freq == 0 {
            time
        } else if time * ((new_freq / old_freq) as int) > u64::MAX {
            u64::MAX
        } else {
            (time * ((new_freq / old_freq) as int)) as u64
        }
    }
}

/// Converts a time between clock frequencies (`OsTimeConvertFreq`): divided
/// by the integer ratio when slowing down, multiplied when speeding up; a
/// zero frequency leaves the time unchanged and an overflow saturates.
pub fn os_time_convert_freq(time: u64, old_freq: u32, new_freq: u32) -> (r: u64)
    ensures
        r == sched_convert_spec(time, old_freq, new_freq),
{
    if old_freq >= new_freq {
        if new_freq == 0 {
            return time;
        }
        let divisor = (old_freq / new_freq) as u64;
        proof {
            assert(old_freq / new_freq >= 1) by (nonlinear_arith)
                requires old_freq >= new_freq, new_freq > 0;
        }
        if divisor == 0 {
            return time;
        }
        time / divisor
    } else {
        if old_freq == 0 {
            return time;
        }
        let multiplier = (new_freq / old_freq) as u64;
        match time.checked_mul(multiplier) {
            Some(v) => v,
            None => u64::MAX,
        }
    }
}

/// The answer to a tick clock frequency change: the result code, then the
/// tick timer reloads to make, in order: the longest period
/// (`LOSCFG_BASE_CORE_TICK_RESPONSE_MAX`) as soon as the new frequency is
/// accepted, then the period the scheduler asks for on the new clock.
pub struct FreqAdjustReply {
    pub ret: u32,
    pub first_reload: Option<u64>,
    pub reload: Option<u64>,
}

/// Hardware work the scheduler asks for.
pub struct SchedAction {
    /// Reload the tick timer with this period.
    pub reload: Option<u64>,
    /// Trigger a task switch (`ArchTaskSchedule`).
    pub schedule: bool,
    /// Call the software timer scan registered at this address first.
    pub swtmr_scan: Option<u32>,
}

impl LosKernel {
    /// Decides the next tick response for the running task `response_id`
    /// whose slice ends at `task_end_time`, at cycle count `curr_time`
    /// (`OsSchedSetNextExpireTime`): when the programmed response is not
    /// early enough, the response id is set (the task when its slice end
    /// decides, else invalid) and the period to reload the tick timer with
    /// is returned; otherwise nothing changes.
    pub fn os_sched_set_next_expire_time(&mut self, response_id: u32, task_end_time: u64, curr_time: u64) -> (r: Option<u64>)
        ensures
            response_is_current(*old(self), next_response_plan(*old(self), task_end_time, curr_time).0)
                ==> r is None && *final(self) == *old(self),
            r matches Some(p) ==> curr_time + p <= crate::sortlink::next_expire_spec(
                old(self).sort_links.g_taskSortLink@,
                curr_time,
                old(self).tick_response_precision,
            ) || curr_time + p <= curr_time + old(self).tick_response_precision,
            !response_is_current(*old(self), next_response_plan(*old(self), task_end_time, curr_time).0) ==> {
                let (next, is_ts) = next_response_plan(*old(self), task_end_time, curr_time);
                &&& r == Some(reload_period(next, curr_time, old(self).tick_response_precision))
                &&& *final(self) == (LosKernel {
                    sched_response_id: if is_ts { response_id } else { OS_INVALID },
                    ..*old(self)
                })
            },
    {
        let precision = self.tick_response_precision;
        let mut next_expire_time = self.sort_links.os_get_next_expire_time(curr_time, precision);
        let min_period = self.sched_tick_min_period as u64;
        let mut is_time_slice = false;
        if next_expire_time > task_end_time && (next_expire_time - task_end_time) > min_period {
            next_expire_time = task_end_time;
            is_time_slice = true;
        }
        let resp_time = self.sched_response_time;
        if resp_time <= next_expire_time || resp_time.saturating_sub(next_expire_time) < precision as u64 {
            return None;
        }
        if is_time_slice {
            self.sched_response_id = response_id;
        } else {
            self.sched_response_id = OS_INVALID;
        }
        let mut next_response_time = next_expire_time.saturating_sub(curr_time);
        if next_response_time < precision as u64 {
            next_response_time = precision as u64;
        }
        Some(next_response_time)
    }

    /// Records the tick response programmed at `curr_time` once the timer was
    /// reloaded for `reloaded` cycles.
    pub fn os_sched_reload_done(&mut self, curr_time: u64, reloaded: u64)
        ensures
            *final(self) == (LosKernel {
                sched_response_time: if curr_time + reloaded > u64::MAX {
                    u64::MAX
                } else {
                    (curr_time + reloaded) as u64
                },
                ..*old(self)
            }),
    {
        self.sched_response_time = curr_time.saturating_add(reloaded);
    }

    /// The reload period that reprogramming the tick response for the
    /// running task at `curr_time` asks for, if any
    /// (`OsSchedUpdateExpireTime` once the scheduler runs).
    pub open spec fn update_expire_reload(self, curr_time: u64) -> Option<u64> {
        self.planned_reload(self.run_task_end_time(), curr_time)
    }

    /// The reload period that deciding the next tick response at
    /// `curr_time`, for a running task whose slice ends at `end`, asks for,
    /// if any (`OsSchedSetNextExpireTime`).
    pub open spec fn planned_reload(self, end: u64, curr_time: u64) -> Option<u64> {
        let next = next_response_plan(self, end, curr_time).0;
        if response_is_current(self, next) {
            None
        } else {
            Some(reload_period(next, curr_time, self.tick_response_precision))
        }
    }

    /// Where the slice of task `n` ends once it is switched in: its start
    /// plus its slice (saturating), or no end for the idle task.
    pub open spec fn switch_end_time(self, n: u32) -> u64 {
        let t = self.tcb(n as int);
        if t.taskID != self.g_idleTaskID {
            slice_end(t.startTime, t.timeSlice)
        } else {
            sat_sub_u64(OS_SCHED_MAX_RESPONSE_TIME, self.tick_response_precision as u64)
        }
    }

    /// The end of the running task's time slice, or no end for the idle task.
    pub open spec fn run_task_end_time(self) -> u64 {
        let run = self.tcb(self.g_losTask.runTask as int);
        if run.taskID != self.g_idleTaskID && !LOSCFG_KERNEL_PM {
            let ts = if run.timeSlice <= self.sched_time_slice_min { self.sched_time_slice } else { run.timeSlice };
            let ts_u64: u64 = if ts < 0 { 0 } else { ts as u64 };
            if run.startTime + ts_u64 > u64::MAX { u64::MAX } else { (run.startTime + ts_u64) as u64 }
        } else {
            sat_sub_u64(OS_SCHED_MAX_RESPONSE_TIME, self.tick_response_precision as u64)
        }
    }

    /// Reprograms the tick response for the running task at cycle count
    /// `curr_time` (`OsSchedUpdateExpireTime`); nothing before the scheduler
    /// runs or inside the tick handler's scan.
    pub fn OsSchedUpdateExpireTime(&mut self, curr_time: u64) -> (r: Option<u64>)
        requires
            old(self).wf(),
        ensures
            final(self).wf(),
            !old(self).g_taskScheduled || old(self).tick_int_lock != 0 ==> r is None && *final(self) == *old(self),
            old(self).g_taskScheduled && old(self).tick_int_lock == 0 ==> {
                let end = old(self).run_task_end_time();
                let (next, is_ts) = next_response_plan(*old(self), end, curr_time);
                &&& response_is_current(*old(self), next) ==> r is None && *final(self) == *old(self)
                &&& !response_is_current(*old(self), next) ==> r == Some(
                    reload_period(next, curr_time, old(self).tick_response_precision),
                ) && *final(self) == (LosKernel {
                    sched_response_id: if is_ts {
                        old(self).tcb(old(self).g_losTask.runTask as int).taskID
                    } else {
                        OS_INVALID
                    },
                    ..*old(self)
                })
            },
    {
        if !self.g_taskScheduled || self.tick_int_lock != 0 {
            return None;
        }
        let run = self.g_losTask.runTask as usize;
        let idle = self.g_idleTaskID;
        let pm = is_pm_mode();
        let precision = self.tick_response_precision;
        let tid = self.g_taskCBArray[run].taskID;
        let end_time: u64;
        if tid != idle && !pm {
            let cur_ts = self.g_taskCBArray[run].timeSlice;
            let time_slice = if cur_ts <= self.sched_time_slice_min {
                self.sched_time_slice
            } else {
                cur_ts
            };
            let start = self.g_taskCBArray[run].startTime;
            let ts_u64 = if time_slice < 0 {
                0u64
            } else {
                time_slice as u64
            };
            end_time = start.saturating_add(ts_u64);
        } else {
            end_time = OS_SCHED_MAX_RESPONSE_TIME.saturating_sub(precision as u64);
        }
        self.os_sched_set_next_expire_time(tid, end_time, curr_time)
    }

    /// Derives the scheduler's time base from the clock (`SchedTimeBaseInit`):
    /// no response programmed, the shortest tick period (a thousandth of a
    /// second), the tick precision (three quarters of it), the time slice
    /// (20 ms) and the minimum time slice (50 us), in cycles.
    pub fn sched_time_base_init(&mut self)
        ensures
            *final(self) == (LosKernel {
                sched_response_time: OS_SCHED_MAX_RESPONSE_TIME,
                sched_tick_min_period: (old(self).tick.g_sysClock / LOSCFG_BASE_CORE_TICK_PER_SECOND_MINI) as u32,
                tick_response_precision: ((old(self).tick.g_sysClock / LOSCFG_BASE_CORE_TICK_PER_SECOND_MINI)
                    * 75 / 100) as u32,
                sched_time_slice: (old(self).tick.g_sysClock * LOSCFG_BASE_CORE_TIMESLICE_TIMEOUT
                    / 1_000_000) as i32,
                sched_time_slice_min: (old(self).tick.g_sysClock * 50 / 1_000_000) as i32,
                ..*old(self)
            }),
    {
        self.sched_response_time = OS_SCHED_MAX_RESPONSE_TIME;
        let sys_clock = self.tick.g_sysClock;
        let min_period = sys_clock / LOSCFG_BASE_CORE_TICK_PER_SECOND_MINI;
        self.sched_tick_min_period = min_period;
        proof {
            assert(min_period as u64 * 75 <= u64::MAX) by (nonlinear_arith)
                requires min_period <= u32::MAX;
            assert(min_period as u64 * 75 / 100 <= u32::MAX) by (nonlinear_arith)
                requires min_period <= u32::MAX;
            assert(sys_clock as u64 * 20_000 <= u64::MAX) by (nonlinear_arith)
                requires sys_clock <= u32::MAX;
            assert(sys_clock as u64 * 20_000 / 1_000_000 <= i32::MAX) by (nonlinear_arith)
                requires sys_clock <= u32::MAX;
            assert(sys_clock as u64 * 50 / 1_000_000 <= i32::MAX) by (nonlinear_arith)
                requires sys_clock <= u32::MAX;
        }
        self.tick_response_precision = ((min_period as u64 * 75) / 100) as u32;
        self.sched_time_slice = ((sys_clock as u64 * LOSCFG_BASE_CORE_TIMESLICE_TIMEOUT as u64)
            / 1_000_000) as i32;
        self.sched_time_slice_min = ((sys_clock as u64 * 50) / 1_000_000) as i32;
    }

    /// Converts the time slices and the start time of the running task
    /// from `old_freq` to the current clock (`TaskSchedTimeConvertFreq`):
    /// for every task in use, a positive slice is converted (at most
    /// `i32::MAX`) and any other becomes 0; a running task's start time is
    /// converted too.
    pub fn task_sched_time_convert_freq(&mut self, old_freq: u32)
        requires
            old(self).wf(),
        ensures
            final(self).wf(),
            forall|i: int| 0 <= i < old(self).g_taskMaxNum ==> #[trigger] final(self).tcb(i) == converted_task(
                old(self).tcb(i),
                old_freq,
                old(self).tick.g_sysClock,
            ),
            final(self).tcb(old(self).g_taskMaxNum as int) == old(self).tcb(old(self).g_taskMaxNum as int),
            final(self).g_taskCBArray@.len() == old(self).g_taskCBArray@.len(),
            final(self).same_but_timing(*old(self)),
            final(self).same_sched(*old(self)),
    {
        let max = self.g_taskMaxNum;
        let new_freq = self.tick.g_sysClock;
        let mut loop_num: u32 = 0;
        while loop_num < max
            invariant
                self.wf(),
                max == self.g_taskMaxNum,
                max == old(self).g_taskMaxNum,
                new_freq == old(self).tick.g_sysClock,
                loop_num <= max,
                self.g_taskCBArray@.len() == old(self).g_taskCBArray@.len(),
                forall|i: int| 0 <= i < loop_num ==> #[trigger] self.tcb(i) == converted_task(old(self).tcb(i), old_freq, new_freq),
                forall|i: int| loop_num <= i <= max ==> #[trigger] self.tcb(i) == old(self).tcb(i),
                self.same_but_timing(*old(self)),
                self.same_sched(*old(self)),
            decreases max - loop_num,
        {
            let i = loop_num as usize;
            let status = self.g_taskCBArray[i].taskStatus;
            if (status & OS_TASK_STATUS_UNUSED) == 0 {
                let ts = self.g_taskCBArray[i].timeSlice;
                if ts > 0 {
                    let converted = os_time_convert_freq(ts as u64, old_freq, new_freq);
                    self.g_taskCBArray[i].timeSlice = if converted > i32::MAX as u64 {
                        i32::MAX
                    } else {
                        converted as i32
                    };
                } else {
                    self.g_taskCBArray[i].timeSlice = 0;
                }
                if (status & OS_TASK_STATUS_RUNNING) != 0 {
                    let start = self.g_taskCBArray[i].startTime;
                    self.g_taskCBArray[i].startTime = os_time_convert_freq(start, old_freq, new_freq);
                }
            }
            loop_num = loop_num + 1;
        }
    }
}

/// A task control block after its times are converted between frequencies
/// (see `task_sched_time_convert_freq`).
pub open spec fn converted_task(t: LosTaskCB, old_freq: u32, new_freq: u32) -> LosTaskCB {
    if t.taskStatus & OS_TASK_STATUS_UNUSED != 0 {
        t
    } else {
        LosTaskCB {
            timeSlice: if t.timeSlice > 0 {
                let c = sched_convert_spec(t.timeSlice as u64, old_freq, new_freq);
                if c > i32::MAX { i32::MAX } else { c as i32 }
            } else {
                0
            },
            startTime: if t.taskStatus & OS_TASK_STATUS_RUNNING != 0 {
                sched_convert_spec(t.startTime, old_freq, new_freq)
            } else {
                t.startTime
            },
            ..t
        }
    }
}

impl LosKernel {
    /// Moves the scheduler to a new clock after a frequency change from
    /// `old_freq` (`OsSchedTimeConvertFreq`): the time base is derived anew,
    /// task slices and the running task's start time are converted, the
    /// sort links' response times are converted, and the tick response is
    /// reprogrammed at `curr_time` (the returned reload period, if any).
    pub fn OsSchedTimeConvertFreq(&mut self, old_freq: u32, curr_time: u64) -> (r: Option<u64>)
        requires
            old(self).wf(),
            old(self).sort_links.g_taskSortLink@.len() > 0 || old(self).sort_links.g_swtmrSortLink@.len() > 0
                ==> old_freq > 0 && old(self).tick.g_sysClock > 0,
        ensures
            final(self).wf(),
            final(self).sched_tick_min_period == (old(self).tick.g_sysClock / LOSCFG_BASE_CORE_TICK_PER_SECOND_MINI) as u32,
            final(self).sched_time_slice == (old(self).tick.g_sysClock * LOSCFG_BASE_CORE_TIMESLICE_TIMEOUT / 1_000_000) as i32,
            final(self).sched_time_slice_min == (old(self).tick.g_sysClock * 50 / 1_000_000) as i32,
            forall|i: int| 0 <= i < old(self).g_taskMaxNum ==> #[trigger] final(self).tcb(i) == converted_task(
                old(self).tcb(i),
                old_freq,
                old(self).tick.g_sysClock,
            ),
            final(self).sort_links.g_taskSortLink@.len() == old(self).sort_links.g_taskSortLink@.len(),
            forall|i: int| 0 <= i < old(self).sort_links.g_taskSortLink@.len() ==> #[trigger] final(self).sort_links.g_taskSortLink@[i]
                == crate::sortlink::converted_node(old(self).sort_links.g_taskSortLink@[i], old_freq, old(self).tick.g_sysClock),
            final(self).sort_links.g_swtmrSortLink@.len() == old(self).sort_links.g_swtmrSortLink@.len(),
            forall|i: int| 0 <= i < old(self).sort_links.g_swtmrSortLink@.len() ==> #[trigger] final(self).sort_links.g_swtmrSortLink@[i]
                == crate::sortlink::converted_node(old(self).sort_links.g_swtmrSortLink@[i], old_freq, old(self).tick.g_sysClock),
            final(self).same_task_globals(*old(self)),
            final(self).same_queues(*old(self)),
            final(self).same_aux_lists(*old(self)),
            final(self).tick == old(self).tick,
            r == (if old(self).g_taskScheduled && old(self).tick_int_lock == 0 {
                final(self).update_expire_reload(curr_time)
            } else {
                None
            }),
    {
        self.sched_time_base_init();
        self.task_sched_time_convert_freq(old_freq);
        let new_freq = self.tick.g_sysClock;
        let ghost before = *self;
        self.sort_links.OsSortLinkResponseTimeConvertFreq(old_freq, new_freq);
        proof {
            assert forall|k: int| 0 <= k < self.sort_links.g_taskSortLink@.len() implies (
            #[trigger] self.sort_links.g_taskSortLink@[k]).sortLinkNode < self.g_taskMaxNum by {
                assert(before.sort_links.g_taskSortLink@[k].sortLinkNode < self.g_taskMaxNum);
            }
        }
        self.OsSchedUpdateExpireTime(curr_time)
    }

    /// Sets up the scheduler (`OsSchedInit`): every ready queue empty, the
    /// bitmap clear, the task sort link attached and emptied, and the time
    /// base derived from the clock; returns `LOS_OK`.
    pub fn OsSchedInit(&mut self) -> (r: u32)
        requires
            old(self).wf(),
        ensures
            final(self).wf(),
            r == LOS_OK,
            forall|p: int| 0 <= p < 32 ==> #[trigger] final(self).queue(p).len() == 0,
            final(self).queue_bitmap == 0,
            final(self).task_sort_link_ready,
            final(self).sort_links.g_taskSortLink@.len() == 0,
            final(self).sched_response_time == OS_SCHED_MAX_RESPONSE_TIME,
            final(self).g_taskCBArray@ == old(self).g_taskCBArray@,
            final(self).same_task_globals(*old(self)),
            final(self).same_aux_lists(*old(self)),
            final(self).swtmr_scan == old(self).swtmr_scan,
            final(self).sched_response_id == old(self).sched_response_id,
            final(self).tick_int_lock == old(self).tick_int_lock,
            final(self).tick == old(self).tick,
            final(self).sort_links.g_swtmrSortLink@ == old(self).sort_links.g_swtmrSortLink@,
    {
        let mut pri: usize = 0;
        while pri < OS_PRIORITY_QUEUE_NUM as usize
            invariant
                self.pri_queue_list@.len() == OS_PRIORITY_QUEUE_NUM,
                pri <= 32,
                forall|p: int| 0 <= p < pri ==> #[trigger] self.queue(p).len() == 0,
                self.g_taskCBArray@ == old(self).g_taskCBArray@,
                self.same_task_globals(*old(self)),
                self.same_aux_lists(*old(self)),
                self.sort_links.g_taskSortLink@ == old(self).sort_links.g_taskSortLink@,
                self.wait_lists@.len() == old(self).wait_lists@.len(),
                self.swtmr_scan == old(self).swtmr_scan,
                self.sched_response_id == old(self).sched_response_id,
                self.tick_int_lock == old(self).tick_int_lock,
                self.tick == old(self).tick,
                self.sort_links.g_swtmrSortLink@ == old(self).sort_links.g_swtmrSortLink@,
            decreases 32 - pri,
        {
            let ghost before = self.pri_queue_list@;
            self.pri_queue_list[pri].LOS_ListInit();
            proof {
                assert forall|p: int| 0 <= p < pri + 1 implies #[trigger] self.queue(p).len() == 0 by {
                    if p < pri {
                        assert(self.pri_queue_list@[p] == before[p]);
                    }
                }
            }
            pri = pri + 1;
        }
        self.queue_bitmap = 0;
        self.task_sort_link_ready = true;
        self.sort_links.g_taskSortLink.OsSortLinkInit();
        self.sched_time_base_init();
        proof {
            assert forall|p: int| 0 <= p < 32 implies (#[trigger] bit_set(self.queue_bitmap, p)
                <==> self.queue(p).len() > 0) by {
                lemma_zero_bitmap_bit(p as u32);
            }
        }
        LOS_OK
    }

    /// Whether scheduling is allowed: not in an interrupt and the task lock
    /// not held (`LOS_CHECK_SCHEDULE`).
    pub fn los_check_schedule(&self, int_active: bool) -> (r: bool)
        ensures
            r == (self.g_losTaskLock == 0 && !int_active),
    {
        if self.g_losTaskLock != 0 {
            return false;
        }
        !int_active
    }

    /// Whether the kernel runs tasks and may switch now
    /// (`OsCheckKernelRunning`).
    pub fn os_check_kernel_running(&self, int_active: bool) -> (r: bool)
        ensures
            r == (self.g_taskScheduled && self.g_losTaskLock == 0 && !int_active),
    {
        if !self.g_taskScheduled {
            return false;
        }
        self.los_check_schedule(int_active)
    }

    /// Whether a task switch is to be triggered now (`LOS_Schedule`).
    pub fn LOS_Schedule(&self, int_active: bool) -> (r: bool)
        ensures
            r == (self.g_taskScheduled && self.g_losTaskLock == 0 && !int_active),
    {
        self.os_check_kernel_running(int_active)
    }

    /// Nanoseconds until the programmed tick response at cycle count
    /// `curr_time`, 0 when it is due or the clock is unknown, saturating at
    /// `u64::MAX` (`LOS_SchedTickTimeoutNsGet`).
    pub fn LOS_SchedTickTimeoutNsGet(&self, curr_time: u64) -> (r: u64)
        ensures
            self.tick.g_sysClock == 0 ==> r == 0,
            self.tick.g_sysClock != 0 ==> r == (if sat_sub_u64(self.sched_response_time, curr_time) * 1_000_000_000
                / (self.tick.g_sysClock as int) > u64::MAX {
                u64::MAX
            } else {
                (sat_sub_u64(self.sched_response_time, curr_time) * 1_000_000_000 / (self.tick.g_sysClock as int)) as u64
            }),
    {
        let response_time = self.sched_response_time;
        let delta = if response_time > curr_time {
            response_time - curr_time
        } else {
            0
        };
        let freq = self.tick.g_sysClock as u128;
        if freq == 0 {
            return 0;
        }
        proof {
            assert(delta as u128 * 1_000_000_000u128 <= u128::MAX) by (nonlinear_arith)
                requires delta <= u64::MAX;
        }
        let widened = (delta as u128) * 1_000_000_000u128 / freq;
        if widened > u64::MAX as u128 {
            u64::MAX
        } else {
            widened as u64
        }
    }
}

impl LosKernel {
    /// Starts scheduling (`OsSchedStart`) with the scheduler clock at
    /// `start_time`: the top task becomes the running task with its start
    /// time set and leaves the ready queues, the tick counter starts,
    /// scheduling is enabled, and the first tick response is decided at
    /// cycle count `now` (the returned reload period, if any).  Nothing
    /// happens when there is no task to run.
    pub fn OsSchedStart(&mut self, start_time: u64, now: u64) -> (r: Option<u64>)
        requires
            old(self).wf(),
        ensures
            final(self).wf(),
            old(self).OsGetTopTask_spec() is None ==> r is None && *final(self) == *old(self),
            old(self).OsGetTopTask_spec() matches Some(n) ==> {
                &&& final(self).g_losTask == (LosTask { runTask: n, newTask: Some(n) })
                &&& final(self).g_taskScheduled
                &&& final(self).has(n as int, OS_TASK_STATUS_RUNNING)
                &&& !final(self).has(n as int, OS_TASK_STATUS_READY)
                &&& final(self).tcb(n as int).startTime == start_time
                &&& final(self).tick.tick_timer_start_time == start_time
                &&& final(self).sched_response_time == OS_SCHED_MAX_RESPONSE_TIME
                &&& old(self).has(n as int, OS_TASK_STATUS_READY) && n != old(self).g_idleTaskID
                    ==> old(self).queues_after_delete(*final(self), n, old(self).tcb(n as int).priority as u32)
                &&& !(old(self).has(n as int, OS_TASK_STATUS_READY) && n != old(self).g_idleTaskID)
                    ==> final(self).same_queues(*old(self))
                &&& r == final(self).planned_reload(slice_end(start_time, final(self).tcb(n as int).timeSlice), now)
            },
    {
        let new_task = match self.OsGetTopTask() {
            None => {
                return None;
            },
            Some(n) => n,
        };
        let st = self.g_taskCBArray[new_task as usize].taskStatus;
        self.g_taskCBArray[new_task as usize].taskStatus = st | OS_TASK_STATUS_RUNNING;
        self.g_losTask = LosTask { runTask: new_task, newTask: Some(new_task) };
        self.g_taskCBArray[new_task as usize].startTime = start_time;
        let ghost before_dequeue = *self;
        proof {
            assert((st | 0x10u16) & 4u16 == st & 4u16) by (bit_vector);
            assert(before_dequeue.same_queues(*old(self)));
        }
        self.OsSchedTaskDeQueue(new_task);
        let ghost after_dequeue = *self;
        self.tick.OsTickSysTimerStartTimeSet(start_time);
        self.g_taskScheduled = true;
        self.sched_response_time = OS_SCHED_MAX_RESPONSE_TIME;
        self.sched_response_id = OS_INVALID;
        let ts = self.g_taskCBArray[new_task as usize].timeSlice;
        let ts_u64 = if ts < 0 {
            0u64
        } else {
            ts as u64
        };
        let tid = self.g_taskCBArray[new_task as usize].taskID;
        proof {
            assert(
                (((st | 0x10u16) & !4u16) & 0x10u16 != 0 && ((st | 0x10u16) & !4u16) & 4u16 == 0)
                && ((st | 0x10u16) & 0x10u16 != 0)
            ) by (bit_vector);
            assert(self.same_queues(after_dequeue));
        }
        self.os_sched_set_next_expire_time(tid, start_time.saturating_add(ts_u64), now)
    }

    /// What `OsGetTopTask` returns.
    pub open spec fn OsGetTopTask_spec(self) -> Option<u32> {
        if self.queue_bitmap != 0 {
            Some(self.queue(top_priority(self.queue_bitmap))[0])
        } else if self.g_idleTaskID < self.g_taskMaxNum {
            Some(self.g_idleTaskID)
        } else {
            None
        }
    }

    /// The time slice the running task keeps once charged up to `curr_time`.
    pub open spec fn charged_slice(self, curr_time: u64) -> i32 {
        let t = self.tcb(self.g_losTask.runTask as int);
        if t.taskID != self.g_idleTaskID {
            sat_sub_i32(t.timeSlice, clamp_i32(sat_sub_u64(curr_time, t.startTime)))
        } else {
            t.timeSlice
        }
    }

    /// Whether requeuing makes the running task ready: it is neither
    /// delayed, timed-pending nor blocked.
    pub open spec fn requeue_makes_ready(self) -> bool {
        let s = self.status(self.g_losTask.runTask as int);
        s & 0x00A0u16 == 0 && s & OS_TASK_BLOCKED_STATUS == 0
    }

    /// The running task's time slice once requeued at `curr_time`: the
    /// charged slice, or a fresh one when it joins the tail of its ready
    /// queue.
    pub open spec fn requeue_slice(self, curr_time: u64) -> i32 {
        let c = self.charged_slice(curr_time);
        if self.requeue_makes_ready() && self.g_losTask.runTask != self.g_idleTaskID && c
            <= self.sched_time_slice_min {
            self.sched_time_slice
        } else {
            c
        }
    }

    /// The trace hooks called once the running task is requeued: it is
    /// reported ready when it joins a ready queue.
    pub open spec fn requeue_hooks(self) -> Seq<SchedHook> {
        if self.requeue_makes_ready() && self.g_losTask.runTask != self.g_idleTaskID {
            self.sched_hooks@.push(SchedHook::MovedTaskToReady(self.g_losTask.runTask))
        } else {
            self.sched_hooks@
        }
    }

    /// The running task's status once requeued.
    pub open spec fn requeue_status(self) -> u16 {
        let s = self.status(self.g_losTask.runTask as int);
        if self.requeue_makes_ready() { ready_status(s) } else { s }
    }

    /// Whether `m` has the ready queues of `self` after the running task is
    /// requeued at `curr_time`: a running task that is neither delayed,
    /// timed-pending nor blocked, and not the idle task, joins the ready
    /// queue of its priority (at the head when slice above the minimum is
    /// left); otherwise the queues stay.
    pub open spec fn requeue_queues(self, m: LosKernel, curr_time: u64) -> bool {
        let run = self.g_losTask.runTask;
        let s = self.status(run as int);
        if s & 0x00A0u16 == 0 && s & OS_TASK_BLOCKED_STATUS == 0 && run != self.g_idleTaskID {
            self.queues_after_enqueue(
                m,
                run,
                self.tcb(run as int).priority as u32,
                self.charged_slice(curr_time) > self.sched_time_slice_min,
            )
        } else {
            m.same_queues(self)
        }
    }

    /// First half of the task switch: the running task is charged its slice
    /// up to `curr_time` and, when delayed or timed-pending, goes on the task
    /// sort link, else back on its ready queue unless blocked.
    pub fn os_sched_requeue_run_task(&mut self, curr_time: u64)
        requires
            old(self).wf(),
        ensures
            final(self).wf(),
            final(self).g_losTask == old(self).g_losTask,
            final(self).tcb(old(self).g_losTask.runTask as int).startTime == curr_time,
            old(self).requeue_queues(*final(self), curr_time),
            old(self).has(old(self).g_losTask.runTask as int, 0x00A0u16) ==> {
                let run = old(self).g_losTask.runTask as int;
                &&& final(self).tcb(run).sortList.responseTime == curr_time.wrapping_add(
                    crate::sortlink::sys_tick_to_cycle_spec(old(self).tcb(run).waitTimes, old(self).tick.g_sysClock),
                )
                &&& final(self).sort_links.g_taskSortLink@ == old(self).sort_links.g_taskSortLink@.insert(
                    crate::sortlink::sort_link_insert_pos(
                        old(self).sort_links.g_taskSortLink@,
                        final(self).tcb(run).sortList.responseTime,
                    ),
                    final(self).tcb(run).sortList,
                )
            },
            !old(self).has(old(self).g_losTask.runTask as int, 0x00A0u16) ==> final(self).sort_links.g_taskSortLink@
                == old(self).sort_links.g_taskSortLink@,
            final(self).same_tasks_except(*old(self), old(self).g_losTask.runTask as int),
            final(self).tcb(old(self).g_losTask.runTask as int).priority == old(self).tcb(
                old(self).g_losTask.runTask as int,
            ).priority,
            final(self).tcb(old(self).g_losTask.runTask as int).timeSlice == old(self).requeue_slice(curr_time),
            final(self).status(old(self).g_losTask.runTask as int) == old(self).requeue_status(),
            final(self).sched_hooks@ == old(self).requeue_hooks(),
            old(self).has(old(self).g_losTask.runTask as int, OS_TASK_STATUS_PEND) ==> final(self).status(
                old(self).g_losTask.runTask as int,
            ) == old(self).status(old(self).g_losTask.runTask as int) && final(self).same_queues(*old(self)),
            final(self).tcb(old(self).g_losTask.runTask as int).taskID == old(self).tcb(
                old(self).g_losTask.runTask as int,
            ).taskID,
            final(self).sched_response_id == old(self).sched_response_id,
            final(self).sched_response_time == old(self).sched_response_time,
            final(self).same_config(*old(self)),
            final(self).same_task_globals(*old(self)),
    {
        let run = self.g_losTask.runTask;
        self.os_time_slice_update(run, curr_time);
        let status = self.g_taskCBArray[run as usize].taskStatus;
        proof {
            lemma_status_flag_facts(status);
        }
        if (status & 0x00A0u16) != 0 {
            let start = self.g_taskCBArray[run as usize].startTime;
            let wait = self.g_taskCBArray[run as usize].waitTimes;
            self.os_add_task_sort_link(run, start, wait);
        } else if (status & OS_TASK_BLOCKED_STATUS) == 0 {
            proof {
                if run == self.g_taskMaxNum {
                    assert(status & 0x101u16 != 0 ==> status & 0x10Bu16 != 0) by (bit_vector);
                }
            }
            self.OsSchedTaskEnQueue(run);
        }
    }

    /// Second half of the task switch: `new_task` is recorded as the new
    /// task; when it differs from the running task, the running task loses
    /// running and the new one takes it with the running task's start time;
    /// the new task leaves the ready queues.  Returns whether they differ.
    pub fn os_sched_mark_new_task(&mut self, new_task: u32) -> (r: bool)
        requires
            old(self).wf(),
            new_task < old(self).g_taskMaxNum,
        ensures
            final(self).wf(),
            r == (new_task != old(self).g_losTask.runTask),
            final(self).g_losTask == (LosTask { newTask: Some(new_task), ..old(self).g_losTask }),
            !final(self).has(new_task as int, OS_TASK_STATUS_READY),
            r ==> final(self).has(new_task as int, OS_TASK_STATUS_RUNNING),
            r ==> !final(self).has(old(self).g_losTask.runTask as int, OS_TASK_STATUS_RUNNING),
            r ==> final(self).tcb(new_task as int).startTime == old(self).tcb(old(self).g_losTask.runTask as int).startTime,
            final(self).tcb(old(self).g_losTask.runTask as int).startTime == old(self).tcb(
                old(self).g_losTask.runTask as int,
            ).startTime,
            final(self).tcb(old(self).g_losTask.runTask as int).sortList == old(self).tcb(
                old(self).g_losTask.runTask as int,
            ).sortList,
            final(self).sort_links.g_taskSortLink@ == old(self).sort_links.g_taskSortLink@,
            old(self).has(new_task as int, OS_TASK_STATUS_READY) && new_task != old(self).g_idleTaskID
                ==> old(self).queues_after_delete(*final(self), new_task, old(self).tcb(new_task as int).priority as u32),
            !(old(self).has(new_task as int, OS_TASK_STATUS_READY) && new_task != old(self).g_idleTaskID)
                ==> final(self).same_queues(*old(self)),
            r ==> final(self).status(old(self).g_losTask.runTask as int) == old(self).status(
                old(self).g_losTask.runTask as int,
            ) & !OS_TASK_STATUS_RUNNING,
            !r ==> final(self).status(new_task as int) == old(self).status(new_task as int)
                & !OS_TASK_STATUS_READY,
            final(self).tcb(old(self).g_losTask.runTask as int).timeSlice == old(self).tcb(
                old(self).g_losTask.runTask as int,
            ).timeSlice,
            final(self).tcb(old(self).g_losTask.runTask as int).taskID == old(self).tcb(
                old(self).g_losTask.runTask as int,
            ).taskID,
            final(self).same_config(*old(self)),
            final(self).g_idleTaskID == old(self).g_idleTaskID,
            final(self).sched_response_id == old(self).sched_response_id,
            final(self).sched_response_time == old(self).sched_response_time,
            final(self).sched_hooks@ == if r {
                old(self).sched_hooks@.push(SchedHook::TaskSwitchedIn)
            } else {
                old(self).sched_hooks@
            },
    {
        let run = self.g_losTask.runTask;
        self.g_losTask.newTask = Some(new_task);
        let mut is_task_switch = false;
        if run != new_task {
            let rs = self.g_taskCBArray[run as usize].taskStatus;
            self.g_taskCBArray[run as usize].taskStatus = rs & !OS_TASK_STATUS_RUNNING;
            proof {
                if run == self.g_taskMaxNum {
                    lemma_unused_or_exit_kept(rs, OS_TASK_STATUS_RUNNING, 0);
                }
            }
            let ns = self.g_taskCBArray[new_task as usize].taskStatus;
            self.g_taskCBArray[new_task as usize].taskStatus = ns | OS_TASK_STATUS_RUNNING;
            let rstart = self.g_taskCBArray[run as usize].startTime;
            self.g_taskCBArray[new_task as usize].startTime = rstart;
            is_task_switch = true;
            self.sched_hooks.push(SchedHook::TaskSwitchedIn);
            proof {
                assert(((ns | 0x10u16) & 0x10u16 != 0) && ((rs & !0x10u16) & 0x10u16 == 0)) by (bit_vector);
            }
        }
        let ghost before_dequeue = *self;
        self.OsSchedTaskDeQueue(new_task);
        proof {
            let ns = before_dequeue.status(new_task as int);
            let rs = before_dequeue.status(run as int);
            let ons = old(self).status(new_task as int);
            assert(
                (ns & 0x10u16 != 0 ==> (ns & !4u16) & 0x10u16 != 0 && (ns & !4u16) & 4u16 == 0)
                && (ns & 4u16 != 0 ==> (ns & !4u16) & 4u16 == 0)
                && (ns & 4u16 == 0 ==> ns & !4u16 == ns)
                && (rs & 0x10u16 == 0 ==> (rs & !4u16) & 0x10u16 == 0)
                && (ons & 4u16 == (ons | 0x10u16) & 4u16)
            ) by (bit_vector);
            assert(before_dequeue.has(new_task as int, OS_TASK_STATUS_READY) == old(self).has(
                new_task as int,
                OS_TASK_STATUS_READY,
            ));
            assert(before_dequeue.tcb(new_task as int).priority == old(self).tcb(new_task as int).priority);
            assert(before_dequeue.same_queues(*old(self)));
        }
        is_task_switch
    }

    /// The task switch decision (`OsSchedTaskSwitch`) with the scheduler
    /// clock at `curr_time`: the running task is charged its slice and, when
    /// delayed or timed-pending, goes on the task sort link, else back on its
    /// ready queue unless blocked; then the top task is chosen as the new
    /// task, marked running (the old one no longer is) and taken off the
    /// ready queues, and the next tick response is decided at cycle count
    /// `now`.  Returns whether the task changes and the reload period, if any.
    #[verifier::rlimit(40)]
    #[verifier::spinoff_prover]
    pub fn OsSchedTaskSwitch(&mut self, curr_time: u64, now: u64) -> (r: (bool, Option<u64>))
        requires
            old(self).wf(),
        ensures
            final(self).wf(),
            final(self).g_losTask.runTask == old(self).g_losTask.runTask,
            final(self).tcb(old(self).g_losTask.runTask as int).startTime == curr_time,
            r.0 ==> (final(self).g_losTask.newTask matches Some(n) && n != old(self).g_losTask.runTask && {
                &&& n < final(self).g_taskMaxNum
                &&& final(self).has(n as int, OS_TASK_STATUS_RUNNING)
                &&& !final(self).has(n as int, OS_TASK_STATUS_READY)
                &&& final(self).tcb(n as int).startTime == curr_time
                &&& !final(self).has(old(self).g_losTask.runTask as int, OS_TASK_STATUS_RUNNING)
            }),
            !r.0 ==> final(self).g_losTask.newTask == old(self).g_losTask.newTask || final(self).g_losTask.newTask
                == Some(old(self).g_losTask.runTask),
            final(self).tcb(old(self).g_losTask.runTask as int).timeSlice == old(self).requeue_slice(curr_time),
            r.0 ==> final(self).status(old(self).g_losTask.runTask as int) == old(self).requeue_status()
                & !OS_TASK_STATUS_RUNNING,

            final(self).sched_hooks@ == if r.0 {
                old(self).requeue_hooks().push(SchedHook::TaskSwitchedIn)
            } else {
                old(self).requeue_hooks()
            },
            exists|mid: LosKernel| {
                &&& #[trigger] old(self).requeue_queues(mid, curr_time)
                &&& mid.g_idleTaskID == old(self).g_idleTaskID
                &&& mid.g_taskMaxNum == old(self).g_taskMaxNum
                &&& mid.same_tasks_except(*old(self), old(self).g_losTask.runTask as int)
                &&& mid.tcb(old(self).g_losTask.runTask as int).priority == old(self).tcb(
                    old(self).g_losTask.runTask as int,
                ).priority
                &&& mid.tcb(old(self).g_losTask.runTask as int).timeSlice == old(self).requeue_slice(curr_time)
                &&& mid.status(old(self).g_losTask.runTask as int) == old(self).requeue_status()
                &&& match mid.OsGetTopTask_spec() {
                    Some(n) => {
                        &&& final(self).g_losTask.newTask == Some(n)
                        &&& r.0 == (n != old(self).g_losTask.runTask)
                        &&& mid.has(n as int, OS_TASK_STATUS_READY) && n != mid.g_idleTaskID
                            ==> mid.queues_after_delete(*final(self), n, mid.tcb(n as int).priority as u32)
                        &&& !(mid.has(n as int, OS_TASK_STATUS_READY) && n != mid.g_idleTaskID)
                            ==> final(self).same_queues(mid)
                        &&& r.1 == final(self).planned_reload(final(self).switch_end_time(n), now)
                        &&& n == old(self).g_losTask.runTask ==> {
                            &&& final(self).status(n as int) == old(self).requeue_status() & !OS_TASK_STATUS_READY
                            &&& !final(self).has(n as int, OS_TASK_STATUS_READY)
                            &&& old(self).has(n as int, OS_TASK_STATUS_RUNNING) ==> final(self).has(
                                n as int,
                                OS_TASK_STATUS_RUNNING,
                            )
                        }
                        &&& final(self).sched_response_time == if old(self).sched_response_id == old(self).tcb(
                            old(self).g_losTask.runTask as int,
                        ).taskID {
                            OS_SCHED_MAX_RESPONSE_TIME
                        } else {
                            old(self).sched_response_time
                        }
                        &&& final(self).sched_response_id == if r.1 is Some {
                            if next_response_plan(*final(self), final(self).switch_end_time(n), now).1 {
                                final(self).tcb(n as int).taskID
                            } else {
                                OS_INVALID
                            }
                        } else {
                            old(self).sched_response_id
                        }
                    },
                    None => final(self).g_losTask.newTask == old(self).g_losTask.newTask && !r.0
                        && final(self).same_queues(mid) && r.1 is None,
                }
            },
            old(self).has(old(self).g_losTask.runTask as int, 0x00A0u16) ==> {
                let run = old(self).g_losTask.runTask as int;
                &&& final(self).tcb(run).sortList.responseTime == curr_time.wrapping_add(
                    crate::sortlink::sys_tick_to_cycle_spec(old(self).tcb(run).waitTimes, old(self).tick.g_sysClock),
                )
                &&& final(self).sort_links.g_taskSortLink@ == old(self).sort_links.g_taskSortLink@.insert(
                    crate::sortlink::sort_link_insert_pos(
                        old(self).sort_links.g_taskSortLink@,
                        final(self).tcb(run).sortList.responseTime,
                    ),
                    final(self).tcb(run).sortList,
                )
            },
            final(self).same_config(*old(self)),
    {
        let run = self.g_losTask.runTask;
        self.os_sched_requeue_run_task(curr_time);
        let ghost mid = *self;
        let new_task = match self.OsGetTopTask() {
            None => {
                proof {
                    assert(old(self).requeue_queues(mid, curr_time));
                }
                return (false, None);
            },
            Some(n) => n,
        };
        let is_task_switch = self.os_sched_mark_new_task(new_task);
        let ghost marked = *self;
        proof {
            lemma_ready_keeps_running(old(self).status(run as int));
        }
        let idle = self.g_idleTaskID;
        let precision = self.tick_response_precision;
        let end_time = if self.g_taskCBArray[new_task as usize].taskID != idle {
            let ts = self.g_taskCBArray[new_task as usize].timeSlice;
            let ts_u64 = if ts < 0 {
                0u64
            } else {
                ts as u64
            };
            self.g_taskCBArray[new_task as usize].startTime.saturating_add(ts_u64)
        } else {
            OS_SCHED_MAX_RESPONSE_TIME.saturating_sub(precision as u64)
        };
        if self.sched_response_id == self.g_taskCBArray[run as usize].taskID {
            self.sched_response_time = OS_SCHED_MAX_RESPONSE_TIME;
        }
        let new_id = self.g_taskCBArray[new_task as usize].taskID;
        let reload = self.os_sched_set_next_expire_time(new_id, end_time, now);
        proof {
            assert(self.g_taskCBArray@ == marked.g_taskCBArray@);
            assert(old(self).requeue_queues(mid, curr_time));
        }
        (is_task_switch, reload)
    }
}

impl LosKernel {
    /// The scheduler's part of the tick interrupt (`LOS_SchedTickHandler`).
    /// Cycle counts are read four times in the handler: at its start
    /// (`tick_start_time`), by the timer list scan (`scan_time`), to restart
    /// the running task (`restart_time`) and to reprogram the response
    /// (`expire_time`).  When the programmed response was not a time slice
    /// end, the software timer scan is to be called and the due tasks are
    /// woken; the running task is charged its slice and restarted; the
    /// response is cleared; then a task switch is asked for when allowed,
    /// else the next response is decided.  Nothing happens before the
    /// scheduler runs.
    #[verifier::rlimit(40)]
    #[verifier::spinoff_prover]
    pub fn LOS_SchedTickHandler(
        &mut self,
        tick_start_time: u64,
        scan_time: u64,
        restart_time: u64,
        expire_time: u64,
        int_active: bool,
    ) -> (r: SchedAction)
        requires
            old(self).wf(),
        ensures
            final(self).wf(),
            !old(self).g_taskScheduled ==> *final(self) == *old(self) && r.reload is None && !r.schedule
                && r.swtmr_scan is None,
            old(self).g_taskScheduled ==> {
                &&& r.swtmr_scan == (if old(self).sched_response_id == OS_INVALID {
                    old(self).swtmr_scan
                } else {
                    None
                })
                &&& r.schedule == (old(self).g_losTaskLock == 0 && !int_active)
                &&& r.schedule ==> r.reload is None && final(self).sched_response_time == OS_SCHED_MAX_RESPONSE_TIME
                &&& final(self).tcb(old(self).g_losTask.runTask as int).startTime == restart_time
                &&& old(self).sched_response_id == OS_INVALID && old(self).task_sort_link_ready ==> exists|k: int|
                    #[trigger] due_prefix_removed(
                    old(self).sort_links.g_taskSortLink@,
                    final(self).sort_links.g_taskSortLink@,
                    k,
                    scan_time,
                )
                &&& old(self).sched_response_id != OS_INVALID ==> final(self).sort_links.g_taskSortLink@ == old(
                    self,
                ).sort_links.g_taskSortLink@
                &&& exists|mid: LosKernel| #[trigger] tick_scan_state(*old(self), mid, scan_time) && tick_after_scan(
                    mid,
                    *final(self),
                    old(self).g_losTask.runTask as int,
                    tick_start_time,
                    restart_time,
                )
                &&& !r.schedule ==> r.reload == (if old(self).tick_int_lock == 0 {
                    final(self).update_expire_reload(expire_time)
                } else {
                    None
                })
            },
            final(self).same_task_globals(*old(self)),
            final(self).same_config(*old(self)),
    {
        if !self.g_taskScheduled {
            return SchedAction { reload: None, schedule: false, swtmr_scan: None };
        }
        let mut swtmr = None;
        let ghost mut mid = *self;
        if self.sched_response_id == OS_INVALID {
            let lock = self.tick_int_lock;
            self.tick_int_lock = lock.wrapping_add(1);
            swtmr = self.swtmr_scan;
            let ghost locked = *self;
            let _ = self.os_sched_scan_timer_list(scan_time);
            proof {
                if old(self).task_sort_link_ready {
                    mid = *self;
                    let os = old(self).sort_links.g_taskSortLink@;
                    assert(locked.g_taskCBArray@ == old(self).g_taskCBArray@);
                    let k = choose|k: int| {
                        &&& #[trigger] due_prefix_removed(
                            locked.sort_links.g_taskSortLink@,
                            mid.sort_links.g_taskSortLink@,
                            k,
                            scan_time,
                        )
                        &&& forall|t: int| 0 <= t < locked.g_taskCBArray@.len() ==> #[trigger] scan_task_after(
                            locked,
                            mid,
                            locked.sort_links.g_taskSortLink@,
                            k,
                            t,
                        )
                    };
                    assert forall|t: int| 0 <= t < old(self).g_taskCBArray@.len() implies #[trigger] scan_task_after(
                        *old(self),
                        mid,
                        os,
                        k,
                        t,
                    ) by {
                        assert(scan_task_after(locked, mid, os, k, t));
                    }
                    assert(due_prefix_removed(os, mid.sort_links.g_taskSortLink@, k, scan_time));
                } else {
                    assert(self.g_taskCBArray@ == old(self).g_taskCBArray@);
                }
            }
            let lock2 = self.tick_int_lock;
            self.tick_int_lock = lock2.wrapping_sub(1);
            proof {
                let l = lock;
                assert(l.wrapping_add(1).wrapping_sub(1) == l);
            }
        }
        let run = self.g_losTask.runTask;
        proof {
            assert(tick_scan_state(*old(self), mid, scan_time));
            assert(self.g_taskCBArray@ == mid.g_taskCBArray@);
            assert(self.same_queues(mid));
            assert(self.same_aux_lists(mid));
            assert(self.tcb(run as int) == mid.tcb(run as int));
        }
        self.os_time_slice_update(run, tick_start_time);
        self.g_taskCBArray[run as usize].startTime = restart_time;
        self.sched_response_time = OS_SCHED_MAX_RESPONSE_TIME;
        proof {
            assert(tick_after_scan(mid, *self, run as int, tick_start_time, restart_time));
        }
        if self.los_check_schedule(int_active) {
            SchedAction { reload: None, schedule: true, swtmr_scan: swtmr }
        } else {
            let reload = self.OsSchedUpdateExpireTime(expire_time);
            SchedAction { reload, schedule: false, swtmr_scan: swtmr }
        }
    }

    /// The software timer scan the tick handler calls first, if any: the
    /// registered one, when the scheduler runs and the programmed response
    /// was not a time slice end.
    pub fn tick_swtmr_scan_due(&self) -> (r: Option<u32>)
        ensures
            r == (if self.g_taskScheduled && self.sched_response_id == OS_INVALID {
                self.swtmr_scan
            } else {
                None
            }),
    {
        if self.g_taskScheduled && self.sched_response_id == OS_INVALID {
            self.swtmr_scan
        } else {
            None
        }
    }

    /// Hands the scheduler trace hooks called since the last time to the
    /// caller, who runs them in order.
    pub fn take_sched_hooks(&mut self) -> (r: Vec<SchedHook>)
        ensures
            r@ == old(self).sched_hooks@,
            final(self).sched_hooks@ == Seq::<SchedHook>::empty(),
            *final(self) == (LosKernel { sched_hooks: final(self).sched_hooks, ..*old(self) }),
    {
        let mut hooks: Vec<SchedHook> = Vec::new();
        std::mem::swap(&mut hooks, &mut self.sched_hooks);
        hooks
    }

    /// Completes a task switch as the context switch does: the new task
    /// becomes the running task.
    pub fn os_task_switch_done(&mut self)
        requires
            old(self).wf(),
        ensures
            final(self).wf(),
            final(self).g_losTask.runTask == (match old(self).g_losTask.newTask {
                Some(n) => n,
                None => old(self).g_losTask.runTask,
            }),
            final(self).g_losTask.newTask == old(self).g_losTask.newTask,
            *final(self) == (LosKernel { g_losTask: final(self).g_losTask, ..*old(self) }),
    {
        if let Some(n) = self.g_losTask.newTask {
            self.g_losTask.runTask = n;
        }
    }
}

impl LosKernel {
    /// The tick interrupt (`OsTickHandler`): the cycle base moves on by the
    /// timer period `period` unless a cycle read already did, then the
    /// scheduler's tick work runs (see `LOS_SchedTickHandler`).
    pub fn OsTickHandler(
        &mut self,
        period: u32,
        tick_start_time: u64,
        scan_time: u64,
        restart_time: u64,
        expire_time: u64,
        int_active: bool,
    ) -> (r: SchedAction)
        requires
            old(self).wf(),
        ensures
            final(self).wf(),
            final(self).tick.tick_timer_base == if old(self).tick.tick_timer_base_update {
                old(self).tick.tick_timer_base
            } else {
                old(self).tick.tick_timer_base.wrapping_add(period as u64)
            },
            !final(self).tick.tick_timer_base_update,
            old(self).g_taskScheduled ==> r.schedule == (old(self).g_losTaskLock == 0 && !int_active),
            !old(self).g_taskScheduled ==> !r.schedule && r.reload is None,
            old(self).g_taskScheduled ==> {
                &&& r.swtmr_scan == (if old(self).sched_response_id == OS_INVALID {
                    old(self).swtmr_scan
                } else {
                    None
                })
                &&& final(self).tcb(old(self).g_losTask.runTask as int).startTime == restart_time
                &&& exists|mid: LosKernel| #[trigger] tick_scan_state(*old(self), mid, scan_time) && tick_after_scan(
                    mid,
                    *final(self),
                    old(self).g_losTask.runTask as int,
                    tick_start_time,
                    restart_time,
                )
                &&& !r.schedule ==> r.reload == (if old(self).tick_int_lock == 0 {
                    final(self).update_expire_reload(expire_time)
                } else {
                    None
                })
            },
            final(self).same_task_globals(*old(self)),
    {
        let ghost before = *self;
        self.tick.os_update_sys_time_base(period);
        let ghost based = *self;
        proof {
            assert(based.g_taskCBArray@ == before.g_taskCBArray@);
        }
        let r = self.LOS_SchedTickHandler(tick_start_time, scan_time, restart_time, expire_time, int_active);
        proof {
            if before.g_taskScheduled {
                let run = before.g_losTask.runTask as int;
                let mid = choose|mid: LosKernel| #[trigger] tick_scan_state(based, mid, scan_time) && tick_after_scan(
                    mid,
                    *self,
                    run,
                    tick_start_time,
                    restart_time,
                );
                let os = before.sort_links.g_taskSortLink@;
                if before.sched_response_id == OS_INVALID && before.task_sort_link_ready {
                    let k = choose|k: int| {
                        &&& #[trigger] due_prefix_removed(os, mid.sort_links.g_taskSortLink@, k, scan_time)
                        &&& forall|t: int| 0 <= t < based.g_taskCBArray@.len() ==> #[trigger] scan_task_after(
                            based,
                            mid,
                            os,
                            k,
                            t,
                        )
                    };
                    assert forall|t: int| 0 <= t < before.g_taskCBArray@.len() implies #[trigger] scan_task_after(
                        before,
                        mid,
                        os,
                        k,
                        t,
                    ) by {
                        assert(scan_task_after(based, mid, os, k, t));
                    }
                }
                assert(tick_scan_state(before, mid, scan_time));
            }
        }
        r
    }

    /// Adjusts the system clock (`LOS_SysTickClockFreqAdjust`).  With no
    /// adjusting hook it fails with `LOS_ERRNO_SYS_HOOK_IS_NULL`.  Otherwise
    /// the cycle count is read (timer count `time`, period `period`) and the
    /// hook's new frequency `freq` is taken: zero or the current clock fail
    /// with `LOS_ERRNO_SYS_CLOCK_INVALID`; any other has the tick timer
    /// reloaded with its longest period first, converts the cycle base, the
    /// last cycle count and the start time to it, sets the clock and the
    /// cycles per tick, and moves the scheduler to it (the second reload
    /// period, decided at cycle count `now`).
    pub fn LOS_SysTickClockFreqAdjust(
        &mut self,
        handler_present: bool,
        time: u64,
        period: u32,
        freq: u32,
        now: u64,
    ) -> (r: FreqAdjustReply)
        requires
            old(self).wf(),
            handler_present ==> old(self).tick.cycle_ok(time, period),
            handler_present && freq != 0 && freq != old(self).tick.g_sysClock ==> {
                &&& tick_convert_ok(old(self).tick.cycle_value(time, period), old(self).tick.g_sysClock, freq)
                &&& tick_convert_ok(old(self).tick.tick_timer_start_time, old(self).tick.g_sysClock, freq)
            },
        ensures
            final(self).wf(),
            !handler_present ==> r == (FreqAdjustReply { ret: LOS_ERRNO_SYS_HOOK_IS_NULL, first_reload: None, reload: None })
                && *final(self) == *old(self),
            handler_present && (freq == 0 || freq == old(self).tick.g_sysClock) ==> r == (FreqAdjustReply {
                ret: LOS_ERRNO_SYS_CLOCK_INVALID,
                first_reload: None,
                reload: None,
            }) && final(self).tick.g_sysClock == old(self).tick.g_sysClock && final(self).tick.g_cyclesPerTick == old(
                self,
            ).tick.g_cyclesPerTick && final(self).tick.sys_tick_timer.freq == old(self).tick.sys_tick_timer.freq,
            handler_present && freq != 0 && freq != old(self).tick.g_sysClock ==> {
                &&& r.ret == LOS_OK
                &&& r.first_reload == Some(crate::tick::LOSCFG_BASE_CORE_TICK_RESPONSE_MAX)
                &&& r.reload == (if old(self).g_taskScheduled && old(self).tick_int_lock == 0 {
                    final(self).update_expire_reload(now)
                } else {
                    None
                })
                &&& final(self).tick.g_sysClock == freq
                &&& final(self).tick.sys_tick_timer.freq == freq
                &&& final(self).tick.g_cyclesPerTick == freq / LOSCFG_BASE_CORE_TICK_PER_SECOND
                &&& final(self).tick.tick_timer_base == tick_convert_spec(
                    old(self).tick.cycle_value(time, period),
                    old(self).tick.g_sysClock,
                    freq,
                )
                &&& final(self).tick.old_tick_timer_base == final(self).tick.tick_timer_base
                &&& final(self).tick.tick_timer_start_time == tick_convert_spec(
                    old(self).tick.tick_timer_start_time,
                    old(self).tick.g_sysClock,
                    freq,
                )
                &&& final(self).sched_time_slice == (freq * LOSCFG_BASE_CORE_TIMESLICE_TIMEOUT / 1_000_000) as i32
                &&& forall|i: int| 0 <= i < old(self).g_taskMaxNum ==> #[trigger] final(self).tcb(i) == converted_task(
                    old(self).tcb(i),
                    old(self).tick.g_sysClock,
                    freq,
                )
                &&& final(self).sort_links.g_taskSortLink@.len() == old(self).sort_links.g_taskSortLink@.len()
                &&& forall|i: int| 0 <= i < old(self).sort_links.g_taskSortLink@.len()
                    ==> #[trigger] final(self).sort_links.g_taskSortLink@[i] == crate::sortlink::converted_node(
                    old(self).sort_links.g_taskSortLink@[i],
                    old(self).tick.g_sysClock,
                    freq,
                )
                &&& final(self).sort_links.g_swtmrSortLink@.len() == old(self).sort_links.g_swtmrSortLink@.len()
                &&& forall|i: int| 0 <= i < old(self).sort_links.g_swtmrSortLink@.len()
                    ==> #[trigger] final(self).sort_links.g_swtmrSortLink@[i] == crate::sortlink::converted_node(
                    old(self).sort_links.g_swtmrSortLink@[i],
                    old(self).tick.g_sysClock,
                    freq,
                )
            },
            final(self).same_task_globals(*old(self)),
    {
        let old_freq = self.tick.g_sysClock;
        if !handler_present {
            return FreqAdjustReply { ret: LOS_ERRNO_SYS_HOOK_IS_NULL, first_reload: None, reload: None };
        }
        let curr_time_cycle = self.tick.LOS_SysCycleGet(time, period);
        if freq == 0 || freq == self.tick.g_sysClock {
            return FreqAdjustReply { ret: LOS_ERRNO_SYS_CLOCK_INVALID, first_reload: None, reload: None };
        }
        let base = crate::tick::os_time_convert_freq(curr_time_cycle, old_freq, freq);
        self.tick.tick_timer_base = base;
        let old_base = self.tick.old_tick_timer_base;
        self.tick.old_tick_timer_base = crate::tick::os_time_convert_freq(old_base, old_freq, freq);
        let start = self.tick.tick_timer_start_time;
        self.tick.tick_timer_start_time = crate::tick::os_time_convert_freq(start, old_freq, freq);
        self.tick.sys_tick_timer.freq = freq;
        self.tick.g_sysClock = freq;
        self.tick.g_cyclesPerTick = freq / LOSCFG_BASE_CORE_TICK_PER_SECOND;
        let reload = self.OsSchedTimeConvertFreq(old_freq, now);
        FreqAdjustReply { ret: LOS_OK, first_reload: Some(crate::tick::LOSCFG_BASE_CORE_TICK_RESPONSE_MAX), reload }
    }
}


/// The bitmap bit of priority `p` has exactly `p` leading zeros: counting
/// the leading zeros of a queue bitmap names the priority whose bit is
/// highest.
pub proof fn lemma_priority_bit_clz(p: u32)
    requires
        p < 32,
    ensures
        u32_leading_zeros(prio_bit(p as int)) == p,
{
    let b = prio_bit(p as int);
    let lz = u32_leading_zeros(b);
    assert(
        (p < 32 ==> (0x8000_0000u32 >> p) != 0)
        && (p < 32 && lz < 32 && (0x8000_0000u32 >> p) & (0x8000_0000u32 >> lz) != 0 ==> lz == p)
    ) by (bit_vector);
    lemma_clz_first_set(b);
}

/// A task that is not on a ready queue, linked into it and taken off again,
/// leaves the ready queues and their bitmap as they were.
pub proof fn lemma_enqueue_dequeue_roundtrip(
    a: LosKernel,
    b: LosKernel,
    c: LosKernel,
    tid: u32,
    prio: u32,
    head: bool,
)
    requires
        a.wf(),
        a.queues_after_enqueue(b, tid, prio, head),
        b.queues_after_delete(c, tid, prio),
        !a.queue((prio % 32) as int).contains(tid),
    ensures
        c.same_queues(a),
{
    let q = (prio % 32) as int;
    let s = a.queue(q);
    let t = b.queue(q);
    if head {
        assert(t == seq![tid] + s);
        t.index_of_first_ensures(tid);
        assert(t[0] == tid);
        assert(t.remove_value(tid) =~= s);
    } else {
        assert(t == s.push(tid));
        t.index_of_first_ensures(tid);
        assert(t[s.len() as int] == tid);
        assert forall|j: int| 0 <= j < s.len() implies t[j] != tid by {
            assert(t[j] == s[j]);
        }
        assert(t.remove_value(tid) =~= s);
    }
    assert(c.queue(q) == s);
    let bm = a.queue_bitmap;
    let qu = q as u32;
    assert(bit_set(bm, q) <==> s.len() > 0);
    assert(
        (qu < 32 && bm & (0x8000_0000u32 >> qu) == 0 ==> (bm | (0x8000_0000u32 >> qu)) & !(0x8000_0000u32 >> qu) == bm)
        && (qu < 32 && bm & (0x8000_0000u32 >> qu) != 0 ==> bm | (0x8000_0000u32 >> qu) == bm)
    ) by (bit_vector);
    assert(c.queue_bitmap == bm);
}

/// Suspending a ready task that is neither delayed nor pending and then
/// resuming it leaves its status as it was.
pub proof fn lemma_suspend_resume_status(s: u16)
    requires
        s & OS_TASK_STATUS_READY != 0,
        s & 0x00AAu16 == 0,
    ensures
        ((s & !OS_TASK_STATUS_READY) | OS_TASK_STATUS_SUSPEND) & 0x0028u16 == 0,
        ready_status(((s & !OS_TASK_STATUS_READY) | OS_TASK_STATUS_SUSPEND) & !OS_TASK_STATUS_SUSPEND) == s,
{
    assert(
        (s & 4u16 != 0 && s & 0xAAu16 == 0 ==> ((s & !4u16) | 2u16) & 0x28u16 == 0)
        && (s & 4u16 != 0 && s & 0xAAu16 == 0 ==> ((((s & !4u16) | 2u16) & !2u16) & !0xAAu16) | 4u16 == s)
    ) by (bit_vector);
}


/// A bitmap with the bit of some priority set is not zero.
proof fn lemma_bit_set_nonzero(bm: u32, p: int)
    requires
        0 <= p < 32,
        bit_set(bm, p),
    ensures
        bm != 0,
{
    let pu = p as u32;
    assert(pu < 32 && bm & (0x8000_0000u32 >> pu) != 0 ==> bm != 0) by (bit_vector);
}

/// Whether every task on a ready queue is on the queue of its own priority.
pub open spec fn queues_match_priorities(k: LosKernel) -> bool {
    forall|p: int, j: int| 0 <= p < 32 && 0 <= j < k.queue(p).len() ==> (#[trigger] k.tcb(
        k.queue(p)[j] as int,
    )).priority % 32 == p
}

/// When every ready task sits on the queue of its priority, the task
/// `OsGetTopTask` picks from the ready queues has a priority at least as
/// high (a number at most as large, modulo the queue count) as every ready
/// task's.
pub proof fn lemma_top_task_has_highest_priority(k: LosKernel, p: int, j: int)
    requires
        k.wf(),
        queues_match_priorities(k),
        0 <= p < 32,
        0 <= j < k.queue(p).len(),
    ensures
        k.OsGetTopTask_spec() matches Some(n) && k.tcb(n as int).priority % 32 <= k.tcb(
            k.queue(p)[j] as int,
        ).priority % 32,
{
    assert(bit_set(k.queue_bitmap, p));
    lemma_bit_set_nonzero(k.queue_bitmap, p);
    lemma_clz_first_set(k.queue_bitmap);
    let top = top_priority(k.queue_bitmap);
    assert(k.queue(top).len() > 0);
    assert(top <= p) by {
        if p < top {
            assert(!bit_set(k.queue_bitmap, p));
        }
    }
    assert(k.tcb(k.queue(top)[0] as int).priority % 32 == top);
}


/// Once a task of priority `prio` is made ready, the queue the next task is
/// taken from is of that priority or a higher one: a lower-priority queue
/// never runs ahead of a ready task.
pub proof fn lemma_enqueue_bounds_top_queue(a: LosKernel, b: LosKernel, tid: u32, prio: u32, head: bool)
    requires
        a.wf(),
        b.wf(),
        a.queues_after_enqueue(b, tid, prio, head),
    ensures
        b.queue_bitmap != 0,
        top_priority(b.queue_bitmap) <= prio % 32,
        b.queue(top_priority(b.queue_bitmap)).len() > 0,
{
    let q = (prio % 32) as int;
    lemma_bit_or(a.queue_bitmap, q);
    assert(bit_set(b.queue_bitmap, q));
    let bm = b.queue_bitmap;
    lemma_bit_set_nonzero(bm, q);
    lemma_clz_first_set(bm);
    if top_priority(bm) > q {
        assert(!bit_set(bm, q));
    }
}

/// Equal priorities take turns.  When the running task `run`, which is not
/// the idle task and not on a ready queue, has used up its slice and is
/// requeued (it is neither blocked, delayed nor timed-pending), it joins the
/// tail of the ready queue of its priority; if another task heads that
/// queue and no higher-priority queue holds a task, that head is the task
/// chosen next, and once it is taken off the queue `run` is last in it,
/// behind the tasks that were waiting.
pub proof fn lemma_round_robin(old: LosKernel, mid: LosKernel, curr_time: u64)
    requires
        old.wf(),
        mid.wf(),
        old.requeue_queues(mid, curr_time),
        old.requeue_makes_ready(),
        old.g_losTask.runTask != old.g_idleTaskID,
        old.charged_slice(curr_time) <= old.sched_time_slice_min,
        old.queue(((old.tcb(old.g_losTask.runTask as int).priority as u32) % 32) as int).len() > 0,
        !old.queue(((old.tcb(old.g_losTask.runTask as int).priority as u32) % 32) as int).contains(
            old.g_losTask.runTask,
        ),
        forall|p: int|
            0 <= p < ((old.tcb(old.g_losTask.runTask as int).priority as u32) % 32) as int
                ==> #[trigger] old.queue(p).len() == 0,
    ensures
        ({
            let run = old.g_losTask.runTask;
            let q = ((old.tcb(run as int).priority as u32) % 32) as int;
            let head = old.queue(q)[0];
            &&& mid.OsGetTopTask_spec() == Some(head)
            &&& head != run
            &&& mid.queue(q) == old.queue(q).push(run)
            &&& mid.queue(q).remove_value(head) == old.queue(q).subrange(1, old.queue(q).len() as int).push(run)
        }),
{
    let run = old.g_losTask.runTask;
    let q = ((old.tcb(run as int).priority as u32) % 32) as int;
    let head = old.queue(q)[0];
    assert(mid.queue(q) == old.queue(q).push(run));
    assert(mid.queue(q).len() > 0);
    assert(bit_set(mid.queue_bitmap, q));
    lemma_bit_set_nonzero(mid.queue_bitmap, q);
    lemma_clz_first_set(mid.queue_bitmap);
    let top = top_priority(mid.queue_bitmap);
    assert(top == q) by {
        if top < q {
            assert(mid.queue(top) == old.queue(top));
            assert(mid.queue(top).len() == 0);
        }
        if top > q {
            assert(!bit_set(mid.queue_bitmap, q));
        }
    }
    assert(mid.queue(q)[0] == head);
    assert(head != run) by {
        assert(old.queue(q).contains(head));
    }
    crate::list::lemma_remove_first(mid.queue(q));
    assert(mid.queue(q).subrange(1, mid.queue(q).len() as int) =~= old.queue(q).subrange(
        1,
        old.queue(q).len() as int,
    ).push(run));
}

/// Unlinking a task from a list that is not a ready queue, with the bitmap
/// kept, keeps the ready queues.
proof fn lemma_unlink_keeps_queues(a: LosKernel, b: LosKernel, r: ListRef)
    requires
        a.lists_same_except(b, r),
        !(r is PriQueue),
        b.queue_bitmap == a.queue_bitmap,
    ensures
        b.same_queues(a),
{
    assert forall|p: int| 0 <= p < 32 implies #[trigger] b.queue(p) == a.queue(p) by {
        if a.valid_ref(ListRef::PriQueue(p as u32)) {
            assert(b.list_view(ListRef::PriQueue(p as u32)) == a.list_view(ListRef::PriQueue(p as u32)));
        }
    }
}

/// Facts about the status words of woken, resumed and requeued tasks.
proof fn lemma_status_flag_facts(s: u16)
    by (bit_vector)
    ensures
        s & 0x0028u16 != 0 ==> timeout_status(s) & OS_TASK_STATUS_SUSPEND == s & OS_TASK_STATUS_SUSPEND,
        s & 0x0028u16 != 0 && s & OS_TASK_STATUS_SUSPEND != 0 ==> timeout_status(s) & OS_TASK_STATUS_READY == s
            & OS_TASK_STATUS_READY,
        s & 0x0028u16 != 0 && s & OS_TASK_STATUS_SUSPEND == 0 ==> timeout_status(s) & OS_TASK_STATUS_READY != 0,
        wake_status(s) & OS_TASK_STATUS_SUSPEND == s & OS_TASK_STATUS_SUSPEND,
        s & OS_TASK_STATUS_SUSPEND != 0 ==> wake_status(s) & OS_TASK_STATUS_READY == s & OS_TASK_STATUS_READY,
        s & OS_TASK_STATUS_SUSPEND != 0 ==> wake_status(s) & OS_TASK_STATUS_PEND == 0,
        (s & !OS_TASK_STATUS_SUSPEND) & OS_TASK_STATUS_PEND == s & OS_TASK_STATUS_PEND,
        ((s & !OS_TASK_FLAG_FREEZE) & !OS_TASK_STATUS_SUSPEND) & OS_TASK_STATUS_PEND == s & OS_TASK_STATUS_PEND,
        s & OS_TASK_STATUS_PEND != 0 ==> s & 0x0028u16 != 0,
        s & OS_TASK_STATUS_PEND != 0 ==> s & OS_TASK_BLOCKED_STATUS != 0,
        s & OS_TASK_BLOCKED_STATUS == 0 ==> s & OS_TASK_STATUS_PEND == 0 && s & OS_TASK_STATUS_SUSPEND == 0 && s
            & OS_TASK_STATUS_EXIT == 0 && s & OS_TASK_STATUS_UNUSED == 0,
{
}

/// A task whose delay or timed pend runs out keeps its suspension: a
/// suspended task is not made ready (its ready flag stays as it was), and a
/// task that is not suspended is made ready.
pub proof fn lemma_timeout_keeps_suspension(s: u16)
    requires
        s & 0x0028u16 != 0,
    ensures
        timeout_status(s) & OS_TASK_STATUS_SUSPEND == s & OS_TASK_STATUS_SUSPEND,
        s & OS_TASK_STATUS_SUSPEND != 0 ==> timeout_status(s) & OS_TASK_STATUS_READY == s & OS_TASK_STATUS_READY,
        s & OS_TASK_STATUS_SUSPEND == 0 ==> timeout_status(s) & OS_TASK_STATUS_READY != 0,
{
    lemma_status_flag_facts(s);
}

/// Waking a pending task keeps its suspension: a suspended task is not made
/// ready and its pend flag is cleared.
pub proof fn lemma_wake_keeps_suspension(s: u16)
    ensures
        wake_status(s) & OS_TASK_STATUS_SUSPEND == s & OS_TASK_STATUS_SUSPEND,
        s & OS_TASK_STATUS_SUSPEND != 0 ==> wake_status(s) & OS_TASK_STATUS_READY == s & OS_TASK_STATUS_READY
            && wake_status(s) & OS_TASK_STATUS_PEND == 0,
{
    lemma_status_flag_facts(s);
}

/// Resuming a task keeps it pending: unless a frozen delay is over, the
/// resumed status has the pend flag exactly when the task had it, and a
/// pending task is then still delayed or pending, so it is not made ready.
pub proof fn lemma_resume_keeps_pend(k: LosKernel, tid: u32, curr_time: u64)
    requires
        !k.has(tid as int, OS_TASK_FLAG_FREEZE) || k.tcb(tid as int).sortList.responseTime > curr_time,
    ensures
        k.resume_base_status(tid, curr_time) & OS_TASK_STATUS_PEND == k.status(tid as int) & OS_TASK_STATUS_PEND,
        k.has(tid as int, OS_TASK_STATUS_PEND) ==> k.resume_base_status(tid, curr_time) & 0x0028u16 != 0,
{
    lemma_status_flag_facts(k.status(tid as int));
    lemma_status_flag_facts(k.resume_base_status(tid, curr_time));
}

/// The next tick response is never later than the first delayed task's
/// expiry, nor the first timer's: the response decided for a slice ending
/// at `end` is at most the next expiry of each sort link, and a reload it
/// asks for makes the timer fire by then (or after the tick precision).
pub proof fn lemma_next_response_not_after_sort_links(k: LosKernel, end: u64, curr: u64)
    ensures
        next_response_plan(k, end, curr).0 <= crate::sortlink::next_expire_spec(
            k.sort_links.g_taskSortLink@,
            curr,
            k.tick_response_precision,
        ),
        next_response_plan(k, end, curr).0 <= crate::sortlink::next_expire_spec(
            k.sort_links.g_swtmrSortLink@,
            curr,
            k.tick_response_precision,
        ),
        k.planned_reload(end, curr) matches Some(p) ==> curr + p <= crate::sortlink::next_expire_spec(
            k.sort_links.g_taskSortLink@,
            curr,
            k.tick_response_precision,
        ) || curr + p <= curr + k.tick_response_precision,
{
}

/// The task switch never requeues a blocked running task: requeuing makes
/// the running task ready only when it is neither pending, suspended,
/// exited nor unused; a pending running task keeps its status and the ready
/// queues stay as they are.
pub proof fn lemma_blocked_run_task_not_requeued(k: LosKernel, m: LosKernel, curr_time: u64)
    ensures
        k.requeue_makes_ready() ==> {
            let s = k.status(k.g_losTask.runTask as int);
            &&& s & OS_TASK_STATUS_PEND == 0
            &&& s & OS_TASK_STATUS_SUSPEND == 0
            &&& s & OS_TASK_STATUS_EXIT == 0
            &&& s & OS_TASK_STATUS_UNUSED == 0
        },
        k.has(k.g_losTask.runTask as int, OS_TASK_STATUS_PEND) ==> {
            &&& !k.requeue_makes_ready()
            &&& k.requeue_status() == k.status(k.g_losTask.runTask as int)
            &&& k.requeue_queues(m, curr_time) ==> m.same_queues(k)
        },
{
    lemma_status_flag_facts(k.status(k.g_losTask.runTask as int));
}

} // verus!
