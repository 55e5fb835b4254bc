use lib::defs::{
    LOS_OK, LOS_NOK, OS_NULL_INT, OS_TASK_STATUS_UNUSED, OS_TASK_STATUS_SUSPEND, OS_TASK_STATUS_READY,
    OS_TASK_STATUS_RUNNING, OS_TASK_STATUS_DELAY, OS_TASK_STATUS_EXIT, OS_TASK_STATUS_PEND,
    OS_TASK_FLAG_JOINABLE, OS_TASK_FLAG_STACK_FREE, OS_INVALID,
};
use lib::list::LOS_DL_LIST;
use lib::sched::{clz, priority_bit, priority_idx, LosKernel, SchedHook};
use lib::defs::OS_TASK_FLAG_FREEZE;
use lib::task::{
    memcpy_s, memset_s, strncpy_s, OsConvertTskStatus, OsTaskInit, OsTaskInitParamCheck, os_task_stack_alloc_size,
    TSK_INIT_PARAM_S, LOS_ERRNO_TSK_ALREADY_EXIT, LOS_ERRNO_TSK_ALREADY_SUSPENDED, LOS_ERRNO_TSK_DELAY_IN_INT,
    LOS_ERRNO_TSK_DELAY_IN_LOCK, LOS_ERRNO_TSK_ENTRY_NULL, LOS_ERRNO_TSK_ID_INVALID, LOS_ERRNO_TSK_NAME_EMPTY,
    LOS_ERRNO_TSK_NOT_ALLOW_IN_INT, LOS_ERRNO_TSK_NOT_CREATED, LOS_ERRNO_TSK_NOT_JOIN_SELF,
    LOS_ERRNO_TSK_NOT_SUSPENDED, LOS_ERRNO_TSK_NO_MEMORY, LOS_ERRNO_TSK_OPERATE_IDLE, LOS_ERRNO_TSK_PRIOR_ERROR,
    LOS_ERRNO_TSK_SCHED_LOCKED, LOS_ERRNO_TSK_STKSZ_TOO_LARGE, LOS_ERRNO_TSK_STKSZ_TOO_SMALL,
    LOS_ERRNO_TSK_TCB_UNAVAILABLE, LOS_ERRNO_TSK_NOT_JOIN, LOS_TASK_ATTR_JOINABLE, OS_TASK_MAGIC_WORD,
    OS_TASK_STACK_INIT, TaskCreateReply,
};
use lib::tick::{ArchTickTimer, TickState};
use lib::defs::{OS_TASK_FLAG_SIGNAL, OS_TASK_FLAG_SYSTEM_TASK};
use lib::task::{
    LOS_ERRNO_TSK_OPERATE_SWTMR, LOS_ERRNO_TSK_OPERATE_SYSTEM_TASK, LOS_ERRNO_TSK_PROCESS_SIGNAL,
    LOS_ERRNO_TSK_SUSPEND_LOCKED, LOS_ERRNO_TSK_SUSPEND_SWTMR_NOT_ALLOWED,
};

const IDLE_ENTRY: u32 = 0x4000;

fn stack_of(r: &TaskCreateReply) -> Option<(u32, u32, u32, u32)> {
    r.stack.as_ref().map(|s| (s.top, s.size, s.fill, s.magic))
}

fn timer() -> ArchTickTimer {
    ArchTickTimer {
        freq: 1_000_000,
        irqNum: 15,
        periodMax: 0xFF_FFFF,
        init: Some(1),
        getCycle: Some(2),
        reload: Some(3),
        lock: Some(4),
        unlock: Some(5),
        tickHandler: None,
    }
}

fn kernel() -> LosKernel {
    let mut tick = TickState::new(timer(), 0x100);
    assert_eq!(tick.OsTickTimerInit(Some(timer()), LOS_OK), LOS_OK);
    match OsTaskInit(tick, 4, true) {
        Ok(k) => k,
        Err(e) => panic!("task init failed: {:#x}", e),
    }
}

fn param(prio: u16) -> TSK_INIT_PARAM_S {
    TSK_INIT_PARAM_S {
        pfnTaskEntry: Some(0x1000),
        usTaskPrio: prio,
        uwArg: 7,
        stackAddr: 0,
        uwStackSize: 0,
        pcName: 0x2000,
        uwResved: 0,
    }
}

fn ids(l: &LOS_DL_LIST) -> Vec<u32> {
    let mut v = Vec::new();
    for i in 0..l.len() {
        v.push(l.get(i));
    }
    v
}

fn create(k: &mut LosKernel, prio: u16, stack: u32) -> u32 {
    let mut p = param(prio);
    let r = k.LOS_TaskCreate(&mut p, IDLE_ENTRY, stack);
    assert_eq!(r.ret, LOS_OK);
    r.task_id
}

#[test]
fn clz_and_priority_bits() {
    assert_eq!(clz(0x8000_0000), 0);
    assert_eq!(clz(1), 31);
    assert_eq!(clz(0), 32);
    assert_eq!(priority_idx(37), 5);
    assert_eq!(priority_bit(0), 0x8000_0000);
    assert_eq!(priority_bit(31), 1);
    assert_eq!(clz(priority_bit(12)), 12);
}

#[test]
fn task_init_frees_every_control_block() {
    let k = kernel();
    assert_eq!(k.g_taskMaxNum, 16);
    assert_eq!(ids(&k.g_losFreeTask), (0..16).collect::<Vec<u32>>());
    assert_eq!(k.g_losTask.runTask, 16);
    assert_eq!(k.g_losTask.newTask, None);
    assert_eq!(k.g_idleTaskID, OS_INVALID);
    for i in 0..16usize {
        assert_eq!(k.g_taskCBArray[i].taskStatus, OS_TASK_STATUS_UNUSED);
        assert_eq!(k.g_taskCBArray[i].taskID, i as u32);
    }
    assert_eq!(k.g_taskCBArray[16].taskStatus, OS_TASK_STATUS_UNUSED | OS_TASK_STATUS_RUNNING);
    assert_eq!(k.g_taskCBArray[16].priority, 32);
    assert_eq!(k.queue_bitmap, 0);
    assert!(!k.LOS_TaskIsRunning());
    assert_eq!(k.sched_time_slice, 20_000);
    assert_eq!(k.sched_time_slice_min, 50);
    assert_eq!(k.wait_lists.len(), 4);
}

#[test]
fn task_init_without_memory_fails() {
    let tick = TickState::new(timer(), 0x100);
    match OsTaskInit(tick, 0, false) {
        Ok(_) => panic!("expected an error"),
        Err(e) => assert_eq!(e, 0x0300_0200),
    }
}

#[test]
fn parameter_check_errors() {
    let mut p = param(10);
    p.pcName = 0;
    assert_eq!(OsTaskInitParamCheck(&mut p, IDLE_ENTRY), LOS_ERRNO_TSK_NAME_EMPTY);
    let mut p = param(10);
    p.pfnTaskEntry = None;
    assert_eq!(OsTaskInitParamCheck(&mut p, IDLE_ENTRY), LOS_ERRNO_TSK_ENTRY_NULL);
    let mut p = param(32);
    assert_eq!(OsTaskInitParamCheck(&mut p, IDLE_ENTRY), LOS_ERRNO_TSK_PRIOR_ERROR);
    let mut p = param(31);
    assert_eq!(OsTaskInitParamCheck(&mut p, IDLE_ENTRY), LOS_ERRNO_TSK_PRIOR_ERROR);
    let mut p = param(31);
    p.pfnTaskEntry = Some(IDLE_ENTRY);
    assert_eq!(OsTaskInitParamCheck(&mut p, IDLE_ENTRY), LOS_OK);
    let mut p = param(10);
    p.uwStackSize = 0x2_0000;
    assert_eq!(OsTaskInitParamCheck(&mut p, IDLE_ENTRY), LOS_ERRNO_TSK_STKSZ_TOO_LARGE);
    let mut p = param(10);
    p.uwStackSize = 0x40;
    assert_eq!(OsTaskInitParamCheck(&mut p, IDLE_ENTRY), LOS_ERRNO_TSK_STKSZ_TOO_SMALL);
    let mut p = param(10);
    assert_eq!(OsTaskInitParamCheck(&mut p, IDLE_ENTRY), LOS_OK);
    assert_eq!(p.uwStackSize, 0x400);
}

#[test]
fn stack_alloc_size_is_aligned() {
    let p = param(3);
    assert_eq!(os_task_stack_alloc_size(&p), 0x400);
    let mut p = param(3);
    p.uwStackSize = 0x101;
    assert_eq!(os_task_stack_alloc_size(&p), 0x108);
}

#[test]
fn create_only_leaves_the_task_suspended() {
    let mut k = kernel();
    let mut p = param(10);
    let r = k.LOS_TaskCreateOnly(&mut p, IDLE_ENTRY, 0x8000);
    assert_eq!(r.ret, LOS_OK);
    assert_eq!(r.task_id, 0);
    assert_eq!(stack_of(&r), Some((0x8000, 0x400, OS_TASK_STACK_INIT, OS_TASK_MAGIC_WORD)));
    assert!(!r.schedule);
    let t = &k.g_taskCBArray[0];
    assert_eq!(t.taskStatus, OS_TASK_STATUS_SUSPEND | OS_TASK_FLAG_STACK_FREE);
    assert_eq!(t.priority, 10);
    assert_eq!(t.arg, 7);
    assert_eq!(t.taskName, 0x2000);
    assert_eq!(ids(&k.g_losFreeTask), (1..16).collect::<Vec<u32>>());
    assert_eq!(k.LOS_TaskNameGet(0), 0x2000);
    k.os_task_stack_ready(0, 0x83C0);
    assert_eq!(k.g_taskCBArray[0].stackPointer, 0x83C0);
}

#[test]
fn create_makes_the_task_ready() {
    let mut k = kernel();
    let tid = create(&mut k, 10, 0x8000);
    assert_eq!(k.g_taskCBArray[tid as usize].taskStatus, OS_TASK_STATUS_READY | OS_TASK_FLAG_STACK_FREE);
    assert_eq!(ids(&k.pri_queue_list[10]), vec![tid]);
    assert_eq!(k.queue_bitmap, 0x8000_0000 >> 10);
    assert_eq!(k.LOS_NextTaskIDGet(), tid);
    assert_eq!(k.LOS_NewTaskIDGet(), tid);
}

#[test]
fn the_highest_priority_task_runs_next() {
    let mut k = kernel();
    let a = create(&mut k, 10, 0x8000);
    let b = create(&mut k, 5, 0x9000);
    let c = create(&mut k, 5, 0xA000);
    assert_eq!(k.LOS_NextTaskIDGet(), b);
    assert_eq!(ids(&k.pri_queue_list[5]), vec![b, c]);
    let r = k.LOS_TaskSuspend(b);
    assert_eq!(r.ret, LOS_OK);
    assert_eq!(k.LOS_NextTaskIDGet(), c);
    let r = k.LOS_TaskSuspend(c);
    assert_eq!(r.ret, LOS_OK);
    assert_eq!(k.LOS_NextTaskIDGet(), a);
}

#[test]
fn no_task_to_run_without_idle() {
    let k = kernel();
    assert_eq!(k.LOS_NextTaskIDGet(), LOS_ERRNO_TSK_ID_INVALID);
}

#[test]
fn idle_task_runs_when_nothing_else_is_ready() {
    let mut k = kernel();
    let r = k.OsIdleTaskCreate(IDLE_ENTRY, 0x5000, 0x6000);
    assert_eq!(r.ret, LOS_OK);
    assert_eq!(k.g_idleTaskID, r.task_id);
    assert_eq!(k.LOS_NextTaskIDGet(), r.task_id);
    assert_eq!(k.queue_bitmap, 0);
    assert_eq!(k.g_taskCBArray[r.task_id as usize].priority, 31);
    assert_eq!(stack_of(&r), Some((0x6000, 0x180, OS_TASK_STACK_INIT, OS_TASK_MAGIC_WORD)));
    let hi = create(&mut k, 3, 0x8000);
    assert_eq!(k.LOS_NextTaskIDGet(), hi);
    assert_eq!(k.LOS_TaskSuspend(r.task_id).ret, LOS_ERRNO_TSK_OPERATE_IDLE);
    assert_eq!(k.LOS_TaskDelete(r.task_id).ret, LOS_ERRNO_TSK_OPERATE_IDLE);
}

#[test]
fn creation_errors() {
    let mut k = kernel();
    let mut p = param(10);
    p.pcName = 0;
    assert_eq!(k.LOS_TaskCreate(&mut p, IDLE_ENTRY, 0x8000).ret, LOS_ERRNO_TSK_NAME_EMPTY);
    let mut p = param(10);
    let r = k.LOS_TaskCreateOnly(&mut p, IDLE_ENTRY, 0);
    assert_eq!(r.ret, LOS_ERRNO_TSK_NO_MEMORY);
    assert_eq!(r.task_id, 0);
    assert!(r.stack.is_none());
    assert_eq!(ids(&k.g_losFreeTask), (0..16).collect::<Vec<u32>>());
    assert_eq!(k.g_taskCBArray[0].taskStatus, OS_TASK_STATUS_UNUSED);
    for i in 0..16u32 {
        assert_eq!(create(&mut k, 20, 0x10000 + i * 0x400), i);
    }
    let mut p = param(10);
    assert_eq!(k.LOS_TaskCreate(&mut p, IDLE_ENTRY, 0x8000).ret, LOS_ERRNO_TSK_TCB_UNAVAILABLE);
}

#[test]
fn a_task_with_its_own_stack_gets_it_aligned() {
    let mut k = kernel();
    let mut p = param(10);
    p.stackAddr = 0x9003;
    p.uwStackSize = 0x100;
    let r = k.LOS_TaskCreateOnly(&mut p, IDLE_ENTRY, 0);
    assert_eq!(r.ret, LOS_OK);
    assert_eq!(stack_of(&r), Some((0x9008, 0xF8, OS_TASK_STACK_INIT, OS_TASK_MAGIC_WORD)));
    assert_eq!(k.g_taskCBArray[r.task_id as usize].taskStatus, OS_TASK_STATUS_SUSPEND);
}

#[test]
fn suspend_and_resume() {
    let mut k = kernel();
    let tid = create(&mut k, 10, 0x8000);
    let before = k.g_taskCBArray[tid as usize].taskStatus;
    let r = k.LOS_TaskSuspend(tid);
    assert_eq!(r.ret, LOS_OK);
    assert!(!r.schedule);
    assert_eq!(k.g_taskCBArray[tid as usize].taskStatus, OS_TASK_STATUS_SUSPEND | OS_TASK_FLAG_STACK_FREE);
    assert!(ids(&k.pri_queue_list[10]).is_empty());
    assert_eq!(k.queue_bitmap, 0);
    assert_eq!(k.LOS_TaskSuspend(tid).ret, LOS_ERRNO_TSK_ALREADY_SUSPENDED);
    let r = k.LOS_TaskResume(tid, 0);
    assert_eq!(r.ret, LOS_OK);
    assert!(!r.schedule);
    assert_eq!(k.g_taskCBArray[tid as usize].taskStatus, before);
    assert_eq!(ids(&k.pri_queue_list[10]), vec![tid]);
    assert_eq!(k.LOS_TaskResume(tid, 0).ret, LOS_ERRNO_TSK_NOT_SUSPENDED);
    assert_eq!(k.LOS_TaskResume(3, 0).ret, LOS_ERRNO_TSK_NOT_CREATED);
    assert_eq!(k.LOS_TaskResume(40, 0).ret, LOS_ERRNO_TSK_ID_INVALID);
    assert_eq!(k.LOS_TaskSuspend(40).ret, LOS_ERRNO_TSK_ID_INVALID);
    assert_eq!(k.LOS_TaskSuspend(3).ret, LOS_ERRNO_TSK_NOT_CREATED);
}

#[test]
fn deleting_a_task_that_is_not_running_frees_it() {
    let mut k = kernel();
    let tid = create(&mut k, 10, 0x8000);
    let r = k.LOS_TaskDelete(tid);
    assert_eq!(r.ret, LOS_OK);
    assert!(!r.schedule);
    assert_eq!(r.stack, 0x8000);
    assert_eq!(k.g_taskCBArray[tid as usize].taskStatus, OS_TASK_STATUS_UNUSED);
    assert_eq!(ids(&k.g_losFreeTask)[0], tid);
    assert!(ids(&k.pri_queue_list[10]).is_empty());
    assert_eq!(k.LOS_TaskDelete(tid).ret, LOS_ERRNO_TSK_NOT_CREATED);
    assert_eq!(k.LOS_TaskDelete(99).ret, LOS_ERRNO_TSK_ID_INVALID);
}

#[test]
fn priority_set_and_get() {
    let mut k = kernel();
    let tid = create(&mut k, 10, 0x8000);
    assert_eq!(k.LOS_TaskPriGet(tid), 10);
    let r = k.LOS_TaskPriSet(tid, 4);
    assert_eq!(r.ret, LOS_OK);
    assert!(r.schedule);
    assert_eq!(k.LOS_TaskPriGet(tid), 4);
    assert_eq!(ids(&k.pri_queue_list[4]), vec![tid]);
    assert!(ids(&k.pri_queue_list[10]).is_empty());
    assert_eq!(k.LOS_TaskPriSet(tid, 32).ret, LOS_ERRNO_TSK_PRIOR_ERROR);
    assert_eq!(k.LOS_TaskPriSet(5, 3).ret, LOS_ERRNO_TSK_NOT_CREATED);
    assert_eq!(k.LOS_TaskPriGet(5), 0xFFFF);
    assert_eq!(k.LOS_TaskPriGet(100), 0xFFFF);
}

#[test]
fn task_lock_counts() {
    let mut k = kernel();
    k.LOS_TaskLock();
    k.LOS_TaskLock();
    assert_eq!(k.g_losTaskLock, 2);
    assert!(!k.LOS_TaskUnlock());
    assert!(k.LOS_TaskUnlock());
    assert!(!k.LOS_TaskUnlock());
    assert_eq!(k.g_losTaskLock, 0);
}

#[test]
fn delay_checks_and_marks_the_running_task() {
    let mut k = kernel();
    let tid = create(&mut k, 10, 0x8000);
    let _ = k.OsSchedStart(0, 0);
    assert_eq!(k.g_losTask.runTask, tid);
    assert_eq!(k.LOS_CurTaskIDGet(), tid);
    assert_eq!(k.LOS_CurTaskNameGet(), 0x2000);
    assert!(k.LOS_TaskIsRunning());
    assert_eq!(k.LOS_TaskDelay(5, true).ret, LOS_ERRNO_TSK_DELAY_IN_INT);
    k.LOS_TaskLock();
    assert_eq!(k.LOS_TaskDelay(5, false).ret, LOS_ERRNO_TSK_DELAY_IN_LOCK);
    k.LOS_TaskUnlock();
    let r = k.LOS_TaskDelay(5, false);
    assert_eq!(r.ret, LOS_OK);
    assert!(r.schedule);
    let t = &k.g_taskCBArray[tid as usize];
    assert!(t.taskStatus & OS_TASK_STATUS_DELAY != 0);
    assert_eq!(t.waitTimes, 5);
    let r = k.LOS_TaskDelay(0, false);
    assert_eq!(r.ret, LOS_OK);
    assert_eq!(k.g_taskCBArray[tid as usize].timeSlice, 0);
}

#[test]
fn msleep_delays_at_least_one_tick() {
    let mut k = kernel();
    let tid = create(&mut k, 10, 0x8000);
    let _ = k.OsSchedStart(0, 0);
    assert!(!k.LOS_Msleep(5, true));
    assert!(k.LOS_Msleep(5, false));
    assert_eq!(k.g_taskCBArray[tid as usize].waitTimes, 1);
    assert!(k.LOS_Msleep(250, false));
    assert_eq!(k.g_taskCBArray[tid as usize].waitTimes, 25);
}

#[test]
fn deleting_the_running_task_hands_over_to_the_spare_block() {
    let mut k = kernel();
    let tid = create(&mut k, 10, 0x8000);
    let _ = k.OsSchedStart(0, 0);
    k.LOS_TaskLock();
    let r = k.LOS_TaskDelete(tid);
    assert_eq!(r.ret, LOS_OK);
    assert!(r.schedule);
    assert_eq!(k.g_losTaskLock, 0);
    assert_eq!(k.g_losTask.runTask, 16);
    assert_eq!(k.g_taskCBArray[16].taskID, tid);
    assert_eq!(ids(&k.g_taskRecycleList), vec![tid]);
    let st = k.g_taskCBArray[tid as usize].taskStatus;
    assert!(st & OS_TASK_STATUS_UNUSED != 0 && st & OS_TASK_STATUS_EXIT != 0);
    let stacks = k.LOS_TaskResRecycle();
    assert_eq!(stacks, vec![0x8000]);
    assert_eq!(k.g_taskCBArray[tid as usize].taskStatus, OS_TASK_STATUS_UNUSED);
    assert!(ids(&k.g_taskRecycleList).is_empty());
    assert_eq!(ids(&k.g_losFreeTask)[0], tid);
}

#[test]
fn idle_round_recycles_and_reports_the_hook() {
    let mut k = kernel();
    let tid = create(&mut k, 10, 0x8000);
    let _ = k.OsSchedStart(0, 0);
    let _ = k.LOS_TaskDelete(tid);
    assert_eq!(k.OsPmEnterHandlerSet(None), LOS_NOK);
    assert_eq!(k.OsPmEnterHandlerSet(Some(0x77)), LOS_OK);
    let round = k.OsIdleTask();
    assert_eq!(round.stacks, vec![0x8000]);
    assert_eq!(round.pm_enter, Some(0x77));
}

#[test]
fn task_entry_return_deletes_the_task() {
    let mut k = kernel();
    let mut p = param(10);
    p.uwResved = LOS_TASK_ATTR_JOINABLE;
    let r = k.LOS_TaskCreate(&mut p, IDLE_ENTRY, 0x8000);
    let tid = r.task_id;
    let _ = k.OsSchedStart(0, 0);
    let r = k.OsTaskEntry(tid, 0x55);
    assert_eq!(r.ret, LOS_OK);
    assert!(r.schedule);
    let t = &k.g_taskCBArray[tid as usize];
    assert_eq!(t.joinRetval, 0x55);
    assert!(t.taskStatus & OS_TASK_STATUS_EXIT != 0);
    assert!(t.taskStatus & OS_TASK_FLAG_JOINABLE != 0);
    assert_eq!(k.LOS_TaskDelete(tid).ret, LOS_ERRNO_TSK_ALREADY_EXIT);
}

#[test]
fn join_waits_for_a_joinable_task() {
    let mut k = kernel();
    let waiter = create(&mut k, 3, 0x8000);
    let mut p = param(10);
    p.uwResved = LOS_TASK_ATTR_JOINABLE;
    let target = k.LOS_TaskCreate(&mut p, IDLE_ENTRY, 0x9000).task_id;
    let _ = k.OsSchedStart(0, 0);
    assert_eq!(k.g_losTask.runTask, waiter);
    assert_eq!(k.LOS_TaskJoin(waiter, false).ret, LOS_ERRNO_TSK_NOT_JOIN_SELF);
    assert_eq!(k.LOS_TaskJoin(target, true).ret, LOS_ERRNO_TSK_NOT_ALLOW_IN_INT);
    k.LOS_TaskLock();
    assert_eq!(k.LOS_TaskJoin(target, false).ret, LOS_ERRNO_TSK_SCHED_LOCKED);
    k.LOS_TaskUnlock();
    assert_eq!(k.LOS_TaskJoin(7, false).ret, LOS_ERRNO_TSK_NOT_CREATED);
    let r = k.LOS_TaskJoin(target, false);
    assert_eq!(r.ret, LOS_OK);
    assert!(r.schedule);
    assert_eq!(ids(&k.join_lists[target as usize]), vec![waiter]);
    assert!(k.g_taskCBArray[waiter as usize].taskStatus & OS_TASK_STATUS_PEND != 0);
    assert_eq!(k.LOS_TaskDetach(target, false).ret, LOS_ERRNO_TSK_NOT_JOIN);
    let r = k.LOS_TaskDelete(target);
    assert_eq!(r.ret, LOS_OK);
    assert_eq!(r.stack, 0x9000);
    assert!(k.g_taskCBArray[waiter as usize].taskStatus & OS_TASK_STATUS_PEND == 0);
    assert!(ids(&k.join_lists[target as usize]).is_empty());
    let (retval, stack) = k.os_task_join_finish(target);
    assert_eq!(retval, waiter);
    assert_eq!(stack, 0);
    assert_eq!(k.g_taskCBArray[target as usize].taskStatus, OS_TASK_STATUS_UNUSED);
}

#[test]
fn detach_makes_a_task_unjoinable() {
    let mut k = kernel();
    let _runner = create(&mut k, 3, 0x8000);
    let mut p = param(10);
    p.uwResved = LOS_TASK_ATTR_JOINABLE;
    let target = k.LOS_TaskCreate(&mut p, IDLE_ENTRY, 0x9000).task_id;
    let plain = create(&mut k, 11, 0xA000);
    let _ = k.OsSchedStart(0, 0);
    assert_eq!(k.LOS_TaskDetach(plain, false).ret, LOS_NOK);
    assert_eq!(k.LOS_TaskDetach(target, true).ret, LOS_ERRNO_TSK_NOT_ALLOW_IN_INT);
    assert_eq!(k.LOS_TaskDetach(target, false).ret, LOS_OK);
    assert!(k.g_taskCBArray[target as usize].taskStatus & OS_TASK_FLAG_JOINABLE == 0);
    assert_eq!(k.LOS_TaskDetach(9, false).ret, LOS_ERRNO_TSK_NOT_CREATED);
}

#[test]
fn detaching_an_exited_task_recycles_it() {
    let mut k = kernel();
    let runner = create(&mut k, 3, 0x8000);
    let mut p = param(10);
    p.uwResved = LOS_TASK_ATTR_JOINABLE;
    let target = k.LOS_TaskCreate(&mut p, IDLE_ENTRY, 0x9000).task_id;
    let _ = k.OsSchedStart(0, 0);
    let r = k.LOS_TaskDelete(target);
    assert_eq!(r.ret, LOS_OK);
    assert_eq!(r.stack, 0x9000);
    assert_eq!(k.g_taskCBArray[target as usize].joinRetval, runner);
    let r = k.LOS_TaskDetach(target, false);
    assert_eq!(r.ret, LOS_OK);
    assert!(r.schedule);
    assert_eq!(r.stack, 0);
    assert_eq!(k.g_taskCBArray[target as usize].taskStatus, OS_TASK_STATUS_UNUSED);
}

#[test]
fn status_get_and_listing() {
    let mut k = kernel();
    let a = create(&mut k, 10, 0x8000);
    let b = create(&mut k, 12, 0x9000);
    assert_eq!(k.LOS_TaskStatusGet(a), Ok((OS_TASK_STATUS_READY | OS_TASK_FLAG_STACK_FREE) as u32));
    assert_eq!(k.LOS_TaskStatusGet(5), Err(LOS_ERRNO_TSK_NOT_CREATED));
    assert_eq!(k.LOS_TaskStatusGet(50), Err(LOS_ERRNO_TSK_ID_INVALID));
    assert_eq!(k.OsGetAllTskInfo(), vec![a, b]);
    assert_eq!(k.LOS_TaskInfoMonitor(), vec![a, b]);
    assert_eq!(k.LOS_TaskNameGet(5), 0);
}

#[test]
fn water_line_of_a_stack() {
    let mut k = kernel();
    let tid = create(&mut k, 10, 0x8000);
    k.os_task_stack_ready(tid, 0x8000 + 0x20);
    let mut stack = vec![OS_TASK_MAGIC_WORD, OS_TASK_STACK_INIT, OS_TASK_STACK_INIT, 0x1234];
    stack.extend(vec![0u32; 8]);
    assert_eq!(k.OsGetTaskWaterLine(tid, &stack), 0x400 - 12);
    let all_init = vec![OS_TASK_MAGIC_WORD; 1].into_iter().chain(vec![OS_TASK_STACK_INIT; 8]).collect::<Vec<u32>>();
    assert_eq!(k.OsGetTaskWaterLine(tid, &all_init), 0x400 - 0x20);
    let broken = vec![0u32; 9];
    assert_eq!(k.OsGetTaskWaterLine(tid, &broken), OS_NULL_INT);
}

#[test]
fn task_info_reports_the_control_block() {
    let mut k = kernel();
    let tid = create(&mut k, 10, 0x8000);
    k.os_task_stack_ready(tid, 0x8000 + 0x3C0);
    let mut stack = vec![OS_TASK_STACK_INIT; 0xF0];
    stack[0] = OS_TASK_MAGIC_WORD;
    stack[0xA0] = 1;
    let info = k.LOS_TaskInfoGet(tid, b"worker\0junk", 0, 0, &stack).ok().unwrap();
    assert_eq!(info.uwTaskID, tid);
    assert_eq!(info.usTaskPrio, 10);
    assert_eq!(info.uwStackSize, 0x400);
    assert_eq!(info.uwTopOfStack, 0x8000);
    assert_eq!(info.uwBottomOfStack, 0x8400);
    assert_eq!(info.uwSP, 0x83C0);
    assert_eq!(info.uwCurrUsed, 0x40);
    assert_eq!(info.uwPeakUsed, 0x400 - 0x280);
    assert!(!info.bOvf);
    assert_eq!(info.uwSemID, 6);
    assert_eq!(info.uwMuxID, 6);
    assert_eq!(&info.acName[..7], b"worker\0");
    assert!(info.acName[7..].iter().all(|b| *b == 0));
    assert_eq!(info.acName.len(), 32);
    match k.LOS_TaskInfoGet(4, b"x", 0, 0, &stack) {
        Err(e) => assert_eq!(e, LOS_ERRNO_TSK_NOT_CREATED),
        Ok(_) => panic!("expected an error"),
    }
}

#[test]
fn task_info_truncates_long_names() {
    let mut k = kernel();
    let tid = create(&mut k, 10, 0x8000);
    let stack = vec![0u32; 4];
    let long = [b'a'; 40];
    let info = k.LOS_TaskInfoGet(tid, &long, 0, 0, &stack).ok().unwrap();
    assert!(info.acName[..31].iter().all(|b| *b == b'a'));
    assert_eq!(info.acName[31], 0);
    assert!(info.bOvf);
    assert_eq!(info.uwPeakUsed, OS_NULL_INT);
}

#[test]
fn status_names() {
    assert_eq!(OsConvertTskStatus(OS_TASK_STATUS_RUNNING | OS_TASK_STATUS_READY), "Running");
    assert_eq!(OsConvertTskStatus(OS_TASK_STATUS_READY), "Ready");
    assert_eq!(OsConvertTskStatus(OS_TASK_STATUS_EXIT | OS_TASK_STATUS_SUSPEND), "Exit");
    assert_eq!(OsConvertTskStatus(OS_TASK_STATUS_SUSPEND), "Suspend");
    assert_eq!(OsConvertTskStatus(OS_TASK_STATUS_DELAY), "Delay");
    assert_eq!(OsConvertTskStatus(OS_TASK_STATUS_PEND | 0x80), "PendTime");
    assert_eq!(OsConvertTskStatus(OS_TASK_STATUS_PEND), "Pend");
    assert_eq!(OsConvertTskStatus(0), "Impossible");
}

#[test]
fn bounded_memory_functions() {
    let mut d = vec![9u8; 6];
    assert_eq!(memset_s(&mut d, 4, 0x1AB, 3), 0);
    assert_eq!(d, vec![0xAB, 0xAB, 0xAB, 9, 9, 9]);
    assert_eq!(memset_s(&mut d, 4, 0, 5), -1);
    assert_eq!(memcpy_s(&mut d, 6, &[1, 2], 2), 0);
    assert_eq!(d, vec![1, 2, 0xAB, 9, 9, 9]);
    assert_eq!(memcpy_s(&mut d, 1, &[1, 2], 2), -1);
    let mut s = vec![7u8; 5];
    assert_eq!(strncpy_s(&mut s, 5, b"hi\0", 4), 0);
    assert_eq!(s, vec![b'h', b'i', 0, 7, 7]);
    let mut s = vec![7u8; 5];
    assert_eq!(strncpy_s(&mut s, 3, b"hello", 4), 0);
    assert_eq!(s, vec![b'h', b'e', 0, 7, 7]);
    let mut s = vec![7u8; 5];
    assert_eq!(strncpy_s(&mut s, 0, b"hello", 4), -1);
    assert_eq!(s, vec![7u8; 5]);
}

#[test]
fn schedule_request_needs_a_running_scheduler() {
    let mut k = kernel();
    assert!(!k.LOS_Schedule(false));
    let _ = create(&mut k, 10, 0x8000);
    let _ = k.OsSchedStart(0, 0);
    assert!(k.LOS_Schedule(false));
    assert!(!k.LOS_Schedule(true));
    k.LOS_TaskLock();
    assert!(!k.LOS_Schedule(false));
}

#[test]
fn current_priority_set() {
    let mut k = kernel();
    let tid = create(&mut k, 10, 0x8000);
    let _ = k.OsSchedStart(0, 0);
    let r = k.LOS_CurTaskPriSet(2);
    assert_eq!(r.ret, LOS_OK);
    assert!(r.schedule);
    assert_eq!(k.LOS_TaskPriGet(tid), 2);
}

#[test]
fn switch_info_is_empty() {
    let k = kernel();
    let (count, name) = k.LOS_TaskSwitchInfoGet(0);
    assert_eq!(count, 0);
    assert_eq!(name, vec![0u8; 32]);
}

#[test]
fn task_switch_picks_the_top_task() {
    let mut k = kernel();
    let a = create(&mut k, 10, 0x8000);
    let b = create(&mut k, 5, 0x9000);
    let _ = k.OsSchedStart(100, 100);
    assert_eq!(k.g_losTask.runTask, b);
    let r = k.LOS_TaskSuspend(b);
    assert_eq!(r.ret, LOS_OK);
    assert!(r.schedule);
    let (switched, _) = k.OsSchedTaskSwitch(200, 200);
    assert!(switched);
    assert_eq!(k.g_losTask.newTask, Some(a));
    k.os_task_switch_done();
    assert_eq!(k.g_losTask.runTask, a);
    assert!(k.g_taskCBArray[a as usize].taskStatus & OS_TASK_STATUS_RUNNING != 0);
    assert!(k.g_taskCBArray[b as usize].taskStatus & OS_TASK_STATUS_RUNNING == 0);
    assert_eq!(k.g_taskCBArray[a as usize].startTime, 200);
}

#[test]
fn a_running_task_with_slice_left_keeps_running() {
    let mut k = kernel();
    let a = create(&mut k, 10, 0x8000);
    let _ = create(&mut k, 10, 0x9000);
    let _ = k.OsSchedStart(0, 0);
    assert_eq!(k.g_losTask.runTask, a);
    let (switched, _) = k.OsSchedTaskSwitch(10, 10);
    assert!(!switched);
    assert_eq!(k.g_losTask.newTask, Some(a));
}

#[test]
fn errors_for_system_timer_and_signalled_tasks() {
    let mut k = kernel();
    let run = create(&mut k, 3, 0x8000);
    let timer = create(&mut k, 4, 0x9000);
    let sys = create(&mut k, 5, 0xA000);
    let sig = create(&mut k, 6, 0xB000);
    let _ = k.OsSchedStart(0, 0);
    assert_eq!(k.g_losTask.runTask, run);
    k.g_swtmrTaskID = timer;
    assert_eq!(k.LOS_TaskSuspend(timer).ret, LOS_ERRNO_TSK_SUSPEND_SWTMR_NOT_ALLOWED);
    assert_eq!(k.LOS_TaskPriSet(timer, 2).ret, LOS_ERRNO_TSK_OPERATE_SWTMR);
    k.g_taskCBArray[sys as usize].taskStatus |= OS_TASK_FLAG_SYSTEM_TASK;
    assert_eq!(k.LOS_TaskSuspend(sys).ret, LOS_ERRNO_TSK_OPERATE_SYSTEM_TASK);
    assert_eq!(k.LOS_TaskDelete(sys).ret, LOS_ERRNO_TSK_OPERATE_SYSTEM_TASK);
    assert_eq!(k.LOS_TaskPriSet(sys, 2).ret, LOS_ERRNO_TSK_OPERATE_SYSTEM_TASK);
    k.g_taskCBArray[sig as usize].taskStatus |= OS_TASK_FLAG_SIGNAL;
    assert_eq!(k.LOS_TaskDelete(sig).ret, LOS_ERRNO_TSK_PROCESS_SIGNAL);
    k.LOS_TaskLock();
    assert_eq!(k.LOS_TaskSuspend(run).ret, LOS_ERRNO_TSK_SUSPEND_LOCKED);
    k.LOS_TaskUnlock();
    let r = k.LOS_TaskSuspend(run);
    assert_eq!(r.ret, LOS_OK);
    assert!(r.schedule);
}

#[test]
fn a_delayed_task_wakes_when_its_time_comes() {
    let mut k = kernel();
    let idle = k.OsIdleTaskCreate(IDLE_ENTRY, 0x5000, 0x6000).task_id;
    let a = create(&mut k, 10, 0x8000);
    let _ = k.OsSchedStart(1000, 1000);
    assert_eq!(k.g_losTask.runTask, a);
    let r = k.LOS_TaskDelay(5, false);
    assert_eq!(r.ret, LOS_OK);
    let (switched, _) = k.OsSchedTaskSwitch(2000, 2000);
    assert!(switched);
    assert_eq!(k.g_losTask.newTask, Some(idle));
    k.os_task_switch_done();
    assert_eq!(k.g_taskCBArray[a as usize].sortList.responseTime, 2000 + 5 * 10_000);
    assert_eq!(k.sort_links.g_taskSortLink.len(), 1);
    let early = k.LOS_SchedTickHandler(30_000, 30_000, 30_000, 30_000, false);
    assert!(early.schedule);
    assert!(k.g_taskCBArray[a as usize].taskStatus & OS_TASK_STATUS_DELAY != 0);
    let due = k.LOS_SchedTickHandler(52_000, 52_000, 52_000, 52_000, false);
    assert!(due.schedule);
    assert_eq!(k.sort_links.g_taskSortLink.len(), 0);
    assert!(k.g_taskCBArray[a as usize].taskStatus & OS_TASK_STATUS_DELAY == 0);
    assert!(k.g_taskCBArray[a as usize].taskStatus & OS_TASK_STATUS_READY != 0);
    assert_eq!(ids(&k.pri_queue_list[10]), vec![a]);
    assert_eq!(k.LOS_NextTaskIDGet(), a);
}

#[test]
fn equal_priorities_take_turns_when_the_slice_runs_out() {
    let mut k = kernel();
    let a = create(&mut k, 10, 0x8000);
    let b = create(&mut k, 10, 0x9000);
    let _ = k.OsSchedStart(0, 0);
    assert_eq!(k.g_losTask.runTask, a);
    assert_eq!(ids(&k.pri_queue_list[10]), vec![b]);
    let (switched, _) = k.OsSchedTaskSwitch(30_000, 30_000);
    assert!(switched);
    assert_eq!(k.g_losTask.newTask, Some(b));
    assert_eq!(ids(&k.pri_queue_list[10]), vec![a]);
    let ta = &k.g_taskCBArray[a as usize];
    assert!(ta.taskStatus & OS_TASK_STATUS_READY != 0);
    assert!(ta.taskStatus & OS_TASK_STATUS_RUNNING == 0);
    assert_eq!(ta.timeSlice, k.sched_time_slice);
    assert!(k.g_taskCBArray[b as usize].taskStatus & OS_TASK_STATUS_READY == 0);
    let hooks = k.take_sched_hooks();
    assert!(matches!(hooks.last(), Some(SchedHook::TaskSwitchedIn)));
    assert!(matches!(hooks[hooks.len() - 2], SchedHook::MovedTaskToReady(t) if t == a));
    assert_eq!(k.sched_hooks.len(), 0);
}

#[test]
fn scheduler_hooks_are_reported_in_order() {
    let mut k = kernel();
    let a = create(&mut k, 10, 0x8000);
    let hooks = k.take_sched_hooks();
    assert_eq!(hooks.len(), 1);
    assert!(matches!(hooks[0], SchedHook::MovedTaskToReady(t) if t == a));
    assert_eq!(k.LOS_TaskSuspend(a).ret, LOS_OK);
    assert_eq!(k.LOS_TaskPriSet(a, 12).ret, LOS_OK);
    assert_eq!(k.LOS_TaskResume(a, 0).ret, LOS_OK);
    let hooks = k.take_sched_hooks();
    assert_eq!(hooks.len(), 3);
    assert!(matches!(hooks[0], SchedHook::MovedTaskToSuspended(t) if t == a));
    assert!(matches!(hooks[1], SchedHook::TaskPriModify(t, 12) if t == a));
    assert!(matches!(hooks[2], SchedHook::MovedTaskToReady(t) if t == a));
    assert_eq!(ids(&k.pri_queue_list[12]), vec![a]);
}

#[test]
fn a_thawed_delay_goes_back_on_the_sort_link() {
    let mut k = kernel();
    let a = create(&mut k, 10, 0x8000);
    k.g_taskCBArray[a as usize].taskStatus |= OS_TASK_STATUS_DELAY | OS_TASK_FLAG_FREEZE;
    k.g_taskCBArray[a as usize].sortList.responseTime = 125_000;
    k.os_sched_unfreeze_task(a, 100_000);
    assert_eq!(k.g_taskCBArray[a as usize].sortList.responseTime, 130_000);
    assert_eq!(k.sort_links.g_taskSortLink.len(), 1);
    assert_eq!(k.sort_links.g_taskSortLink.get(0).sortLinkNode, a);
    assert!(k.g_taskCBArray[a as usize].taskStatus & OS_TASK_FLAG_FREEZE == 0);
}

#[test]
fn the_tick_charges_the_running_slice() {
    let mut k = kernel();
    let a = create(&mut k, 10, 0x8000);
    let _ = k.OsSchedStart(1000, 1000);
    let before = k.g_taskCBArray[a as usize].timeSlice;
    let act = k.LOS_SchedTickHandler(5000, 5000, 5000, 5000, true);
    assert!(!act.schedule);
    assert_eq!(k.g_taskCBArray[a as usize].timeSlice, before - 4000);
    assert_eq!(k.g_taskCBArray[a as usize].startTime, 5000);
}

#[test]
fn joining_an_exited_task_before_the_scheduler_starts() {
    let mut k = kernel();
    let mut p = param(10);
    p.uwResved = LOS_TASK_ATTR_JOINABLE;
    let r = k.LOS_TaskCreate(&mut p, IDLE_ENTRY, 0x8000);
    assert_eq!(r.ret, LOS_OK);
    assert_eq!(k.LOS_TaskDelete(r.task_id).ret, LOS_OK);
    assert_eq!(k.g_losTask.runTask, 16);
    assert_eq!(k.LOS_TaskJoin(r.task_id, false).ret, LOS_OK);
}

#[test]
fn deleting_a_ready_task_takes_it_off_its_queue() {
    let mut k = kernel();
    let a = create(&mut k, 10, 0x8000);
    let b = create(&mut k, 10, 0x9000);
    assert_eq!(ids(&k.pri_queue_list[10]), vec![a, b]);
    let r = k.LOS_TaskDelete(a);
    assert_eq!(r.ret, LOS_OK);
    assert_eq!(r.stack, 0x8000);
    assert_eq!(ids(&k.pri_queue_list[10]), vec![b]);
}

#[test]
fn a_clock_change_reloads_the_timer_with_the_longest_period_first() {
    let mut k = kernel();
    let r = k.LOS_SysTickClockFreqAdjust(true, 100, 0xFF_FFFF, 2_000_000, 100);
    assert_eq!(r.ret, LOS_OK);
    assert_eq!(r.first_reload, Some(0xFF_FFFF));
    assert_eq!(k.tick.g_sysClock, 2_000_000);
    let bad = k.LOS_SysTickClockFreqAdjust(true, 100, 0xFF_FFFF, 0, 100);
    assert_eq!(bad.first_reload, None);
    let none = k.LOS_SysTickClockFreqAdjust(false, 100, 0xFF_FFFF, 3_000_000, 100);
    assert_eq!(none.first_reload, None);
}

#[test]
fn the_first_task_leaves_its_ready_queue_when_scheduling_starts() {
    let mut k = kernel();
    let a = create(&mut k, 10, 0x8000);
    let b = create(&mut k, 10, 0x9000);
    let _ = k.OsSchedStart(0, 0);
    assert_eq!(k.g_losTask.runTask, a);
    assert_eq!(ids(&k.pri_queue_list[10]), vec![b]);
    assert!(k.g_taskCBArray[a as usize].taskStatus & OS_TASK_STATUS_READY == 0);
    assert!(k.g_taskCBArray[a as usize].taskStatus & OS_TASK_STATUS_RUNNING != 0);
}

#[test]
fn a_resumed_task_that_is_still_delayed_stays_off_the_queues() {
    let mut k = kernel();
    let a = create(&mut k, 10, 0x8000);
    assert_eq!(k.LOS_TaskSuspend(a).ret, LOS_OK);
    k.g_taskCBArray[a as usize].taskStatus |= OS_TASK_STATUS_DELAY;
    let r = k.LOS_TaskResume(a, 0);
    assert_eq!(r.ret, LOS_OK);
    assert!(!r.schedule);
    assert_eq!(k.g_taskCBArray[a as usize].taskStatus & OS_TASK_STATUS_SUSPEND, 0);
    assert!(k.g_taskCBArray[a as usize].taskStatus & OS_TASK_STATUS_DELAY != 0);
    assert!(ids(&k.pri_queue_list[10]).is_empty());
}
