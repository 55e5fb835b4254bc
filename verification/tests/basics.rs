use lib::defs::{align, truncate, has_flag, los_errno_os_error, los_errno_os_fatal, LOS_MOD_TSK};
use lib::list::{empty_list_node, LOS_DL_LIST};
use lib::sortlink::{
    OsAdd2SortLink, OsSortLinkGetTargetExpireTime, OsTimeConvertFreq, SortLinkAttribute, SortLinkList,
    SortLinks, os_sys_tick_to_cycle, OS_SORT_LINK_TASK, OS_SORT_LINK_SWTMR, OS_SORT_LINK_UINT64_MAX,
};
use lib::tick::{
    LOS_MS2Tick, LOS_Tick2MS, mdelay_chunks, os_sys_cycle_to_tick, os_time_convert_freq, ArchTickTimer, TickState,
    LOS_ERRNO_SYS_CLOCK_INVALID, LOS_ERRNO_SYS_HOOK_IS_NULL, LOS_ERRNO_TICK_CFG_INVALID,
};

fn list_of(l: &LOS_DL_LIST) -> Vec<u32> {
    let mut v = Vec::new();
    for i in 0..l.len() {
        v.push(l.get(i));
    }
    v
}

#[test]
fn align_rounds_up_to_the_boundary() {
    assert_eq!(align(13, 8), 16);
    assert_eq!(align(16, 8), 16);
    assert_eq!(align(0, 8), 0);
    assert_eq!(align(5, 0), 5);
}

#[test]
fn truncate_rounds_down_to_the_boundary() {
    assert_eq!(truncate(13, 8), 8);
    assert_eq!(truncate(16, 8), 16);
    assert_eq!(truncate(7, 8), 0);
    assert_eq!(truncate(7, 0), 7);
}

#[test]
fn has_flag_tests_any_bit() {
    assert!(has_flag(0x0014, 0x10));
    assert!(!has_flag(0x0014, 0x08));
    assert!(has_flag(0x0014, 0x0C));
}

#[test]
fn error_numbers_carry_level_module_and_code() {
    assert_eq!(los_errno_os_error(LOS_MOD_TSK, 0x07), 0x0200_0207);
    assert_eq!(los_errno_os_fatal(LOS_MOD_TSK, 0x00), 0x0300_0200);
    assert_eq!(los_errno_os_error(4, 0x00), 0x0200_0400);
}

#[test]
fn list_keeps_link_order() {
    let mut l = empty_list_node();
    assert!(l.LOS_ListEmpty());
    l.LOS_ListTailInsert(3);
    l.LOS_ListTailInsert(5);
    l.LOS_ListAdd(1);
    assert_eq!(list_of(&l), vec![1, 3, 5]);
    assert_eq!(l.LOS_DL_LIST_FIRST(), Some(1));
    l.LOS_ListDelete(3);
    assert_eq!(list_of(&l), vec![1, 5]);
    l.LOS_ListDelete(9);
    assert_eq!(list_of(&l), vec![1, 5]);
    assert_eq!(l.find(5), Some(1));
    l.LOS_ListInit();
    assert!(l.LOS_ListEmpty());
    assert_eq!(l.LOS_DL_LIST_FIRST(), None);
}

fn times(s: &SortLinkAttribute) -> Vec<(u32, u64)> {
    let mut v = Vec::new();
    for i in 0..s.len() {
        let n = s.get(i);
        v.push((n.sortLinkNode, n.responseTime));
    }
    v
}

#[test]
fn sort_link_orders_nodes_by_response_time() {
    let mut s = SortLinkAttribute::new();
    s.OsAddNode2SortLink(SortLinkList { sortLinkNode: 1, responseTime: 50 });
    s.OsAddNode2SortLink(SortLinkList { sortLinkNode: 2, responseTime: 20 });
    s.OsAddNode2SortLink(SortLinkList { sortLinkNode: 3, responseTime: 80 });
    s.OsAddNode2SortLink(SortLinkList { sortLinkNode: 4, responseTime: 50 });
    assert_eq!(times(&s), vec![(2, 20), (1, 50), (4, 50), (3, 80)]);
    s.remove_owner(1);
    assert_eq!(times(&s), vec![(2, 20), (4, 50), (3, 80)]);
    assert_eq!(s.find_owner(3), Some(2));
    assert_eq!(s.find_owner(9), None);
}

#[test]
fn sort_link_node_equal_to_first_goes_second() {
    let mut s = SortLinkAttribute::new();
    s.OsAddNode2SortLink(SortLinkList { sortLinkNode: 1, responseTime: 10 });
    s.OsAddNode2SortLink(SortLinkList { sortLinkNode: 2, responseTime: 30 });
    s.OsAddNode2SortLink(SortLinkList { sortLinkNode: 3, responseTime: 10 });
    assert_eq!(times(&s), vec![(1, 10), (3, 10), (2, 30)]);
}

#[test]
fn sort_link_expire_times() {
    let mut s = SortLinkAttribute::new();
    assert_eq!(s.OsSortLinkGetNextExpireTime(100), 0);
    assert_eq!(s.get_sort_link_next_expire_time(100, 10), OS_SORT_LINK_UINT64_MAX - 10);
    s.OsAddNode2SortLink(SortLinkList { sortLinkNode: 1, responseTime: 500 });
    assert_eq!(s.OsSortLinkGetNextExpireTime(100), 400);
    assert_eq!(s.OsSortLinkGetNextExpireTime(600), 0);
    assert_eq!(s.get_sort_link_next_expire_time(100, 10), 500);
    assert_eq!(s.get_sort_link_next_expire_time(495, 10), 505);
    let node = SortLinkList { sortLinkNode: 7, responseTime: 1000 };
    assert_eq!(OsSortLinkGetTargetExpireTime(400, &node), 600);
    assert_eq!(OsSortLinkGetTargetExpireTime(1000, &node), 0);
}

#[test]
fn add_to_sort_link_sets_the_response_time() {
    let mut head = SortLinkAttribute::new();
    let mut node = SortLinkList { sortLinkNode: 4, responseTime: 0 };
    OsAdd2SortLink(&mut head, &mut node, 1000, 10, 1_000_000);
    assert_eq!(node.responseTime, 1000 + 100_000);
    assert_eq!(times(&head), vec![(4, 101_000)]);
    let mut links = SortLinks::new();
    let mut n2 = SortLinkList { sortLinkNode: 5, responseTime: 0 };
    links.OsAdd2SortLink(&mut n2, 0, 3, OS_SORT_LINK_SWTMR, 100);
    assert_eq!(n2.responseTime, 3);
    assert_eq!(links.g_swtmrSortLink.len(), 1);
    assert_eq!(links.g_taskSortLink.len(), 0);
    assert!(links.OsGetSortLinkAttribute(OS_SORT_LINK_TASK).is_some());
    assert!(links.OsGetSortLinkAttribute(9).is_none());
}

#[test]
fn tick_and_cycle_conversions() {
    assert_eq!(os_sys_tick_to_cycle(10, 1_000_000), 100_000);
    assert_eq!(os_sys_cycle_to_tick(100_000, 1_000_000), 10);
    assert_eq!(OsTimeConvertFreq(1000, 2000, 1000), 500);
    assert_eq!(OsTimeConvertFreq(1000, 1000, 3000), 3000);
    assert_eq!(os_time_convert_freq(1000, 2000, 1000), 500);
}

#[test]
fn milliseconds_and_ticks() {
    assert_eq!(LOS_MS2Tick(1000), 100);
    assert_eq!(LOS_MS2Tick(15), 1);
    assert_eq!(LOS_MS2Tick(5), 0);
    assert_eq!(LOS_MS2Tick(0xFFFF_FFFF), 0xFFFF_FFFF);
    assert_eq!(LOS_Tick2MS(100), 1000);
    assert_eq!(LOS_Tick2MS(1), 10);
    assert_eq!(LOS_Tick2MS(LOS_MS2Tick(1234)), 1230);
}

#[test]
fn mdelay_splits_long_delays() {
    assert_eq!(mdelay_chunks(5), vec![5000u64]);
    assert_eq!(mdelay_chunks(0), vec![0u64]);
    let max_ms = u32::MAX / 1000;
    let c = mdelay_chunks(max_ms + 10);
    assert_eq!(c, vec![(max_ms as u64) * 1000, 10_000]);
    let total: u64 = mdelay_chunks(u32::MAX).iter().sum();
    assert_eq!(total, (u32::MAX as u64) * 1000);
}

fn good_timer() -> ArchTickTimer {
    ArchTickTimer {
        freq: 1_000_000,
        irqNum: 15,
        periodMax: 0xFF_FFFF,
        init: Some(1),
        getCycle: Some(2),
        reload: Some(3),
        lock: Some(4),
        unlock: Some(5),
        tickHandler: None,
    }
}

#[test]
fn tick_timer_init_checks_the_timer() {
    let mut t = TickState::new(good_timer(), 0x100);
    assert_eq!(t.OsTickTimerInit(None, 0), LOS_ERRNO_SYS_HOOK_IS_NULL);
    let mut bad = good_timer();
    bad.reload = None;
    assert_eq!(t.OsTickTimerInit(Some(bad), 0), LOS_ERRNO_SYS_HOOK_IS_NULL);
    let mut slow = good_timer();
    slow.freq = 50;
    assert_eq!(t.OsTickTimerInit(Some(slow), 0), LOS_ERRNO_SYS_CLOCK_INVALID);
    let mut irq = good_timer();
    irq.irqNum = 200;
    assert_eq!(t.OsTickTimerInit(Some(irq), 0), LOS_ERRNO_TICK_CFG_INVALID);
    assert_eq!(t.OsTickTimerInit(Some(good_timer()), 0x1234), 0x1234);
    assert_eq!(t.OsTickTimerInit(Some(good_timer()), 0), 0);
    assert_eq!(t.g_sysClock, 1_000_000);
    assert_eq!(t.LOS_CyclePerTickGet(), 10_000);
    assert!(t.sys_timer_is_init);
}

#[test]
fn tick_init_handler_prefers_the_timer_handler() {
    assert_eq!(TickState::tick_init_handler(None, 9), None);
    assert_eq!(TickState::tick_init_handler(Some(good_timer()), 9), Some(9));
    let mut own = good_timer();
    own.tickHandler = Some(7);
    assert_eq!(TickState::tick_init_handler(Some(own), 9), Some(7));
}

#[test]
fn cycle_counter_and_tick_count() {
    let mut t = TickState::new(good_timer(), 0x100);
    assert_eq!(t.OsTickTimerInit(Some(good_timer()), 0), 0);
    assert_eq!(t.LOS_SysCycleGet(500, 10_000), 500);
    assert_eq!(t.tick_count_at(25_000), 2);
    assert_eq!(t.nanosec_at(1_000_000), 1_000_000_000);
    assert_eq!(t.udelay_cycles(1_500_000), 1_500_000);
    assert_eq!(t.udelay_end_time(0, 10), None);
    assert_eq!(t.udelay_end_time(20, 10), Some(30));
}

#[test]
fn slower_clock_keeps_sort_link_order() {
    let mut s = SortLinkAttribute::new();
    s.OsAddNode2SortLink(SortLinkList { sortLinkNode: 1, responseTime: 1000 });
    s.OsAddNode2SortLink(SortLinkList { sortLinkNode: 2, responseTime: 1001 });
    s.OsAddNode2SortLink(SortLinkList { sortLinkNode: 3, responseTime: 4000 });
    s.SortLinkNodeTimeUpdate(2000, 1000);
    assert_eq!(times(&s), vec![(1, 500), (2, 500), (3, 2000)]);
    s.SortLinkNodeTimeUpdate(1000, 3000);
    assert_eq!(times(&s), vec![(1, 1500), (2, 1500), (3, 6000)]);
}
