use lib::defs::{LOS_NOK, LOS_OK};
use lib::membox::{
    los_membox_aligned, os_membox_check_magic, os_membox_set_magic, os_membox_taskid_get, LOS_MemboxAlloc,
    LOS_MemboxClr, LOS_MemboxFree, LOS_MemboxInit, LOS_MemboxStatisticsGet, LOS_ShowBox, LOS_MEMBOX_INFO,
};

fn pool() -> LOS_MEMBOX_INFO {
    match LOS_MemboxInit(0x1000, 0x100, 16) {
        Ok(info) => info,
        Err(e) => panic!("init failed: {:#x}", e.ret),
    }
}

#[test]
fn alignment_and_magic_words() {
    assert_eq!(los_membox_aligned(13), 16);
    assert_eq!(los_membox_aligned(16), 16);
    assert_eq!(os_membox_set_magic(5), 0xa55a_5a05);
    assert_eq!(os_membox_taskid_get(0xa55a_5a05), 5);
    assert_eq!(os_membox_check_magic(0xa55a_5a05), LOS_OK);
    assert_eq!(os_membox_check_magic(0xa55a_5a20), LOS_NOK);
    assert_eq!(os_membox_check_magic(0x1234_5605), LOS_NOK);
}

#[test]
fn init_lays_out_the_blocks() {
    let info = pool();
    assert_eq!(info.uwBlkSize, 20);
    assert_eq!(info.uwBlkNum, 12);
    assert_eq!(info.uwBlkCnt, 0);
    assert_eq!(info.stFreeList, 0x1010);
    assert_eq!(LOS_MemboxStatisticsGet(&info), (12, 0, 20));
}

#[test]
fn init_errors() {
    for (pool, size, blk) in [(0u32, 0x100u32, 16u32), (0x1000, 0x100, 0), (0x1000, 8, 16)] {
        match LOS_MemboxInit(pool, size, blk) {
            Err(e) => {
                assert_eq!(e.ret, LOS_NOK);
                assert_eq!(e.written, None);
            }
            Ok(_) => panic!("accepted"),
        }
    }
    match LOS_MemboxInit(0x1000, 30, 16) {
        Err(e) => {
            assert_eq!(e.ret, LOS_NOK);
            assert_eq!(e.written, Some((20, 0, 0)));
        }
        Ok(_) => panic!("accepted"),
    }
}

#[test]
fn init_accepts_a_pool_in_the_magic_window() {
    let info = match LOS_MemboxInit(0xa55a_59f0, 24, 4) {
        Ok(info) => info,
        Err(e) => panic!("init failed: {:#x}", e.ret),
    };
    assert_eq!(info.uwBlkSize, 8);
    assert_eq!(info.uwBlkNum, 1);
    assert_eq!(info.stFreeList, 0xa55a_5a00);
    assert!(LOS_MemboxInit(0xa55a_5900, 0x200, 16).is_ok());
}

#[test]
fn statistics_after_two_allocations() {
    let mut info = match LOS_MemboxInit(0x2000, 16 + 3 * 20, 16) {
        Ok(info) => info,
        Err(e) => panic!("init failed: {:#x}", e.ret),
    };
    assert_ne!(LOS_MemboxAlloc(&mut info, 1), 0);
    assert_ne!(LOS_MemboxAlloc(&mut info, 1), 0);
    assert_eq!(LOS_MemboxStatisticsGet(&info), (3, 2, 20));
}

#[test]
fn blocks_are_handed_out_in_address_order() {
    let mut info = pool();
    assert_eq!(LOS_MemboxAlloc(&mut info, 3), 0x1014);
    assert_eq!(LOS_MemboxAlloc(&mut info, 3), 0x1028);
    assert_eq!(info.uwBlkCnt, 2);
    assert_eq!(info.node_words[0], 0xa55a_5a03);
}

#[test]
fn free_then_alloc_gives_the_block_back() {
    let mut info = pool();
    let a = LOS_MemboxAlloc(&mut info, 1);
    let b = LOS_MemboxAlloc(&mut info, 1);
    assert_eq!(LOS_MemboxFree(&mut info, a), LOS_OK);
    assert_eq!(info.uwBlkCnt, 1);
    assert_eq!(LOS_MemboxAlloc(&mut info, 2), a);
    assert_ne!(a, b);
}

#[test]
fn double_free_and_bad_addresses_are_refused() {
    let mut info = pool();
    let a = LOS_MemboxAlloc(&mut info, 1);
    assert_eq!(LOS_MemboxFree(&mut info, a), LOS_OK);
    assert_eq!(LOS_MemboxFree(&mut info, a), LOS_NOK);
    assert_eq!(LOS_MemboxFree(&mut info, 0), LOS_NOK);
    let b = LOS_MemboxAlloc(&mut info, 1);
    assert_eq!(LOS_MemboxFree(&mut info, b + 1), LOS_NOK);
    assert_eq!(LOS_MemboxFree(&mut info, 0x5000), LOS_NOK);
    assert_eq!(info.uwBlkCnt, 1);
}

#[test]
fn pool_runs_out() {
    let mut info = pool();
    for _ in 0..12 {
        assert_ne!(LOS_MemboxAlloc(&mut info, 0), 0);
    }
    assert_eq!(LOS_MemboxAlloc(&mut info, 0), 0);
    assert_eq!(LOS_MemboxStatisticsGet(&info), (12, 12, 20));
}

#[test]
fn clear_covers_the_user_area() {
    let mut info = pool();
    let a = LOS_MemboxAlloc(&mut info, 0);
    assert_eq!(LOS_MemboxClr(&info, a), Some((a, 16)));
    assert_eq!(LOS_MemboxClr(&info, 0), None);
}

#[test]
fn show_box_lists_free_and_all_blocks() {
    let mut info = pool();
    let a = LOS_MemboxAlloc(&mut info, 4);
    let r = LOS_ShowBox(&info);
    assert_eq!(r.free_nodes.len(), 11);
    assert_eq!(r.free_nodes[0], 0x1024);
    assert_eq!(r.all_nodes.len(), 12);
    assert_eq!(r.all_nodes[0], (a - 4, 0xa55a_5a04));
    assert_eq!(r.all_nodes[1], (0x1024, 0x1038));
}
