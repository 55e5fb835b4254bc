//! Static memory box pools: a pool is split into blocks of one size that are
//! handed out from a singly linked free list.
//!
//! The pool is modelled on the 32-bit target layout: the pool header
//! (`LOS_MEMBOX_INFO`) takes 16 bytes at the pool address and is followed by
//! `uwBlkNum` blocks of `uwBlkSize` bytes; the first word of each block is
//! its node header, which holds the address of the next free block while the
//! block is free and the owner magic while it is allocated.  `node_words`
//! holds those header words, one per block, in address order.
use vstd::prelude::*;
use crate::defs::{LOS_OK, LOS_NOK, LOSCFG_BASE_CORE_TSK_LIMIT};

verus! {

/// Size of the pool header on the target.
pub const MEMBOX_INFO_SIZE: u32 = 16;
/// Size of a block's node header on the target.
pub const OS_MEMBOX_NODE_HEAD_SIZE: u32 = 4;
/// Verification magic in the upper 24 bits of an allocated block's header.
pub const OS_MEMBOX_MAGIC: u32 = 0xa55a_5a00;
/// Mask of the owner task id kept in the low 8 bits of the magic.
pub const OS_MEMBOX_MAX_TASKID: u32 = 0xff;

/// Header of a memory box pool together with the block header words.
pub struct LOS_MEMBOX_INFO {
    /// Address of the pool (and of this header) in memory.
    pub pool: u32,
    /// Size of a block, node header included.
    pub uwBlkSize: u32,
    /// Number of blocks in the pool.
    pub uwBlkNum: u32,
    /// Number of allocated blocks.
    pub uwBlkCnt: u32,
    /// Address of the first free block, or 0.
    pub stFreeList: u32,
    /// The node header word of each block, in address order.
    pub node_words: Vec<u32>,
    /// Indices of the free blocks in free-list order.
    pub free: Ghost<Seq<int>>,
}

/// `(x + 3) & !3` computed on 32 bits, the block size rounding of the pool.
pub open spec fn membox_aligned_spec(x: u32) -> u32 {
    x.wrapping_add(3) & !3u32
}

/// The magic word that marks a block allocated by task `task_id`.
pub open spec fn membox_magic_spec(task_id: u32) -> u32 {
    OS_MEMBOX_MAGIC | (task_id & OS_MEMBOX_MAX_TASKID)
}

/// Whether a header word passes the allocation magic check.
pub open spec fn membox_magic_ok(word: u32) -> bool {
    &&& (word & OS_MEMBOX_MAX_TASKID) <= LOSCFG_BASE_CORE_TSK_LIMIT + 1
    &&& word == (OS_MEMBOX_MAGIC | (word & OS_MEMBOX_MAX_TASKID))
}

/// Whether the address range `[start, end)` stays clear of the 256 addresses
/// that a magic word can take, so that no free-list link is taken for a magic.
pub open spec fn clear_of_magic(start: int, end: int) -> bool {
    end <= OS_MEMBOX_MAGIC || start > OS_MEMBOX_MAGIC + 0xff
}

proof fn lemma_magic_in_window(w: u32)
    requires
        membox_magic_ok(w),
    ensures
        OS_MEMBOX_MAGIC <= w <= OS_MEMBOX_MAGIC + 0xff,
{
    assert(w == (0xa55a_5a00u32 | (w & 0xffu32)) ==> 0xa55a_5a00u32 <= w && w <= 0xa55a_5affu32)
        by (bit_vector);
}

/// Rounds a size up to the pointer alignment (4 bytes on the target), on 32
/// bits with wrap-around.
pub fn los_membox_aligned(mem_addr: u32) -> (r: u32)
    ensures
        r == membox_aligned_spec(mem_addr),
        mem_addr <= u32::MAX - 3 ==> mem_addr <= r <= mem_addr + 3 && r % 4 == 0,
{
    let r = mem_addr.wrapping_add(3) & !3u32;
    proof {
        let s = mem_addr.wrapping_add(3);
        assert(s & !3u32 <= s && s - (s & !3u32) < 4 && (s & !3u32) % 4 == 0) by (bit_vector);
    }
    r
}

/// The owner task id kept in a block header word.
pub fn os_membox_taskid_get(word: u32) -> (r: u32)
    ensures
        r == word & OS_MEMBOX_MAX_TASKID,
        r <= 0xff,
{
    proof {
        assert(word & 0xffu32 <= 0xffu32) by (bit_vector);
    }
    word & OS_MEMBOX_MAX_TASKID
}

/// The magic word to store in a block that task `task_id` allocates.
pub fn os_membox_set_magic(task_id: u32) -> (r: u32)
    ensures
        r == membox_magic_spec(task_id),
        membox_magic_spec(task_id) == r,
        task_id <= LOSCFG_BASE_CORE_TSK_LIMIT + 1 ==> membox_magic_ok(r),
{
    let r = OS_MEMBOX_MAGIC | (task_id & OS_MEMBOX_MAX_TASKID);
    proof {
        assert(task_id <= 16 ==> (0xa55a_5a00u32 | (task_id & 0xffu32)) & 0xffu32 == task_id
            && (0xa55a_5a00u32 | (task_id & 0xffu32)) == (0xa55a_5a00u32
            | ((0xa55a_5a00u32 | (task_id & 0xffu32)) & 0xffu32))) by (bit_vector);
    }
    r
}

/// Checks the allocation magic of a block header word: `LOS_OK` when the
/// word is a magic with a valid owner id, `LOS_NOK` otherwise.
pub fn os_membox_check_magic(word: u32) -> (r: u32)
    ensures
        r == LOS_OK <==> membox_magic_ok(word),
        r == LOS_OK || r == LOS_NOK,
{
    let task_id = os_membox_taskid_get(word);
    if task_id > LOSCFG_BASE_CORE_TSK_LIMIT + 1 {
        LOS_NOK
    } else if word == (OS_MEMBOX_MAGIC | task_id) {
        LOS_OK
    } else {
        LOS_NOK
    }
}

/// The abstract state of a pool: its geometry and counters, the header
/// word of every block, and the free blocks in free-list order.
pub struct MemboxView {
    pub pool: u32,
    pub blk_size: u32,
    pub blk_num: u32,
    pub blk_cnt: u32,
    pub free_head: u32,
    pub words: Seq<u32>,
    pub free: Seq<int>,
}

impl MemboxView {
    /// Address of the first block.
    pub open spec fn start(self) -> int {
        self.pool + MEMBOX_INFO_SIZE
    }

    /// Address of block `i`.
    pub open spec fn node_addr(self, i: int) -> int {
        self.start() + i * self.blk_size
    }

    /// The header word that the free block at position `k` of the free list
    /// holds: the address of the next free block, or 0 for the last one.
    pub open spec fn free_link(self, k: int) -> u32 {
        if k + 1 < self.free.len() {
            self.node_addr(self.free[k + 1]) as u32
        } else {
            0
        }
    }

    /// Byte offset of address `node` from the first block, on 32 bits.
    pub open spec fn offset_of(self, node: u32) -> u32 {
        node.wrapping_sub(self.start() as u32)
    }

    /// The block index that `node` designates when it is a block address.
    pub open spec fn node_index(self, node: u32) -> int {
        self.offset_of(node) as int / (self.blk_size as int)
    }

    /// The check that the free path makes on a block address: it lies on a
    /// block boundary inside the pool and its header carries a valid magic.
    pub open spec fn check_box_mem(self, node: u32) -> bool {
        &&& self.blk_size != 0
        &&& self.offset_of(node) as int % (self.blk_size as int) == 0
        &&& self.node_index(node) < self.blk_num
        &&& membox_magic_ok(self.words[self.node_index(node)])
    }

    /// Whether the blocks lie clear of the 256 addresses a magic word can
    /// take: then no free-list link can pass for an owner magic.
    pub open spec fn clear(self) -> bool {
        clear_of_magic(self.start(), self.start() + self.blk_num * self.blk_size)
    }

    /// Well-formedness: geometry inside the address space, the free list
    /// threads exactly the free blocks in order, and the count of allocated
    /// blocks agrees.
    pub open spec fn wf(self) -> bool {
        &&& self.pool > 0
        &&& self.blk_size >= OS_MEMBOX_NODE_HEAD_SIZE
        &&& self.blk_size % 4 == 0
        &&& self.blk_num >= 1
        &&& self.start() + self.blk_num * self.blk_size <= u32::MAX
        &&& self.words.len() == self.blk_num
        &&& self.free.no_duplicates()
        &&& forall|k: int| 0 <= k < self.free.len() ==> 0 <= #[trigger] self.free[k] < self.blk_num
        &&& self.blk_cnt == self.blk_num - self.free.len()
        &&& self.free_head == (if self.free.len() == 0 {
            0
        } else {
            self.node_addr(self.free[0]) as u32
        })
        &&& forall|k: int|
            0 <= k < self.free.len() ==> self.words[#[trigger] self.free[k]] == self.free_link(k)
    }
}

/// The effect of an allocation by task `tid`: the first free block leaves
/// the list and takes the owner magic; its user address is returned, or 0
/// when the pool is exhausted.
pub open spec fn membox_alloc_spec(v: MemboxView, tid: u32) -> (MemboxView, u32) {
    if v.free.len() == 0 {
        (v, 0)
    } else {
        let i = v.free[0];
        (
            MemboxView {
                blk_cnt: (v.blk_cnt + 1) as u32,
                free_head: v.free_link(0),
                words: v.words.update(i, membox_magic_spec(tid)),
                free: v.free.drop_first(),
                ..v
            },
            (v.node_addr(i) + OS_MEMBOX_NODE_HEAD_SIZE) as u32,
        )
    }
}

/// The effect of freeing the block whose user address is `box_addr`: it is
/// accepted only when `box_addr` is non-zero and its block passes the check;
/// the block then becomes the head of the free list.
pub open spec fn membox_free_spec(v: MemboxView, box_addr: u32) -> (MemboxView, u32) {
    let node = box_addr.wrapping_sub(OS_MEMBOX_NODE_HEAD_SIZE);
    if box_addr == 0 || !v.check_box_mem(node) {
        (v, LOS_NOK)
    } else {
        let i = v.node_index(node);
        (
            MemboxView {
                blk_cnt: (v.blk_cnt - 1) as u32,
                free_head: node,
                words: v.words.update(i, v.free_head),
                free: seq![i] + v.free,
                ..v
            },
            LOS_OK,
        )
    }
}

impl View for LOS_MEMBOX_INFO {
    type V = MemboxView;

    open spec fn view(&self) -> MemboxView {
        MemboxView {
            pool: self.pool,
            blk_size: self.uwBlkSize,
            blk_num: self.uwBlkNum,
            blk_cnt: self.uwBlkCnt,
            free_head: self.stFreeList,
            words: self.node_words@,
            free: self.free@,
        }
    }
}

impl LOS_MEMBOX_INFO {
    /// Well-formedness of the pool (see `MemboxView::wf`).
    pub open spec fn wf(&self) -> bool {
        self@.wf()
    }
}

proof fn lemma_node_addr_bounds(v: MemboxView, i: int)
    requires
        v.wf(),
        0 <= i < v.blk_num,
    ensures
        v.start() <= v.node_addr(i),
        v.node_addr(i) + v.blk_size <= v.start() + v.blk_num * v.blk_size,
        v.offset_of(v.node_addr(i) as u32) == i * v.blk_size,
        v.node_index(v.node_addr(i) as u32) == i,
        v.offset_of(v.node_addr(i) as u32) as int % (v.blk_size as int) == 0,
{
    let bs = v.blk_size as int;
    let n = v.blk_num as int;
    assert(0 <= i * bs && i * bs + bs <= n * bs) by (nonlinear_arith)
        requires 0 <= i < n, bs >= 0;
    assert((i * bs) / bs == i && (i * bs) % bs == 0) by (nonlinear_arith)
        requires bs > 0, i >= 0;
}

/// A free block's header word never passes the magic check.
proof fn lemma_free_link_not_magic(v: MemboxView, k: int)
    requires
        v.wf(),
        v.clear(),
        0 <= k < v.free.len(),
    ensures
        !membox_magic_ok(v.free_link(k)),
{
    if membox_magic_ok(v.free_link(k)) {
        lemma_magic_in_window(v.free_link(k));
        if k + 1 < v.free.len() {
            lemma_node_addr_bounds(v, v.free[k + 1]);
        }
    }
}

/// In a pool clear of the magic window, a block that passes the free check
/// is not on the free list.
proof fn lemma_checked_block_not_free(v: MemboxView, node: u32)
    requires
        v.wf(),
        v.clear(),
        v.check_box_mem(node),
    ensures
        !v.free.contains(v.node_index(node)),
        0 <= v.node_index(node) < v.blk_num,
{
    let i = v.node_index(node);
    if v.free.contains(i) {
        let k = choose|k: int| 0 <= k < v.free.len() && v.free[k] == i;
        lemma_free_link_not_magic(v, k);
    }
}

/// An allocation leaves a well-formed pool.
proof fn lemma_alloc_keeps_wf(v: MemboxView, tid: u32)
    requires
        v.wf(),
    ensures
        membox_alloc_spec(v, tid).0.wf(),
{
    if v.free.len() > 0 {
        let f = v.free;
        let w = membox_alloc_spec(v, tid).0;
        assert forall|k: int| 0 <= k < w.free.len() implies w.words[#[trigger] w.free[k]]
            == w.free_link(k) by {
            assert(f[k + 1] != f[0]);
            assert(v.words[f[k + 1]] == v.free_link(k + 1));
        }
    }
}

/// An accepted free of a block that is not free leaves a well-formed pool.
proof fn lemma_free_keeps_wf(v: MemboxView, box_addr: u32)
    requires
        v.wf(),
        box_addr != 0,
        v.check_box_mem(box_addr.wrapping_sub(OS_MEMBOX_NODE_HEAD_SIZE)),
        !v.free.contains(v.node_index(box_addr.wrapping_sub(OS_MEMBOX_NODE_HEAD_SIZE))),
    ensures
        membox_free_spec(v, box_addr).0.wf(),
        membox_free_spec(v, box_addr).0.free_head == v.node_addr(
            v.node_index(box_addr.wrapping_sub(OS_MEMBOX_NODE_HEAD_SIZE)),
        ),
        v.blk_cnt >= 1,
{
    let node = box_addr.wrapping_sub(OS_MEMBOX_NODE_HEAD_SIZE);
    let i = v.node_index(node);
    let w = membox_free_spec(v, box_addr).0;
    let bs = v.blk_size as int;
    let off = v.offset_of(node) as int;
    assert(off == i * bs) by (nonlinear_arith)
        requires i == off / bs, off % bs == 0, bs > 0;
    lemma_node_addr_bounds(v, i);
    assert(node == v.node_addr(i));
    assert forall|k: int| 0 <= k < w.free.len() implies w.words[#[trigger] w.free[k]]
        == w.free_link(k) by {
        if k > 0 {
            assert(w.free[k] == v.free[k - 1]);
            assert(v.words[v.free[k - 1]] == v.free_link(k - 1));
        }
    }
    assert(w.free.no_duplicates()) by {
        assert forall|a: int, b: int| 0 <= a < b < w.free.len() implies w.free[a] != w.free[b] by {
            if a == 0 {
                assert(v.free[b - 1] == w.free[b]);
            }
        }
    }
    // The free list of the pool is shorter than the pool.
    assert(v.free.len() < v.blk_num) by {
        let s = v.free.to_set();
        let r = vstd::set_lib::set_int_range(0, v.blk_num as int);
        v.free.unique_seq_to_set();
        vstd::set_lib::lemma_int_range(0, v.blk_num as int);
        assert(s.subset_of(r.remove(i)));
        vstd::set_lib::lemma_len_subset(s, r.remove(i));
    }
}

/// Why a pool could not be set up: the result code (`LOS_NOK`) and, when
/// the header was written before the failure, the block size, block count
/// and allocated count it now holds.
pub struct MemboxInitError {
    pub ret: u32,
    pub written: Option<(u32, u32, u32)>,
}

/// The block size, node header included, that a pool for blocks of
/// `blk_size` user bytes uses.
pub open spec fn membox_block_size(blk_size: u32) -> u32 {
    membox_aligned_spec(blk_size.wrapping_add(OS_MEMBOX_NODE_HEAD_SIZE))
}

/// Initializes a memory box pool of `poolSize` bytes at address `pool` for
/// blocks of `blkSize` user bytes.  It fails with `LOS_NOK`, writing
/// nothing, when the pool address or the block size is zero or the pool
/// cannot hold its header; it fails with `LOS_NOK` after writing the header
/// (block size, no block, none allocated) when not one block fits.
/// Otherwise every block is free and linked in address order.
pub fn LOS_MemboxInit(pool: u32, poolSize: u32, blkSize: u32) -> (r: Result<LOS_MEMBOX_INFO, MemboxInitError>)
    requires
        pool + poolSize <= u32::MAX,
        blkSize == 0 || membox_block_size(blkSize) != 0,
    ensures
        ({
            let s = membox_block_size(blkSize);
            let fits = pool != 0 && blkSize != 0 && poolSize >= MEMBOX_INFO_SIZE;
            let n = (poolSize - MEMBOX_INFO_SIZE) / (s as int);
            let start = pool + MEMBOX_INFO_SIZE;
            &&& r is Ok <==> fits && n != 0
            &&& match r {
                Ok(info) => {
                    &&& info.wf()
                    &&& info.pool == pool
                    &&& info.uwBlkSize == s
                    &&& info.uwBlkNum == n
                    &&& info.uwBlkCnt == 0
                    &&& info.free@ == Seq::new(info.uwBlkNum as nat, |i: int| i)
                },
                Err(e) => {
                    &&& e.ret == LOS_NOK
                    &&& e.written == (if fits && n == 0 { Some((s, 0u32, 0u32)) } else { None })
                },
            }
        }),
{
    if pool == 0 || blkSize == 0 {
        return Err(MemboxInitError { ret: LOS_NOK, written: None });
    }
    if poolSize < MEMBOX_INFO_SIZE {
        return Err(MemboxInitError { ret: LOS_NOK, written: None });
    }
    let blk_size = los_membox_aligned(blkSize.wrapping_add(OS_MEMBOX_NODE_HEAD_SIZE));
    let blk_num = (poolSize - MEMBOX_INFO_SIZE) / blk_size;
    if blk_num == 0 {
        return Err(MemboxInitError { ret: LOS_NOK, written: Some((blk_size, 0, 0)) });
    }
    proof {
        let bs = blk_size as int;
        let n = blk_num as int;
        assert(n * bs <= poolSize - MEMBOX_INFO_SIZE) by (nonlinear_arith)
            requires n == (poolSize - MEMBOX_INFO_SIZE) / bs, bs > 0, poolSize >= MEMBOX_INFO_SIZE;
        assert(blk_size >= 4 && blk_size % 4 == 0) by {
            let x = blkSize.wrapping_add(OS_MEMBOX_NODE_HEAD_SIZE);
            let s = x.wrapping_add(3);
            assert(s & !3u32 != 0 ==> (s & !3u32) >= 4 && (s & !3u32) % 4 == 0) by (bit_vector);
        }
    }
    let start = pool + MEMBOX_INFO_SIZE;
    let mut words: Vec<u32> = Vec::new();
    let mut index: u32 = 0;
    let ghost bs = blk_size as int;
    let ghost n = blk_num as int;
    while index < blk_num - 1
        invariant
            0 <= index <= blk_num - 1,
            n == blk_num,
            bs == blk_size,
            bs >= 4,
            start == pool + MEMBOX_INFO_SIZE,
            start + n * bs <= u32::MAX,
            words@.len() == index,
            forall|k: int| 0 <= k < index ==> words@[k] == start + (k + 1) * bs,
        decreases blk_num - 1 - index,
    {
        proof {
            assert((index + 2) * bs <= n * bs) by (nonlinear_arith)
                requires index + 2 <= n, bs >= 0;
            assert((index + 1) * bs + bs == (index + 2) * bs) by (nonlinear_arith);
        }
        let next = start + (index + 1) * blk_size;
        words.push(next);
        index = index + 1;
    }
    words.push(0);
    let info = LOS_MEMBOX_INFO {
        pool,
        uwBlkSize: blk_size,
        uwBlkNum: blk_num,
        uwBlkCnt: 0,
        stFreeList: start,
        node_words: words,
        free: Ghost(Seq::new(blk_num as nat, |i: int| i)),
    };
    proof {
        let v = info@;
        assert(v.node_addr(0) == start);
        assert forall|k: int| 0 <= k < v.free.len() implies v.words[#[trigger] v.free[k]]
            == v.free_link(k) by {
            if k + 1 < n {
                assert(v.node_addr(k + 1) == start + (k + 1) * bs);
            }
        }
    }
    Ok(info)
}

/// Checks that `node` is the address of an allocated block of the pool:
/// `LOS_OK` when it lies on a block boundary inside the pool and its header
/// carries a valid magic, `LOS_NOK` otherwise.
pub fn os_check_box_mem(info: &LOS_MEMBOX_INFO, node: u32) -> (r: u32)
    requires
        info.wf(),
    ensures
        r == LOS_OK <==> info@.check_box_mem(node),
        r == LOS_OK || r == LOS_NOK,
{
    if info.uwBlkSize == 0 {
        return LOS_NOK;
    }
    let start = info.pool + MEMBOX_INFO_SIZE;
    let offset = node.wrapping_sub(start);
    if offset % info.uwBlkSize != 0 {
        return LOS_NOK;
    }
    if offset / info.uwBlkSize >= info.uwBlkNum {
        return LOS_NOK;
    }
    os_membox_check_magic(info.node_words[(offset / info.uwBlkSize) as usize])
}

/// Allocates one block for task `cur_task_id`: the first free block leaves
/// the free list, its header takes the owner magic and its user address
/// (block address + 4) is returned; 0 when no block is free.
pub fn LOS_MemboxAlloc(info: &mut LOS_MEMBOX_INFO, cur_task_id: u32) -> (r: u32)
    requires
        old(info).wf(),
    ensures
        final(info).wf(),
        (final(info)@, r) == membox_alloc_spec(old(info)@, cur_task_id),
{
    let ghost v = info@;
    if info.stFreeList == 0 {
        proof {
            if v.free.len() > 0 {
                lemma_node_addr_bounds(v, v.free[0]);
            }
        }
        return 0;
    }
    let ghost i = v.free[0];
    proof {
        lemma_node_addr_bounds(v, i);
        lemma_alloc_keeps_wf(v, cur_task_id);
    }
    let node = info.stFreeList;
    let idx = (node - (info.pool + MEMBOX_INFO_SIZE)) / info.uwBlkSize;
    let next = info.node_words[idx as usize];
    let magic = os_membox_set_magic(cur_task_id);
    info.node_words.set(idx as usize, magic);
    info.stFreeList = next;
    info.uwBlkCnt = info.uwBlkCnt + 1;
    info.free = Ghost(v.free.drop_first());
    proof {
        assert(v.words[v.free[0]] == v.free_link(0));
        assert(info@ == membox_alloc_spec(v, cur_task_id).0);
    }
    node + OS_MEMBOX_NODE_HEAD_SIZE
}

/// Frees the block whose user address is `box_addr`.  It returns `LOS_OK`
/// and puts the block at the head of the free list exactly when `box_addr`
/// is non-zero and designates an allocated block (see `check_box_mem`);
/// otherwise the pool is unchanged and `LOS_NOK` is returned.  In a pool
/// whose blocks reach into the magic window (see `MemboxView::clear`) the
/// link word of a free block can pass the check; freeing such a block again
/// would link it twice and break the free list, so it is left out.
pub fn LOS_MemboxFree(info: &mut LOS_MEMBOX_INFO, box_addr: u32) -> (r: u32)
    requires
        old(info).wf(),
        old(info)@.clear() || !old(info)@.free.contains(
            old(info)@.node_index(box_addr.wrapping_sub(OS_MEMBOX_NODE_HEAD_SIZE)),
        ),
    ensures
        final(info).wf(),
        (final(info)@, r) == membox_free_spec(old(info)@, box_addr),
{
    let ghost v = info@;
    if box_addr == 0 {
        return LOS_NOK;
    }
    let node = box_addr.wrapping_sub(OS_MEMBOX_NODE_HEAD_SIZE);
    if os_check_box_mem(info, node) != LOS_OK {
        return LOS_NOK;
    }
    proof {
        if v.clear() {
            lemma_checked_block_not_free(v, node);
        }
        lemma_free_keeps_wf(v, box_addr);
    }
    let start = info.pool + MEMBOX_INFO_SIZE;
    let idx = node.wrapping_sub(start) / info.uwBlkSize;
    let old_head = info.stFreeList;
    info.node_words.set(idx as usize, old_head);
    info.stFreeList = node;
    info.uwBlkCnt = info.uwBlkCnt - 1;
    info.free = Ghost(seq![v.node_index(node)] + v.free);
    proof {
        assert(info@ == membox_free_spec(v, box_addr).0);
    }
    LOS_OK
}

/// Clearing block `box_addr` (`LOS_MemboxClr`): the user area to overwrite
/// with zeros, `uwBlkSize - 4` bytes from `box_addr`, which the owner of the
/// pool memory then zeroes; nothing when `box_addr` is 0.  The block's
/// header, the other blocks and the pool state stay as they are.
pub fn LOS_MemboxClr(info: &LOS_MEMBOX_INFO, box_addr: u32) -> (r: Option<(u32, u32)>)
    requires
        info.wf(),
    ensures
        box_addr == 0 ==> r is None,
        box_addr != 0 ==> r == Some((box_addr, (info.uwBlkSize - OS_MEMBOX_NODE_HEAD_SIZE) as u32)),
{
    if box_addr == 0 {
        return None;
    }
    Some((box_addr, info.uwBlkSize - OS_MEMBOX_NODE_HEAD_SIZE))
}

/// Statistics of the pool: the number of blocks, the number of allocated
/// blocks and the block size.
pub fn LOS_MemboxStatisticsGet(info: &LOS_MEMBOX_INFO) -> (r: (u32, u32, u32))
    requires
        info.wf(),
    ensures
        r == (info.uwBlkNum, info.uwBlkCnt, info.uwBlkSize),
        r.1 == r.0 - info.free@.len(),
{
    (info.uwBlkNum, info.uwBlkCnt, info.uwBlkSize)
}

/// What the pool dump shows: the free blocks in free-list order, then every
/// block in address order with its header word.
pub struct MemboxReport {
    pub free_nodes: Vec<u32>,
    pub all_nodes: Vec<(u32, u32)>,
}

/// Collects the pool dump: walks the free list from its head through the
/// block header words, then lists every block with its header word.
pub fn LOS_ShowBox(info: &LOS_MEMBOX_INFO) -> (r: MemboxReport)
    requires
        info.wf(),
    ensures
        r.free_nodes@.len() == info.free@.len(),
        forall|k: int| 0 <= k < info.free@.len() ==> r.free_nodes@[k] == info@.node_addr(
            #[trigger] info.free@[k]),
        r.all_nodes@.len() == info.uwBlkNum,
        forall|i: int| 0 <= i < info.uwBlkNum ==> #[trigger] r.all_nodes@[i] == (
            info@.node_addr(i) as u32,
            info.node_words@[i],
        ),
{
    let ghost v = info@;
    let mut free_nodes: Vec<u32> = Vec::new();
    let mut node = info.stFreeList;
    let start = info.pool + MEMBOX_INFO_SIZE;
    while node != 0
        invariant
            v == info@,
            v.wf(),
            start == v.start(),
            free_nodes@.len() <= v.free.len(),
            node == (if free_nodes@.len() < v.free.len() {
                v.node_addr(v.free[free_nodes@.len() as int]) as u32
            } else {
                0u32
            }),
            forall|k: int| 0 <= k < free_nodes@.len() ==> free_nodes@[k] == v.node_addr(
                #[trigger] v.free[k]),
        decreases v.free.len() - free_nodes@.len(),
    {
        let ghost k = free_nodes@.len() as int;
        proof {
            if k >= v.free.len() {
                assert(false);
            }
            lemma_node_addr_bounds(v, v.free[k]);
        }
        free_nodes.push(node);
        let idx = (node - start) / info.uwBlkSize;
        node = info.node_words[idx as usize];
        proof {
            assert(v.words[v.free[k]] == v.free_link(k));
            if k + 1 < v.free.len() {
                lemma_node_addr_bounds(v, v.free[k + 1]);
            }
        }
    }
    proof {
        if free_nodes@.len() < v.free.len() {
            lemma_node_addr_bounds(v, v.free[free_nodes@.len() as int]);
        }
    }
    let mut all_nodes: Vec<(u32, u32)> = Vec::new();
    let mut index: u32 = 0;
    let mut addr = start;
    while index < info.uwBlkNum
        invariant
            v == info@,
            v.wf(),
            index <= v.blk_num,
            index < v.blk_num ==> addr == v.node_addr(index as int),
            all_nodes@.len() == index,
            forall|i: int| 0 <= i < index ==> #[trigger] all_nodes@[i] == (
                v.node_addr(i) as u32,
                v.words[i],
            ),
        decreases v.blk_num - index,
    {
        proof {
            lemma_node_addr_bounds(v, index as int);
            assert(v.node_addr(index + 1) == v.node_addr(index as int) + v.blk_size) by (nonlinear_arith)
                requires true;
        }
        all_nodes.push((addr, info.node_words[index as usize]));
        if index + 1 < info.uwBlkNum {
            proof {
                lemma_node_addr_bounds(v, index + 1);
            }
            addr = addr + info.uwBlkSize;
        }
        index = index + 1;
    }
    MemboxReport { free_nodes, all_nodes }
}

proof fn lemma_magic_spec_ok(tid: u32)
    requires
        tid <= LOSCFG_BASE_CORE_TSK_LIMIT + 1,
    ensures
        membox_magic_ok(membox_magic_spec(tid)),
{
    assert(tid <= 16 ==> (0xa55a_5a00u32 | (tid & 0xffu32)) & 0xffu32 == tid
        && (0xa55a_5a00u32 | (tid & 0xffu32)) == (0xa55a_5a00u32
        | ((0xa55a_5a00u32 | (tid & 0xffu32)) & 0xffu32))) by (bit_vector);
}

/// Allocating a block and freeing the address it returned succeeds and
/// gives back exactly the pool that was there before, when the allocating
/// task id is a valid owner id.
pub proof fn lemma_membox_alloc_free_roundtrip(v: MemboxView, tid: u32)
    requires
        v.wf(),
        v.free.len() > 0,
        tid <= LOSCFG_BASE_CORE_TSK_LIMIT + 1,
    ensures
        membox_alloc_spec(v, tid).1 != 0,
        membox_free_spec(membox_alloc_spec(v, tid).0, membox_alloc_spec(v, tid).1) == (v, LOS_OK),
{
    let (a, p) = membox_alloc_spec(v, tid);
    let i = v.free[0];
    lemma_alloc_keeps_wf(v, tid);
    lemma_node_addr_bounds(v, i);
    lemma_magic_spec_ok(tid);
    let node = p.wrapping_sub(OS_MEMBOX_NODE_HEAD_SIZE);
    assert(node == v.node_addr(i));
    assert(a.node_index(node) == i);
    assert(a.check_box_mem(node));
    assert(!a.free.contains(i)) by {
        if a.free.contains(i) {
            let k = choose|k: int| 0 <= k < a.free.len() && a.free[k] == i;
            assert(v.free[k + 1] == v.free[0]);
        }
    }
    let (b, r) = membox_free_spec(a, p);
    assert(v.words[i] == v.free_link(0));
    assert(b.words =~= v.words);
    assert(b.free =~= v.free);
    assert(b == v);
}

/// In a pool clear of the magic window, freeing the same block twice is
/// refused the second time and leaves the pool unchanged.
pub proof fn lemma_membox_double_free_rejected(v: MemboxView, box_addr: u32)
    requires
        v.wf(),
        v.clear(),
        membox_free_spec(v, box_addr).1 == LOS_OK,
    ensures
        membox_free_spec(membox_free_spec(v, box_addr).0, box_addr) == (
            membox_free_spec(v, box_addr).0,
            LOS_NOK,
        ),
{
    let w = membox_free_spec(v, box_addr).0;
    let node = box_addr.wrapping_sub(OS_MEMBOX_NODE_HEAD_SIZE);
    let i = v.node_index(node);
    lemma_checked_block_not_free(v, node);
    lemma_free_keeps_wf(v, box_addr);
    assert(w.free[0] == i);
    assert(w.node_index(node) == i);
    if w.check_box_mem(node) {
        lemma_checked_block_not_free(w, node);
        assert(w.free.contains(i));
    }
}

/// Two successive allocations hand out different blocks.
pub proof fn lemma_membox_allocs_distinct(v: MemboxView, t1: u32, t2: u32)
    requires
        v.wf(),
        v.free.len() >= 2,
    ensures
        membox_alloc_spec(v, t1).1 != 0,
        membox_alloc_spec(membox_alloc_spec(v, t1).0, t2).1 != 0,
        membox_alloc_spec(v, t1).1 != membox_alloc_spec(membox_alloc_spec(v, t1).0, t2).1,
{
    lemma_alloc_keeps_wf(v, t1);
    lemma_node_addr_bounds(v, v.free[0]);
    lemma_node_addr_bounds(v, v.free[1]);
    let bs = v.blk_size as int;
    assert(v.free[0] * bs != v.free[1] * bs) by (nonlinear_arith)
        requires v.free[0] != v.free[1], bs > 0;
}

/// The number of allocated blocks is the number of blocks that are off the
/// free list: allocation raises it by one and, in a pool clear of the magic
/// window, an accepted free lowers it by one.
pub proof fn lemma_membox_count_tracks(v: MemboxView, tid: u32, box_addr: u32)
    requires
        v.wf(),
    ensures
        v.blk_cnt == v.blk_num - v.free.len(),
        v.free.len() > 0 ==> membox_alloc_spec(v, tid).0.blk_cnt == v.blk_cnt + 1,
        v.clear() && membox_free_spec(v, box_addr).1 == LOS_OK ==> membox_free_spec(v, box_addr).0.blk_cnt
            == v.blk_cnt - 1,
{
    if v.clear() && membox_free_spec(v, box_addr).1 == LOS_OK {
        lemma_checked_block_not_free(v, box_addr.wrapping_sub(OS_MEMBOX_NODE_HEAD_SIZE));
        lemma_free_keeps_wf(v, box_addr);
    }
}

} // verus!
