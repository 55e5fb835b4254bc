//! Sort links: the lists of timed nodes (delayed tasks, software timers)
//! kept in order of response time, the cycle count at which each expires.
use vstd::prelude::*;
use crate::defs::{LOS_OK, LOSCFG_BASE_CORE_TICK_PER_SECOND};

verus! {

/// Response time of a node that is on no sort link.
pub const OS_SORT_LINK_INVALID_TIME: u64 = 0xFFFF_FFFF_FFFF_FFFF;
/// Largest response time.
pub const OS_SORT_LINK_UINT64_MAX: u64 = 0xFFFF_FFFF_FFFF_FFFF;

/// Kind of sort link: task delays.
pub const OS_SORT_LINK_TASK: u32 = 1;
/// Kind of sort link: software timers.
pub const OS_SORT_LINK_SWTMR: u32 = 2;

/// A timed node: the id of the object it belongs to and its response time.
#[derive(Clone, Copy)]
pub struct SortLinkList {
    pub sortLinkNode: u32,
    pub responseTime: u64,
}

/// A sort link head: its nodes in link order.
pub struct SortLinkAttribute {
    sortLink: Vec<SortLinkList>,
}

impl View for SortLinkAttribute {
    type V = Seq<SortLinkList>;

    closed spec fn view(&self) -> Seq<SortLinkList> {
        self.sortLink@
    }
}

/// Whether the nodes are in non-decreasing order of response time.
pub open spec fn sorted_by_time(s: Seq<SortLinkList>) -> bool {
    forall|i: int, j: int| 0 <= i <= j < s.len() ==> s[i].responseTime <= s[j].responseTime
}

/// Where the backward scan from the last node stops for a node of response
/// time `t`: right after the last node at position `k` or before whose time
/// is not above `t`.
pub open spec fn tail_scan_pos(s: Seq<SortLinkList>, t: u64, k: int) -> int
    decreases k,
{
    if k <= 0 {
        1
    } else if s[k].responseTime <= t {
        k + 1
    } else {
        tail_scan_pos(s, t, k - 1)
    }
}

/// Position at which a node of response time `t` is linked: at the front
/// when the list is empty or its first node is later; right after the first
/// node when that one has the same time; otherwise right after the last node
/// whose time is not above `t`.
pub open spec fn sort_link_insert_pos(s: Seq<SortLinkList>, t: u64) -> int {
    if s.len() == 0 {
        0
    } else if s[0].responseTime > t {
        0
    } else if s[0].responseTime == t {
        1
    } else {
        tail_scan_pos(s, t, s.len() - 1)
    }
}

proof fn lemma_tail_scan_pos(s: Seq<SortLinkList>, t: u64, k: int)
    requires
        0 <= k < s.len(),
        s[0].responseTime < t,
        forall|j: int| k < j < s.len() ==> s[j].responseTime > t,
    ensures
        1 <= tail_scan_pos(s, t, k) <= k + 1,
        s[tail_scan_pos(s, t, k) - 1].responseTime <= t,
        forall|j: int| tail_scan_pos(s, t, k) <= j < s.len() ==> s[j].responseTime > t,
    decreases k,
{
    if k > 0 && s[k].responseTime > t {
        lemma_tail_scan_pos(s, t, k - 1);
    }
}

/// In a sorted list the insertion position separates the earlier-or-equal
/// nodes from the later-or-equal ones.
proof fn lemma_insert_pos_splits(s: Seq<SortLinkList>, t: u64)
    requires
        sorted_by_time(s),
    ensures
        0 <= sort_link_insert_pos(s, t) <= s.len(),
        forall|j: int| 0 <= j < sort_link_insert_pos(s, t) ==> s[j].responseTime <= t,
        forall|j: int| sort_link_insert_pos(s, t) <= j < s.len() ==> s[j].responseTime >= t,
{
    if s.len() > 0 && s[0].responseTime < t {
        let p = tail_scan_pos(s, t, s.len() - 1);
        lemma_tail_scan_pos(s, t, s.len() - 1);
        assert forall|j: int| 0 <= j < p implies s[j].responseTime <= t by {
            assert(s[j].responseTime <= s[p - 1].responseTime);
        }
    }
}

/// The insertion position lies within the list.
pub proof fn lemma_insert_pos_bounds(s: Seq<SortLinkList>, t: u64)
    ensures
        0 <= sort_link_insert_pos(s, t) <= s.len(),
{
    if s.len() > 0 && s[0].responseTime < t {
        lemma_tail_scan_pos(s, t, s.len() - 1);
    }
}

/// Linking a node into a sorted sort link keeps it sorted.
pub proof fn lemma_sort_link_insert_keeps_sorted(s: Seq<SortLinkList>, node: SortLinkList)
    requires
        sorted_by_time(s),
    ensures
        sorted_by_time(s.insert(sort_link_insert_pos(s, node.responseTime), node)),
{
    lemma_insert_pos_splits(s, node.responseTime);
}

/// Removing the node of an object from a sorted sort link keeps it sorted.
pub proof fn lemma_sort_link_remove_keeps_sorted(s: Seq<SortLinkList>, i: int)
    requires
        sorted_by_time(s),
        0 <= i < s.len(),
    ensures
        sorted_by_time(s.remove(i)),
{
    let r = s.remove(i);
    assert forall|a: int, b: int| 0 <= a <= b < r.len() implies r[a].responseTime
        <= r[b].responseTime by {
        let a2 = if a < i { a } else { a + 1 };
        let b2 = if b < i { b } else { b + 1 };
        assert(r[a] == s[a2] && r[b] == s[b2]);
    }
}

/// Position of the first node of object `owner` in `s`, if there is one.
pub open spec fn node_pos(s: Seq<SortLinkList>, owner: u32) -> Option<int> {
    if exists|i: int| 0 <= i < s.len() && s[i].sortLinkNode == owner {
        Some(
            choose|i: int|
                0 <= i < s.len() && s[i].sortLinkNode == owner && forall|j: int|
                    0 <= j < i ==> s[j].sortLinkNode != owner,
        )
    } else {
        None
    }
}

/// What `node_pos` gives: the first node of the owner, or none at all.
pub proof fn lemma_node_pos(s: Seq<SortLinkList>, owner: u32)
    ensures
        match node_pos(s, owner) {
            Some(i) => 0 <= i < s.len() && s[i].sortLinkNode == owner && forall|j: int|
                0 <= j < i ==> s[j].sortLinkNode != owner,
            None => forall|j: int| 0 <= j < s.len() ==> s[j].sortLinkNode != owner,
        },
{
    if exists|i: int| 0 <= i < s.len() && s[i].sortLinkNode == owner {
        let i0 = choose|i: int| 0 <= i < s.len() && s[i].sortLinkNode == owner;
        lemma_first_owner(s, owner, i0);
    }
}

proof fn lemma_first_owner(s: Seq<SortLinkList>, owner: u32, i0: int)
    requires
        0 <= i0 < s.len(),
        s[i0].sortLinkNode == owner,
    ensures
        exists|c: int| 0 <= c < s.len() && s[c].sortLinkNode == owner && forall|j: int|
            0 <= j < c ==> s[j].sortLinkNode != owner,
    decreases i0,
{
    if exists|j: int| 0 <= j < i0 && s[j].sortLinkNode == owner {
        let j = choose|j: int| 0 <= j < i0 && s[j].sortLinkNode == owner;
        lemma_first_owner(s, owner, j);
    } else {
        assert(forall|j: int| 0 <= j < i0 ==> s[j].sortLinkNode != owner);
    }
}

/// `s` without the first node of object `owner`.
pub open spec fn remove_owner(s: Seq<SortLinkList>, owner: u32) -> Seq<SortLinkList> {
    match node_pos(s, owner) {
        Some(i) => s.remove(i),
        None => s,
    }
}

/// Number of cycles in `ticks` ticks at a clock of `sys_clock` Hz.
pub open spec fn sys_tick_to_cycle_spec(ticks: u32, sys_clock: u32) -> u64 {
    ((ticks as int * sys_clock as int) / (LOSCFG_BASE_CORE_TICK_PER_SECOND as int)) as u64
}

/// Converts a time from `old_freq` to `new_freq` as the sort link does:
/// divided by the integer ratio when slowing down, multiplied (on 64 bits,
/// wrapping) when speeding up.
pub open spec fn sort_link_convert_spec(time: u64, old_freq: u32, new_freq: u32) -> u64 {
    if old_freq >= new_freq {
        time / ((old_freq / new_freq) as u64)
    } else {
        time.wrapping_mul((new_freq / old_freq) as u64)
    }
}

/// A node with its response time converted between frequencies.
pub open spec fn converted_node(n: SortLinkList, old_freq: u32, new_freq: u32) -> SortLinkList {
    SortLinkList {
        sortLinkNode: n.sortLinkNode,
        responseTime: sort_link_convert_spec(n.responseTime, old_freq, new_freq),
    }
}

/// Cycles remaining until `node` expires at time `currTime`, 0 once due.
pub open spec fn target_expire_spec(currTime: u64, responseTime: u64) -> u64 {
    if currTime >= responseTime {
        0
    } else {
        (responseTime - currTime) as u64
    }
}

/// The next expiry that the scheduler programs for a sort link at `start`:
/// none (the largest time less the precision) when empty, otherwise the
/// first node's time, but not earlier than `start + precision` (saturating).
pub open spec fn next_expire_spec(s: Seq<SortLinkList>, start: u64, precision: u32) -> u64 {
    if s.len() == 0 {
        (OS_SORT_LINK_UINT64_MAX - precision) as u64
    } else {
        let cutoff = if start + precision > u64::MAX {
            u64::MAX
        } else {
            (start + precision) as u64
        };
        if s[0].responseTime <= cutoff {
            cutoff
        } else {
            s[0].responseTime
        }
    }
}

/// Number of cycles in `ticks` ticks at a clock of `sys_clock` Hz.
pub fn os_sys_tick_to_cycle(ticks: u32, sys_clock: u32) -> (r: u64)
    ensures
        r == sys_tick_to_cycle_spec(ticks, sys_clock),
{
    proof {
        assert(ticks as u64 * sys_clock as u64 <= u64::MAX) by (nonlinear_arith)
            requires ticks <= u32::MAX, sys_clock <= u32::MAX;
    }
    (ticks as u64 * sys_clock as u64) / (LOSCFG_BASE_CORE_TICK_PER_SECOND as u64)
}

/// Converts a response time between clock frequencies (`OsTimeConvertFreq`).
pub fn OsTimeConvertFreq(time: u64, old_freq: u32, new_freq: u32) -> (r: u64)
    requires
        old_freq > 0,
        new_freq > 0,
    ensures
        r == sort_link_convert_spec(time, old_freq, new_freq),
{
    if old_freq >= new_freq {
        proof {
            assert(old_freq / new_freq >= 1) by (nonlinear_arith)
                requires old_freq >= new_freq, new_freq > 0;
        }
        time / ((old_freq / new_freq) as u64)
    } else {
        time.wrapping_mul((new_freq / old_freq) as u64)
    }
}

/// Cycles remaining until a node of response time `responseTime` expires at
/// time `currTime`, 0 once it is due (`OsSortLinkGetTargetExpireTime`).
pub fn OsSortLinkGetTargetExpireTime(currTime: u64, targetSortList: &SortLinkList) -> (r: u64)
    ensures
        r == target_expire_spec(currTime, targetSortList.responseTime),
{
    if currTime >= targetSortList.responseTime {
        return 0;
    }
    targetSortList.responseTime - currTime
}

impl SortLinkAttribute {
    /// An empty sort link head.
    pub fn new() -> (r: SortLinkAttribute)
        ensures
            r@ == Seq::<SortLinkList>::empty(),
    {
        SortLinkAttribute { sortLink: Vec::new() }
    }

    /// Number of nodes.
    pub fn len(&self) -> (r: usize)
        ensures
            r == self@.len(),
    {
        self.sortLink.len()
    }

    /// The node at position `i`.
    pub fn get(&self, i: usize) -> (r: SortLinkList)
        requires
            i < self@.len(),
        ensures
            r == self@[i as int],
    {
        self.sortLink[i]
    }

    /// Empties the sort link (`OsSortLinkInit`); returns `LOS_OK`.
    pub fn OsSortLinkInit(&mut self) -> (r: u32)
        ensures
            final(self)@ == Seq::<SortLinkList>::empty(),
            r == LOS_OK,
    {
        self.sortLink.clear();
        LOS_OK
    }

    /// Links `node` at the place its response time gives it
    /// (`OsAddNode2SortLink`): see `sort_link_insert_pos`.
    pub fn OsAddNode2SortLink(&mut self, node: SortLinkList)
        ensures
            final(self)@ == old(self)@.insert(sort_link_insert_pos(old(self)@, node.responseTime), node),
    {
        let len = self.sortLink.len();
        if len == 0 {
            self.sortLink.insert(0, node);
            return;
        }
        let first = self.sortLink[0].responseTime;
        if first > node.responseTime {
            self.sortLink.insert(0, node);
            return;
        } else if first == node.responseTime {
            self.sortLink.insert(1, node);
            return;
        }
        let ghost s = self@;
        let mut k: usize = len - 1;
        while k > 0 && self.sortLink[k].responseTime > node.responseTime
            invariant
                s == self@,
                s.len() == len,
                0 <= k < len,
                s[0].responseTime < node.responseTime,
                tail_scan_pos(s, node.responseTime, k as int) == tail_scan_pos(
                    s,
                    node.responseTime,
                    len - 1,
                ),
            decreases k,
        {
            k = k - 1;
        }
        self.sortLink.insert(k + 1, node);
    }

    /// Position of the first node of object `owner`, if it is linked.
    pub fn find_owner(&self, owner: u32) -> (r: Option<usize>)
        ensures
            match r {
                Some(i) => i < self@.len() && node_pos(self@, owner) == Some(i as int),
                None => node_pos(self@, owner) is None,
            },
    {
        let mut i: usize = 0;
        while i < self.sortLink.len()
            invariant
                i <= self@.len(),
                forall|j: int| 0 <= j < i ==> self@[j].sortLinkNode != owner,
            decreases self@.len() - i,
        {
            if self.sortLink[i].sortLinkNode == owner {
                proof {
                    let s = self@;
                    let c = choose|c: int|
                        0 <= c < s.len() && s[c].sortLinkNode == owner && forall|j: int|
                            0 <= j < c ==> s[j].sortLinkNode != owner;
                    assert(c == i as int) by {
                        if c < i {
                        } else if c > i {
                            assert(s[i as int].sortLinkNode == owner);
                        }
                    }
                }
                return Some(i);
            }
            i = i + 1;
        }
        None
    }

    /// Unlinks the node of object `owner` (`OsDeleteNodeSortLink`), if it
    /// is linked.
    pub fn remove_owner(&mut self, owner: u32)
        ensures
            final(self)@ == remove_owner(old(self)@, owner),
    {
        match self.find_owner(owner) {
            Some(i) => {
                self.sortLink.remove(i);
            },
            None => {},
        }
    }

    /// Converts every response time from `old_freq` to the current clock
    /// `new_freq` (`SortLinkNodeTimeUpdate`).
    pub fn SortLinkNodeTimeUpdate(&mut self, old_freq: u32, new_freq: u32)
        requires
            old(self)@.len() > 0 ==> old_freq > 0 && new_freq > 0,
        ensures
            final(self)@.len() == old(self)@.len(),
            forall|i: int|
                0 <= i < old(self)@.len() ==> #[trigger] final(self)@[i] == converted_node(old(self)@[i], old_freq, new_freq),
    {
        let ghost s = self@;
        let mut i: usize = 0;
        while i < self.sortLink.len()
            invariant
                self@.len() == s.len(),
                i <= s.len(),
                s.len() > 0 ==> old_freq > 0 && new_freq > 0,
                forall|j: int| i <= j < s.len() ==> self@[j] == s[j],
                forall|j: int|
                    0 <= j < i ==> #[trigger] self@[j] == converted_node(s[j], old_freq, new_freq),
            decreases s.len() - i,
        {
            let n = self.sortLink[i];
            let t = OsTimeConvertFreq(n.responseTime, old_freq, new_freq);
            let converted = SortLinkList { sortLinkNode: n.sortLinkNode, responseTime: t };
            self.sortLink.set(i, converted);
            i = i + 1;
        }
    }

    /// Cycles until the first node expires at time `currTime`, 0 when the
    /// sort link is empty or the node is due (`OsSortLinkGetNextExpireTime`).
    pub fn OsSortLinkGetNextExpireTime(&self, currTime: u64) -> (r: u64)
        ensures
            self@.len() == 0 ==> r == 0,
            self@.len() > 0 ==> r == target_expire_spec(currTime, self@[0].responseTime),
    {
        if self.sortLink.len() == 0 {
            return 0;
        }
        OsSortLinkGetTargetExpireTime(currTime, &self.sortLink[0])
    }

    /// The next expiry to program for this sort link from `start_time` with
    /// tick precision `tick_precision` (`GetSortLinkNextExpireTime`).
    pub fn get_sort_link_next_expire_time(&self, start_time: u64, tick_precision: u32) -> (r: u64)
        ensures
            r == next_expire_spec(self@, start_time, tick_precision),
    {
        if self.sortLink.len() == 0 {
            return OS_SORT_LINK_UINT64_MAX.saturating_sub(tick_precision as u64);
        }
        let response = self.sortLink[0].responseTime;
        let cutoff = start_time.saturating_add(tick_precision as u64);
        if response <= cutoff {
            cutoff
        } else {
            response
        }
    }
}

/// Sets a node's response time to `startTime` plus `waitTicks` ticks and
/// links it into `head` in time order (`OsAdd2SortLink` on its sort link).
pub fn OsAdd2SortLink(
    head: &mut SortLinkAttribute,
    node: &mut SortLinkList,
    startTime: u64,
    waitTicks: u32,
    sys_clock: u32,
)
    ensures
        final(node).sortLinkNode == old(node).sortLinkNode,
        final(node).responseTime == startTime.wrapping_add(sys_tick_to_cycle_spec(waitTicks, sys_clock)),
        final(head)@ == old(head)@.insert(
            sort_link_insert_pos(old(head)@, final(node).responseTime),
            *final(node),
        ),
{
    node.responseTime = startTime.wrapping_add(os_sys_tick_to_cycle(waitTicks, sys_clock));
    head.OsAddNode2SortLink(*node);
}

/// The sort links of the kernel: task delays and software timers.
pub struct SortLinks {
    pub g_taskSortLink: SortLinkAttribute,
    pub g_swtmrSortLink: SortLinkAttribute,
}

/// Whether `type_` names a configured sort link.
pub open spec fn valid_sort_link_type(type_: u32) -> bool {
    type_ == OS_SORT_LINK_TASK || (crate::defs::LOSCFG_BASE_CORE_SWTMR && type_ == OS_SORT_LINK_SWTMR)
}

impl SortLinks {
    /// Both sort links empty.
    pub fn new() -> (r: SortLinks)
        ensures
            r.g_taskSortLink@ == Seq::<SortLinkList>::empty(),
            r.g_swtmrSortLink@ == Seq::<SortLinkList>::empty(),
    {
        SortLinks { g_taskSortLink: SortLinkAttribute::new(), g_swtmrSortLink: SortLinkAttribute::new() }
    }

    /// The sort link of kind `type_`, or `None` for an unknown kind
    /// (`OsGetSortLinkAttribute`).
    pub fn OsGetSortLinkAttribute(&self, type_: u32) -> (r: Option<&SortLinkAttribute>)
        ensures
            type_ == OS_SORT_LINK_TASK ==> r == Some(&self.g_taskSortLink),
            type_ == OS_SORT_LINK_SWTMR && crate::defs::LOSCFG_BASE_CORE_SWTMR ==> r == Some(
                &self.g_swtmrSortLink,
            ),
            !valid_sort_link_type(type_) ==> r is None,
    {
        if type_ == OS_SORT_LINK_TASK {
            return Some(&self.g_taskSortLink);
        }
        if crate::defs::LOSCFG_BASE_CORE_SWTMR && type_ == OS_SORT_LINK_SWTMR {
            return Some(&self.g_swtmrSortLink);
        }
        None
    }

    /// Sets a node's response time and links it into the sort link of kind
    /// `type_` (`OsAdd2SortLink`); the kind must be a configured one.
    pub fn OsAdd2SortLink(
        &mut self,
        node: &mut SortLinkList,
        startTime: u64,
        waitTicks: u32,
        type_: u32,
        sys_clock: u32,
    )
        requires
            valid_sort_link_type(type_),
        ensures
            final(node).sortLinkNode == old(node).sortLinkNode,
            final(node).responseTime == startTime.wrapping_add(
                sys_tick_to_cycle_spec(waitTicks, sys_clock),
            ),
            type_ == OS_SORT_LINK_TASK ==> final(self).g_taskSortLink@ == old(
                self,
            ).g_taskSortLink@.insert(
                sort_link_insert_pos(old(self).g_taskSortLink@, final(node).responseTime),
                *final(node),
            ),
            type_ == OS_SORT_LINK_TASK ==> final(self).g_swtmrSortLink@ == old(self).g_swtmrSortLink@,
            type_ != OS_SORT_LINK_TASK ==> final(self).g_swtmrSortLink@ == old(
                self,
            ).g_swtmrSortLink@.insert(
                sort_link_insert_pos(old(self).g_swtmrSortLink@, final(node).responseTime),
                *final(node),
            ),
            type_ != OS_SORT_LINK_TASK ==> final(self).g_taskSortLink@ == old(self).g_taskSortLink@,
    {
        if type_ == OS_SORT_LINK_TASK {
            OsAdd2SortLink(&mut self.g_taskSortLink, node, startTime, waitTicks, sys_clock);
        } else {
            OsAdd2SortLink(&mut self.g_swtmrSortLink, node, startTime, waitTicks, sys_clock);
        }
    }

    /// Converts the response times of both sort links from `old_freq` to the
    /// new clock `new_freq` (`OsSortLinkResponseTimeConvertFreq`).
    pub fn OsSortLinkResponseTimeConvertFreq(&mut self, old_freq: u32, new_freq: u32)
        requires
            old(self).g_taskSortLink@.len() > 0 || old(self).g_swtmrSortLink@.len() > 0 ==> old_freq > 0
                && new_freq > 0,
        ensures
            final(self).g_taskSortLink@.len() == old(self).g_taskSortLink@.len(),
            final(self).g_swtmrSortLink@.len() == old(self).g_swtmrSortLink@.len(),
            forall|i: int|
                0 <= i < old(self).g_taskSortLink@.len() ==> #[trigger] final(self).g_taskSortLink@[i]
                    == converted_node(old(self).g_taskSortLink@[i], old_freq, new_freq),
            forall|i: int|
                0 <= i < old(self).g_swtmrSortLink@.len() ==> #[trigger] final(self).g_swtmrSortLink@[i]
                    == converted_node(old(self).g_swtmrSortLink@[i], old_freq, new_freq),
    {
        self.g_taskSortLink.SortLinkNodeTimeUpdate(old_freq, new_freq);
        self.g_swtmrSortLink.SortLinkNodeTimeUpdate(old_freq, new_freq);
    }

    /// The earlier of the next expiries of the two sort links
    /// (`OsGetNextExpireTime`).
    pub fn os_get_next_expire_time(&self, start_time: u64, tick_precision: u32) -> (r: u64)
        ensures
            r == if next_expire_spec(self.g_taskSortLink@, start_time, tick_precision)
                < next_expire_spec(self.g_swtmrSortLink@, start_time, tick_precision) {
                next_expire_spec(self.g_taskSortLink@, start_time, tick_precision)
            } else {
                next_expire_spec(self.g_swtmrSortLink@, start_time, tick_precision)
            },
    {
        let task_expire = self.g_taskSortLink.get_sort_link_next_expire_time(start_time, tick_precision);
        let swtmr_expire = self.g_swtmrSortLink.get_sort_link_next_expire_time(start_time, tick_precision);
        if task_expire < swtmr_expire {
            task_expire
        } else {
            swtmr_expire
        }
    }
}


/// Moving a sorted sort link to a clock that is not faster (each response
/// time divided by the integer ratio of the clocks) keeps it sorted.
pub proof fn lemma_slower_clock_keeps_order(s: Seq<SortLinkList>, f: Seq<SortLinkList>, old_freq: u32, new_freq: u32)
    requires
        sorted_by_time(s),
        old_freq >= new_freq > 0,
        f.len() == s.len(),
        forall|i: int| 0 <= i < s.len() ==> #[trigger] f[i] == converted_node(s[i], old_freq, new_freq),
    ensures
        sorted_by_time(f),
{
    let d = (old_freq / new_freq) as int;
    assert(d >= 1) by (nonlinear_arith)
        requires old_freq >= new_freq, new_freq > 0, d == old_freq / new_freq;
    assert forall|i: int, j: int| 0 <= i <= j < f.len() implies f[i].responseTime <= f[j].responseTime by {
        assert(f[i] == converted_node(s[i], old_freq, new_freq));
        assert(f[j] == converted_node(s[j], old_freq, new_freq));
        vstd::arithmetic::div_mod::lemma_div_is_ordered(s[i].responseTime as int, s[j].responseTime as int, d);
    }
}

/// Moving a sorted sort link to a faster clock (each response time
/// multiplied by the integer ratio of the clocks, wrapping on 64 bits)
/// keeps it sorted when no response time overflows in the multiplication.
pub proof fn lemma_faster_clock_keeps_order(s: Seq<SortLinkList>, f: Seq<SortLinkList>, old_freq: u32, new_freq: u32)
    requires
        sorted_by_time(s),
        0 < old_freq < new_freq,
        f.len() == s.len(),
        forall|i: int| 0 <= i < s.len() ==> #[trigger] f[i] == converted_node(s[i], old_freq, new_freq),
        forall|i: int| 0 <= i < s.len() ==> (#[trigger] s[i]).responseTime * ((new_freq / old_freq) as int)
            <= u64::MAX,
    ensures
        sorted_by_time(f),
{
    let m = (new_freq / old_freq) as u64;
    assert forall|i: int, j: int| 0 <= i <= j < f.len() implies f[i].responseTime <= f[j].responseTime by {
        assert(f[i] == converted_node(s[i], old_freq, new_freq));
        assert(f[j] == converted_node(s[j], old_freq, new_freq));
        let a = s[i].responseTime;
        let b = s[j].responseTime;
        assert(a <= b);
        assert(a * m <= b * m) by (nonlinear_arith)
            requires a <= b;
        assert(a * m <= u64::MAX && b * m <= u64::MAX);
        vstd::arithmetic::div_mod::lemma_small_mod((a * m) as nat, 0x1_0000_0000_0000_0000nat);
        vstd::arithmetic::div_mod::lemma_small_mod((b * m) as nat, 0x1_0000_0000_0000_0000nat);
    }
}

} // verus!
