//! The system tick: the cycle counter built on the tick timer, its
//! registration and frequency changes, and conversions between ticks,
//! milliseconds and cycles.
//!
//! The hardware timer is described by plain values (`ArchTickTimer`); the
//! calls into it (reading the cycle counter, reloading, locking) are made by
//! the caller, which hands their results to the functions here.
use vstd::prelude::*;
use crate::defs::{LOS_OK, OS_NULL_INT, LOSCFG_BASE_CORE_TICK_PER_SECOND};

verus! {

/// `LOS_ERRNO_TICK_CFG_INVALID`: the tick configuration is invalid.
pub const LOS_ERRNO_TICK_CFG_INVALID: u32 = 0x0200_0400;
/// `LOS_ERRNO_SYS_PTR_NULL`: a null pointer was given.
pub const LOS_ERRNO_SYS_PTR_NULL: u32 = 0x0200_0010;
/// `LOS_ERRNO_SYS_CLOCK_INVALID`: the clock frequency is invalid.
pub const LOS_ERRNO_SYS_CLOCK_INVALID: u32 = 0x0200_0011;
/// `LOS_ERRNO_SYS_TIMER_IS_RUNNING`: the tick timer is already running.
pub const LOS_ERRNO_SYS_TIMER_IS_RUNNING: u32 = 0x0200_0015;
/// `LOS_ERRNO_SYS_HOOK_IS_NULL`: a timer hook is missing.
pub const LOS_ERRNO_SYS_HOOK_IS_NULL: u32 = 0x0200_0016;
/// `LOS_ERRNO_SYS_TIMER_ADDR_FAULT`: the timer to register is the system timer itself.
pub const LOS_ERRNO_SYS_TIMER_ADDR_FAULT: u32 = 0x0200_0016;

/// Largest period the tick timer is reloaded with (`LOSCFG_BASE_CORE_TICK_RESPONSE_MAX`).
pub const LOSCFG_BASE_CORE_TICK_RESPONSE_MAX: u64 = 0x00FF_FFFF;
/// Highest interrupt number of the platform (`LOSCFG_PLATFORM_HWI_LIMIT`).
pub const LOSCFG_PLATFORM_HWI_LIMIT: u32 = 128;
/// Milliseconds per second.
pub const OS_SYS_MS_PER_SECOND: u32 = 1000;
/// Microseconds per second.
pub const OS_SYS_US_PER_SECOND: u32 = 1_000_000;
/// Microseconds per millisecond.
pub const OS_SYS_US_PER_MS: u32 = 1000;
/// Nanoseconds per second.
pub const OS_SYS_NS_PER_SECOND: u64 = 1_000_000_000;
/// Nanoseconds per millisecond.
pub const OS_SYS_NS_PER_MS: u64 = 1_000_000;

/// The hardware tick timer as plain values: its frequency, interrupt,
/// largest period, and the addresses of its hooks (`None` when missing).
#[derive(Clone, Copy)]
pub struct ArchTickTimer {
    pub freq: u32,
    pub irqNum: i32,
    pub periodMax: u64,
    pub init: Option<u32>,
    pub getCycle: Option<u32>,
    pub reload: Option<u32>,
    pub lock: Option<u32>,
    pub unlock: Option<u32>,
    pub tickHandler: Option<u32>,
}

impl ArchTickTimer {
    /// Whether every hook the kernel calls is present.
    pub open spec fn hooks_present(self) -> bool {
        self.init is Some && self.reload is Some && self.lock is Some && self.unlock is Some
            && self.getCycle is Some
    }
}

/// Tick bookkeeping: the clock, the system timer, and the base that turns
/// the timer's cycle count into a monotonic 64-bit cycle counter.
pub struct TickState {
    pub g_sysClock: u32,
    pub g_cyclesPerTick: u32,
    /// The system tick timer.
    pub sys_tick_timer: ArchTickTimer,
    /// Address of the system tick timer.
    pub sys_tick_timer_addr: u32,
    pub sys_timer_is_init: bool,
    pub tick_timer_start_time: u64,
    pub tick_timer_base: u64,
    pub old_tick_timer_base: u64,
    pub tick_timer_base_update: bool,
}

/// Converts a time between frequencies as the tick module does: divided by
/// the integer ratio when slowing down, multiplied when speeding up.
pub open spec fn tick_convert_spec(time: u64, old_freq: u32, new_freq: u32) -> int {
    if old_freq >= new_freq {
        time as int / ((old_freq / new_freq) as int)
    } else {
        time as int * ((new_freq / old_freq) as int)
    }
}

/// When the tick conversion is defined and fits in 64 bits.
pub open spec fn tick_convert_ok(time: u64, old_freq: u32, new_freq: u32) -> bool {
    &&& new_freq > 0
    &&& old_freq > 0
    &&& tick_convert_spec(time, old_freq, new_freq) <= u64::MAX
}

/// Converts a time between clock frequencies (`OsTimeConvertFreq`).
pub fn os_time_convert_freq(time: u64, old_freq: u32, new_freq: u32) -> (r: u64)
    requires
        tick_convert_ok(time, old_freq, new_freq),
    ensures
        r == tick_convert_spec(time, old_freq, new_freq),
{
    if old_freq >= new_freq {
        proof {
            assert(old_freq / new_freq >= 1) by (nonlinear_arith)
                requires old_freq >= new_freq, new_freq > 0;
        }
        time / ((old_freq / new_freq) as u64)
    } else {
        time * ((new_freq / old_freq) as u64)
    }
}

/// Number of whole ticks in `cycle` cycles at `sys_clock` Hz.
pub fn os_sys_cycle_to_tick(cycle: u64, sys_clock: u32) -> (r: u64)
    requires
        sys_clock > 0,
        cycle * LOSCFG_BASE_CORE_TICK_PER_SECOND <= u64::MAX,
    ensures
        r == (cycle * LOSCFG_BASE_CORE_TICK_PER_SECOND) / (sys_clock as int),
{
    cycle * (LOSCFG_BASE_CORE_TICK_PER_SECOND as u64) / (sys_clock as u64)
}

/// Ticks in `millisec` milliseconds, truncated to 32 bits; `OS_NULL_INT`
/// maps to itself (`LOS_MS2Tick`).
pub fn LOS_MS2Tick(millisec: u32) -> (r: u32)
    ensures
        millisec == OS_NULL_INT ==> r == OS_NULL_INT,
        millisec != OS_NULL_INT ==> r == ((millisec * LOSCFG_BASE_CORE_TICK_PER_SECOND)
            / (OS_SYS_MS_PER_SECOND as int)) as u32,
{
    if millisec == OS_NULL_INT {
        return OS_NULL_INT;
    }
    proof {
        assert(millisec as u64 * 100 <= u64::MAX) by (nonlinear_arith)
            requires millisec <= u32::MAX;
    }
    ((millisec as u64 * LOSCFG_BASE_CORE_TICK_PER_SECOND as u64) / OS_SYS_MS_PER_SECOND as u64) as u32
}

/// Milliseconds in `ticks` ticks, truncated to 32 bits (`LOS_Tick2MS`).
pub fn LOS_Tick2MS(ticks: u32) -> (r: u32)
    ensures
        r == ((ticks * OS_SYS_MS_PER_SECOND) / (LOSCFG_BASE_CORE_TICK_PER_SECOND as int)) as u32,
{
    proof {
        assert(ticks as u64 * 1000 <= u64::MAX) by (nonlinear_arith)
            requires ticks <= u32::MAX;
    }
    ((ticks as u64 * OS_SYS_MS_PER_SECOND as u64) / LOSCFG_BASE_CORE_TICK_PER_SECOND as u64) as u32
}

/// Checks a timer that is to replace the system timer: `LOS_OK`, or the
/// first failing check's error (`TickTimerCheck`).
pub open spec fn tick_timer_check_spec(timer: ArchTickTimer, is_init: bool) -> u32 {
    if timer.freq == 0 || LOSCFG_BASE_CORE_TICK_PER_SECOND > timer.freq {
        LOS_ERRNO_SYS_CLOCK_INVALID
    } else if timer.irqNum > LOSCFG_PLATFORM_HWI_LIMIT {
        LOS_ERRNO_TICK_CFG_INVALID
    } else if timer.periodMax == 0 {
        LOS_ERRNO_TICK_CFG_INVALID
    } else if !timer.hooks_present() {
        LOS_ERRNO_SYS_HOOK_IS_NULL
    } else if is_init {
        LOS_ERRNO_SYS_TIMER_IS_RUNNING
    } else {
        LOS_OK
    }
}

/// The 32-bit microsecond chunks that a delay of `millisec` milliseconds is
/// split into: whole chunks of the largest millisecond count whose
/// microseconds fit in 32 bits, then the rest.
pub open spec fn mdelay_max_ms() -> u32 {
    (u32::MAX / OS_SYS_US_PER_MS) as u32
}

/// Cycles in `us` microseconds at `clk` Hz, as whole seconds plus the rest.
pub open spec fn udelay_cycles_spec(us: u64, clk: u32) -> int {
    let u = us as int;
    let c = clk as int;
    (u / 1_000_000) * c + (u % 1_000_000) * c / 1_000_000
}

impl TickState {
    /// The cycle count that `LOS_SysCycleGet` gives for the timer's count
    /// `time` and period `period`.
    pub open spec fn cycle_value(self, time: u64, period: u32) -> u64 {
        let st = self.tick_timer_base.wrapping_add(time);
        if st < self.old_tick_timer_base {
            self.tick_timer_base.wrapping_add(period as u64).wrapping_add(time)
        } else {
            st
        }
    }

    /// Whether the timer's count is consistent with the last cycle count
    /// (the count read does not go backwards).
    pub open spec fn cycle_ok(self, time: u64, period: u32) -> bool {
        self.cycle_value(time, period) >= self.old_tick_timer_base
    }
}

impl TickState {
    /// A tick state for the system timer `timer` at address `addr`, before
    /// the timer is initialized.
    pub fn new(timer: ArchTickTimer, addr: u32) -> (r: TickState)
        ensures
            r.sys_tick_timer == timer,
            r.sys_tick_timer_addr == addr,
            r.g_sysClock == 0,
            r.g_cyclesPerTick == 0,
            !r.sys_timer_is_init,
            r.tick_timer_start_time == 0,
            r.tick_timer_base == 0,
            r.old_tick_timer_base == 0,
            !r.tick_timer_base_update,
    {
        TickState {
            g_sysClock: 0,
            g_cyclesPerTick: 0,
            sys_tick_timer: timer,
            sys_tick_timer_addr: addr,
            sys_timer_is_init: false,
            tick_timer_start_time: 0,
            tick_timer_base: 0,
            old_tick_timer_base: 0,
            tick_timer_base_update: false,
        }
    }

    /// Advances the cycle base by the timer period `period` at a tick
    /// interrupt, unless a cycle read already did (`OsUpdateSysTimeBase`).
    pub fn os_update_sys_time_base(&mut self, period: u32)
        ensures
            final(self).tick_timer_base == if old(self).tick_timer_base_update {
                old(self).tick_timer_base
            } else {
                old(self).tick_timer_base.wrapping_add(period as u64)
            },
            !final(self).tick_timer_base_update,
            final(self).g_sysClock == old(self).g_sysClock,
            final(self).g_cyclesPerTick == old(self).g_cyclesPerTick,
            final(self).sys_tick_timer == old(self).sys_tick_timer,
            final(self).sys_tick_timer_addr == old(self).sys_tick_timer_addr,
            final(self).sys_timer_is_init == old(self).sys_timer_is_init,
            final(self).tick_timer_start_time == old(self).tick_timer_start_time,
            final(self).old_tick_timer_base == old(self).old_tick_timer_base,
    {
        if !self.tick_timer_base_update {
            self.tick_timer_base = self.tick_timer_base.wrapping_add(period as u64);
        }
        self.tick_timer_base_update = false;
    }

    /// Resets the cycle base to `currTime`, which is not before it
    /// (`OsTickTimerBaseReset`).
    pub fn OsTickTimerBaseReset(&mut self, currTime: u64)
        requires
            currTime >= old(self).tick_timer_base,
        ensures
            *final(self) == (TickState { tick_timer_base: currTime, ..*old(self) }),
    {
        self.tick_timer_base = currTime;
    }

    /// The 64-bit cycle count (`LOS_SysCycleGet`) from the timer's current
    /// count `time` and period `period`: the base plus the count, where a
    /// count below the last result means the timer wrapped and the base
    /// moves on by one period.  The result is remembered as the last one.
    pub fn LOS_SysCycleGet(&mut self, time: u64, period: u32) -> (r: u64)
        requires
            old(self).cycle_ok(time, period),
        ensures
            r == old(self).cycle_value(time, period),
            old(self).tick_timer_base.wrapping_add(time) >= old(self).old_tick_timer_base ==> {
                &&& r == old(self).tick_timer_base.wrapping_add(time)
                &&& final(self).tick_timer_base == old(self).tick_timer_base
                &&& final(self).tick_timer_base_update == old(self).tick_timer_base_update
            },
            old(self).tick_timer_base.wrapping_add(time) < old(self).old_tick_timer_base ==> {
                &&& final(self).tick_timer_base == old(self).tick_timer_base.wrapping_add(period as u64)
                &&& r == final(self).tick_timer_base.wrapping_add(time)
                &&& final(self).tick_timer_base_update
            },
            r >= old(self).old_tick_timer_base,
            final(self).old_tick_timer_base == r,
            final(self).g_sysClock == old(self).g_sysClock,
            final(self).g_cyclesPerTick == old(self).g_cyclesPerTick,
            final(self).sys_tick_timer == old(self).sys_tick_timer,
            final(self).sys_tick_timer_addr == old(self).sys_tick_timer_addr,
            final(self).sys_timer_is_init == old(self).sys_timer_is_init,
            final(self).tick_timer_start_time == old(self).tick_timer_start_time,
    {
        let mut sched_time = self.tick_timer_base.wrapping_add(time);
        if sched_time < self.old_tick_timer_base {
            self.tick_timer_base = self.tick_timer_base.wrapping_add(period as u64);
            sched_time = self.tick_timer_base.wrapping_add(time);
            self.tick_timer_base_update = true;
        }
        self.old_tick_timer_base = sched_time;
        sched_time
    }

    /// The handler the system timer is initialized with: the timer's own
    /// tick handler if it has one, else the kernel's (`OsTickHandler`, given
    /// as `default_handler`); `None` when a hook is missing and the timer is
    /// not initialized at all.
    pub fn tick_init_handler(timer: Option<ArchTickTimer>, default_handler: u32) -> (r: Option<u32>)
        ensures
            match timer {
                None => r is None,
                Some(t) => if !t.hooks_present() {
                    r is None
                } else if t.tickHandler is Some {
                    r == t.tickHandler
                } else {
                    r == Some(default_handler)
                },
            },
    {
        match timer {
            None => None,
            Some(t) => {
                if t.init.is_none() || t.reload.is_none() || t.lock.is_none() || t.unlock.is_none()
                    || t.getCycle.is_none() {
                    None
                } else if t.tickHandler.is_some() {
                    t.tickHandler
                } else {
                    Some(default_handler)
                }
            },
        }
    }

    /// Initializes the system tick timer (`OsTickTimerInit`) described by
    /// `timer` (`None`: the platform has none), whose init hook returned
    /// `init_ret` when it was called with `tick_init_handler`'s handler.
    /// It fails when a hook is missing, when the init hook failed (with its
    /// error), when the frequency is zero or below the tick rate, or when the
    /// interrupt number is out of range; on success the clock and the cycles
    /// per tick are taken from the timer and the timer is marked running.
    pub fn OsTickTimerInit(&mut self, timer: Option<ArchTickTimer>, init_ret: u32) -> (r: u32)
        ensures
            match timer {
                None => r == LOS_ERRNO_SYS_HOOK_IS_NULL && *final(self) == *old(self),
                Some(t) => {
                    &&& final(self).sys_tick_timer == t
                    &&& r == (if !t.hooks_present() {
                        LOS_ERRNO_SYS_HOOK_IS_NULL
                    } else if init_ret != LOS_OK {
                        init_ret
                    } else if t.freq == 0 || t.freq < LOSCFG_BASE_CORE_TICK_PER_SECOND {
                        LOS_ERRNO_SYS_CLOCK_INVALID
                    } else if t.irqNum > LOSCFG_PLATFORM_HWI_LIMIT {
                        LOS_ERRNO_TICK_CFG_INVALID
                    } else {
                        LOS_OK
                    })
                    &&& r == LOS_OK ==> {
                        &&& final(self).g_sysClock == t.freq
                        &&& final(self).g_cyclesPerTick == t.freq / LOSCFG_BASE_CORE_TICK_PER_SECOND
                        &&& final(self).sys_timer_is_init
                    }
                    &&& r != LOS_OK ==> {
                        &&& final(self).g_sysClock == old(self).g_sysClock
                        &&& final(self).g_cyclesPerTick == old(self).g_cyclesPerTick
                        &&& final(self).sys_timer_is_init == old(self).sys_timer_is_init
                    }
                    &&& final(self).sys_tick_timer_addr == old(self).sys_tick_timer_addr
                    &&& final(self).tick_timer_start_time == old(self).tick_timer_start_time
                    &&& final(self).tick_timer_base == old(self).tick_timer_base
                    &&& final(self).old_tick_timer_base == old(self).old_tick_timer_base
                    &&& final(self).tick_timer_base_update == old(self).tick_timer_base_update
                },
            },
    {
        let t = match timer {
            None => {
                return LOS_ERRNO_SYS_HOOK_IS_NULL;
            },
            Some(t) => t,
        };
        self.sys_tick_timer = t;
        if t.init.is_none() || t.reload.is_none() || t.lock.is_none() || t.unlock.is_none()
            || t.getCycle.is_none() {
            return LOS_ERRNO_SYS_HOOK_IS_NULL;
        }
        if init_ret != LOS_OK {
            return init_ret;
        }
        if t.freq == 0 || t.freq < LOSCFG_BASE_CORE_TICK_PER_SECOND {
            return LOS_ERRNO_SYS_CLOCK_INVALID;
        }
        if t.irqNum > LOSCFG_PLATFORM_HWI_LIMIT as i32 {
            return LOS_ERRNO_TICK_CFG_INVALID;
        }
        self.g_sysClock = t.freq;
        self.g_cyclesPerTick = t.freq / LOSCFG_BASE_CORE_TICK_PER_SECOND;
        self.sys_timer_is_init = true;
        LOS_OK
    }

    /// Checks a timer that is to replace the system timer (`TickTimerCheck`).
    pub fn tick_timer_check(&self, timer: &ArchTickTimer) -> (r: u32)
        ensures
            r == tick_timer_check_spec(*timer, self.sys_timer_is_init),
    {
        if timer.freq == 0 || LOSCFG_BASE_CORE_TICK_PER_SECOND > timer.freq {
            return LOS_ERRNO_SYS_CLOCK_INVALID;
        }
        if timer.irqNum > LOSCFG_PLATFORM_HWI_LIMIT as i32 {
            return LOS_ERRNO_TICK_CFG_INVALID;
        }
        if timer.periodMax == 0 {
            return LOS_ERRNO_TICK_CFG_INVALID;
        }
        if timer.init.is_none() || timer.reload.is_none() || timer.lock.is_none()
            || timer.unlock.is_none() || timer.getCycle.is_none() {
            return LOS_ERRNO_SYS_HOOK_IS_NULL;
        }
        if self.sys_timer_is_init {
            return LOS_ERRNO_SYS_TIMER_IS_RUNNING;
        }
        LOS_OK
    }

    /// Registers a replacement system timer `timer` (with its address), or
    /// only a tick handler when no timer is given (`LOS_TickTimerRegister`).
    /// A timer is checked and refused when it is the system timer itself;
    /// a lone handler is refused once the timer runs.
    pub fn LOS_TickTimerRegister(&mut self, timer: Option<(ArchTickTimer, u32)>, tickHandler: Option<u32>) -> (r: u32)
        ensures
            match timer {
                Some((t, addr)) => {
                    let c = tick_timer_check_spec(t, old(self).sys_timer_is_init);
                    &&& c != LOS_OK ==> r == c && *final(self) == *old(self)
                    &&& c == LOS_OK && addr == old(self).sys_tick_timer_addr ==> r
                        == LOS_ERRNO_SYS_TIMER_ADDR_FAULT && *final(self) == *old(self)
                    &&& c == LOS_OK && addr != old(self).sys_tick_timer_addr ==> r == LOS_OK
                        && *final(self) == (TickState { sys_tick_timer: t, ..*old(self) })
                },
                None => if tickHandler is None {
                    r == LOS_ERRNO_SYS_PTR_NULL && *final(self) == *old(self)
                } else if old(self).sys_timer_is_init {
                    r == LOS_ERRNO_SYS_TIMER_IS_RUNNING && *final(self) == *old(self)
                } else {
                    r == LOS_OK && *final(self) == (TickState {
                        sys_tick_timer: ArchTickTimer {
                            tickHandler: tickHandler,
                            ..old(self).sys_tick_timer
                        },
                        ..*old(self)
                    })
                },
            },
    {
        match timer {
            Some((t, addr)) => {
                let ret = self.tick_timer_check(&t);
                if ret != LOS_OK {
                    return ret;
                }
                if addr == self.sys_tick_timer_addr {
                    return LOS_ERRNO_SYS_TIMER_ADDR_FAULT;
                }
                self.sys_tick_timer = t;
                LOS_OK
            },
            None => {
                if tickHandler.is_none() {
                    return LOS_ERRNO_SYS_PTR_NULL;
                }
                if self.sys_timer_is_init {
                    return LOS_ERRNO_SYS_TIMER_IS_RUNNING;
                }
                self.sys_tick_timer.tickHandler = tickHandler;
                LOS_OK
            },
        }
    }

    /// Moves the cycle base to the current cycle count before the tick timer
    /// is reloaded (`OsTickTimerReload`, given the timer's count and period).
    pub fn OsTickTimerReload(&mut self, time: u64, period: u32) -> (r: u64)
        requires
            old(self).cycle_ok(time, period),
        ensures
            r == old(self).cycle_value(time, period),
            final(self).tick_timer_base == r,
            final(self).old_tick_timer_base == r,
            final(self).g_sysClock == old(self).g_sysClock,
            final(self).g_cyclesPerTick == old(self).g_cyclesPerTick,
            final(self).sys_tick_timer == old(self).sys_tick_timer,
            final(self).sys_tick_timer_addr == old(self).sys_tick_timer_addr,
            final(self).sys_timer_is_init == old(self).sys_timer_is_init,
            final(self).tick_timer_start_time == old(self).tick_timer_start_time,
    {
        let c = self.LOS_SysCycleGet(time, period);
        self.tick_timer_base = c;
        c
    }

    /// Ticks since the scheduler started (`LOS_TickCountGet`), given the
    /// timer's count and period.
    pub fn LOS_TickCountGet(&mut self, time: u64, period: u32) -> (r: u64)
        requires
            old(self).cycle_ok(time, period),
            old(self).g_sysClock > 0,
            old(self).cycle_value(time, period).wrapping_sub(old(self).tick_timer_start_time)
                * LOSCFG_BASE_CORE_TICK_PER_SECOND <= u64::MAX,
        ensures
            r == (old(self).cycle_value(time, period).wrapping_sub(old(self).tick_timer_start_time)
                * LOSCFG_BASE_CORE_TICK_PER_SECOND) / (old(self).g_sysClock as int),
            final(self).old_tick_timer_base == old(self).cycle_value(time, period),
    {
        let c = self.LOS_SysCycleGet(time, period);
        self.tick_count_at(c)
    }

    /// Nanoseconds of the cycle counter (`LOS_CurrNanosec`), given the
    /// timer's count and period.
    pub fn LOS_CurrNanosec(&mut self, time: u64, period: u32) -> (r: u64)
        requires
            old(self).cycle_ok(time, period),
            old(self).g_sysClock >= OS_SYS_NS_PER_MS,
            old(self).cycle_value(time, period) * (OS_SYS_NS_PER_SECOND / OS_SYS_NS_PER_MS) <= u64::MAX,
        ensures
            r == (old(self).cycle_value(time, period) * (OS_SYS_NS_PER_SECOND / OS_SYS_NS_PER_MS)) / ((
            old(self).g_sysClock as int) / (OS_SYS_NS_PER_MS as int)),
    {
        let c = self.LOS_SysCycleGet(time, period);
        self.nanosec_at(c)
    }

    /// Records the cycle count at which the scheduler started
    /// (`OsTickSysTimerStartTimeSet`).
    pub fn OsTickSysTimerStartTimeSet(&mut self, currTime: u64)
        ensures
            *final(self) == (TickState { tick_timer_start_time: currTime, ..*old(self) }),
    {
        self.tick_timer_start_time = currTime;
    }

    /// Cycles per tick (`LOS_CyclePerTickGet`).
    pub fn LOS_CyclePerTickGet(&self) -> (r: u32)
        ensures
            r == self.g_cyclesPerTick,
    {
        self.g_cyclesPerTick
    }

    /// Ticks elapsed since the scheduler started at cycle count `cycle`
    /// (`LOS_TickCountGet`, given the current cycle count).
    pub fn tick_count_at(&self, cycle: u64) -> (r: u64)
        requires
            self.g_sysClock > 0,
            cycle.wrapping_sub(self.tick_timer_start_time) * LOSCFG_BASE_CORE_TICK_PER_SECOND
                <= u64::MAX,
        ensures
            r == (cycle.wrapping_sub(self.tick_timer_start_time) * LOSCFG_BASE_CORE_TICK_PER_SECOND)
                / (self.g_sysClock as int),
    {
        os_sys_cycle_to_tick(cycle.wrapping_sub(self.tick_timer_start_time), self.g_sysClock)
    }

    /// Nanoseconds at cycle count `cycle` (`LOS_CurrNanosec`, given the
    /// current cycle count).
    pub fn nanosec_at(&self, cycle: u64) -> (r: u64)
        requires
            self.g_sysClock >= OS_SYS_NS_PER_MS,
            cycle * (OS_SYS_NS_PER_SECOND / OS_SYS_NS_PER_MS) <= u64::MAX,
        ensures
            r == (cycle * (OS_SYS_NS_PER_SECOND / OS_SYS_NS_PER_MS)) / ((self.g_sysClock as int)
                / (OS_SYS_NS_PER_MS as int)),
    {
        cycle * (OS_SYS_NS_PER_SECOND / OS_SYS_NS_PER_MS) / (self.g_sysClock as u64 / OS_SYS_NS_PER_MS)
    }

    /// Cycles that `microseconds` take at the current clock, computed as
    /// whole seconds plus the rest to avoid overflow (`LOS_UDelay`).
    pub fn udelay_cycles(&self, microseconds: u64) -> (r: u64)
        requires
            udelay_cycles_spec(microseconds, self.g_sysClock) <= u64::MAX,
        ensures
            r == udelay_cycles_spec(microseconds, self.g_sysClock),
    {
        let us = OS_SYS_US_PER_SECOND as u64;
        let clk = self.g_sysClock as u64;
        proof {
            let u = microseconds as int;
            let c = clk as int;
            assert((u % 1_000_000) * c <= u64::MAX) by (nonlinear_arith)
                requires c <= u32::MAX, u >= 0;
            assert((u / 1_000_000) * c >= 0) by (nonlinear_arith)
                requires c >= 0, u >= 0;
            assert((u % 1_000_000) * c / 1_000_000 >= 0) by (nonlinear_arith)
                requires c >= 0, u >= 0;
        }
        (microseconds / us) * clk + (microseconds % us) * clk / us
    }

    /// The cycle count at which a busy wait of `microseconds` that starts at
    /// cycle count `now` ends (`LOS_UDelay`); `None` for a zero delay.
    pub fn udelay_end_time(&self, microseconds: u64, now: u64) -> (r: Option<u64>)
        requires
            udelay_cycles_spec(microseconds, self.g_sysClock) <= u64::MAX,
        ensures
            microseconds == 0 ==> r is None,
            microseconds != 0 ==> r == Some(
                now.wrapping_add(udelay_cycles_spec(microseconds, self.g_sysClock) as u64),
            ),
    {
        if microseconds == 0 {
            return None;
        }
        let delta = self.udelay_cycles(microseconds);
        Some(now.wrapping_add(delta))
    }
}

/// Sum of a sequence of delays.
pub open spec fn sum_delays(s: Seq<u64>) -> int
    decreases s.len(),
{
    if s.len() == 0 {
        0
    } else {
        sum_delays(s.drop_last()) + s.last()
    }
}

/// The microsecond busy waits that a delay of `millisec` milliseconds makes
/// (`LOS_MDelay`): whole chunks of `u32::MAX / 1000` milliseconds while more
/// than that remains, then the rest; together they wait `millisec * 1000`
/// microseconds.
pub fn mdelay_chunks(millisec: u32) -> (r: Vec<u64>)
    ensures
        r@.len() >= 1,
        sum_delays(r@) == millisec * OS_SYS_US_PER_MS,
        forall|i: int| 0 <= i < r@.len() - 1 ==> #[trigger] r@[i] == mdelay_max_ms() * OS_SYS_US_PER_MS,
        r@.last() <= mdelay_max_ms() * OS_SYS_US_PER_MS,
{
    let max_ms_once = u32::MAX / OS_SYS_US_PER_MS;
    let delay_us = max_ms_once * OS_SYS_US_PER_MS;
    let mut ms = millisec;
    let mut chunks: Vec<u64> = Vec::new();
    while ms > max_ms_once
        invariant
            max_ms_once == mdelay_max_ms(),
            delay_us == max_ms_once * OS_SYS_US_PER_MS,
            ms <= millisec,
            sum_delays(chunks@) + ms * OS_SYS_US_PER_MS == millisec * OS_SYS_US_PER_MS,
            forall|i: int| 0 <= i < chunks@.len() ==> #[trigger] chunks@[i] == delay_us,
        decreases ms,
    {
        let ghost before = chunks@;
        chunks.push(delay_us as u64);
        proof {
            assert(chunks@.drop_last() == before);
        }
        ms = ms - max_ms_once;
    }
    let ghost before = chunks@;
    chunks.push((ms * OS_SYS_US_PER_MS) as u64);
    proof {
        assert(chunks@.drop_last() == before);
    }
    chunks
}


/// Milliseconds turned into ticks and back lose less than one tick: the
/// result is at most the milliseconds, and less than a tick's worth below.
pub proof fn lemma_ms_tick_roundtrip(ms: u32)
    requires
        ms != OS_NULL_INT,
    ensures
        ({
            let t = ((ms * LOSCFG_BASE_CORE_TICK_PER_SECOND) / (OS_SYS_MS_PER_SECOND as int)) as u32;
            let back = ((t * OS_SYS_MS_PER_SECOND) / (LOSCFG_BASE_CORE_TICK_PER_SECOND as int)) as u32;
            back <= ms && ms - back < OS_SYS_MS_PER_SECOND / LOSCFG_BASE_CORE_TICK_PER_SECOND
        }),
{
    let m = ms as int;
    assert((m * 100) / 1000 == m / 10) by (nonlinear_arith)
        requires 0 <= m;
    let t = m / 10;
    assert(0 <= t <= u32::MAX) by (nonlinear_arith)
        requires 0 <= m <= u32::MAX, t == m / 10;
    assert((t * 1000) / 100 == t * 10) by (nonlinear_arith)
        requires 0 <= t;
    assert(t * 10 <= m && m - t * 10 < 10) by (nonlinear_arith)
        requires 0 <= m, t == m / 10;
    assert(t * 10 <= u32::MAX);
}

} // verus!
