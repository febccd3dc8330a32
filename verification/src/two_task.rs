//! The first scheduler: two fixed tasks (a blue and a red flasher) that take
//! turns on every SysTick, and a tick counter that runs from 0 to 200 and
//! starts over.
use vstd::prelude::*;
use vstd::arithmetic::div_mod::{lemma_add_mod_noop, lemma_small_mod};
use crate::kernel::{Switch, CTX_STACK_SIZE, CTX_STACK_START, TASK_STACK_SIZE, TASK_STACK_START};

verus! {

/// Number of tasks.
pub const PAIR_TASKS: u32 = 2;

/// The largest tick count; the tick after it is 0 again.
pub const TIME_WRAP: usize = 200;

/// The abstract state of the scheduler.
pub struct PairState {
    /// How many of the two tasks have been launched.
    pub ntasks: nat,
    /// The task that runs now.
    pub currtask: nat,
    /// The tick count.
    pub globaltime: nat,
}

/// The invariant of every reachable state.
pub open spec fn pair_wf(s: PairState) -> bool {
    &&& s.ntasks <= PAIR_TASKS
    &&& s.currtask < PAIR_TASKS
    &&& s.globaltime <= TIME_WRAP
}

/// `schedule`, given the entry addresses of the blue and the red task: the
/// other task comes next. While fewer than two tasks run, the next one is
/// launched (blue from task 0, red from task 1); afterwards registers are
/// saved and restored through the context frames.
pub open spec fn pair_schedule_spec(s: PairState, blue: u32, red: u32) -> (PairState, Switch) {
    let next = ((s.currtask + 1) % 2) as nat;
    if s.ntasks < 2 {
        (
            PairState { currtask: next, ntasks: s.ntasks + 1, ..s },
            Switch::AddTask {
                to: crate::kernel::ctx_top(s.currtask as int) as u32,
                func_ptr: if s.currtask == 0 { blue } else { red },
                sp_addr: crate::kernel::stack_top(next as int) as u32,
            },
        )
    } else {
        (
            PairState { currtask: next, ..s },
            Switch::ContextSwitch {
                from: crate::kernel::ctx_base(next as int) as u32,
                to: crate::kernel::ctx_top(s.currtask as int) as u32,
            },
        )
    }
}

/// The tick count after one more tick.
pub open spec fn next_time(t: nat) -> nat {
    if t == TIME_WRAP { 0 } else { t + 1 }
}

/// `tick` (the SysTick handler): schedule, then advance the tick count. As
/// in the kernel, the count step of a handler runs only once the context it
/// preempted is resumed, which a launch never does: only ticks that switch
/// between running tasks advance the count.
pub open spec fn pair_tick_spec(s: PairState, blue: u32, red: u32) -> (PairState, Switch) {
    let (t, action) = pair_schedule_spec(s, blue, red);
    (
        PairState {
            globaltime: if action is ContextSwitch { next_time(t.globaltime) } else { t.globaltime },
            ..t
        },
        action,
    )
}

/// The state after `m` ticks.
pub open spec fn pair_ticks(s: PairState, blue: u32, red: u32, m: nat) -> PairState
    decreases m,
{
    if m == 0 {
        s
    } else {
        pair_tick_spec(pair_ticks(s, blue, red, (m - 1) as nat), blue, red).0
    }
}

/// The two-task scheduler.
pub struct PairScheduler {
    ntasks: usize,
    currtask: usize,
    globaltime: usize,
}

impl View for PairScheduler {
    type V = PairState;

    closed spec fn view(&self) -> PairState {
        PairState {
            ntasks: self.ntasks as nat,
            currtask: self.currtask as nat,
            globaltime: self.globaltime as nat,
        }
    }
}

impl PairScheduler {
    /// The scheduler before the first tick: nothing launched, task 0, time 0.
    pub fn new() -> (s: PairScheduler)
        ensures
            s@ == (PairState { ntasks: 0, currtask: 0, globaltime: 0 }),
            pair_wf(s@),
    {
        PairScheduler { ntasks: 0, currtask: 0, globaltime: 0 }
    }

    /// Picks the other task and says how to switch to it.
    pub fn schedule(&mut self, flash_blue: u32, flash_red: u32) -> (action: Switch)
        requires
            pair_wf(old(self)@),
        ensures
            (final(self)@, action) == pair_schedule_spec(old(self)@, flash_blue, flash_red),
            pair_wf(final(self)@),
    {
        let ntasks: u32 = self.ntasks as u32;
        let currtask: u32 = self.currtask as u32;
        let nexttask: u32 = (currtask + 1) % PAIR_TASKS;
        self.currtask = nexttask as usize;
        if ntasks < 2 {
            let to: u32 = CTX_STACK_START + (currtask + 1) * CTX_STACK_SIZE;
            let func_ptr: u32 = if currtask == 0 { flash_blue } else { flash_red };
            let sp_addr: u32 = TASK_STACK_START - nexttask * TASK_STACK_SIZE;
            self.ntasks = (ntasks + 1) as usize;
            Switch::AddTask { to, func_ptr, sp_addr }
        } else {
            let from: u32 = CTX_STACK_START + nexttask * CTX_STACK_SIZE;
            let to: u32 = CTX_STACK_START + (currtask + 1) * CTX_STACK_SIZE;
            Switch::ContextSwitch { from, to }
        }
    }

    /// The SysTick handler: schedule, then advance the tick count, except on
    /// a tick that launches a task (see `pair_tick_spec`).
    pub fn tick(&mut self, flash_blue: u32, flash_red: u32) -> (action: Switch)
        requires
            pair_wf(old(self)@),
        ensures
            (final(self)@, action) == pair_tick_spec(old(self)@, flash_blue, flash_red),
            pair_wf(final(self)@),
    {
        let action = self.schedule(flash_blue, flash_red);
        if let Switch::ContextSwitch { .. } = action {
            let time = self.globaltime;
            self.globaltime = if time == 200 { 0 } else { time + 1 };
        }
        action
    }

    /// The tick count.
    pub fn global_time(&self) -> (t: usize)
        ensures
            t == self@.globaltime,
    {
        self.globaltime
    }
}

/// Whether a flasher task keeps its LED lit, given the tick count it last
/// read: lit for the first 100 ticks of each round, dark for the rest.
pub fn led_lit(count: usize) -> (lit: bool)
    ensures
        lit == (count < 100),
{
    if count < 100 {
        true
    } else {
        false
    }
}

/// Over `m` ticks the two tasks alternate, after two ticks both tasks have
/// been launched, and the tick count advances modulo 201 by the ticks that
/// launched nothing (so once both run, it comes back every 201 ticks).
pub proof fn lemma_pair_rounds(s: PairState, blue: u32, red: u32, m: nat)
    requires
        pair_wf(s),
    ensures
        pair_wf(pair_ticks(s, blue, red, m)),
        pair_ticks(s, blue, red, m).currtask == (s.currtask + m) % 2,
        pair_ticks(s, blue, red, m).globaltime == (s.globaltime + m - (pair_ticks(
            s,
            blue,
            red,
            m,
        ).ntasks - s.ntasks)) % 201,
        pair_ticks(s, blue, red, m).ntasks == if s.ntasks + m >= 2 { 2 } else { s.ntasks + m },
    decreases m,
{
    if m == 0 {
        lemma_small_mod(s.currtask, 2);
        lemma_small_mod(s.globaltime, 201);
    } else {
        lemma_pair_rounds(s, blue, red, (m - 1) as nat);
        let x = s.currtask + m - 1;
        let y = s.globaltime + m - 1;
        lemma_add_mod_noop(x, 1, 2);
        lemma_add_mod_noop(y, 1, 201);
        lemma_small_mod(1, 2);
        lemma_small_mod(1, 201);
    }
}

} // verus!
