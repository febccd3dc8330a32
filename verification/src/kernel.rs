//! A round-robin task kernel for a single Cortex-M core.
//!
//! The kernel keeps up to 31 tasks, given by the addresses of their entry
//! functions. On each SysTick it picks the next task in turn; the first time
//! a task comes up it is launched on a fresh stack, afterwards the registers
//! of the preempted task are saved in its context frame and those of the next
//! task are restored from its own frame. The state and the decisions live
//! here; the machine code that actually moves the registers is handed the
//! addresses that `schedule` computes.
use vstd::prelude::*;
use vstd::arithmetic::div_mod::{lemma_add_mod_noop, lemma_small_mod};

verus! {

/// Bottom of the area that holds the saved context frames.
pub const CTX_STACK_START: u32 = 0x2001_D000;

/// Size of one context frame: ten registers (r4-r11, lr and the stack pointer).
pub const CTX_STACK_SIZE: u32 = 40;

/// Top of the first task's stack; stacks grow downward from here.
pub const TASK_STACK_START: u32 = 0x2001_CFFF;

/// Size of one task stack.
pub const TASK_STACK_SIZE: u32 = 2048;

/// Number of task slots; one is kept free, so at most 31 tasks are created.
pub const TASKS_LIMIT: u32 = 32;

/// What the SysTick handler asks of the context-switch machinery.
#[derive(PartialEq, Eq, Structural, Debug, Clone, Copy)]
pub enum Switch {
    /// Save the preempted task's registers below `to`, then start the task at
    /// `func_ptr` on a fresh stack whose top is `sp_addr`.
    AddTask { to: u32, func_ptr: u32, sp_addr: u32 },
    /// Save the preempted task's registers below `to`, then restore the next
    /// task's registers upward from `from`.
    ContextSwitch { from: u32, to: u32 },
}

/// The abstract state of the kernel.
pub struct KernelState {
    /// The task that runs now.
    pub currtask: nat,
    /// Ticks counted since start, wrapping around at `usize::MAX` (ticks
    /// that launch a task are not counted; see `tick_spec`).
    pub globaltime: nat,
    /// How many tasks have been launched.
    pub started: nat,
    /// How many tasks have been created.
    pub ntasks: nat,
    /// Entry addresses of the tasks by slot, once `init` has run.
    pub func_ptrs: Option<Seq<u32>>,
}

/// The invariant of every reachable kernel state.
pub open spec fn state_wf(s: KernelState) -> bool {
    &&& s.ntasks < TASKS_LIMIT
    &&& s.started <= s.ntasks
    &&& s.ntasks == 0 ==> s.currtask == 0
    &&& s.ntasks > 0 ==> s.currtask < s.ntasks
    &&& s.globaltime <= usize::MAX
    &&& s.func_ptrs matches Some(p) ==> p.len() == TASKS_LIMIT
}

/// The state of a kernel that has just been loaded: everything zero, and no
/// table of entry addresses yet.
pub open spec fn initial_state() -> KernelState {
    KernelState { currtask: 0, globaltime: 0, started: 0, ntasks: 0, func_ptrs: None }
}

/// `init`: a fresh, zeroed table of entry addresses.
pub open spec fn init_spec(s: KernelState) -> KernelState {
    KernelState { func_ptrs: Some(Seq::new(TASKS_LIMIT as nat, |i: int| 0u32)), ..s }
}

/// `create_task`: the task takes the next slot, unless that would reach the
/// last slot; its entry is recorded where the table exists.
pub open spec fn create_task_spec(s: KernelState, func: u32) -> KernelState {
    if s.ntasks + 1 >= TASKS_LIMIT {
        s
    } else {
        KernelState {
            ntasks: s.ntasks + 1,
            func_ptrs: match s.func_ptrs {
                Some(p) => Some(p.update(s.ntasks as int, func)),
                None => None,
            },
            ..s
        }
    }
}

/// Top of the context frame of task `t` (frames are filled downward).
pub open spec fn ctx_top(t: int) -> int {
    CTX_STACK_START + (t + 1) * CTX_STACK_SIZE
}

/// Bottom of the context frame of task `t` (frames are read upward).
pub open spec fn ctx_base(t: int) -> int {
    CTX_STACK_START + t * CTX_STACK_SIZE
}

/// Top of the stack of the task that runs in slot `t`.
pub open spec fn stack_top(t: int) -> int {
    TASK_STACK_START - t * TASK_STACK_SIZE
}

/// The task that comes after `s.currtask`.
pub open spec fn next_task(s: KernelState) -> nat {
    ((s.currtask as int + 1) % (s.ntasks as int)) as nat
}

/// `schedule`: move to the next task in turn. A task not launched yet is
/// launched (in creation order) on the stack of the next slot; otherwise the
/// next task's saved frame is restored. Either way the preempted task is
/// saved into its own frame.
pub open spec fn schedule_spec(s: KernelState) -> (KernelState, Switch) {
    let next = next_task(s);
    if s.started < s.ntasks {
        (
            KernelState { currtask: next, started: s.started + 1, ..s },
            Switch::AddTask {
                to: ctx_top(s.currtask as int) as u32,
                func_ptr: match s.func_ptrs {
                    Some(p) => p[s.started as int],
                    None => 0u32,
                },
                sp_addr: stack_top(next as int) as u32,
            },
        )
    } else {
        (
            KernelState { currtask: next, ..s },
            Switch::ContextSwitch {
                from: ctx_base(next as int) as u32,
                to: ctx_top(s.currtask as int) as u32,
            },
        )
    }
}

/// `tick` (the SysTick handler): schedule, then count the tick. The count
/// step of a handler runs only once the context that it preempted is resumed:
/// a context switch resumes a context saved by an earlier handler, which then
/// counts one tick, while a launch resumes nothing, so a tick that launches a
/// task leaves the count as it was.
pub open spec fn tick_spec(s: KernelState) -> (KernelState, Switch) {
    let (t, action) = schedule_spec(s);
    (
        KernelState {
            globaltime: if action is ContextSwitch {
                if t.globaltime == usize::MAX { 0 } else { t.globaltime + 1 }
            } else {
                t.globaltime
            },
            ..t
        },
        action,
    )
}

/// The state after `m` ticks.
pub open spec fn ticks(s: KernelState, m: nat) -> KernelState
    decreases m,
{
    if m == 0 {
        s
    } else {
        tick_spec(ticks(s, (m - 1) as nat)).0
    }
}

/// The task kernel.
pub struct Kernel {
    currtask: usize,
    globaltime: usize,
    started: usize,
    ntasks: usize,
    func_ptrs: Option<Vec<u32>>,
}

impl View for Kernel {
    type V = KernelState;

    closed spec fn view(&self) -> KernelState {
        KernelState {
            currtask: self.currtask as nat,
            globaltime: self.globaltime as nat,
            started: self.started as nat,
            ntasks: self.ntasks as nat,
            func_ptrs: match self.func_ptrs {
                Some(v) => Some(v@),
                None => None,
            },
        }
    }
}

impl Kernel {
    /// The kernel as it is loaded, before `init`.
    pub fn new() -> (k: Kernel)
        ensures
            k@ == initial_state(),
            state_wf(k@),
    {
        Kernel { currtask: 0, globaltime: 0, started: 0, ntasks: 0, func_ptrs: None }
    }

    /// Sets up an empty table of task entry addresses.
    pub fn init(&mut self)
        requires
            state_wf(old(self)@),
        ensures
            final(self)@ == init_spec(old(self)@),
            state_wf(final(self)@),
    {
        let mut arr: Vec<u32> = Vec::new();
        let mut i: u32 = 0;
        while i < TASKS_LIMIT
            invariant
                i <= TASKS_LIMIT,
                arr@.len() == i,
                forall|j: int| 0 <= j < i ==> arr@[j] == 0u32,
            decreases TASKS_LIMIT - i,
        {
            arr.push(0u32);
            i += 1;
        }
        assert(arr@ == Seq::new(TASKS_LIMIT as nat, |i: int| 0u32));
        self.func_ptrs = Some(arr);
    }

    /// Registers a task by the address of its entry function. Does nothing
    /// once 31 tasks exist.
    pub fn create_task(&mut self, func: u32)
        requires
            state_wf(old(self)@),
        ensures
            final(self)@ == create_task_spec(old(self)@, func),
            state_wf(final(self)@),
    {
        let ntasks: usize = self.ntasks;
        if ntasks + 1 >= TASKS_LIMIT as usize {
            return;
        }
        self.ntasks = ntasks + 1;
        if let Some(func_ptrs) = &mut self.func_ptrs {
            func_ptrs.set(ntasks, func);
        }
    }

    /// Picks the next task and says how to switch to it. Needs at least one
    /// task (with none, the next task would be a remainder modulo zero).
    pub fn schedule(&mut self) -> (action: Switch)
        requires
            state_wf(old(self)@),
            old(self)@.ntasks > 0,
        ensures
            (final(self)@, action) == schedule_spec(old(self)@),
            state_wf(final(self)@),
    {
        let ntasks: u32 = self.ntasks as u32;
        let currtask: u32 = self.currtask as u32;
        let nexttask: u32 = (currtask + 1) % ntasks;
        self.currtask = nexttask as usize;
        let started: usize = self.started;
        if started < self.ntasks {
            let to: u32 = CTX_STACK_START + (currtask + 1) * CTX_STACK_SIZE;
            let mut func_ptr: u32 = 0;
            if let Some(func_ptrs) = &self.func_ptrs {
                func_ptr = func_ptrs[started];
            }
            let sp_addr: u32 = TASK_STACK_START - nexttask * TASK_STACK_SIZE;
            self.started = started + 1;
            Switch::AddTask { to, func_ptr, sp_addr }
        } else {
            let from: u32 = CTX_STACK_START + nexttask * CTX_STACK_SIZE;
            let to: u32 = CTX_STACK_START + (currtask + 1) * CTX_STACK_SIZE;
            Switch::ContextSwitch { from, to }
        }
    }

    /// The SysTick handler: schedule, then count the tick (wrapping), except
    /// on a tick that launches a task (see `tick_spec`).
    pub fn tick(&mut self) -> (action: Switch)
        requires
            state_wf(old(self)@),
            old(self)@.ntasks > 0,
        ensures
            (final(self)@, action) == tick_spec(old(self)@),
            state_wf(final(self)@),
    {
        let action = self.schedule();
        if let Switch::ContextSwitch { .. } = action {
            self.globaltime = if self.globaltime == usize::MAX { 0 } else { self.globaltime + 1 };
        }
        action
    }

    /// The tick count.
    pub fn global_time(&self) -> (t: usize)
        ensures
            t == self@.globaltime,
    {
        self.globaltime
    }

    /// How many tasks exist.
    pub fn task_count(&self) -> (n: usize)
        ensures
            n == self@.ntasks,
    {
        self.ntasks
    }

    /// The task that runs now.
    pub fn current_task(&self) -> (t: usize)
        ensures
            t == self@.currtask,
    {
        self.currtask
    }
}

/// A wait on the tick count, as `delay` sets it up.
pub struct Delay {
    /// The tick count at which the wait is over.
    pub target: usize,
}

/// Starts a wait of `time` ticks from the tick count `start`. The target is
/// `time + start`, which must not overflow (the addition would panic).
pub fn delay(time: usize, start: usize) -> (wait: Delay)
    requires
        time + start <= usize::MAX,
    ensures
        wait.target == time + start,
{
    let target: usize = time + start;
    Delay { target }
}

impl Delay {
    /// Whether the wait is over at tick count `now`: the caller keeps
    /// polling while `now` is below the target.
    pub fn is_over(&self, now: usize) -> (over: bool)
        ensures
            over == (now >= self.target),
    {
        !(now < self.target)
    }
}

/// What one scheduling step does, in closed form: the next task is the one
/// after the current one modulo the number of tasks; the preempted task is
/// saved below `0x2001_D000 + 40 * (current + 1)`, the top of its own frame;
/// a switch restores from `0x2001_D000 + 40 * next`, the bottom of the frame
/// of the task that becomes current; a launch starts the oldest task not yet
/// launched (entry 0 while there is no table) on the stack whose top is
/// `0x2001_CFFF - 2048 * next`; and switches come exactly once every task has
/// been launched.
pub proof fn lemma_schedule_closed_form(s: KernelState)
    requires
        state_wf(s),
        s.ntasks > 0,
    ensures
        ({
            let (t, action) = schedule_spec(s);
            &&& t.currtask == (s.currtask as int + 1) % (s.ntasks as int)
            &&& t.ntasks == s.ntasks
            &&& t.func_ptrs == s.func_ptrs
            &&& t.globaltime == s.globaltime
            &&& (action is ContextSwitch <==> s.started >= s.ntasks)
            &&& action matches Switch::ContextSwitch { from, to } ==> {
                &&& from == 0x2001_D000 + 40 * t.currtask
                &&& to == 0x2001_D000 + 40 * (s.currtask + 1)
                &&& t.started == s.started
            }
            &&& action matches Switch::AddTask { to, func_ptr, sp_addr } ==> {
                &&& to == 0x2001_D000 + 40 * (s.currtask + 1)
                &&& sp_addr == 0x2001_CFFF - 2048 * t.currtask
                &&& func_ptr == (if s.func_ptrs is Some { s.func_ptrs->0[s.started as int] } else { 0u32 })
                &&& t.started == s.started + 1
            }
        }),
{
    let n = s.ntasks as int;
    let next = (s.currtask as int + 1) % n;
    assert(0 <= next < n);
    assert(0 <= s.currtask < n);
    assert(next * 40 <= 31 * 40 && (s.currtask + 1) * 40 <= 32 * 40) by (nonlinear_arith)
        requires
            0 <= next < n,
            0 <= s.currtask < n,
            n < 32,
    ;
    assert(next * 2048 <= 31 * 2048) by (nonlinear_arith)
        requires
            0 <= next < n,
            n < 32,
    ;
    assert(next * 40 == 40 * next && (s.currtask + 1) * 40 == 40 * (s.currtask + 1)
        && next * 2048 == 2048 * next) by (nonlinear_arith);
}

/// `create_task` on a kernel that already has 31 tasks changes nothing at
/// all, the table of entries included; otherwise it adds one task and writes
/// its entry into slot `ntasks` of the table, leaving every other slot as it
/// was.
pub proof fn lemma_create_task_closed_form(s: KernelState, func: u32)
    requires
        state_wf(s),
    ensures
        s.ntasks >= 31 ==> create_task_spec(s, func) == s,
        s.ntasks < 31 ==> ({
            let t = create_task_spec(s, func);
            &&& t.ntasks == s.ntasks + 1
            &&& t.currtask == s.currtask
            &&& t.started == s.started
            &&& t.globaltime == s.globaltime
            &&& (t.func_ptrs is Some <==> s.func_ptrs is Some)
            &&& s.func_ptrs matches Some(p) ==> {
                &&& t.func_ptrs->0.len() == p.len()
                &&& t.func_ptrs->0[s.ntasks as int] == func
                &&& forall|j: int| 0 <= j < p.len() && j != s.ntasks ==> #[trigger] t.func_ptrs->0[j] == p[j]
            }
        }),
{
}

/// Every step of the kernel keeps its invariant, and `ntasks` only changes by
/// `create_task`.
pub proof fn lemma_steps_keep_invariant(s: KernelState, func: u32)
    requires
        state_wf(s),
    ensures
        state_wf(init_spec(s)),
        state_wf(create_task_spec(s, func)),
        s.ntasks > 0 ==> state_wf(schedule_spec(s).0) && schedule_spec(s).0.ntasks == s.ntasks,
        s.ntasks > 0 ==> state_wf(tick_spec(s).0) && tick_spec(s).0.ntasks == s.ntasks,
{
}

/// Round robin: over `m` ticks the running task advances by `m` places
/// modulo the number of tasks, and the number of tasks stays the same.
pub proof fn lemma_round_robin(s: KernelState, m: nat)
    requires
        state_wf(s),
        s.ntasks > 0,
    ensures
        state_wf(ticks(s, m)),
        ticks(s, m).ntasks == s.ntasks,
        ticks(s, m).currtask == (s.currtask as int + m as int) % (s.ntasks as int),
    decreases m,
{
    if m == 0 {
        lemma_small_mod(s.currtask, s.ntasks);
    } else {
        lemma_round_robin(s, (m - 1) as nat);
        let prev = ticks(s, (m - 1) as nat);
        let n = s.ntasks as int;
        let x = s.currtask as int + m as int - 1;
        assert(prev.currtask == x % n);
        assert(ticks(s, m) == tick_spec(prev).0);
        assert(tick_spec(prev).0.currtask == schedule_spec(prev).0.currtask);
        assert(schedule_spec(prev).0.currtask == next_task(prev));
        if n == 1 {
            assert((x + 1) % 1 == 0);
            assert((prev.currtask as int + 1) % 1 == 0);
        } else {
            lemma_small_mod(1, n as nat);
            lemma_add_mod_noop(x, 1, n);
        }
    }
}

/// Each created task is launched once, in creation order: over `m` ticks the
/// count of launched tasks grows by one per tick until every task runs; and
/// the tick count advances, wrapping, by the ticks that launched nothing.
pub proof fn lemma_launch_order(s: KernelState, m: nat)
    requires
        state_wf(s),
        s.ntasks > 0,
    ensures
        ticks(s, m).started == if s.started + m <= s.ntasks { s.started + m } else { s.ntasks },
        ticks(s, m).func_ptrs == s.func_ptrs,
        ticks(s, m).globaltime == (s.globaltime + m - (ticks(s, m).started - s.started)) % (
        usize::MAX + 1),
    decreases m,
{
    let w = usize::MAX + 1;
    if m == 0 {
        lemma_small_mod(s.globaltime, w as nat);
    } else {
        lemma_launch_order(s, (m - 1) as nat);
        lemma_round_robin(s, (m - 1) as nat);
        let prev = ticks(s, (m - 1) as nat);
        let y = s.globaltime + (m - 1) - (prev.started - s.started);
        assert(prev.globaltime == y % w);
        if prev.started >= prev.ntasks {
            lemma_add_mod_noop(y, 1, w);
            lemma_small_mod(1, w as nat);
            if prev.globaltime == usize::MAX {
                assert((prev.globaltime as int + 1) % w == 0);
            } else {
                lemma_small_mod((prev.globaltime + 1) as nat, w as nat);
            }
        }
    }
}

/// The frame that a switch restores for a task is the very frame into which
/// that task was saved; the frames of different tasks, and the stacks of
/// different slots, do not overlap; and every frame lies above every stack.
pub proof fn lemma_frames_and_stacks(t: int, u: int)
    requires
        0 <= t < TASKS_LIMIT,
        0 <= u < TASKS_LIMIT,
    ensures
        ctx_base(t) + CTX_STACK_SIZE == ctx_top(t),
        t < u ==> ctx_top(t) <= ctx_base(u),
        t < u ==> stack_top(u) + TASK_STACK_SIZE <= stack_top(t),
        stack_top(t) < ctx_base(u),
        stack_top(t) - TASK_STACK_SIZE >= 0x2000_0000,
        ctx_top(t) <= u32::MAX,
{
    assert(t * CTX_STACK_SIZE + CTX_STACK_SIZE == (t + 1) * CTX_STACK_SIZE) by (nonlinear_arith);
    assert(t < u ==> (t + 1) * CTX_STACK_SIZE <= u * CTX_STACK_SIZE) by (nonlinear_arith);
    assert(t < u ==> (t + 1) * TASK_STACK_SIZE <= u * TASK_STACK_SIZE) by (nonlinear_arith);
    assert(0 <= t * TASK_STACK_SIZE <= 31 * TASK_STACK_SIZE) by (nonlinear_arith)
        requires
            0 <= t < TASKS_LIMIT,
    ;
    assert(0 <= u * CTX_STACK_SIZE <= 31 * CTX_STACK_SIZE) by (nonlinear_arith)
        requires
            0 <= u < TASKS_LIMIT,
    ;
    assert(0 <= t * CTX_STACK_SIZE <= 31 * CTX_STACK_SIZE) by (nonlinear_arith)
        requires
            0 <= t < TASKS_LIMIT,
    ;
}

} // verus!
