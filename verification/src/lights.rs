//! A ring of four LEDs that lights one LED at a time and moves on with every
//! timer interrupt. The user button pauses the ring while it is held and
//! sends it back to the first LED when it is let go; the touch pin pauses
//! and resumes it.
use vstd::prelude::*;

verus! {

/// Number of LEDs in the ring.
pub const LED_COUNT: usize = 4;

/// Turn one LED off and another on.
#[derive(PartialEq, Eq, Structural, Debug, Clone, Copy)]
pub struct LedSwitch {
    pub off: usize,
    pub on: usize,
}

/// The abstract state of the ring.
pub struct LightsState {
    pub paused: bool,
    /// The lit LED.
    pub light: nat,
}

/// Every reachable state lights one of the four LEDs.
pub open spec fn lights_wf(s: LightsState) -> bool {
    s.light < LED_COUNT
}

/// Timer interrupt: unless paused, the next LED in the ring lights up.
pub open spec fn on_timer_spec(s: LightsState) -> (LightsState, Option<LedSwitch>) {
    if !s.paused {
        let next = ((s.light + 1) % 4) as nat;
        (
            LightsState { light: next, ..s },
            Some(LedSwitch { off: s.light as usize, on: next as usize }),
        )
    } else {
        (s, None)
    }
}

/// Button interrupt: held down, the ring pauses; let go, it goes back to the
/// first LED and runs.
pub open spec fn on_button_spec(s: LightsState, high: bool) -> (LightsState, Option<LedSwitch>) {
    if high {
        (LightsState { paused: true, ..s }, None)
    } else {
        (
            LightsState { paused: false, light: 0 },
            Some(LedSwitch { off: s.light as usize, on: 0 }),
        )
    }
}

/// Touch interrupt: pause if running, resume if paused.
pub open spec fn on_touch_spec(s: LightsState) -> LightsState {
    LightsState { paused: !s.paused, ..s }
}

/// The state after `m` timer interrupts.
pub open spec fn timer_ticks(s: LightsState, m: nat) -> LightsState
    decreases m,
{
    if m == 0 {
        s
    } else {
        on_timer_spec(timer_ticks(s, (m - 1) as nat)).0
    }
}

/// The LED ring.
pub struct Lights {
    paused: bool,
    light: usize,
}

impl View for Lights {
    type V = LightsState;

    closed spec fn view(&self) -> LightsState {
        LightsState { paused: self.paused, light: self.light as nat }
    }
}

impl Lights {
    /// The ring at start: running, with the last LED lit.
    pub fn new() -> (l: Lights)
        ensures
            l@ == (LightsState { paused: false, light: 3 }),
            lights_wf(l@),
    {
        Lights { paused: false, light: 3 }
    }

    /// Handles a timer interrupt and says which LEDs to switch.
    pub fn on_timer(&mut self) -> (change: Option<LedSwitch>)
        requires
            lights_wf(old(self)@),
        ensures
            (final(self)@, change) == on_timer_spec(old(self)@),
            lights_wf(final(self)@),
    {
        if !self.paused {
            let tmp: usize = self.light;
            self.light = (tmp + 1) % 4;
            Some(LedSwitch { off: tmp, on: (tmp + 1) % 4 })
        } else {
            None
        }
    }

    /// Handles a button interrupt; `high` is the button's level.
    pub fn on_button(&mut self, high: bool) -> (change: Option<LedSwitch>)
        requires
            lights_wf(old(self)@),
        ensures
            (final(self)@, change) == on_button_spec(old(self)@, high),
            lights_wf(final(self)@),
    {
        if high {
            self.paused = true;
            None
        } else {
            let tmp: usize = self.light;
            self.light = 0;
            self.paused = false;
            Some(LedSwitch { off: tmp, on: 0 })
        }
    }

    /// Handles a touch interrupt.
    pub fn on_touch(&mut self)
        ensures
            final(self)@ == on_touch_spec(old(self)@),
    {
        if !self.paused {
            self.paused = true;
        } else {
            self.paused = false;
        }
    }

    /// The lit LED.
    pub fn light(&self) -> (l: usize)
        ensures
            l == self@.light,
    {
        self.light
    }

    /// Whether the ring is paused.
    pub fn is_paused(&self) -> (p: bool)
        ensures
            p == self@.paused,
    {
        self.paused
    }
}

/// Every LED switch that the ring asks for names LEDs that exist.
pub proof fn lemma_switches_in_range(s: LightsState, high: bool)
    requires
        lights_wf(s),
    ensures
        on_timer_spec(s).1 matches Some(c) ==> c.off < LED_COUNT && c.on < LED_COUNT,
        on_button_spec(s, high).1 matches Some(c) ==> c.off < LED_COUNT && c.on < LED_COUNT,
        lights_wf(on_timer_spec(s).0),
        lights_wf(on_button_spec(s, high).0),
        lights_wf(on_touch_spec(s)),
{
}

/// A running ring comes back to the same LED after four timer interrupts;
/// a paused ring does not move at all.
pub proof fn lemma_ring_period(s: LightsState, m: nat)
    requires
        lights_wf(s),
    ensures
        !s.paused ==> timer_ticks(s, m) == (LightsState { paused: false, light: ((s.light + m) % 4) as nat }),
        s.paused ==> timer_ticks(s, m) == s,
        !s.paused ==> timer_ticks(s, 4) == s,
    decreases m,
{
    if m > 0 {
        lemma_ring_period(s, (m - 1) as nat);
    }
    reveal_with_fuel(timer_ticks, 5);
}

/// Two touches leave the ring as it was; letting go of the button always
/// leaves it running on the first LED, whatever came before; pressing the
/// button always leaves it paused on the same LED, whatever came before (a
/// ring paused by the touch pin stays paused), so that a timer interrupt
/// then changes nothing.
pub proof fn lemma_touch_and_release(s: LightsState, t: LightsState)
    ensures
        on_touch_spec(on_touch_spec(s)) == s,
        on_button_spec(s, false).0 == on_button_spec(t, false).0,
        on_button_spec(s, false).0 == (LightsState { paused: false, light: 0 }),
        on_button_spec(s, true).0.light == s.light,
        on_button_spec(s, true).0.paused,
        on_button_spec(s, true).1 is None,
        on_timer_spec(on_button_spec(s, true).0) == (on_button_spec(s, true).0, None::<LedSwitch>),
        on_touch_spec(s).paused != s.paused,
{
}

} // verus!
