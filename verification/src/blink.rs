//! A blinker driven by wake-ups: the task sleeps until the next interrupt,
//! and on every thousandth wake-up it flips a flag word kept in memory and
//! lights or darkens the LED by the flag's old value.
use vstd::prelude::*;

verus! {

/// Wake-ups between two flips of the flag.
pub const WAKES_PER_FLIP: i32 = 1000;

/// The abstract state of the blinker.
pub struct BlinkState {
    /// Wake-ups since the last flip.
    pub count: int,
    /// The flag word: 1 darkens the LED at the next flip, 0 lights it.
    pub word: int,
}

/// Every reachable state.
pub open spec fn blink_wf(s: BlinkState) -> bool {
    &&& 0 <= s.count < WAKES_PER_FLIP
    &&& 0 <= s.word <= 1
}

/// One wake-up: count it; on the thousandth, start counting again, flip the
/// flag, and light the LED where the flag was 0 (`Some(true)`) or darken it
/// where it was 1 (`Some(false)`).
pub open spec fn wake_spec(s: BlinkState) -> (BlinkState, Option<bool>) {
    if s.count + 1 == WAKES_PER_FLIP {
        (
            BlinkState { count: 0, word: if s.word == 1 { 0 } else { 1 } },
            Some(s.word == 0),
        )
    } else {
        (BlinkState { count: s.count + 1, ..s }, None)
    }
}

/// The state after `m` wake-ups.
pub open spec fn wakes(s: BlinkState, m: nat) -> BlinkState
    decreases m,
{
    if m == 0 {
        s
    } else {
        wake_spec(wakes(s, (m - 1) as nat)).0
    }
}

/// The blinker.
pub struct Blinker {
    count: i32,
    word: u32,
}

impl View for Blinker {
    type V = BlinkState;

    closed spec fn view(&self) -> BlinkState {
        BlinkState { count: self.count as int, word: self.word as int }
    }
}

impl Blinker {
    /// The blinker at start: no wake-ups yet, and the flag word set to 1.
    pub fn new() -> (b: Blinker)
        ensures
            b@ == (BlinkState { count: 0, word: 1 }),
            blink_wf(b@),
    {
        Blinker { count: 0, word: 1 }
    }

    /// Handles one wake-up; `Some(lit)` when the LED is to be set.
    pub fn on_wake(&mut self) -> (led: Option<bool>)
        requires
            blink_wf(old(self)@),
        ensures
            (final(self)@, led) == wake_spec(old(self)@),
            blink_wf(final(self)@),
    {
        self.count += 1;
        if self.count == WAKES_PER_FLIP {
            self.count = 0;
            let state: u32 = self.word;
            self.word = if state == 1 { 0 } else { 1 };
            Some(state == 0)
        } else {
            None
        }
    }
}

/// The flag flips exactly once every thousand wake-ups: up to the next flip
/// only the count moves, and the flip comes on the `1000 - count`-th wake-up.
pub proof fn lemma_flip_period(s: BlinkState, m: nat)
    requires
        blink_wf(s),
        m <= WAKES_PER_FLIP - s.count,
    ensures
        m < WAKES_PER_FLIP - s.count ==> wakes(s, m) == (BlinkState { count: s.count + m, word: s.word }),
        m == WAKES_PER_FLIP - s.count ==> wakes(s, m) == (BlinkState { count: 0, word: 1 - s.word }),
    decreases m,
{
    if m > 0 {
        lemma_flip_period(s, (m - 1) as nat);
    }
}

/// Two flips in a row set the LED to opposite states.
pub proof fn lemma_flips_alternate(s: BlinkState)
    requires
        blink_wf(s),
        s.count == WAKES_PER_FLIP - 1,
    ensures
        wake_spec(s).1 == Some(s.word == 0),
        ({
            let t = BlinkState { count: WAKES_PER_FLIP - 1, word: wake_spec(s).0.word };
            wake_spec(t).1 == Some(!(s.word == 0))
        }),
{
}

} // verus!
