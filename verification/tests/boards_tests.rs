use minikernel::blink::Blinker;
use minikernel::kernel::Switch;
use minikernel::lights::{LedSwitch, Lights};
use minikernel::syscall::{decode_syscall, delay_ms, Syscall};
use minikernel::two_task::{led_lit, PairScheduler};

#[test]
fn ring_moves_on_each_timer() {
    let mut l = Lights::new();
    assert_eq!(l.on_timer(), Some(LedSwitch { off: 3, on: 0 }));
    assert_eq!(l.on_timer(), Some(LedSwitch { off: 0, on: 1 }));
    assert_eq!(l.on_timer(), Some(LedSwitch { off: 1, on: 2 }));
    assert_eq!(l.on_timer(), Some(LedSwitch { off: 2, on: 3 }));
    assert_eq!(l.light(), 3);
}

#[test]
fn button_pauses_and_release_restarts() {
    let mut l = Lights::new();
    l.on_timer();
    assert_eq!(l.on_button(true), None);
    assert!(l.is_paused());
    assert_eq!(l.on_timer(), None);
    assert_eq!(l.light(), 0);
    l.on_timer();
    assert_eq!(l.on_button(false), Some(LedSwitch { off: 0, on: 0 }));
    assert!(!l.is_paused());
    l.on_timer();
    l.on_timer();
    assert_eq!(l.on_button(false), Some(LedSwitch { off: 2, on: 0 }));
    assert_eq!(l.light(), 0);
}

#[test]
fn touch_toggles_pause() {
    let mut l = Lights::new();
    l.on_touch();
    assert!(l.is_paused());
    assert_eq!(l.on_timer(), None);
    l.on_touch();
    assert!(!l.is_paused());
    assert_eq!(l.on_timer(), Some(LedSwitch { off: 3, on: 0 }));
}

#[test]
fn blinker_flips_every_thousand_wakes() {
    let mut b = Blinker::new();
    for _ in 0..999 {
        assert_eq!(b.on_wake(), None);
    }
    assert_eq!(b.on_wake(), Some(false));
    for _ in 0..999 {
        assert_eq!(b.on_wake(), None);
    }
    assert_eq!(b.on_wake(), Some(true));
    for _ in 0..999 {
        assert_eq!(b.on_wake(), None);
    }
    assert_eq!(b.on_wake(), Some(false));
}

#[test]
fn pair_scheduler_launches_blue_then_red() {
    let mut s = PairScheduler::new();
    assert_eq!(
        s.tick(0xB1, 0xED),
        Switch::AddTask { to: 0x2001_D000 + 40, func_ptr: 0xB1, sp_addr: 0x2001_CFFF - 2048 }
    );
    assert_eq!(
        s.tick(0xB1, 0xED),
        Switch::AddTask { to: 0x2001_D000 + 80, func_ptr: 0xED, sp_addr: 0x2001_CFFF }
    );
    assert_eq!(s.global_time(), 0);
    assert_eq!(s.tick(0xB1, 0xED), Switch::ContextSwitch { from: 0x2001_D000 + 40, to: 0x2001_D000 + 40 });
    assert_eq!(s.tick(0xB1, 0xED), Switch::ContextSwitch { from: 0x2001_D000, to: 0x2001_D000 + 80 });
    assert_eq!(s.global_time(), 2);
}

#[test]
fn pair_time_wraps_after_two_hundred() {
    let mut s = PairScheduler::new();
    for _ in 0..202 {
        s.tick(1, 2);
    }
    assert_eq!(s.global_time(), 200);
    s.tick(1, 2);
    assert_eq!(s.global_time(), 0);
}

#[test]
fn flasher_lit_for_first_hundred_ticks() {
    assert!(led_lit(0));
    assert!(led_lit(99));
    assert!(!led_lit(100));
    assert!(!led_lit(200));
}

#[test]
fn syscalls_decode() {
    assert_eq!(decode_syscall(1, 100), Syscall::Delay(100));
    assert_eq!(decode_syscall(2, 3), Syscall::ToggleLed(3));
    assert_eq!(decode_syscall(0, 3), Syscall::Ignored);
    assert_eq!(decode_syscall(7, 3), Syscall::Ignored);
    assert_eq!(delay_ms(100), 1000);
    assert_eq!(delay_ms(65536 + 5), 50);
}
