use minikernel::kernel::{delay, Kernel, Switch};

#[test]
fn tasks_launch_in_order_then_switch() {
    let mut k = Kernel::new();
    k.init();
    k.create_task(0x0800_1001);
    k.create_task(0x0800_2001);
    assert_eq!(k.task_count(), 2);
    assert_eq!(
        k.tick(),
        Switch::AddTask { to: 0x2001_D000 + 40, func_ptr: 0x0800_1001, sp_addr: 0x2001_CFFF - 2048 }
    );
    assert_eq!(k.current_task(), 1);
    assert_eq!(
        k.tick(),
        Switch::AddTask { to: 0x2001_D000 + 80, func_ptr: 0x0800_2001, sp_addr: 0x2001_CFFF }
    );
    assert_eq!(k.current_task(), 0);
    assert_eq!(k.global_time(), 0);
    assert_eq!(k.tick(), Switch::ContextSwitch { from: 0x2001_D000 + 40, to: 0x2001_D000 + 40 });
    assert_eq!(k.global_time(), 1);
    assert_eq!(k.tick(), Switch::ContextSwitch { from: 0x2001_D000, to: 0x2001_D000 + 80 });
    assert_eq!(k.global_time(), 2);
}

#[test]
fn without_init_tasks_start_at_zero() {
    let mut k = Kernel::new();
    k.create_task(0x0800_1001);
    assert_eq!(k.schedule(), Switch::AddTask { to: 0x2001_D000 + 40, func_ptr: 0, sp_addr: 0x2001_CFFF });
    assert_eq!(k.global_time(), 0);
}

#[test]
fn at_most_thirty_one_tasks() {
    let mut k = Kernel::new();
    k.init();
    for i in 0..40u32 {
        k.create_task(0x0800_0000 + i);
    }
    assert_eq!(k.task_count(), 31);
}

#[test]
fn round_robin_visits_every_task() {
    let mut k = Kernel::new();
    k.init();
    for i in 0..5u32 {
        k.create_task(0x0800_0000 + 4 * i);
    }
    let mut seen = Vec::new();
    for _ in 0..10 {
        k.tick();
        seen.push(k.current_task());
    }
    assert_eq!(seen, vec![1, 2, 3, 4, 0, 1, 2, 3, 4, 0]);
}

#[test]
fn delay_ends_at_target() {
    let wait = delay(100, 7);
    assert_eq!(wait.target, 107);
    assert!(!wait.is_over(7));
    assert!(!wait.is_over(106));
    assert!(wait.is_over(107));
    assert!(wait.is_over(500));
    assert!(delay(0, 3).is_over(3));
}
