//! The system calls that tasks make with `svc`: the call number arrives in
//! `r0` and its argument in `r1`.
use vstd::prelude::*;

verus! {

/// What a system call asks for.
#[derive(PartialEq, Eq, Structural, Debug, Clone, Copy)]
pub enum Syscall {
    /// Call 1: wait for `10 * arg` milliseconds.
    Delay(usize),
    /// Call 2: toggle LED number `arg`.
    ToggleLed(usize),
    /// Any other call number: nothing is done.
    Ignored,
}

/// Decodes the call number and argument that a task passed to `svc`.
pub fn decode_syscall(sysnum: u32, arg: usize) -> (call: Syscall)
    ensures
        call == (if sysnum == 1 {
            Syscall::Delay(arg)
        } else if sysnum == 2 {
            Syscall::ToggleLed(arg)
        } else {
            Syscall::Ignored
        }),
{
    match sysnum {
        1 => Syscall::Delay(arg),
        2 => Syscall::ToggleLed(arg),
        _ => Syscall::Ignored,
    }
}

/// The milliseconds that the delay call waits: the argument cut to 16 bits,
/// times ten. The product must fit 16 bits (the multiplication would panic).
pub fn delay_ms(arg: usize) -> (ms: u16)
    requires
        10 * (arg as u16) <= u16::MAX,
    ensures
        ms == 10 * (arg as u16),
{
    10 * arg as u16
}

} // verus!
