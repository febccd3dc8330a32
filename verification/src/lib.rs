//! A small operating-system kernel for the STM32F407 Discovery board, and
//! the programs that grew up around it, with the decisions they make stated
//! and proved:
//! - `primes`: trial-division primality, prime counting, and sharing an
//!   interval out among worker threads;
//! - `lights`: an LED ring driven by a timer, a button and a touch pin;
//! - `blink`: an LED flipped every thousand wake-ups;
//! - `two_task`: a scheduler for two fixed tasks;
//! - `kernel`: the round-robin task kernel and its delays;
//! - `syscall`: the system calls that tasks make;
//! - `elf`: finding a task's entry in an embedded object file.

pub mod blink;
pub mod elf;
pub mod kernel;
pub mod lights;
pub mod primes;
pub mod syscall;
pub mod two_task;
