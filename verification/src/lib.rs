//! Core of a small single-CPU kernel: the bridge between hardware interrupts
//! and a cooperative task executor.
//!
//! Interrupt handlers bump a tick counter and invoke wake handles; tasks
//! suspended on those handles are pushed back onto the executor's ready queue
//! and polled again. A registry keeps each task's name, run state and poll
//! count inspectable, and carries the forced-termination ("kill") protocol.
//!
//! - [`interrupts`]: the numbering of the hardware interrupt lines.
//! - [`task`]: tasks and their identifiers;
//!   [`task::registry`], the lifecycle bookkeeping;
//!   [`task::executor`], the scheduler;
//!   [`task::time`], the tick counter and the subscriptions to it;
//!   [`task::keyboard`], the queue of keyboard scancodes.
//! - [`task::shell`] and [`task::snake`]: the rules of the two interactive
//!   programs that run as tasks, the command shell and the snake game.
//! - [`input`]: the buffer of typed characters.
//!
//! The library decides; it touches no hardware. Whoever drives it masks and
//! unmasks interrupts, halts the CPU, talks to the interrupt controllers and
//! draws on the screen.

pub mod input;
pub mod interrupts;
pub mod task;
