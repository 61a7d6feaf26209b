//! Interrupts: what the processor leaves on the stack when one comes in, and
//! what happens on the way out of it.
pub mod handle;
pub mod trap_frame;
