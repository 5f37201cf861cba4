//! x86_64 architecture: what the interrupt handlers decide.
//!
//! Loading descriptor tables, programming the interrupt controller and
//! port I/O are done by the caller; the handlers here take what was read
//! from the hardware and say what is to be written to it.

pub mod interrupts;
