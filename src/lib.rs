//! An interpreter core for an 8-bit virtual machine with a 64x32 monochrome
//! display and a sixteen-key hex keypad.
//!
//! The machine state, the instruction decoder and the execution engine are
//! verified: every instruction's effect is stated as a spec function over an
//! abstract model of the machine, and the engine is proved to implement it.
pub mod machine;
pub mod decode;
pub mod execute;
pub mod keypad;
pub mod laws;
