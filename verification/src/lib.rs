//! Verified core of a WebAssembly button component for the RP2350 (Pico 2).
//!
//! * [`button`] keeps the registry of GPIO input pins, keyed by hardware pin
//!   number, and turns an active-low pin reading into a "pressed" answer.
//! * [`guest`] is the guest's polling logic as a state machine: it decides
//!   which host call comes next (read the button, drive the LED, wait) and how
//!   a button reading changes what follows.

pub mod button;
pub mod guest;
