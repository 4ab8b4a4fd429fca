//! A simulated torch: a dimmable light that burns down over time, flickers at
//! random and, past a configured age, goes out for good with a probability
//! that rises with every time boundary it survives.
//!
//! The crate is pure logic. A driver feeds it ticks and hands the duty cycle
//! it returns to an output; nothing here touches hardware.

pub mod brightness;
pub mod engine;
pub mod error;
pub mod extinguish;
pub mod pseudo_rand;
pub mod time_base;
