//! Verified core of FastBoot, a `version.dll` proxy that skips the startup hold of a game.
//!
//! The hold is a busy-wait: a thread spins on the performance counter until a fixed deadline,
//! while the disk sits idle. The modules here decide when that signature is present, move the
//! virtual clock past the deadline, and stop. Hooking, file access and window messages belong
//! to the program around this library; it hands in plain values and performs the actions that
//! come back.

pub mod arith;
pub mod clock;
pub mod config;
pub mod event;
pub mod loader;
pub mod monitor;
pub mod names;
pub mod number;
pub mod probe;
pub mod text;
pub mod trace;
pub mod wide;
pub mod window;
