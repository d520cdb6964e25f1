//! Idle detection and command dispatch for a per-monitor screensaver daemon.
//!
//! The library decides, from a polled cursor-presence signal and a pushed
//! session-wide idle signal, when each connected monitor should show an
//! overlay animation, and expresses every decision as a value of a small
//! command vocabulary.  All I/O (compositor sockets, timers, rendering)
//! lives outside the library; the functions here are pure state transitions
//! and parsers with verified contracts.

pub mod commands;
pub mod config;
pub mod engine;
pub mod events;
pub mod geometry;
pub mod protocol;
pub mod screensavers;
pub mod text;
