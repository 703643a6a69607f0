//! A bounded random walk of a handful of robots on a fixed grid.
//!
//! Every robot is driven by an actor that answers each `Move` command with a
//! displacement of at most one cell per axis. An orchestrator collects one
//! answer per actor and tick, moves the robots inside the grid, records which
//! cells were visited and when, and tells its caller what to do next: send
//! the commands, receive an answer, look for a key press, or draw.
//!
//! The library holds the rules only. Threads, channels, the terminal and the
//! log belong to the program around it.

pub mod actor;
pub mod decay;
pub mod error;
pub mod grid;
pub mod keys;
pub mod orchestrator;
pub mod renderer;
pub mod trail;
