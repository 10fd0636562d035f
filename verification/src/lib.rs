//! The decisions behind a small tool that triggers Drone builds, follows them to
//! their end and remembers which repositories and branches were built successfully.
//!
//! Everything here is computed from plain values and, where a success is recorded, the
//! system clock: the program around it talks to the server, the terminal, the
//! configuration file and the desktop.

pub mod api;
pub mod branches;
pub mod builds;
pub mod clock;
pub mod config;
pub mod error;
pub mod history;
pub mod order;
pub mod repos;
pub mod selection;
pub mod seqs;
pub mod session;
pub mod target;
pub mod text;
