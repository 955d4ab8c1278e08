//! Orchestration engine for grid-based cellular-automaton and fluid
//! simulations that run as sequences of compute kernels.
//!
//! The engine decides, frame by frame, which kernels are dispatched and in
//! what order; a host compiles the kernels, owns the grid memory and executes
//! the dispatches that the engine queues.

pub mod error;
pub mod grid;
pub mod kernel;
pub mod layout;
pub mod progress;
pub mod queue;
pub mod sequencer;
pub mod simulation;
pub mod state;
pub mod tracker;
pub mod variant;
