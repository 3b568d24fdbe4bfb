//! A frame-driven pipeline that turns synthetic network traffic into scene
//! instructions: a time-gated packet generator, a last-in-first-out hand-off
//! queue, a device registry, the spawn planner of the packet lifecycle and the
//! discrete part of a free-fly camera controller.
//!
//! Everything here works on whole numbers, booleans and strings. The scene
//! host owns the floating-point geometry and applies the plans made here.

pub mod anomaly_detection;
pub mod models;
pub mod simulation;
pub mod visualization;
