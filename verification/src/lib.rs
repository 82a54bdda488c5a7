//! An image browser's asset pipeline: a registry of discovered images, a
//! scheduler that requests decoding around the current selection without
//! ever blocking the frame loop, and a small sprite animation state machine.

pub mod game;
pub mod robot;
pub mod text;
