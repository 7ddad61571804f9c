//! The client side of the daemon connection: bounds on connecting and on frame
//! lengths, paths, and session tees.

pub mod deadline_io;
pub mod paths;
pub mod telemetry;
