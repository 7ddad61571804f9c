//! Inspection of what brokers and daemons leave behind.

pub mod instances;
pub mod verify_basic;
