//! Error type, log levels and the sample ring shared by every subsystem.

pub mod error;
pub mod log;
pub mod ring;
