//! Native support library for the rdwm host: decodes a null-terminated
//! foreign argument vector into an owned command invocation, and computes
//! the log line and log file name that the host-facing layer writes out.

pub mod decode;
pub mod invocation;
pub mod logfile;
pub mod spawn;
pub mod text;
