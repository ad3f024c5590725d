//! Chain lifecycle and JSON-RPC response delivery of a light client embedded in a host
//! program that reaches it through plain integers and byte buffers.
//!
//! The library keeps the registry of chains, decides each step of their lifecycle and of the
//! peek/pop delivery of responses, and filters log entries. The engine, the response streams
//! and the host's callbacks are driven by the caller, who performs what each step asks.
use vstd::prelude::*;

pub mod laws;
pub mod logger;
pub mod registry;
pub mod wire;

use crate::logger::Logger;

verus! {

/// Sets up the log filter: entries up to `max_log_level` reach the host.
pub fn init(max_log_level: u32) -> (r: Logger)
    ensures
        r.spec_max_level() == max_log_level,
{
    let mut logger = Logger::new(0);
    logger.set_max_level(max_log_level);
    logger
}

} // verus!
