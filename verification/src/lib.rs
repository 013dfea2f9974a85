//! A minimal formatted-output shim for heapless, bare-metal targets.
//!
//! The crate adapts a byte-sink primitive (a memory-mapped transmit
//! register, a host stream, a bounded transmit buffer) to a small
//! text-templating interface: a template with `{}` directives is expanded
//! against a list of byte-string arguments, and every resulting byte is
//! pushed to the sink in order.

pub mod emit;
pub mod sink;
pub mod template;
