//! Linux performance monitoring library: event parsing, CPU lists,
//! the perf.data layout, symbol tables and stack unwinding rules.

pub mod text;
pub mod order;
pub mod counts;
pub mod tracepoint;
pub mod events;
pub mod error;
pub mod perf_core;
pub mod endian;
pub mod symbols;
pub mod unwind;
pub mod arch;
pub mod commands;
pub mod pager;
