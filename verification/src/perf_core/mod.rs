//! Core building blocks: CPU lists, the perf.data layout, counter
//! configuration, privilege levels and sampling buffers.

pub mod cpu;
pub mod perf_data;
pub mod privilege;
pub mod perf_event;
pub mod ringbuf;
