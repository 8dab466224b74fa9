//! The computations behind the subcommands: event lists, counter
//! statistics, recording attributes, reports and scripts.

pub mod stat;
pub mod script;
pub mod record;
pub mod report;
pub mod list;
pub mod plan;
pub mod counters;
pub mod sections;
