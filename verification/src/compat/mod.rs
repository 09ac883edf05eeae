//! `stream-json` compatibility.
//!
//! Maps the events of a run to the lines that callers read under
//! `--output-format stream-json`. The mapping does no I/O: [`map_events`] turns
//! one event into zero or more [`ClaudeLine`]s, and [`to_ndjson`] writes one.

pub mod claude;
pub mod laws;
pub mod wire;

pub use crate::compat::claude::{map_events, system_init, to_ndjson, ClaudeLine, MapCtx};
