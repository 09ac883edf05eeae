//! Run modes: what they have in common, the interactive loop and the
//! `stream-json` wire.

pub mod interactive;
pub mod run;
pub mod stream_json;
