//! Tools that the agent can call.

pub mod bash;
