//! Agent-side runtime core for a multi-stage artifact pipeline.
//!
//! The crate models the decision logic of a pipeline agent: stage dispatch,
//! the activation gate shared by lifecycle handling, the self-upgrade
//! build/validate/evaluate sub-pipeline, endpoint health aggregation, the
//! streamed-response bridge, and identity-file parsing. All I/O (transport,
//! LLM gateway, subprocesses) lives outside; the functions here take and
//! return plain values and carry contracts for every documented rule.

pub mod dispatch;
pub mod gate;
pub mod handlers;
pub mod health;
pub mod session;
pub mod soul;
pub mod stream;
pub mod text;
pub mod upgrade;
