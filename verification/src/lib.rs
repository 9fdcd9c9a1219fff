//! Library core of a console assistant that turns a natural-language request
//! into a shell command plan and gates its execution behind a local policy.
//!
//! The two load-bearing parts are verified here: the targeted-field scanner
//! that pulls the model's answer string out of a raw provider response, and
//! the policy-gated execution state machine that decides whether and how a
//! decoded command plan may run. Transport, terminal input and process
//! spawning stay outside the library; callers drive the executor by feeding
//! it confirmation input and per-command results.

pub mod api;
pub mod console;
pub mod executor;
pub mod extract;
pub mod ollama;
pub mod plan;
pub mod prompt;
pub mod setting;
pub mod text;
