//! Airlock: the decision logic of a local git gate that runs pipelines on
//! pushed commits before they are forwarded upstream.

pub mod text;
pub mod types;
pub mod error;
pub mod paths;
pub mod provider;
pub mod workflow;
pub mod push_coalescer;
pub mod run_queue;
pub mod pipeline;
pub mod dag;
pub mod ids;
pub mod ipc;
pub mod runs;
pub mod executor;
pub mod push;
pub mod push_flow;
pub mod worktree;
pub mod shell;
pub mod service;
pub mod patches;
pub mod patch_session;
pub mod jj;
pub mod cleanup;
pub mod artifacts;
pub mod status;
pub mod sync;
