//! Decision core of the agent runtime: retry policy, session configuration,
//! conversation restore, context budgeting, tool dispatch and session
//! bookkeeping, each stated as a contract and proved.
//!
//! Everything here is computed from plain values. What touches the outside
//! world (files, sockets, channels, timers) lives in the application crate
//! around this one, which feeds events in and performs the actions that come
//! out.

pub mod text;
pub mod think;
pub mod str_map;
pub mod ids;
pub mod clock;
pub mod json;
pub mod error;
pub mod message;
pub mod model;
pub mod overrides;
pub mod session;
pub mod session_config;
pub mod conversation;
pub mod jsonl;
pub mod restorer;
pub mod restore_laws;
pub mod retry;
pub mod round_trip;
pub mod builtin_tools;
pub mod agent_loop;
pub mod llm_effects;
pub mod distill;
pub mod context;
pub mod compaction;
pub mod close;
pub mod memory;
pub mod attachments;
pub mod turn;
pub mod llm_stream;
pub mod tool_call;
pub mod shell_approval;
pub mod tool_run;
pub mod tool_pipeline;
pub mod tool_trim;
pub mod todo;
pub mod interaction;
pub mod session_message;
pub mod session_task;
pub mod session_handle;
pub mod session_manager;
pub mod session_init;
pub mod manager_config;
pub mod manager_workspace;
pub mod manager_idle;
pub mod user_profile;
