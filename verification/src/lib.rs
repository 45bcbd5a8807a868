//! The deterministic core of the deepcode coding agent and of its terminal
//! client.
//!
//! Everything that decides, counts, parses or lays out lives here and is
//! verified; files, processes, sockets, clocks and the terminal itself are
//! driven by the application around the library.
pub mod agent_loop;
pub mod event;
pub mod guard;
pub mod ids;
pub mod json;
pub mod keys;
pub mod listing;
pub mod laws;
pub mod llm_response;
pub mod paths;
pub mod permission_handler;
pub mod plan_executor;
pub mod plan_review;
pub mod request;
pub mod run;
pub mod session;
pub mod setup;
pub mod state;
pub mod stream;
pub mod subagent;
pub mod subagent_run;
pub mod text;
pub mod turn_executor;
pub mod turn_laws;
pub mod types;
pub mod ui;
pub mod validation;
pub mod words;
pub mod workspace_trust;
