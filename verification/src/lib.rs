//! Verified core of an AI coding-agent runtime: conversation model,
//! context bookkeeping, routing, tool-call planning and text utilities.

pub mod clock;
pub mod message;
pub mod text;
pub mod tool;
pub mod context;
pub mod injection;
pub mod agent;
pub mod dispatch;
pub mod dedup;
pub mod provider;
pub mod anthropic;
pub mod soul;
pub mod compaction;
pub mod tui;
pub mod tools;
pub mod table;
pub mod registry;
pub mod bus;
pub mod skills;
pub mod cli;
pub mod pdf;
pub mod docs;
pub mod hooks;
pub mod session;
pub mod vars;
pub mod widgets;
pub mod utils;
pub mod ghostty;
pub mod shell;
