//! ANT: an orchestration kernel for AI agents — the verified core.
pub mod ai;
pub mod text;
pub mod path;
pub mod text_map;
pub mod kernel;
pub mod bus;
pub mod cli;
pub mod metrics;
pub mod sys;
pub mod tools;
pub mod ui;
