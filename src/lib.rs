//! A periodic script scheduler: job configuration, the job registry, the
//! launch and watchdog decisions and the shutdown protocol, with their
//! contracts proved by Verus.

pub mod cli;
pub mod config;
pub mod error;
pub mod interpreter;
pub mod launcher;
pub mod laws;
pub mod list_sorter;
pub mod pid;
pub mod runner;
pub mod sort_list;
pub mod syncer;
pub mod text;

pub use cli::{Args, Commands, ExportFormat, ListFormat};
pub use config::ScriptConfig;
pub use interpreter::{
    detect_interpreter, get_interpreter_for_extension, is_supported_extension,
    supported_interpreters,
};
pub use syncer::ScriptSyncer;
