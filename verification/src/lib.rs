//! Save and restore the layout of desktop icons: the decisions, parsers and
//! text handling of the tool, each with a contract.

pub mod text;
pub mod numbers;
pub mod utf16;
pub mod text_map;
pub mod types;
pub mod config;
pub mod i18n;
pub mod cli;
pub mod profiles;
pub mod layout;
pub mod startup;
pub mod wait_drive;
pub mod process_watcher;
pub mod messages;
