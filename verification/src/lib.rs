//! Parsers for the text that `git` prints: branches, authors, remotes,
//! commit logs, file trees, change statistics and diffs, as typed records.
//!
//! The library runs no command. A caller runs `git` with the arguments that
//! the library builds, and hands the library the exit status and the text
//! that came back.

pub mod command;
pub mod contribute;
pub mod delimiter;
pub mod delimiter_roundtrip;
pub mod determinism;
pub mod diff;
pub mod err;
pub mod repository;
pub mod shortstat;
pub mod shortstat_roundtrip;
pub mod status;
pub mod structs;
pub mod text;
pub mod tree;
pub mod util;

pub use crate::delimiter::get_format_key_map;
pub use crate::diff::is_binary;
pub use crate::shortstat::log_shortstat_parse;
pub use crate::status::parse_file_status;
pub use crate::tree::{file_info_list_to_tree, insert_file_to_tree};
