//! Program names and identifiers of the processes listed by a `/proc`-style
//! process information filesystem.
//!
//! The reading of the filesystem is left to the caller: the functions here take
//! the raw records of a process directory (the `exe` link target, the `comm`
//! text and the `cmdline` bytes) and decide, with proved contracts, which name
//! and identifier a process gets.

pub mod text;
pub mod base_name;
pub mod pid;
pub mod resolve;
pub mod entry;

pub use base_name::get_name_from_str;
pub use entry::{ProcDir, ProcProgEntry};
pub use pid::{get_pid_from_proc_path, parse_pid_str};
pub use resolve::{choose_name, resolve_name, ProcRecords, TieBreak, CMDLINE_READ_LIMIT};
