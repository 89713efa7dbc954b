//! A verified core for a terminal file manager: safe display of outside text,
//! command-line argument handling, key bindings, path validation for transfers,
//! and the bookkeeping of the file-system tasks.

pub mod args;
pub mod bindings;
pub mod copy_start;
pub mod copy_walk;
pub mod copying;
pub mod file_copy;
pub mod keys;
pub mod keys_laws;
pub mod modes;
pub mod paths;
pub mod removal;
pub mod scan;
pub mod search;
pub mod sized_read;
pub mod tasks;
pub mod text;
pub mod transfer;
pub mod unicode;
pub mod text_buf;
pub mod utf8_units;
pub mod walk;
pub mod watch;

