//! The logic of an fzf-driven git diff viewer.
//!
//! Everything here computes on plain values: what `git` and `tmux` print, what files hold, what
//! the environment says. The program around it runs the processes and reads and writes the files.

pub mod text;
pub mod text_laws;
pub mod number;
pub mod order;
pub mod stats;
pub mod stats_laws;
pub mod paths;
pub mod paths_laws;
pub mod args;
pub mod args_laws;
pub mod startup;
pub mod startup_laws;
pub mod cache;
pub mod numstat;
pub mod numstat_laws;
pub mod blob;
pub mod viewed;
pub mod viewed_laws;
pub mod listing;
pub mod listing_laws;
pub mod row_laws;
pub mod targets;
pub mod targets_laws;
pub mod header;
pub mod header_laws;
pub mod command;
pub mod command_laws;
pub mod reply_laws;
pub mod message;
pub mod editor;
pub mod editor_laws;
pub mod fzf;
pub mod fzf_laws;
