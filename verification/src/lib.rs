//! Sorting the files of one folder into category subfolders by extension.
//!
//! The crate holds the rules of the organizer: how a file name is split,
//! which category an extension belongs to, which name a copy gets when the
//! wanted one is taken, what is counted for each directory entry, and how the
//! summary reads. Touching the file system is left to the caller.

pub mod category;
pub mod cli;
pub mod counters;
pub mod destination;
pub mod filename;
pub mod report;
pub mod text;
pub mod walk;
