//! Directory-scan analysis core.
//!
//! The library turns what a scan of a directory tree found into a report:
//! it resolves which directories and files are left out and why, detects
//! project types and frameworks from marker files and manifests, counts
//! lines and sizes per file and in total, renders the directory tree, and
//! keeps the content of sensitive files out of the result.
//!
//! Nothing here touches the disk. The caller reads the file system into the
//! plain values of [`snapshot`]; every rule that decides what those values
//! mean is a verified function with a contract over the characters of names
//! and texts.
//!
//! - [`exclusion`]: the fixed exclusion rules and the report of what was
//!   left out.
//! - [`project`] and [`framework`]: detection at the project root.
//! - [`stats`], [`lines`], [`tally`] and [`ranking`]: the statistics.
//! - [`walk`]: the walk over the tree.
//! - [`size`] and [`percent`]: sizes and shares in words.
//! - [`output`]: the finished report and its renderers.
//! - [`text`]: the helpers on characters that the rest is built on.

pub mod exclusion;
pub mod framework;
pub mod lines;
pub mod output;
pub mod percent;
pub mod project;
pub mod ranking;
pub mod size;
pub mod snapshot;
pub mod stats;
pub mod tally;
pub mod text;
pub mod walk;
