//! Lists the most recently created files in a user's downloads directory.
//!
//! The crate has two components, composed linearly by a caller:
//!
//! - [`resolve`] decides which directory to scan, from the home directory,
//!   one existence probe, and the `XDG_DOWNLOAD_DIR` environment variable.
//! - [`listing`] turns the raw entries observed in that directory into a
//!   sequence of regular-file paths sorted newest-first by creation time,
//!   together with a diagnostic record for each entry that had to be skipped.
//!
//! Reading the environment, probing the filesystem and enumerating the
//! directory are left to the caller; every function here is a pure, verified
//! function of the values the caller observed.

pub mod listing;
pub mod resolve;
