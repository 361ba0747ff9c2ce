//! Summarizes the key files of a project directory.
//!
//! A configuration lists glob patterns; a leading `!` marks a pattern as an
//! exclusion. Include patterns are joined with a base path and expanded
//! against the filesystem; a candidate survives when it is a regular file and
//! no exclusion expansion is an ancestor of it. The surviving paths and their
//! contents are rendered as a two-part textual report.

pub mod config;
pub mod paths;
pub mod report;
pub mod matcher;
