//! Audit of what a build leaves behind in a project checkout: classified
//! entries, a memoized total size of temporary artefacts, and the two reports.

pub mod kind;
pub mod text;
pub mod path;
pub mod project;
pub mod report;

pub use kind::FileKind;
pub use path::PathParts;
pub use project::{Entry, Project, ScanError};
