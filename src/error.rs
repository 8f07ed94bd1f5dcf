use vstd::prelude::*;

verus! {

/// What can go wrong while switching or listing profiles.
///
/// Errors of the configuration store and of the file system are carried as
/// their rendered text.
#[derive(Debug)]
pub enum GitProfileError {
    /// The repository whose configuration was asked for could not be opened.
    RepositoryOpen { message: String },
    /// The configuration store failed to read or write.
    ConfigAccess { message: String },
    /// A required environment variable is not set.
    Environment { variable: String },
    /// A profile name that cannot name a file in the profile directory.
    ProfilePath { path: String },
    /// Reading the profile directory failed.
    Io { message: String },
}

} // verus!
