use vstd::prelude::*;

verus! {

/// The command line of the program.
#[derive(Debug)]
pub struct Cli {
    /// What to do.
    pub command: Commands,
}

/// The commands of the program.
#[derive(Debug)]
pub enum Commands {
    /// Switch to a profile.
    Switch {
        /// The profile to switch to.
        profile_name: String,
        /// Whether to switch the global configuration instead of the
        /// repository's.
        global: bool,
    },
    /// List the profiles.
    List {
        /// Whether to show the path of each profile's file.
        verbose: bool,
    },
}

} // verus!
