//! The command-line surface, as plain data. Argument parsing and help text
//! belong to the program around the library; the library only defines what a
//! parsed invocation holds.

use vstd::prelude::*;

verus! {

/// A parsed invocation.
pub struct Cli {
    pub command: Commands,
}

/// The two operations the tool performs.
pub enum Commands {
    /// Resolve an identity and log in through the vault tool; no
    /// orchestration-API interaction.
    Login { environment: Option<String> },
    /// Run the full cascade, then open a shell in the resolved container.
    Execute {
        environment: Option<String>,
        container: Option<String>,
        cluster: Option<String>,
        region: Option<String>,
        task: Option<String>,
    },
}

} // verus!
