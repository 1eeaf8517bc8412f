//! The command-line surface: which action one invocation performs. Argument
//! parsing itself happens outside the library; these are the parsed shapes.

use vstd::prelude::*;

verus! {

/// One action per run: search the registry, install a mod, remove one, or
/// initialize a new environment.
pub enum Action {
    Search { mod_name: String, limit: u16 },
    Install { mod_name: String },
    Remove { mod_name: String },
    Init,
}

/// The parsed command line.
pub struct Arguments {
    pub action: Action,
}

} // verus!
