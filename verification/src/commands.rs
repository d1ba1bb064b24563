//! The command-line surface: the root command and its subcommands.

use vstd::prelude::*;
use crate::build_cmd;
use crate::update_env;

verus! {

/// The root command: one subcommand to run.
#[derive(Debug)]
pub struct Root {
    pub cmd: Cmd,
}

/// The subcommands: build contracts (and optionally their clients), or
/// update one variable of a `.env` file.
#[derive(Debug)]
pub enum Cmd {
    Build(build_cmd::Cmd),
    UpdateEnv(update_env::Cmd),
}

/// What can go wrong running a subcommand.
#[derive(Debug, Clone, PartialEq, Eq)]
pub enum Error {
    BuildContracts(build_cmd::Error),
    UpdateEnv(update_env::Error),
}

impl Root {
    /// Wraps one parsed subcommand.
    pub fn new(cmd: Cmd) -> (r: Root)
        ensures
            r == (Root { cmd }),
    {
        Root { cmd }
    }
}

} // verus!
