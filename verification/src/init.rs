//! The project-initialization command's arguments and errors. The
//! scaffolding itself — templates, example contracts, file copying — is
//! the collaborators' work.

use vstd::prelude::*;

verus! {

/// A command to initialize a new project at the given path.
#[derive(Debug, Clone)]
pub struct Cmd {
    pub project_path: String,
}

/// What can go wrong during initialization.
#[derive(Debug, Clone, PartialEq, Eq)]
pub enum Error {
    IoError(String),
    SorobanInitError(String),
    ConverBytesToStringErr(String),
}

} // verus!
