//! What a child process left behind.

use vstd::prelude::*;

verus! {

/// Whether a child process succeeded, and what it printed.
#[derive(Debug)]
pub struct CommandOutput {
    pub success: bool,
    pub stdout: String,
    pub stderr: String,
}

} // verus!
