//! The argument set one invocation runs with, and what it selects.
//!
//! Parsing the command line and reading environment defaults happen outside
//! the library; the parsed values arrive here as plain fields.

use vstd::prelude::*;

verus! {

/// The arguments of one invocation.
pub struct Cli {
    /// Verbose diagnostics.
    pub debug: bool,
    /// The base directory to scan.
    pub target_dir: String,
    /// Delete the discovered directories instead of reporting them.
    pub delete: bool,
    /// With `delete`: remove every candidate without prompting.
    pub force: bool,
}

/// What one invocation does after scanning and sizing.
#[derive(Debug, PartialEq, Eq, Clone, Copy)]
pub enum RunMode {
    /// Print the candidates largest-first with a totals row.
    Report,
    /// Remove every candidate, stopping at the first failure.
    ForceDelete,
    /// Prompt for a selection and remove only what was selected.
    InteractiveDelete,
}

impl Cli {
    /// The flags are consistent: forcing only makes sense when deleting.
    pub open spec fn wf(self) -> bool {
        self.force ==> self.delete
    }

    /// Which mode the flags select.
    pub fn run_mode(&self) -> (m: RunMode)
        ensures
            m == RunMode::Report <==> !self.delete,
            m == RunMode::ForceDelete <==> self.delete && self.force,
            m == RunMode::InteractiveDelete <==> self.delete && !self.force,
    {
        if !self.delete {
            RunMode::Report
        } else if self.force {
            RunMode::ForceDelete
        } else {
            RunMode::InteractiveDelete
        }
    }
}

} // verus!
