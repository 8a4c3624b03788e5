//! The validated command line: a verb with its parameters, as the argument
//! parser hands it over.

use vstd::prelude::*;

verus! {

/// How many log entries are listed where no number is given.
pub const DEFAULT_NUMBER: u32 = 25;

/// What was asked for on the command line.
pub struct Args {
    /// Whether each invocation of the tool is echoed.
    pub verbose: bool,
    /// The verb; `None` where none was given.
    pub command: Option<Commands>,
}

/// The verbs, each with its parameters.
#[allow(inconsistent_fields)]
pub enum Commands {
    /// Fold fixup commits into the commits they fix: over the last `number`
    /// commits where a number is given, else back to `base`.
    Autosquash { number: Option<u32>, base: Option<String> },
    /// Create the branch `name` from the latest base.
    Branch { name: String, base: Option<String> },
    /// Switch to the branch `name` or, without a name, to one chosen from
    /// the local branches, the remote ones (`remote`) or both (`all`).
    Checkout { name: Option<String>, remote: bool, all: bool },
    /// Delete the branches whose remote is gone; with `dry_run`, only say which.
    DeleteBranches { dry_run: bool },
    /// Commit as a fixup of one of the last `number` commits.
    Fixup { number: u32 },
    /// Rebase the current branch onto the latest base.
    Rebase { base: Option<String> },
    /// Cherry-pick some of the last `number` commits of `branch`.
    CherryPick { branch: String, number: u32 },
    /// Delete local branches chosen from a list; with `force`, also unmerged ones.
    DeleteBranch { force: bool },
    /// Anything else: the arguments, passed on to the tool as they came.
    External(Vec<String>),
}

} // verus!
