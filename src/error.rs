use vstd::prelude::*;

use crate::applied::AppliedMigration;
use crate::migration::Migration;

verus! {

/// What can stop a run.
#[derive(Clone, Debug)]
pub enum Error {
    /// A file name does not have the form `V<version>__<name>`.
    InvalidName,
    /// The version of a file name is not an integer that fits a `usize`.
    InvalidVersion,
    /// A known migration whose checksum differs from the one recorded for its version.
    DivergentVersion(AppliedMigration, Migration),
    /// A recorded migration that no known migration matches.
    MissingVersion(AppliedMigration),
    /// Two known migrations declare this version.
    DuplicateVersion(usize),
    /// The store failed while applying this migration.
    Connection(Migration),
}

} // verus!
