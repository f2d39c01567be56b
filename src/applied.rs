use vstd::prelude::*;

verus! {

/// A row of the history table.
#[derive(Clone, Debug)]
pub struct AppliedMigration {
    pub name: String,
    pub version: usize,
    /// ISO-8601 timestamp with offset.
    pub applied_on: String,
    /// Decimal form of the migration's fingerprint.
    pub checksum: String,
}

impl AppliedMigration {
    pub fn copied(&self) -> (r: AppliedMigration)
        ensures
            r == *self,
    {
        AppliedMigration {
            name: self.name.clone(),
            version: self.version,
            applied_on: self.applied_on.clone(),
            checksum: self.checksum.clone(),
        }
    }
}

/// Two rows are equal when version, name and checksum agree.
impl PartialEq for AppliedMigration {
    fn eq(&self, other: &AppliedMigration) -> (r: bool) {
        self.version == other.version && self.name == other.name && self.checksum == other.checksum
    }
}

impl vstd::std_specs::cmp::PartialEqSpecImpl for AppliedMigration {
    open spec fn obeys_eq_spec() -> bool {
        true
    }

    open spec fn eq_spec(&self, other: &AppliedMigration) -> bool {
        self.version == other.version && self.name@ == other.name@ && self.checksum@
            == other.checksum@
    }
}

impl Eq for AppliedMigration {}

} // verus!
