use vstd::prelude::*;

use crate::applied::AppliedMigration;
use crate::migration::{Migration, Target};
use crate::resolver::{
    ascending, consistent, diverges, has_version, pending_set, recorded_checksum,
    unique_versions,
};
use crate::runner::records;

verus! {

/// The checksum depends on the name, the version and the script alone: two
/// migrations that agree on them have the same checksum, in any process.
pub proof fn checksum_is_deterministic(a: Migration, b: Migration)
    requires
        a.name@ == b.name@,
        a.version == b.version,
        a.sql@ == b.sql@,
    ensures
        a.spec_checksum() == b.spec_checksum(),
        recorded_checksum(a) == recorded_checksum(b),
{
}

/// Against an empty history with the latest target, the pending set is the
/// whole known set, ascending by version.
pub proof fn empty_history_pends_everything(known: Seq<Migration>, p: Seq<Migration>)
    requires
        unique_versions(known),
        pending_set(known, Seq::<AppliedMigration>::empty(), Target::Latest, p),
    ensures
        ascending(p),
        forall|k: int| 0 <= k < known.len() ==> p.contains(#[trigger] known[k]),
        forall|i: int| 0 <= i < p.len() ==> known.contains(#[trigger] p[i]),
{
    assert forall|k: int| 0 <= k < known.len() implies p.contains(#[trigger] known[k]) by {
        assert(crate::resolver::is_pending(known[k], Seq::<AppliedMigration>::empty(), Target::Latest));
    };
}

/// A history whose every row has a known migration at its version with the same
/// checksum is never refused as divergent or missing, under any flags (known
/// sets with a repeated version are refused as duplicates before that).
pub proof fn matching_history_is_consistent(
    known: Seq<Migration>,
    history: Seq<AppliedMigration>,
    abort_divergent: bool,
    abort_missing: bool,
)
    requires
        forall|i: int|
            0 <= i < history.len() ==> exists|j: int|
                0 <= j < known.len() && known[j].version == (#[trigger] history[i]).version
                    && recorded_checksum(known[j]) == history[i].checksum@,
    ensures
        unique_versions(known) ==> consistent(known, history, abort_divergent, abort_missing),
{
    if unique_versions(known) {
        assert forall|i: int| 0 <= i < history.len() implies !crate::resolver::offends(
            known,
            #[trigger] history[i],
            abort_divergent,
            abort_missing,
        ) by {
            let j = choose|j: int|
                0 <= j < known.len() && known[j].version == history[i].version
                    && recorded_checksum(known[j]) == history[i].checksum@;
            assert(has_version(known, history[i].version));
            assert(!diverges(known, history[i]));
        };
    }
}

/// Without `abort_divergent`, divergent rows never stop a run: a history whose
/// every row has a known migration at its version is accepted whatever the
/// checksums say.
pub proof fn divergence_tolerated_without_abort(
    known: Seq<Migration>,
    history: Seq<AppliedMigration>,
    abort_missing: bool,
)
    requires
        forall|i: int| 0 <= i < history.len() ==> has_version(known, #[trigger] history[i].version),
    ensures
        consistent(known, history, false, abort_missing),
{
}

/// The row written for a migration holds the checksum that is recomputed from
/// the row's name and version and the migration's script.
pub proof fn recorded_row_round_trips(row: AppliedMigration, m: Migration, applied_on: Seq<char>, again: Migration)
    requires
        records(row, m, applied_on),
        again.name@ == row.name@,
        again.version == row.version,
        again.sql@ == m.sql@,
    ensures
        recorded_checksum(again) == row.checksum@,
{
}

} // verus!
