use vstd::prelude::*;

use crate::applied::AppliedMigration;
use crate::error::Error;
use crate::migration::{Migration, Target};
use crate::resolver::{
    consistent, diverges, duplicated, first_offence, history_ascending, pending_set, recorded_checksum, resolve,
    unique_versions,
};

verus! {

/// `row` is the history row written for `m` at time `applied_on`.
pub open spec fn records(row: AppliedMigration, m: Migration, applied_on: Seq<char>) -> bool {
    &&& row.name@ == m.name@
    &&& row.version == m.version
    &&& row.checksum@ == recorded_checksum(m)
    &&& row.applied_on@ == applied_on
}

/// `after` is `before` followed by one row for each of the first `n` migrations of `ms`.
pub open spec fn appended(
    before: Seq<AppliedMigration>,
    after: Seq<AppliedMigration>,
    ms: Seq<Migration>,
    n: int,
    applied_on: Seq<char>,
) -> bool {
    &&& after.len() == before.len() + n
    &&& after.subrange(0, before.len() as int) == before
    &&& forall|i: int| 0 <= i < n ==> records(#[trigger] after[before.len() + i], ms[i], applied_on)
}

/// How many migrations of `p` run before the one at version `failing`.
pub open spec fn stop_index(p: Seq<Migration>, failing: Option<usize>) -> int
    decreases p.len(),
{
    if p.len() == 0 {
        0
    } else if failing == Some(p[0].version) {
        0
    } else {
        1 + stop_index(p.drop_first(), failing)
    }
}

/// The rows that a run leaves behind once `executed` of the `pending` migrations
/// ran, and what it returns: all rows and the migrations when all ran; else no new
/// row when grouped, the rows of those that ran when not, and the failing one.
pub open spec fn committed(
    before: Seq<AppliedMigration>,
    after: Seq<AppliedMigration>,
    pending: Seq<Migration>,
    executed: int,
    grouped: bool,
    applied_on: Seq<char>,
    r: Result<Vec<Migration>, Error>,
) -> bool {
    if executed >= pending.len() {
        appended(before, after, pending, pending.len() as int, applied_on) && r is Ok && r->Ok_0@
            == pending
    } else {
        &&& r == Err::<Vec<Migration>, Error>(Error::Connection(pending[executed]))
        &&& if grouped {
            after == before
        } else {
            appended(before, after, pending, executed, applied_on)
        }
    }
}

/// Builds the history row for a migration applied at `applied_on`.
pub fn history_row(m: &Migration, applied_on: &String) -> (r: AppliedMigration)
    ensures
        records(r, *m, applied_on@),
{
    AppliedMigration {
        name: m.name.clone(),
        version: m.version,
        applied_on: applied_on.clone(),
        checksum: m.checksum_string(),
    }
}

/// Records the outcome of executing `pending` in order, of which the first
/// `executed` succeeded, into `history`.
///
/// Grouped, a failure leaves no row at all; otherwise each migration that ran
/// keeps its row.
pub fn commit(
    history: &mut Vec<AppliedMigration>,
    pending: &Vec<Migration>,
    executed: usize,
    grouped: bool,
    applied_on: &String,
) -> (r: Result<Vec<Migration>, Error>)
    ensures
        committed(old(history)@, final(history)@, pending@, executed as int, grouped, applied_on@, r),
{
    let n: usize = if executed >= pending.len() {
        pending.len()
    } else if grouped {
        0
    } else {
        executed
    };
    let ghost before = history@;
    assert(history@.subrange(0, before.len() as int) =~= before);
    let mut i: usize = 0;
    while i < n
        invariant
            n <= pending@.len(),
            i <= n,
            appended(before, history@, pending@, i as int, applied_on@),
        decreases n - i,
    {
        let row = history_row(&pending[i], applied_on);
        let ghost mid = history@;
        history.push(row);
        proof {
            assert(history@.subrange(0, before.len() as int) =~= mid.subrange(0, before.len() as int));
            assert forall|k: int| 0 <= k < i + 1 implies records(
                #[trigger] history@[before.len() + k],
                pending@[k],
                applied_on@,
            ) by {
                if k < i {
                    assert(history@[before.len() + k] == mid[before.len() + k]);
                }
            };
        }
        i = i + 1;
    }
    if executed >= pending.len() {
        let mut out: Vec<Migration> = Vec::new();
        let mut j: usize = 0;
        while j < pending.len()
            invariant
                j <= pending@.len(),
                out@ == pending@.subrange(0, j as int),
            decreases pending.len() - j,
        {
            out.push(pending[j].copied());
            proof {
                assert(out@ =~= pending@.subrange(0, j as int + 1));
            }
            j = j + 1;
        }
        assert(out@ =~= pending@);
        Ok(out)
    } else {
        proof {
            if grouped {
                assert(history@ =~= before);
            }
        }
        Err(Error::Connection(pending[executed].copied()))
    }
}

/// The position in `pending` of the migration at version `failing`, or the
/// length when none is.
fn find_stop(pending: &Vec<Migration>, failing: Option<usize>) -> (r: usize)
    ensures
        r == stop_index(pending@, failing),
{
    let mut i: usize = 0;
    assert(pending@.subrange(0, pending@.len() as int) =~= pending@);
    while i < pending.len()
        invariant
            i <= pending@.len(),
            stop_index(pending@, failing) == i + stop_index(pending@.subrange(i as int, pending@.len() as int), failing),
        decreases pending.len() - i,
    {
        let ghost rest = pending@.subrange(i as int, pending@.len() as int);
        assert(rest.drop_first() =~= pending@.subrange(i as int + 1, pending@.len() as int));
        match failing {
            Some(v) => {
                if pending[i].version == v {
                    return i;
                }
            },
            None => {},
        }
        i = i + 1;
    }
    i
}

/// A configured migration run over a known set of migrations.
pub struct Runner {
    pub migrations: Vec<Migration>,
    pub grouped: bool,
    pub abort_divergent: bool,
    pub abort_missing: bool,
    pub target: Target,
}

impl Runner {
    /// A runner that applies each migration on its own, aborts on divergent and
    /// on missing migrations, and goes to the latest version.
    pub fn new(migrations: &Vec<Migration>) -> (r: Runner)
        ensures
            r.migrations@ == migrations@,
            !r.grouped,
            r.abort_divergent,
            r.abort_missing,
            r.target == Target::Latest,
    {
        let mut copy: Vec<Migration> = Vec::new();
        let mut j: usize = 0;
        while j < migrations.len()
            invariant
                j <= migrations@.len(),
                copy@ == migrations@.subrange(0, j as int),
            decreases migrations.len() - j,
        {
            copy.push(migrations[j].copied());
            proof {
                assert(copy@ =~= migrations@.subrange(0, j as int + 1));
            }
            j = j + 1;
        }
        assert(copy@ =~= migrations@);
        Runner {
            migrations: copy,
            grouped: false,
            abort_divergent: true,
            abort_missing: true,
            target: Target::Latest,
        }
    }

    /// The migrations that a run would apply to a store with this history.
    pub fn pending(&self, history: &Vec<AppliedMigration>) -> (r: Result<Vec<Migration>, Error>)
        requires
            history_ascending(history@),
        ensures
            !unique_versions(self.migrations@) ==> exists|v: usize|
                r == Err::<Vec<Migration>, Error>(Error::DuplicateVersion(v)) && duplicated(
                    self.migrations@,
                    v,
                ),
            forall|i: int|
                unique_versions(self.migrations@) && #[trigger] first_offence(
                    self.migrations@,
                    history@,
                    self.abort_divergent,
                    self.abort_missing,
                    i,
                ) ==> if self.abort_divergent && diverges(self.migrations@, history@[i]) {
                    exists|j: int|
                        0 <= j < self.migrations@.len() && self.migrations@[j].version
                            == history@[i].version && r == Err::<Vec<Migration>, Error>(
                            Error::DivergentVersion(history@[i], self.migrations@[j]),
                        )
                } else {
                    r == Err::<Vec<Migration>, Error>(Error::MissingVersion(history@[i]))
                },
            unique_versions(self.migrations@) && consistent(
                self.migrations@,
                history@,
                self.abort_divergent,
                self.abort_missing,
            ) ==> r is Ok && pending_set(self.migrations@, history@, self.target, r->Ok_0@),
    {
        resolve(&self.migrations, history, self.target, self.abort_divergent, self.abort_missing)
    }

    /// Runs against a history held in memory, where the statements of the
    /// migration at version `failing` (if any) fail. A refused history is left
    /// as it was; otherwise the pending migrations are committed as `commit` says.
    pub fn run(
        &self,
        history: &mut Vec<AppliedMigration>,
        failing: Option<usize>,
        applied_on: &String,
    ) -> (r: Result<Vec<Migration>, Error>)
        requires
            history_ascending(old(history)@),
        ensures
            !(unique_versions(self.migrations@) && consistent(
                self.migrations@,
                old(history)@,
                self.abort_divergent,
                self.abort_missing,
            )) ==> r is Err && final(history)@ == old(history)@,
            !unique_versions(self.migrations@) ==> exists|v: usize|
                r == Err::<Vec<Migration>, Error>(Error::DuplicateVersion(v)) && duplicated(
                    self.migrations@,
                    v,
                ),
            forall|i: int|
                unique_versions(self.migrations@) && #[trigger] first_offence(
                    self.migrations@,
                    old(history)@,
                    self.abort_divergent,
                    self.abort_missing,
                    i,
                ) ==> if self.abort_divergent && diverges(self.migrations@, old(history)@[i]) {
                    exists|j: int|
                        0 <= j < self.migrations@.len() && self.migrations@[j].version
                            == old(history)@[i].version && r == Err::<Vec<Migration>, Error>(
                            Error::DivergentVersion(old(history)@[i], self.migrations@[j]),
                        )
                } else {
                    r == Err::<Vec<Migration>, Error>(Error::MissingVersion(old(history)@[i]))
                },
            unique_versions(self.migrations@) && consistent(
                self.migrations@,
                old(history)@,
                self.abort_divergent,
                self.abort_missing,
            ) ==> exists|p: Seq<Migration>|
                pending_set(self.migrations@, old(history)@, self.target, p) && committed(
                    old(history)@,
                    final(history)@,
                    p,
                    stop_index(p, failing),
                    self.grouped,
                    applied_on@,
                    r,
                ),
    {
        proof {
            if !(unique_versions(self.migrations@) && consistent(
                self.migrations@,
                history@,
                self.abort_divergent,
                self.abort_missing,
            )) && unique_versions(self.migrations@) {
                let i = choose|i: int|
                    0 <= i < history@.len() && crate::resolver::offends(
                        self.migrations@,
                        history@[i],
                        self.abort_divergent,
                        self.abort_missing,
                    );
                lemma_first_offence_exists(self.migrations@, history@, self.abort_divergent, self.abort_missing, i);
            }
        }
        let pending = match self.pending(history) {
            Ok(p) => p,
            Err(e) => {
                return Err(e);
            },
        };
        let executed = find_stop(&pending, failing);
        commit(history, &pending, executed, self.grouped, applied_on)
    }
}

/// Some row is the first one that stops a run, when any row does.
proof fn lemma_first_offence_exists(
    known: Seq<Migration>,
    history: Seq<AppliedMigration>,
    abort_divergent: bool,
    abort_missing: bool,
    i: int,
)
    requires
        0 <= i < history.len(),
        crate::resolver::offends(known, history[i], abort_divergent, abort_missing),
    ensures
        exists|f: int| first_offence(known, history, abort_divergent, abort_missing, f),
    decreases i,
{
    if exists|k: int| 0 <= k < i && crate::resolver::offends(known, history[k], abort_divergent, abort_missing) {
        let k = choose|k: int| 0 <= k < i && crate::resolver::offends(known, history[k], abort_divergent, abort_missing);
        lemma_first_offence_exists(known, history, abort_divergent, abort_missing, k);
    } else {
        assert(first_offence(known, history, abort_divergent, abort_missing, i));
    }
}

} // verus!
