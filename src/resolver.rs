use vstd::prelude::*;

use crate::applied::AppliedMigration;
use crate::error::Error;
use crate::migration::{decimal_of, Migration, Target};

verus! {

/// No two known migrations declare the same version.
pub open spec fn unique_versions(known: Seq<Migration>) -> bool {
    forall|i: int, j: int| 0 <= i < j < known.len() ==> known[i].version != known[j].version
}

/// Two known migrations declare version `v`.
pub open spec fn duplicated(known: Seq<Migration>, v: usize) -> bool {
    exists|i: int, j: int|
        0 <= i < j < known.len() && known[i].version == v && known[j].version == v
}

pub open spec fn has_version(known: Seq<Migration>, v: usize) -> bool {
    exists|j: int| 0 <= j < known.len() && known[j].version == v
}

/// The checksum text that the history table holds for a migration.
pub open spec fn recorded_checksum(m: Migration) -> Seq<char> {
    decimal_of(m.spec_checksum() as nat)
}

/// A known migration at the row's version has a checksum other than the recorded one.
pub open spec fn diverges(known: Seq<Migration>, row: AppliedMigration) -> bool {
    exists|j: int|
        0 <= j < known.len() && known[j].version == row.version && recorded_checksum(known[j])
            != row.checksum@
}

/// The row stops a run under the given flags.
pub open spec fn offends(
    known: Seq<Migration>,
    row: AppliedMigration,
    abort_divergent: bool,
    abort_missing: bool,
) -> bool {
    (abort_divergent && diverges(known, row)) || (abort_missing && !has_version(
        known,
        row.version,
    ))
}

/// Row `i` is the first row of the history that stops a run.
pub open spec fn first_offence(
    known: Seq<Migration>,
    history: Seq<AppliedMigration>,
    abort_divergent: bool,
    abort_missing: bool,
    i: int,
) -> bool {
    &&& 0 <= i < history.len()
    &&& offends(known, history[i], abort_divergent, abort_missing)
    &&& forall|k: int| 0 <= k < i ==> !offends(known, history[k], abort_divergent, abort_missing)
}

/// No row of the history stops a run.
pub open spec fn consistent(
    known: Seq<Migration>,
    history: Seq<AppliedMigration>,
    abort_divergent: bool,
    abort_missing: bool,
) -> bool {
    forall|k: int| 0 <= k < history.len() ==> !offends(known, history[k], abort_divergent, abort_missing)
}

/// The highest recorded version, 0 for an empty history.
pub open spec fn last_applied(history: Seq<AppliedMigration>) -> nat
    decreases history.len(),
{
    if history.len() == 0 {
        0
    } else {
        let before = last_applied(history.drop_last());
        if history.last().version > before {
            history.last().version as nat
        } else {
            before
        }
    }
}

pub open spec fn within(target: Target, v: usize) -> bool {
    match target {
        Target::Latest => true,
        Target::Version(bound) => v <= bound,
    }
}

/// The migration is newer than the history (any version is, when the history
/// is empty) and inside the target.
pub open spec fn is_pending(m: Migration, history: Seq<AppliedMigration>, target: Target) -> bool {
    (history.len() == 0 || m.version > last_applied(history)) && within(target, m.version)
}

/// Versions strictly increase along the history, as the store returns it.
pub open spec fn history_ascending(history: Seq<AppliedMigration>) -> bool {
    forall|i: int, j: int| 0 <= i < j < history.len() ==> history[i].version < history[j].version
}

/// Versions strictly increase along `p`.
pub open spec fn ascending(p: Seq<Migration>) -> bool {
    forall|i: int, j: int| 0 <= i < j < p.len() ==> p[i].version < p[j].version
}

/// `p` is exactly the pending known migrations, in ascending version order.
pub open spec fn pending_set(
    known: Seq<Migration>,
    history: Seq<AppliedMigration>,
    target: Target,
    p: Seq<Migration>,
) -> bool {
    &&& ascending(p)
    &&& forall|i: int| 0 <= i < p.len() ==> known.contains(#[trigger] p[i]) && is_pending(p[i], history, target)
    &&& forall|k: int|
        0 <= k < known.len() && is_pending(#[trigger] known[k], history, target) ==> p.contains(known[k])
}

fn find_duplicate(known: &Vec<Migration>) -> (r: Option<usize>)
    ensures
        r is None <==> unique_versions(known@),
        r matches Some(v) ==> duplicated(known@, v),
{
    let mut i: usize = 0;
    while i < known.len()
        invariant
            i <= known.len(),
            forall|a: int, b: int|
                0 <= a < i && a < b < known@.len() ==> known@[a].version != known@[b].version,
        decreases known.len() - i,
    {
        let mut j: usize = i + 1;
        while j < known.len()
            invariant
                i < known.len(),
                i + 1 <= j <= known.len(),
                forall|a: int, b: int|
                    0 <= a < i && a < b < known@.len() ==> known@[a].version != known@[b].version,
                forall|b: int| i < b < j ==> known@[i as int].version != known@[b].version,
            decreases known.len() - j,
        {
            if known[i].version == known[j].version {
                return Some(known[i].version);
            }
            j = j + 1;
        }
        i = i + 1;
    }
    None
}

fn pending_here(m: &Migration, history: &Vec<AppliedMigration>, last: usize, target: Target) -> (r: bool)
    requires
        last == last_applied(history@),
    ensures
        r == is_pending(*m, history@, target),
{
    let in_target = match target {
        Target::Latest => true,
        Target::Version(bound) => m.version <= bound,
    };
    (history.len() == 0 || m.version > last) && in_target
}

fn find_version(known: &Vec<Migration>, v: usize) -> (r: Option<usize>)
    ensures
        r is None <==> !has_version(known@, v),
        r matches Some(j) ==> j < known@.len() && known@[j as int].version == v,
{
    let mut j: usize = 0;
    while j < known.len()
        invariant
            j <= known.len(),
            forall|k: int| 0 <= k < j ==> known@[k].version != v,
        decreases known.len() - j,
    {
        if known[j].version == v {
            return Some(j);
        }
        j = j + 1;
    }
    None
}

/// Checks the history against the known migrations and returns the known
/// migrations still to apply, ascending by version.
///
/// Duplicate versions among the known migrations fail first. Then the rows of
/// the history are checked in ascending version order and the first one that
/// the flags make fatal fails the call: a divergent one under `abort_divergent`,
/// a missing one under `abort_missing`.
///
/// Divergent or missing rows that the flags leave non-fatal are tolerated
/// silently: they neither fail the call nor appear in its result. A caller that
/// wants them reported resolves again with both flags set.
pub fn resolve(
    known: &Vec<Migration>,
    history: &Vec<AppliedMigration>,
    target: Target,
    abort_divergent: bool,
    abort_missing: bool,
) -> (r: Result<Vec<Migration>, Error>)
    requires
        history_ascending(history@),
    ensures
        !unique_versions(known@) ==> exists|v: usize|
            r == Err::<Vec<Migration>, Error>(Error::DuplicateVersion(v)) && duplicated(known@, v),
        forall|i: int|
            unique_versions(known@) && #[trigger] first_offence(
                known@,
                history@,
                abort_divergent,
                abort_missing,
                i,
            ) ==> if abort_divergent && diverges(known@, history@[i]) {
                exists|j: int|
                    0 <= j < known@.len() && known@[j].version == history@[i].version && r
                        == Err::<Vec<Migration>, Error>(
                        Error::DivergentVersion(history@[i], known@[j]),
                    )
            } else {
                r == Err::<Vec<Migration>, Error>(Error::MissingVersion(history@[i]))
            },
        unique_versions(known@) && consistent(known@, history@, abort_divergent, abort_missing)
            ==> r is Ok && pending_set(known@, history@, target, r->Ok_0@),
{
    match find_duplicate(known) {
        Some(v) => {
            return Err(Error::DuplicateVersion(v));
        },
        None => {},
    }
    let mut last: usize = 0;
    let mut i: usize = 0;
    while i < history.len()
        invariant
            i <= history.len(),
            unique_versions(known@),
            last == last_applied(history@.subrange(0, i as int)),
            forall|k: int| 0 <= k < i ==> !offends(known@, history@[k], abort_divergent, abort_missing),
        decreases history.len() - i,
    {
        let row = &history[i];
        proof {
            assert(history@.subrange(0, i as int + 1).drop_last() =~= history@.subrange(0, i as int));
        }
        match find_version(known, row.version) {
            Some(j) => {
                if abort_divergent {
                    let sum = known[j].checksum_string();
                    if !(sum == row.checksum) {
                        assert(first_offence(known@, history@, abort_divergent, abort_missing, i as int));
                        return Err(Error::DivergentVersion(row.copied(), known[j].copied()));
                    }
                    assert(!diverges(known@, history@[i as int]));
                }
            },
            None => {
                if abort_missing {
                    assert(first_offence(known@, history@, abort_divergent, abort_missing, i as int));
                    return Err(Error::MissingVersion(row.copied()));
                }
            },
        }
        if row.version > last {
            last = row.version;
        }
        i = i + 1;
    }
    assert(history@.subrange(0, history@.len() as int) =~= history@);
    let mut out: Vec<Migration> = Vec::new();
    let mut j: usize = 0;
    while j < known.len()
        invariant
            j <= known.len(),
            unique_versions(known@),
            last == last_applied(history@),
            ascending(out@),
            forall|a: int|
                0 <= a < out@.len() ==> exists|k: int|
                    0 <= k < j && known@[k] == #[trigger] out@[a] && is_pending(known@[k], history@, target),
            forall|k: int|
                0 <= k < j && is_pending(#[trigger] known@[k], history@, target) ==> out@.contains(known@[k]),
        decreases known.len() - j,
    {
        let m = &known[j];
        if pending_here(m, history, last, target) {
            let mut pos: usize = 0;
            while pos < out.len() && out[pos].version < m.version
                invariant
                    pos <= out.len(),
                    forall|a: int| 0 <= a < pos ==> out@[a].version < m.version,
                decreases out.len() - pos,
            {
                pos = pos + 1;
            }
            let ghost before = out@;
            proof {
                if pos < out@.len() {
                    let k = choose|k: int|
                        0 <= k < j && known@[k] == out@[pos as int] && is_pending(known@[k], history@, target);
                    assert(known@[k].version != known@[j as int].version);
                }
            }
            out.insert(pos, m.copied());
            proof {
                before.insert_ensures(pos as int, known@[j as int]);
                assert forall|a: int|
                    0 <= a < out@.len() implies exists|k: int|
                        0 <= k < j + 1 && known@[k] == #[trigger] out@[a] && is_pending(known@[k], history@, target) by {
                    if a < pos {
                        assert(out@[a] == before[a]);
                    } else if a == pos {
                        assert(known@[j as int] == out@[a]);
                    } else {
                        assert(out@[a] == before[a - 1]);
                    }
                };
                assert forall|k: int|
                    0 <= k < j + 1 && is_pending(#[trigger] known@[k], history@, target) implies out@.contains(known@[k]) by {
                    if k == j {
                        assert(out@[pos as int] == known@[k]);
                    } else {
                        let a = choose|a: int| 0 <= a < before.len() && before[a] == known@[k];
                        if a < pos {
                            assert(out@[a] == known@[k]);
                        } else {
                            assert(out@[a + 1] == known@[k]);
                        }
                    }
                };
                assert forall|x: int, y: int| 0 <= x < y < out@.len() implies out@[x].version < out@[y].version by {
                    if pos < before.len() && y > pos {
                        assert(before[pos as int].version > known@[j as int].version);
                    }
                };
            }
        }
        j = j + 1;
    }
    proof {
        assert forall|i: int| 0 <= i < out@.len() implies known@.contains(#[trigger] out@[i]) && is_pending(out@[i], history@, target) by {
            let k = choose|k: int|
                0 <= k < known@.len() && known@[k] == out@[i] && is_pending(known@[k], history@, target);
        };
    }
    Ok(out)
}

} // verus!
