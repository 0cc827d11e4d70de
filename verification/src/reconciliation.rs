//! What holds of reconciliation whatever the store and the files are.

use vstd::prelude::*;
use crate::models::DataFileView;
use crate::catalogue_database::{
    decide, fresh_entry, holds, relocated, run, slot, step, stored_path, valid, CatalogueView,
    Decision, OutcomeView,
};

verus! {

/// In a valid store the entry with a given digest is found at one position only.
pub proof fn slot_is(c: CatalogueView, digest: Seq<char>, k: int)
    requires
        valid(c),
        0 <= k < c.entries.len(),
        c.entries[k].file.hash == digest,
    ensures
        holds(c, digest),
        slot(c, digest) == k,
        stored_path(c, digest) == Some(c.entries[k].file.path),
{
    let s = slot(c, digest);
    assert(0 <= s < c.entries.len() && c.entries[s].file.hash == digest);
    if s < k {
        assert(c.entries[s].file.hash != c.entries[k].file.hash);
    } else if k < s {
        assert(c.entries[k].file.hash != c.entries[s].file.hash);
    }
}

/// Reconciling a file keeps the store valid: identifiers and digests stay
/// unique, and no identifier is given twice.
pub proof fn step_keeps_valid(c: CatalogueView, f: DataFileView, present: Seq<Seq<char>>)
    requires
        valid(c),
    ensures
        valid(step(c, f, present).0),
{
    let stored = stored_path(c, f.hash);
    let exists_still = stored is Some && present.contains(stored->0);
    let after = step(c, f, present).0;
    match decide(stored, f.path, exists_still) {
        Decision::Insert => {
            if c.next_id < u64::MAX {
                let n = c.entries.len() as int;
                assert forall|i: int, j: int| 0 <= i < j < after.entries.len() implies (
                #[trigger] after.entries[i]).file.hash != (#[trigger] after.entries[j]).file.hash by {
                    if j == n {
                        assert(after.entries[i] == c.entries[i]);
                        assert(c.entries[i].file.hash != f.hash);
                    } else {
                        assert(after.entries[i] == c.entries[i]);
                        assert(after.entries[j] == c.entries[j]);
                    }
                }
                assert forall|i: int, j: int| 0 <= i < j < after.entries.len() implies (
                #[trigger] after.entries[i]).id != (#[trigger] after.entries[j]).id by {
                    assert(after.entries[i] == c.entries[i]);
                    if j < n {
                        assert(after.entries[j] == c.entries[j]);
                    }
                }
                assert forall|i: int| 0 <= i < after.entries.len() implies (
                #[trigger] after.entries[i]).id < after.next_id by {
                    if i < n {
                        assert(after.entries[i] == c.entries[i]);
                    }
                }
            }
        },
        Decision::Move => {
            let k = slot(c, f.hash);
            assert(0 <= k < c.entries.len() && c.entries[k].file.hash == f.hash);
            assert forall|i: int| 0 <= i < after.entries.len() implies (#[trigger] after.entries[i]).id
                == c.entries[i].id && after.entries[i].file.hash == c.entries[i].file.hash by {}
            assert forall|i: int, j: int| 0 <= i < j < after.entries.len() implies (
            #[trigger] after.entries[i]).file.hash != (#[trigger] after.entries[j]).file.hash by {
                assert(c.entries[i].file.hash != c.entries[j].file.hash);
            }
            assert forall|i: int, j: int| 0 <= i < j < after.entries.len() implies (
            #[trigger] after.entries[i]).id != (#[trigger] after.entries[j]).id by {
                assert(c.entries[i].id != c.entries[j].id);
            }
            assert forall|i: int| 0 <= i < after.entries.len() implies (
            #[trigger] after.entries[i]).id < after.next_id by {
                assert(c.entries[i].id < c.next_id);
            }
        },
        _ => {},
    }
}

/// Reconciling any number of files keeps the store valid, and reports one
/// outcome per file.
pub proof fn run_keeps_valid(c: CatalogueView, files: Seq<DataFileView>, present: Seq<Seq<char>>)
    requires
        valid(c),
    ensures
        valid(run(c, files, present).0),
        run(c, files, present).1.len() == files.len(),
    decreases files.len(),
{
    if files.len() > 0 {
        run_keeps_valid(c, files.drop_last(), present);
        step_keeps_valid(run(c, files.drop_last(), present).0, files.last(), present);
    }
}

/// An entry, once made, keeps its identifier, its digest and everything but
/// its path through every later reconciliation, and is never removed.
pub proof fn step_keeps_entries(c: CatalogueView, f: DataFileView, present: Seq<Seq<char>>, i: int)
    requires
        valid(c),
        0 <= i < c.entries.len(),
    ensures
        i < step(c, f, present).0.entries.len(),
        step(c, f, present).0.entries[i] == relocated(
            c.entries[i],
            step(c, f, present).0.entries[i].file.path,
        ),
{
    let stored = stored_path(c, f.hash);
    let exists_still = stored is Some && present.contains(stored->0);
    match decide(stored, f.path, exists_still) {
        Decision::Move => {
            let k = slot(c, f.hash);
            assert(0 <= k < c.entries.len() && c.entries[k].file.hash == f.hash);
        },
        _ => {},
    }
}

/// The positions of the entries that have this digest.
pub open spec fn positions_of(c: CatalogueView, digest: Seq<char>) -> Set<int> {
    Set::new(|i: int| 0 <= i < c.entries.len() && c.entries[i].file.hash == digest)
}

/// A file whose content is catalogued at a path that no longer exists, and
/// which is itself seen at another path, is a move: the entry's path is
/// rewritten to the new one, the entry keeps its identifier and all its other
/// fields, and no entry is added.
pub proof fn moved_file_keeps_its_entry(c: CatalogueView, f: DataFileView, present: Seq<Seq<char>>)
    requires
        valid(c),
        holds(c, f.hash),
        stored_path(c, f.hash)->0 != f.path,
        !present.contains(stored_path(c, f.hash)->0),
    ensures
        step(c, f, present).1 == (OutcomeView::Moved {
            from: stored_path(c, f.hash)->0,
            to: f.path,
        }),
        step(c, f, present).0.entries.len() == c.entries.len(),
        step(c, f, present).0.next_id == c.next_id,
        step(c, f, present).0.entries == c.entries.update(
            slot(c, f.hash),
            relocated(c.entries[slot(c, f.hash)], f.path),
        ),
        stored_path(step(c, f, present).0, f.hash) == Some(f.path),
{
    let k = slot(c, f.hash);
    assert(0 <= k < c.entries.len() && c.entries[k].file.hash == f.hash);
    step_keeps_valid(c, f, present);
    slot_is(step(c, f, present).0, f.hash, k);
}

/// Two files with the same content at two paths that both exist, scanned
/// into a store that does not know the content: the first is added, the
/// second is reported as its duplicate, and the store ends with exactly one
/// entry for that digest, at the first path.
pub proof fn second_copy_is_a_duplicate(
    c: CatalogueView,
    first: DataFileView,
    second: DataFileView,
    present: Seq<Seq<char>>,
)
    requires
        valid(c),
        !holds(c, first.hash),
        c.next_id < u64::MAX,
        first.hash == second.hash,
        first.path != second.path,
        present.contains(first.path),
        present.contains(second.path),
    ensures
        run(c, seq![first, second], present).1 == seq![
            OutcomeView::Added { id: c.next_id },
            OutcomeView::Duplicate { original: first.path, new: second.path },
        ],
        run(c, seq![first, second], present).0 == (CatalogueView {
            entries: c.entries.push(fresh_entry(c.next_id, first)),
            next_id: (c.next_id + 1) as u64,
        }),
        positions_of(run(c, seq![first, second], present).0, first.hash) == set![
            c.entries.len() as int,
        ],
{
    let both = seq![first, second];
    let one = seq![first];
    assert(both.drop_last() =~= one);
    assert(one.drop_last() =~= Seq::<DataFileView>::empty());
    assert(run(c, one.drop_last(), present) == (c, Seq::<OutcomeView>::empty()));
    let c1 = step(c, first, present).0;
    assert(run(c, one, present).0 == c1);
    assert(run(c, one, present).1 =~= seq![OutcomeView::Added { id: c.next_id }]);
    step_keeps_valid(c, first, present);
    let n = c.entries.len() as int;
    assert(c1.entries[n] == fresh_entry(c.next_id, first));
    slot_is(c1, second.hash, n);
    assert(step(c1, second, present).0 == c1);
    assert(run(c, both, present).0 == c1);
    assert(run(c, both, present).1 =~= seq![
        OutcomeView::Added { id: c.next_id },
        OutcomeView::Duplicate { original: first.path, new: second.path },
    ]);
    assert forall|i: int| 0 <= i < c1.entries.len() implies ((#[trigger] c1.entries[i]).file.hash
        == first.hash <==> i == n) by {
        if i < n {
            assert(c1.entries[i] == c.entries[i]);
        }
    }
    assert(positions_of(c1, first.hash) =~= set![n]);
}

/// Whether reconciling `f` leaves the store as it is: its content is
/// catalogued at its own path or at another that exists, or the store can
/// take no further entry.
pub open spec fn at_rest(c: CatalogueView, f: DataFileView, present: Seq<Seq<char>>) -> bool {
    if holds(c, f.hash) {
        stored_path(c, f.hash)->0 == f.path || present.contains(stored_path(c, f.hash)->0)
    } else {
        c.next_id == u64::MAX
    }
}

/// Whether an outcome changed the store.
pub open spec fn changed_store(o: OutcomeView) -> bool {
    o is Added || o is Moved
}

/// A file at rest is reconciled without any change to the store.
pub proof fn at_rest_is_quiet(c: CatalogueView, f: DataFileView, present: Seq<Seq<char>>)
    requires
        at_rest(c, f, present),
    ensures
        step(c, f, present).0 == c,
        !changed_store(step(c, f, present).1),
{
}

/// Once reconciled, a file that exists is at rest.
pub proof fn reconciled_file_is_at_rest(c: CatalogueView, f: DataFileView, present: Seq<Seq<char>>)
    requires
        valid(c),
        present.contains(f.path),
    ensures
        at_rest(step(c, f, present).0, f, present),
{
    let after = step(c, f, present).0;
    step_keeps_valid(c, f, present);
    let stored = stored_path(c, f.hash);
    let exists_still = stored is Some && present.contains(stored->0);
    match decide(stored, f.path, exists_still) {
        Decision::Insert => {
            if c.next_id < u64::MAX {
                let n = c.entries.len() as int;
                assert(after.entries[n] == fresh_entry(c.next_id, f));
                slot_is(after, f.hash, n);
            }
        },
        Decision::Move => {
            let k = slot(c, f.hash);
            assert(0 <= k < c.entries.len() && c.entries[k].file.hash == f.hash);
            slot_is(after, f.hash, k);
        },
        _ => {},
    }
}

/// A file at rest stays at rest while other files that exist are reconciled.
pub proof fn rest_is_stable(
    c: CatalogueView,
    f: DataFileView,
    g: DataFileView,
    present: Seq<Seq<char>>,
)
    requires
        valid(c),
        present.contains(f.path),
        at_rest(c, f, present),
    ensures
        at_rest(step(c, g, present).0, f, present),
{
    let after = step(c, g, present).0;
    step_keeps_valid(c, g, present);
    let stored = stored_path(c, g.hash);
    let exists_still = stored is Some && present.contains(stored->0);
    match decide(stored, g.path, exists_still) {
        Decision::Insert => {
            if c.next_id < u64::MAX {
                let k = slot(c, f.hash);
                assert(0 <= k < c.entries.len() && c.entries[k].file.hash == f.hash);
                assert(after.entries[k] == c.entries[k]);
                slot_is(after, f.hash, k);
            }
        },
        Decision::Move => {
            let m = slot(c, g.hash);
            assert(0 <= m < c.entries.len() && c.entries[m].file.hash == g.hash);
            if holds(c, f.hash) {
                let k = slot(c, f.hash);
                assert(0 <= k < c.entries.len() && c.entries[k].file.hash == f.hash);
                if k == m {
                    slot_is(after, f.hash, k);
                } else {
                    assert(after.entries[k] == c.entries[k]);
                    slot_is(after, f.hash, k);
                }
            } else {
                if holds(after, f.hash) {
                    let k = slot(after, f.hash);
                    assert(0 <= k < after.entries.len() && after.entries[k].file.hash == f.hash);
                    assert(c.entries[k].file.hash == f.hash);
                }
            }
        },
        _ => {},
    }
}

/// After a scan of files that exist, each of them is at rest.
pub proof fn scanned_files_are_at_rest(
    c: CatalogueView,
    files: Seq<DataFileView>,
    present: Seq<Seq<char>>,
)
    requires
        valid(c),
        forall|i: int| 0 <= i < files.len() ==> present.contains(#[trigger] files[i].path),
    ensures
        valid(run(c, files, present).0),
        forall|i: int|
            0 <= i < files.len() ==> at_rest(run(c, files, present).0, #[trigger] files[i], present),
    decreases files.len(),
{
    if files.len() > 0 {
        let head = files.drop_last();
        let before = run(c, head, present).0;
        assert forall|i: int| 0 <= i < head.len() implies present.contains(
            #[trigger] head[i].path,
        ) by {
            assert(head[i] == files[i]);
        }
        scanned_files_are_at_rest(c, head, present);
        step_keeps_valid(before, files.last(), present);
        assert forall|i: int| 0 <= i < files.len() implies at_rest(
            run(c, files, present).0,
            #[trigger] files[i],
            present,
        ) by {
            if i < head.len() {
                assert(head[i] == files[i]);
                rest_is_stable(before, files[i], files.last(), present);
            } else {
                reconciled_file_is_at_rest(before, files.last(), present);
            }
        }
    }
}

/// Reconciling files that are all at rest changes nothing.
pub proof fn files_at_rest_are_quiet(
    c: CatalogueView,
    files: Seq<DataFileView>,
    present: Seq<Seq<char>>,
)
    requires
        forall|i: int| 0 <= i < files.len() ==> at_rest(c, #[trigger] files[i], present),
    ensures
        run(c, files, present).0 == c,
        run(c, files, present).1.len() == files.len(),
        forall|i: int|
            0 <= i < files.len() ==> !changed_store(#[trigger] run(c, files, present).1[i]),
    decreases files.len(),
{
    if files.len() > 0 {
        let head = files.drop_last();
        assert forall|i: int| 0 <= i < head.len() implies at_rest(c, #[trigger] head[i], present) by {
            assert(head[i] == files[i]);
        }
        files_at_rest_are_quiet(c, head, present);
        at_rest_is_quiet(c, files.last(), present);
    }
}

/// Scanning the same files a second time, with the same paths existing and
/// each scanned file among them, adds nothing and moves nothing: the store
/// after the second scan is the store after the first.
pub proof fn rescan_changes_nothing(c: CatalogueView, files: Seq<DataFileView>, present: Seq<Seq<char>>)
    requires
        valid(c),
        forall|i: int| 0 <= i < files.len() ==> present.contains(#[trigger] files[i].path),
    ensures
        run(run(c, files, present).0, files, present).0 == run(c, files, present).0,
        run(run(c, files, present).0, files, present).1.len() == files.len(),
        forall|i: int|
            0 <= i < files.len() ==> !changed_store(
                #[trigger] run(run(c, files, present).0, files, present).1[i],
            ),
{
    scanned_files_are_at_rest(c, files, present);
    files_at_rest_are_quiet(run(c, files, present).0, files, present);
}

/// Every entry of the store is still there after a scan, at its position,
/// with nothing changed but, possibly, its path.
pub proof fn run_keeps_entries(
    c: CatalogueView,
    files: Seq<DataFileView>,
    present: Seq<Seq<char>>,
    i: int,
)
    requires
        valid(c),
        0 <= i < c.entries.len(),
    ensures
        i < run(c, files, present).0.entries.len(),
        run(c, files, present).0.entries[i] == relocated(
            c.entries[i],
            run(c, files, present).0.entries[i].file.path,
        ),
    decreases files.len(),
{
    if files.len() > 0 {
        let before = run(c, files.drop_last(), present).0;
        run_keeps_entries(c, files.drop_last(), present, i);
        run_keeps_valid(c, files.drop_last(), present);
        step_keeps_entries(before, files.last(), present, i);
    }
}

/// Every entry that a scan adds was made from one of the scanned files: it
/// has that file's digest and extension. The position of the file is returned.
pub proof fn new_entries_come_from_files(
    c: CatalogueView,
    files: Seq<DataFileView>,
    present: Seq<Seq<char>>,
    i: int,
) -> (j: int)
    requires
        valid(c),
        c.entries.len() <= i < run(c, files, present).0.entries.len(),
    ensures
        0 <= j < files.len(),
        run(c, files, present).0.entries[i].file.hash == files[j].hash,
        run(c, files, present).0.entries[i].file.extension == files[j].extension,
    decreases files.len(),
{
    if files.len() == 0 {
        0
    } else {
        let head = files.drop_last();
        let before = run(c, head, present).0;
        run_keeps_valid(c, head, present);
        if i < before.entries.len() {
            let j = new_entries_come_from_files(c, head, present, i);
            step_keeps_entries(before, files.last(), present, i);
            assert(head[j] == files[j]);
            j
        } else {
            let stored = stored_path(before, files.last().hash);
            let exists_still = stored is Some && present.contains(stored->0);
            assert(decide(stored, files.last().path, exists_still) == Decision::Insert) by {
                if decide(stored, files.last().path, exists_still) == Decision::Move {
                    let k = slot(before, files.last().hash);
                    assert(0 <= k < before.entries.len());
                }
            }
            files.len() - 1
        }
    }
}

} // verus!
