//! A scan: the observed files that have a catalogued format are reconciled
//! against the store, in the order in which they were observed.

use vstd::prelude::*;
use crate::catalogue_database::{
    holds, insert_files, relocated, run, slot, step, stored_path, valid, Catalogue, CatalogueView,
    Outcome, OutcomeView,
};
use crate::models::{DataFile, DataFileView};
use crate::reconciliation::{
    changed_store, moved_file_keeps_its_entry, new_entries_come_from_files, positions_of,
    rescan_changes_nothing, second_copy_is_a_duplicate,
};
use crate::traverse::{allowed_format, is_catalogued_format};

verus! {

/// The files that have a catalogued extension, in their order.
pub open spec fn admitted(files: Seq<DataFileView>) -> Seq<DataFileView>
    decreases files.len(),
{
    if files.len() == 0 {
        Seq::empty()
    } else if allowed_format(files.last().extension) {
        admitted(files.drop_last()).push(files.last())
    } else {
        admitted(files.drop_last())
    }
}

/// The store after a scan of `files`, and the outcomes: the files with a
/// catalogued extension are reconciled in their order.
pub open spec fn scanned(c: CatalogueView, files: Seq<DataFileView>, present: Seq<Seq<char>>) -> (
    CatalogueView,
    Seq<OutcomeView>,
) {
    run(c, admitted(files), present)
}

/// Reconciles the observed files against the store and returns one outcome
/// for each file that has a catalogued extension, in the order observed. A
/// file with another extension is passed over: it is not looked up and not
/// added. `present` lists the paths that exist on disk.
pub fn scan(catalogue: &mut Catalogue, files: &Vec<DataFile>, present: &Vec<String>) -> (res: Vec<
    Outcome,
>)
    ensures
        (final(catalogue)@, res.deep_view()) == scanned(
            old(catalogue)@,
            files.deep_view(),
            present.deep_view(),
        ),
{
    let mut chosen: Vec<DataFile> = Vec::new();
    let mut i: usize = 0;
    assert(files.deep_view().take(0) =~= Seq::empty());
    assert(chosen.deep_view() =~= Seq::empty());
    while i < files.len()
        invariant
            i <= files.len(),
            chosen.deep_view() == admitted(files.deep_view().take(i as int)),
        decreases files.len() - i,
    {
        let ghost before = chosen.deep_view();
        proof {
            let prefix = files.deep_view().take(i + 1);
            assert(prefix.drop_last() =~= files.deep_view().take(i as int));
            assert(prefix.last() == files[i as int]@);
        }
        if is_catalogued_format(&files[i].extension) {
            chosen.push(files[i].duplicate());
            assert(chosen.deep_view() =~= before.push(files[i as int]@));
        }
        i += 1;
    }
    assert(files.deep_view().take(i as int) =~= files.deep_view());
    insert_files(catalogue, &chosen, present)
}

/// Every admitted file has a catalogued extension.
pub proof fn admitted_files_have_catalogued_formats(files: Seq<DataFileView>, j: int)
    requires
        0 <= j < admitted(files).len(),
    ensures
        allowed_format(admitted(files)[j].extension),
    decreases files.len(),
{
    if files.len() > 0 {
        if allowed_format(files.last().extension) {
            if j < admitted(files.drop_last()).len() {
                admitted_files_have_catalogued_formats(files.drop_last(), j);
            }
        } else {
            admitted_files_have_catalogued_formats(files.drop_last(), j);
        }
    }
}

/// A file without a catalogued extension has no part in a scan, wherever it
/// stands among the observed files: the files admitted with it are those
/// admitted without it.
pub proof fn other_formats_are_passed_over(files: Seq<DataFileView>, k: int, f: DataFileView)
    requires
        0 <= k <= files.len(),
        !allowed_format(f.extension),
    ensures
        admitted(files.insert(k, f)) == admitted(files),
    decreases files.len(),
{
    let with = files.insert(k, f);
    if k == files.len() {
        assert(with.drop_last() =~= files);
    } else {
        assert(with.drop_last() =~= files.drop_last().insert(k, f));
        assert(with.last() == files.last());
        other_formats_are_passed_over(files.drop_last(), k, f);
    }
}

/// Every admitted file is one of the given files. Its position is returned.
pub proof fn admitted_files_are_given(files: Seq<DataFileView>, j: int) -> (i: int)
    requires
        0 <= j < admitted(files).len(),
    ensures
        0 <= i < files.len(),
        files[i] == admitted(files)[j],
    decreases files.len(),
{
    let head = files.drop_last();
    if j < admitted(head).len() {
        let i = admitted_files_are_given(head, j);
        assert(head[i] == files[i]);
        i
    } else {
        files.len() - 1
    }
}

/// Files that all have a catalogued extension are all admitted.
pub proof fn catalogued_formats_are_admitted(files: Seq<DataFileView>)
    requires
        forall|i: int| 0 <= i < files.len() ==> allowed_format(#[trigger] files[i].extension),
    ensures
        admitted(files) == files,
    decreases files.len(),
{
    if files.len() > 0 {
        let head = files.drop_last();
        assert forall|i: int| 0 <= i < head.len() implies allowed_format(
            #[trigger] head[i].extension,
        ) by {
            assert(head[i] == files[i]);
        }
        catalogued_formats_are_admitted(head);
        assert(allowed_format(files[files.len() - 1].extension));
        assert(head.push(files.last()) =~= files);
    } else {
        assert(admitted(files) =~= files);
    }
}

/// Scanning the same files twice, with the same paths existing and each
/// scanned file among them, adds nothing and moves nothing the second time:
/// the store after the second scan is the store after the first.
pub proof fn second_scan_changes_nothing(
    c: CatalogueView,
    files: Seq<DataFileView>,
    present: Seq<Seq<char>>,
)
    requires
        valid(c),
        forall|i: int| 0 <= i < files.len() ==> present.contains(#[trigger] files[i].path),
    ensures
        scanned(scanned(c, files, present).0, files, present).0 == scanned(c, files, present).0,
        forall|i: int|
            0 <= i < scanned(scanned(c, files, present).0, files, present).1.len() ==> !changed_store(
                #[trigger] scanned(scanned(c, files, present).0, files, present).1[i],
            ),
{
    let chosen = admitted(files);
    assert forall|j: int| 0 <= j < chosen.len() implies present.contains(
        #[trigger] chosen[j].path,
    ) by {
        let i = admitted_files_are_given(files, j);
        assert(present.contains(files[i].path));
    }
    rescan_changes_nothing(c, chosen, present);
}

/// Two files of a catalogued format with the same content, at two paths
/// that both exist, scanned into a store that does not know the content:
/// the scan adds the first, reports the second as its duplicate, and leaves
/// exactly one entry for that digest, at the first path.
pub proof fn scan_reports_the_second_copy(
    c: CatalogueView,
    first: DataFileView,
    second: DataFileView,
    present: Seq<Seq<char>>,
)
    requires
        valid(c),
        !holds(c, first.hash),
        c.next_id < u64::MAX,
        allowed_format(first.extension),
        allowed_format(second.extension),
        first.hash == second.hash,
        first.path != second.path,
        present.contains(first.path),
        present.contains(second.path),
    ensures
        scanned(c, seq![first, second], present).1 == seq![
            OutcomeView::Added { id: c.next_id },
            OutcomeView::Duplicate { original: first.path, new: second.path },
        ],
        positions_of(scanned(c, seq![first, second], present).0, first.hash) == set![
            c.entries.len() as int,
        ],
        stored_path(scanned(c, seq![first, second], present).0, first.hash) == Some(first.path),
{
    let both = seq![first, second];
    assert forall|i: int| 0 <= i < both.len() implies allowed_format(
        #[trigger] both[i].extension,
    ) by {}
    catalogued_formats_are_admitted(both);
    second_copy_is_a_duplicate(c, first, second, present);
    let after = scanned(c, both, present).0;
    crate::reconciliation::run_keeps_valid(c, both, present);
    crate::reconciliation::slot_is(after, first.hash, c.entries.len() as int);
}

/// A file of a catalogued format whose content is catalogued at a path that
/// no longer exists, seen at another path: the scan rewrites the entry's
/// path and adds no entry.
pub proof fn scan_follows_a_moved_file(c: CatalogueView, f: DataFileView, present: Seq<Seq<char>>)
    requires
        valid(c),
        allowed_format(f.extension),
        holds(c, f.hash),
        stored_path(c, f.hash)->0 != f.path,
        !present.contains(stored_path(c, f.hash)->0),
    ensures
        scanned(c, seq![f], present).1 == seq![
            OutcomeView::Moved { from: stored_path(c, f.hash)->0, to: f.path },
        ],
        scanned(c, seq![f], present).0 == (CatalogueView {
            entries: c.entries.update(
                slot(c, f.hash),
                relocated(c.entries[slot(c, f.hash)], f.path),
            ),
            next_id: c.next_id,
        }),
        stored_path(scanned(c, seq![f], present).0, f.hash) == Some(f.path),
{
    let one = seq![f];
    assert forall|i: int| 0 <= i < one.len() implies allowed_format(#[trigger] one[i].extension) by {}
    catalogued_formats_are_admitted(one);
    assert(one.drop_last() =~= Seq::<DataFileView>::empty());
    assert(run(c, one.drop_last(), present) == (c, Seq::<OutcomeView>::empty()));
    assert(run(c, one, present).0 == step(c, f, present).0);
    assert(run(c, one, present).1 =~= seq![step(c, f, present).1]);
    moved_file_keeps_its_entry(c, f, present);
}

/// Whatever a scan adds to the store has a catalogued extension.
pub proof fn scan_adds_only_catalogued_formats(
    c: CatalogueView,
    files: Seq<DataFileView>,
    present: Seq<Seq<char>>,
    i: int,
)
    requires
        valid(c),
        c.entries.len() <= i < scanned(c, files, present).0.entries.len(),
    ensures
        allowed_format(scanned(c, files, present).0.entries[i].file.extension),
{
    let j = new_entries_come_from_files(c, admitted(files), present, i);
    admitted_files_have_catalogued_formats(files, j);
}

} // verus!
