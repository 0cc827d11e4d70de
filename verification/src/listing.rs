//! What holds of annotating and listing whatever the store is.

use vstd::prelude::*;
use crate::catalogue_database::{
    annotate_step, annotated, fresh_entry, holds, in_interval, listing, matches_search, record_of,
    rows_in, selected, step, valid, CatalogueView, EntryView,
};
use crate::models::{AnnotationRecordView, AnnotationView, DataFileView};
use crate::reconciliation::step_keeps_valid;

verus! {

/// A sequence with `x` appended holds what it held before, and `x`.
pub proof fn push_contains<T>(s: Seq<T>, x: T, r: T)
    ensures
        s.push(x).contains(r) <==> (s.contains(r) || x == r),
{
    let t = s.push(x);
    if s.contains(r) {
        let i = choose|i: int| 0 <= i < s.len() && s[i] == r;
        assert(t[i] == r);
    }
    if x == r {
        assert(t[s.len() as int] == r);
    }
    if t.contains(r) {
        let i = choose|i: int| 0 <= i < t.len() && t[i] == r;
        if i < s.len() {
            assert(s[i] == r);
        }
    }
}

/// The selected records are the given records that pass the search.
pub proof fn selected_are_the_matching(
    rows: Seq<AnnotationRecordView>,
    search: Seq<char>,
    description: bool,
    title: bool,
    r: AnnotationRecordView,
)
    ensures
        selected(rows, search, description, title).contains(r) <==> (rows.contains(r)
            && matches_search(r, search, description, title)),
    decreases rows.len(),
{
    if rows.len() > 0 {
        let head = rows.drop_last();
        selected_are_the_matching(head, search, description, title, r);
        assert(rows =~= head.push(rows.last()));
        push_contains(head, rows.last(), r);
        push_contains(selected(head, search, description, title), rows.last(), r);
    } else {
        assert(!rows.contains(r));
        assert(!selected(rows, search, description, title).contains(r));
    }
}

/// Whether `r` is the record of an entry created within the interval.
pub open spec fn shows_entry_within(
    entries: Seq<EntryView>,
    a_date: i64,
    b_date: i64,
    r: AnnotationRecordView,
) -> bool {
    exists|i: int|
        0 <= i < entries.len() && in_interval((#[trigger] entries[i]).file.created, a_date, b_date)
            && record_of(entries[i]) == r
}

/// The rows of an interval are the records of the entries created within it.
pub proof fn rows_are_the_entries_within(
    entries: Seq<EntryView>,
    a_date: i64,
    b_date: i64,
    r: AnnotationRecordView,
)
    ensures
        rows_in(entries, a_date, b_date).contains(r) <==> shows_entry_within(
            entries,
            a_date,
            b_date,
            r,
        ),
    decreases entries.len(),
{
    if entries.len() > 0 {
        let head = entries.drop_last();
        let last = entries.last();
        rows_are_the_entries_within(head, a_date, b_date, r);
        push_contains(rows_in(head, a_date, b_date), record_of(last), r);
        if shows_entry_within(head, a_date, b_date, r) {
            let i = choose|i: int|
                0 <= i < head.len() && in_interval((#[trigger] head[i]).file.created, a_date, b_date)
                    && record_of(head[i]) == r;
            assert(entries[i] == head[i]);
        }
        if in_interval(last.file.created, a_date, b_date) && record_of(last) == r {
            assert(entries[entries.len() - 1] == last);
        }
        if shows_entry_within(entries, a_date, b_date, r) {
            let i = choose|i: int|
                0 <= i < entries.len() && in_interval(
                    (#[trigger] entries[i]).file.created,
                    a_date,
                    b_date,
                ) && record_of(entries[i]) == r;
            if i < head.len() {
                assert(head[i] == entries[i]);
            }
        }
    } else {
        assert(!rows_in(entries, a_date, b_date).contains(r));
    }
}

/// Annotating keeps the store valid and touches no identifier, path, size,
/// digest, extension or creation time.
pub proof fn annotate_keeps_valid(c: CatalogueView, a: AnnotationView)
    requires
        valid(c),
    ensures
        valid(annotate_step(c, a).0),
        annotate_step(c, a).0.entries.len() == c.entries.len(),
        forall|i: int|
            0 <= i < c.entries.len() ==> (#[trigger] annotate_step(c, a).0.entries[i]) == (if c.entries[i].id
                == a.id {
                annotated(c.entries[i], a)
            } else {
                c.entries[i]
            }),
{
    let after = annotate_step(c, a).0;
    assert forall|i: int, j: int| 0 <= i < j < after.entries.len() implies (
    #[trigger] after.entries[i]).id != (#[trigger] after.entries[j]).id by {
        assert(c.entries[i].id != c.entries[j].id);
    }
    assert forall|i: int, j: int| 0 <= i < j < after.entries.len() implies (
    #[trigger] after.entries[i]).file.hash != (#[trigger] after.entries[j]).file.hash by {
        assert(c.entries[i].file.hash != c.entries[j].file.hash);
    }
    assert forall|i: int| 0 <= i < after.entries.len() implies (#[trigger] after.entries[i]).id
        < after.next_id by {
        assert(c.entries[i].id < c.next_id);
    }
}

/// The record that a listing shows of the entry `e` once `a` was written
/// into it.
pub open spec fn shown(e: EntryView, a: AnnotationView) -> AnnotationRecordView {
    AnnotationRecordView {
        id: e.id,
        path: e.file.path,
        title: a.title,
        description: a.description,
        publisher: a.publisher,
        read: a.read,
    }
}

/// An entry that was annotated is listed with the annotated fields exactly
/// when it was created within the interval of the listing and passes its
/// search.
pub proof fn annotated_entry_is_listed(
    c: CatalogueView,
    a: AnnotationView,
    k: int,
    a_date: i64,
    b_date: i64,
    search: Seq<char>,
    description: bool,
    title: bool,
)
    requires
        valid(c),
        0 <= k < c.entries.len(),
        c.entries[k].id == a.id,
    ensures
        listing(annotate_step(c, a).0, a_date, b_date, search, description, title).contains(
            shown(c.entries[k], a),
        ) <==> (in_interval(c.entries[k].file.created, a_date, b_date) && matches_search(
            shown(c.entries[k], a),
            search,
            description,
            title,
        )),
{
    let after = annotate_step(c, a).0;
    let r = shown(c.entries[k], a);
    annotate_keeps_valid(c, a);
    selected_are_the_matching(rows_in(after.entries, a_date, b_date), search, description, title, r);
    rows_are_the_entries_within(after.entries, a_date, b_date, r);
    assert(after.entries[k] == annotated(c.entries[k], a));
    assert(record_of(after.entries[k]) == r);
    if shows_entry_within(after.entries, a_date, b_date, r) {
        let i = choose|i: int|
            0 <= i < after.entries.len() && in_interval(
                (#[trigger] after.entries[i]).file.created,
                a_date,
                b_date,
            ) && record_of(after.entries[i]) == r;
        if i < k {
            assert(after.entries[i].id != after.entries[k].id);
        } else if k < i {
            assert(after.entries[k].id != after.entries[i].id);
        }
        assert(i == k);
    }
}

/// A file that a scan added and that was then annotated under the
/// identifier it got is listed at its path with the annotated fields,
/// exactly when it was created within the interval of the listing and
/// passes its search.
pub proof fn scanned_and_annotated_file_is_listed(
    c: CatalogueView,
    f: DataFileView,
    present: Seq<Seq<char>>,
    a: AnnotationView,
    a_date: i64,
    b_date: i64,
    search: Seq<char>,
    description: bool,
    title: bool,
)
    requires
        valid(c),
        !holds(c, f.hash),
        c.next_id < u64::MAX,
        a.id == c.next_id,
    ensures
        listing(
            annotate_step(step(c, f, present).0, a).0,
            a_date,
            b_date,
            search,
            description,
            title,
        ).contains(
            AnnotationRecordView {
                id: a.id,
                path: f.path,
                title: a.title,
                description: a.description,
                publisher: a.publisher,
                read: a.read,
            },
        ) <==> (in_interval(f.created, a_date, b_date) && matches_search(
            AnnotationRecordView {
                id: a.id,
                path: f.path,
                title: a.title,
                description: a.description,
                publisher: a.publisher,
                read: a.read,
            },
            search,
            description,
            title,
        )),
{
    let after = step(c, f, present).0;
    let k = c.entries.len() as int;
    step_keeps_valid(c, f, present);
    assert(after.entries[k] == fresh_entry(c.next_id, f));
    annotated_entry_is_listed(after, a, k, a_date, b_date, search, description, title);
}

/// Every listed record is the record of an entry of the store.
pub proof fn listed_records_are_entries(
    c: CatalogueView,
    a_date: i64,
    b_date: i64,
    search: Seq<char>,
    description: bool,
    title: bool,
    r: AnnotationRecordView,
)
    requires
        listing(c, a_date, b_date, search, description, title).contains(r),
    ensures
        shows_entry_within(c.entries, a_date, b_date, r),
        matches_search(r, search, description, title),
{
    selected_are_the_matching(rows_in(c.entries, a_date, b_date), search, description, title, r);
    rows_are_the_entries_within(c.entries, a_date, b_date, r);
}

} // verus!
