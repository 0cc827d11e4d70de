//! The catalogue store and the reconciliation of observed files against it.
//!
//! The store keeps one entry per distinct content digest. Reconciling a file
//! has one of four results: its content is new and is added; its content is
//! known at another path that is gone, and the entry moves; its content is
//! known at another path that is still there, and a duplicate is reported;
//! or it is known at this very path, and nothing happens.

use vstd::prelude::*;
use vstd::std_specs::iter::IteratorSpec;
use vstd::string::*;
use crate::models::{
    Annotation, AnnotationRecord, AnnotationRecordView, AnnotationView, Config, DataFile,
    DataFileView,
};

verus! {

/// One stored file with the identifier that the store gave it.
#[derive(Debug)]
pub struct CatalogueEntry {
    pub id: u64,
    pub file: DataFile,
}

/// What a `CatalogueEntry` holds.
pub struct EntryView {
    pub id: u64,
    pub file: DataFileView,
}

impl View for CatalogueEntry {
    type V = EntryView;

    open spec fn view(&self) -> EntryView {
        EntryView { id: self.id, file: self.file@ }
    }
}

impl DeepView for CatalogueEntry {
    type V = EntryView;

    open spec fn deep_view(&self) -> EntryView {
        self@
    }
}

/// The state of a store: its entries in the order in which they were added,
/// and the identifier that the next new entry gets.
pub struct CatalogueView {
    pub entries: Seq<EntryView>,
    pub next_id: u64,
}

/// The invariant of a store: no identifier and no digest occurs twice, and
/// every identifier in use lies below the next one to be given.
pub open spec fn valid(c: CatalogueView) -> bool {
    &&& forall|i: int| 0 <= i < c.entries.len() ==> (#[trigger] c.entries[i]).id < c.next_id
    &&& forall|i: int, j: int|
        0 <= i < j < c.entries.len() ==> (#[trigger] c.entries[i]).id != (#[trigger] c.entries[j]).id
    &&& forall|i: int, j: int|
        0 <= i < j < c.entries.len() ==> (#[trigger] c.entries[i]).file.hash
            != (#[trigger] c.entries[j]).file.hash
}

/// Whether some entry has this digest.
pub open spec fn holds(c: CatalogueView, digest: Seq<char>) -> bool {
    exists|i: int| 0 <= i < c.entries.len() && (#[trigger] c.entries[i]).file.hash == digest
}

/// The position of an entry with this digest, where there is one.
pub open spec fn slot(c: CatalogueView, digest: Seq<char>) -> int {
    choose|i: int| 0 <= i < c.entries.len() && (#[trigger] c.entries[i]).file.hash == digest
}

/// The path stored for this digest, or `None` where the digest is unknown.
pub open spec fn stored_path(c: CatalogueView, digest: Seq<char>) -> Option<Seq<char>> {
    if holds(c, digest) {
        Some(c.entries[slot(c, digest)].file.path)
    } else {
        None
    }
}

/// What reconciling one file calls for.
#[derive(Debug, Clone, Copy, PartialEq, Eq, Structural)]
pub enum Decision {
    /// The digest is unknown: add an entry.
    Insert,
    /// The digest is known at another path, which no longer exists: the file moved.
    Move,
    /// The digest is known at another path, which still exists: a second copy.
    Duplicate,
    /// The digest is known at this path: nothing to do.
    Keep,
}

/// The reconciliation rule. Only the digest lookup, the two paths and the
/// existence of the stored path are consulted.
pub open spec fn decide(stored: Option<Seq<char>>, observed: Seq<char>, stored_exists: bool)
    -> Decision {
    match stored {
        None => Decision::Insert,
        Some(p) => if p == observed {
            Decision::Keep
        } else if stored_exists {
            Decision::Duplicate
        } else {
            Decision::Move
        },
    }
}

/// Decides what to do with a file observed at `observed`, given the path that
/// the store holds for its digest (if any) and whether that path still exists.
pub fn reconcile(stored: Option<&String>, observed: &String, stored_exists: bool) -> (d: Decision)
    ensures
        d == decide(stored.deep_view(), observed@, stored_exists),
{
    match stored {
        None => Decision::Insert,
        Some(p) => {
            if *p == *observed {
                Decision::Keep
            } else if stored_exists {
                Decision::Duplicate
            } else {
                Decision::Move
            }
        },
    }
}

/// What happened to one file during reconciliation.
#[derive(Debug)]
pub enum Outcome {
    /// A new entry was added under the identifier `id`.
    Added { id: u64 },
    /// The entry for this content moved from `from` to `to`.
    Moved { from: String, to: String },
    /// The content is already catalogued at `original`, which still exists.
    Duplicate { original: String, new: String },
    /// The file is catalogued at this path already.
    Unchanged,
    /// The store has no identifier left to give; nothing was added.
    Rejected,
}

/// What an `Outcome` holds, with each path as a sequence of characters.
pub enum OutcomeView {
    Added { id: u64 },
    Moved { from: Seq<char>, to: Seq<char> },
    Duplicate { original: Seq<char>, new: Seq<char> },
    Unchanged,
    Rejected,
}

impl View for Outcome {
    type V = OutcomeView;

    open spec fn view(&self) -> OutcomeView {
        match self {
            Outcome::Added { id } => OutcomeView::Added { id: *id },
            Outcome::Moved { from, to } => OutcomeView::Moved { from: from@, to: to@ },
            Outcome::Duplicate { original, new } => OutcomeView::Duplicate {
                original: original@,
                new: new@,
            },
            Outcome::Unchanged => OutcomeView::Unchanged,
            Outcome::Rejected => OutcomeView::Rejected,
        }
    }
}

impl DeepView for Outcome {
    type V = OutcomeView;

    open spec fn deep_view(&self) -> OutcomeView {
        self@
    }
}

/// The number of entries that an outcome stands for: one where an entry was
/// added or moved, none otherwise.
pub open spec fn rows_of(o: OutcomeView) -> usize {
    if o is Added || o is Moved {
        1
    } else {
        0
    }
}

impl Outcome {
    /// The number of entries that were added or rewritten.
    pub fn rows(&self) -> (n: usize)
        ensures
            n == rows_of(self@),
    {
        match self {
            Outcome::Added { .. } => 1,
            Outcome::Moved { .. } => 1,
            _ => 0,
        }
    }
}

/// The entry that a newly seen file gets: its path, size, digest, extension
/// and creation time, unread and without annotations.
pub open spec fn fresh_entry(id: u64, f: DataFileView) -> EntryView {
    EntryView {
        id,
        file: DataFileView {
            created: f.created,
            path: f.path,
            size: f.size,
            title: Seq::empty(),
            description: Seq::empty(),
            hash: f.hash,
            publisher: Seq::empty(),
            extension: f.extension,
            read: false,
        },
    }
}

/// The entry `e` at another path; nothing else changes.
pub open spec fn relocated(e: EntryView, path: Seq<char>) -> EntryView {
    EntryView { id: e.id, file: DataFileView { path, ..e.file } }
}

/// The store after reconciling the file `f`, and what is reported for it.
/// `present` lists the paths that exist on disk.
pub open spec fn step(c: CatalogueView, f: DataFileView, present: Seq<Seq<char>>) -> (
    CatalogueView,
    OutcomeView,
) {
    let stored = stored_path(c, f.hash);
    let exists_still = stored is Some && present.contains(stored->0);
    match decide(stored, f.path, exists_still) {
        Decision::Insert => if c.next_id == u64::MAX {
            (c, OutcomeView::Rejected)
        } else {
            (
                CatalogueView {
                    entries: c.entries.push(fresh_entry(c.next_id, f)),
                    next_id: (c.next_id + 1) as u64,
                },
                OutcomeView::Added { id: c.next_id },
            )
        },
        Decision::Move => {
            let k = slot(c, f.hash);
            (
                CatalogueView {
                    entries: c.entries.update(k, relocated(c.entries[k], f.path)),
                    next_id: c.next_id,
                },
                OutcomeView::Moved { from: stored->0, to: f.path },
            )
        },
        Decision::Duplicate => (c, OutcomeView::Duplicate { original: stored->0, new: f.path }),
        Decision::Keep => (c, OutcomeView::Unchanged),
    }
}

/// The store after reconciling `files` one after the other, and the outcomes
/// in the same order.
pub open spec fn run(c: CatalogueView, files: Seq<DataFileView>, present: Seq<Seq<char>>) -> (
    CatalogueView,
    Seq<OutcomeView>,
)
    decreases files.len(),
{
    if files.len() == 0 {
        (c, Seq::empty())
    } else {
        let before = run(c, files.drop_last(), present);
        let last = step(before.0, files.last(), present);
        (last.0, before.1.push(last.1))
    }
}

/// Why the store refused a new entry.
#[derive(Debug, Clone, Copy, PartialEq, Eq, Structural)]
pub enum InsertError {
    /// An entry with this digest exists already.
    KnownDigest,
    /// Every identifier has been given out.
    Exhausted,
}

/// An in-memory catalogue store, keyed by content digest.
#[derive(Debug)]
pub struct Catalogue {
    entries: Vec<CatalogueEntry>,
    next_id: u64,
}

impl View for Catalogue {
    type V = CatalogueView;

    closed spec fn view(&self) -> CatalogueView {
        CatalogueView { entries: self.entries.deep_view(), next_id: self.next_id }
    }
}

/// Whether `path` is one of `paths`.
pub fn is_listed(paths: &Vec<String>, path: &String) -> (res: bool)
    ensures
        res == paths.deep_view().contains(path@),
{
    let mut i: usize = 0;
    while i < paths.len()
        invariant
            i <= paths.len(),
            forall|j: int| 0 <= j < i ==> paths.deep_view()[j] != path@,
        decreases paths.len() - i,
    {
        if paths[i] == *path {
            assert(paths.deep_view()[i as int] == path@);
            return true;
        }
        i += 1;
    }
    false
}

/// The state of a store that holds nothing yet; its first entry will get the
/// identifier 1.
pub open spec fn empty_store() -> CatalogueView {
    CatalogueView { entries: Seq::empty(), next_id: 1 }
}

/// Makes sure that there is a store to work with: the one given, as it is,
/// or an empty one where none is given. Doing so twice changes nothing.
pub fn create_table(existing: Option<Catalogue>) -> (res: Catalogue)
    ensures
        res@ == (match existing {
            Some(store) => store@,
            None => empty_store(),
        }),
{
    match existing {
        Some(store) => store,
        None => Catalogue::new(),
    }
}

impl Catalogue {
    /// Holds of every store at all times.
    #[verifier::type_invariant]
    pub open spec fn well_formed(self) -> bool {
        valid(self@)
    }

    /// An empty store whose first entry will get the identifier 1.
    pub fn new() -> (res: Self)
        ensures
            res@ == empty_store(),
    {
        let res = Catalogue { entries: Vec::new(), next_id: 1 };
        assert(res@.entries =~= Seq::empty());
        res
    }

    /// An empty store whose first entry will get the identifier `first_id`.
    pub fn starting_at(first_id: u64) -> (res: Self)
        ensures
            res@ == (CatalogueView { entries: Seq::empty(), next_id: first_id }),
    {
        let res = Catalogue { entries: Vec::new(), next_id: first_id };
        assert(res@.entries =~= Seq::empty());
        res
    }

    /// The number of entries.
    pub fn len(&self) -> (n: usize)
        ensures
            n == self@.entries.len(),
    {
        self.entries.len()
    }

    /// The entries in the order in which they were added.
    pub fn entries(&self) -> (res: &Vec<CatalogueEntry>)
        ensures
            res.deep_view() == self@.entries,
    {
        &self.entries
    }

    /// The position of the entry with this digest.
    fn find(&self, digest: &String) -> (res: Option<usize>)
        ensures
            res is Some <==> holds(self@, digest@),
            res matches Some(k) ==> k < self@.entries.len() && k == slot(self@, digest@),
    {
        proof {
            use_type_invariant(self);
        }
        let mut i: usize = 0;
        while i < self.entries.len()
            invariant
                valid(self@),
                i <= self.entries.len(),
                forall|j: int| 0 <= j < i ==> (#[trigger] self@.entries[j]).file.hash != digest@,
            decreases self.entries.len() - i,
        {
            if self.entries[i].file.hash == *digest {
                proof {
                    assert(self@.entries[i as int].file.hash == digest@);
                    let s = slot(self@, digest@);
                    assert(0 <= s < self@.entries.len() && self@.entries[s].file.hash == digest@);
                    assert(s == i);
                }
                return Some(i);
            }
            i += 1;
        }
        None
    }

    /// The path stored for this digest, or `None` where the digest is unknown.
    pub fn lookup_path(&self, digest: &String) -> (res: Option<String>)
        ensures
            res.deep_view() == stored_path(self@, digest@),
    {
        match self.find(digest) {
            Some(k) => Some(self.entries[k].file.path.clone()),
            None => None,
        }
    }

    /// Appends the entry of a newly seen file.
    fn push_fresh(&mut self, file: &DataFile) -> (id: u64)
        requires
            !holds(old(self)@, file@.hash),
            old(self)@.next_id < u64::MAX,
        ensures
            id == old(self)@.next_id,
            final(self)@ == (CatalogueView {
                entries: old(self)@.entries.push(fresh_entry(id, file@)),
                next_id: (id + 1) as u64,
            }),
    {
        proof {
            use_type_invariant(&*self);
        }
        let id = self.next_id;
        let entry = CatalogueEntry {
            id,
            file: DataFile {
                created: file.created,
                path: file.path.clone(),
                size: file.size,
                title: String::new(),
                description: String::new(),
                hash: file.hash.clone(),
                publisher: String::new(),
                extension: file.extension.clone(),
                read: false,
            },
        };
        assert(entry@ == fresh_entry(id, file@));
        let mut entries: Vec<CatalogueEntry> = Vec::new();
        assert(entries.deep_view() =~= Seq::empty());
        std::mem::swap(&mut self.entries, &mut entries);
        self.next_id = id + 1;
        entries.push(entry);
        assert(entries.deep_view() =~= old(self)@.entries.push(fresh_entry(id, file@)));
        std::mem::swap(&mut self.entries, &mut entries);
        id
    }

    /// Puts `entry` in the place of the entry at position `k`, which has the
    /// same identifier and digest.
    fn replace_entry(&mut self, k: usize, entry: CatalogueEntry)
        requires
            k < old(self)@.entries.len(),
            entry@.id == old(self)@.entries[k as int].id,
            entry@.file.hash == old(self)@.entries[k as int].file.hash,
        ensures
            final(self)@ == (CatalogueView {
                entries: old(self)@.entries.update(k as int, entry@),
                next_id: old(self)@.next_id,
            }),
    {
        proof {
            use_type_invariant(&*self);
        }
        let mut entries: Vec<CatalogueEntry> = Vec::new();
        assert(entries.deep_view() =~= Seq::empty());
        std::mem::swap(&mut self.entries, &mut entries);
        entries.set(k, entry);
        proof {
            let after = old(self)@.entries.update(k as int, entry@);
            assert(entries.deep_view() =~= after);
            assert forall|i: int| 0 <= i < after.len() implies (#[trigger] after[i]).id == old(
                self,
            )@.entries[i].id && after[i].file.hash == old(self)@.entries[i].file.hash by {}
        }
        std::mem::swap(&mut self.entries, &mut entries);
    }

    /// Rewrites the path of the entry at position `k`.
    fn relocate(&mut self, k: usize, path: &String)
        requires
            k < old(self)@.entries.len(),
        ensures
            final(self)@ == (CatalogueView {
                entries: old(self)@.entries.update(
                    k as int,
                    relocated(old(self)@.entries[k as int], path@),
                ),
                next_id: old(self)@.next_id,
            }),
    {
        let e = &self.entries[k];
        let moved = CatalogueEntry {
            id: e.id,
            file: DataFile {
                created: e.file.created,
                path: path.clone(),
                size: e.file.size,
                title: e.file.title.clone(),
                description: e.file.description.clone(),
                hash: e.file.hash.clone(),
                publisher: e.file.publisher.clone(),
                extension: e.file.extension.clone(),
                read: e.file.read,
            },
        };
        assert(moved@ == relocated(old(self)@.entries[k as int], path@));
        self.replace_entry(k, moved);
    }

    /// Adds an entry for a file whose digest the store does not hold yet.
    pub fn insert(&mut self, file: &DataFile) -> (res: Result<u64, InsertError>)
        ensures
            holds(old(self)@, file@.hash) ==> res == Err::<u64, InsertError>(InsertError::KnownDigest)
                && final(self)@ == old(self)@,
            !holds(old(self)@, file@.hash) && old(self)@.next_id == u64::MAX ==> res == Err::<
                u64,
                InsertError,
            >(InsertError::Exhausted) && final(self)@ == old(self)@,
            !holds(old(self)@, file@.hash) && old(self)@.next_id < u64::MAX ==> res == Ok::<
                u64,
                InsertError,
            >(old(self)@.next_id) && final(self)@ == (CatalogueView {
                entries: old(self)@.entries.push(fresh_entry(old(self)@.next_id, file@)),
                next_id: (old(self)@.next_id + 1) as u64,
            }),
    {
        if self.find(&file.hash).is_some() {
            Err(InsertError::KnownDigest)
        } else if self.next_id == u64::MAX {
            Err(InsertError::Exhausted)
        } else {
            Ok(self.push_fresh(file))
        }
    }

    /// Replaces the path stored for `digest`; returns how many entries changed.
    pub fn update_path(&mut self, digest: &String, new_path: &String) -> (rows: usize)
        ensures
            !holds(old(self)@, digest@) ==> rows == 0 && final(self)@ == old(self)@,
            holds(old(self)@, digest@) ==> rows == 1 && final(self)@ == (CatalogueView {
                entries: old(self)@.entries.update(
                    slot(old(self)@, digest@),
                    relocated(old(self)@.entries[slot(old(self)@, digest@)], new_path@),
                ),
                next_id: old(self)@.next_id,
            }),
    {
        match self.find(digest) {
            Some(k) => {
                self.relocate(k, new_path);
                1
            },
            None => 0,
        }
    }

    /// The position of the entry with this identifier.
    fn find_id(&self, id: u64) -> (res: Option<usize>)
        ensures
            res is Some <==> has_id(self@, id),
            res matches Some(k) ==> k < self@.entries.len() && self@.entries[k as int].id == id,
    {
        let mut i: usize = 0;
        while i < self.entries.len()
            invariant
                i <= self.entries.len(),
                forall|j: int| 0 <= j < i ==> (#[trigger] self@.entries[j]).id != id,
            decreases self.entries.len() - i,
        {
            if self.entries[i].id == id {
                assert(self@.entries[i as int].id == id);
                return Some(i);
            }
            i += 1;
        }
        None
    }

    /// Writes the annotation into the entry that has its identifier; returns
    /// how many entries changed.
    pub fn annotate_entry(&mut self, record: &Annotation) -> (rows: usize)
        ensures
            (final(self)@, rows) == annotate_step(old(self)@, record@),
    {
        proof {
            use_type_invariant(&*self);
        }
        match self.find_id(record.id) {
            Some(k) => {
                let e = &self.entries[k];
                let entry = CatalogueEntry {
                    id: e.id,
                    file: DataFile {
                        created: e.file.created,
                        path: e.file.path.clone(),
                        size: e.file.size,
                        title: record.title.clone(),
                        description: record.description.clone(),
                        hash: e.file.hash.clone(),
                        publisher: record.publisher.clone(),
                        extension: e.file.extension.clone(),
                        read: record.read,
                    },
                };
                assert(entry@ == annotated(old(self)@.entries[k as int], record@));
                self.replace_entry(k, entry);
                proof {
                    let before = old(self)@;
                    assert forall|i: int| 0 <= i < before.entries.len() && i != k implies (
                    #[trigger] before.entries[i]).id != record.id by {
                        if i < k {
                            assert(before.entries[i].id != before.entries[k as int].id);
                        } else {
                            assert(before.entries[k as int].id != before.entries[i].id);
                        }
                    }
                    assert(self@.entries =~= annotate_step(before, record@).0.entries);
                }
                1
            },
            None => {
                assert(self@.entries =~= annotate_step(self@, record@).0.entries);
                0
            },
        }
    }

    /// The entries created between `a_date` and `b_date`, as records, in
    /// store order. A bound of zero or less is no bound.
    pub fn rows_between(&self, a_date: i64, b_date: i64) -> (rows: Vec<AnnotationRecord>)
        ensures
            rows.deep_view() == rows_in(self@.entries, a_date, b_date),
    {
        let mut rows: Vec<AnnotationRecord> = Vec::new();
        let mut i: usize = 0;
        assert(self@.entries.take(0) =~= Seq::empty());
        assert(rows.deep_view() =~= Seq::empty());
        while i < self.entries.len()
            invariant
                i <= self.entries.len(),
                rows.deep_view() == rows_in(self@.entries.take(i as int), a_date, b_date),
            decreases self.entries.len() - i,
        {
            let ghost before = rows.deep_view();
            proof {
                let prefix = self@.entries.take(i + 1);
                assert(prefix.drop_last() =~= self@.entries.take(i as int));
                assert(prefix.last() == self@.entries[i as int]);
            }
            let e = &self.entries[i];
            let after_start = a_date <= 0 || e.file.created >= a_date as u64;
            let before_end = b_date <= 0 || e.file.created <= b_date as u64;
            if after_start && before_end {
                let row = AnnotationRecord {
                    id: e.id,
                    path: e.file.path.clone(),
                    title: e.file.title.clone(),
                    description: e.file.description.clone(),
                    publisher: e.file.publisher.clone(),
                    read: e.file.read,
                };
                assert(row@ == record_of(self@.entries[i as int]));
                rows.push(row);
                assert(rows.deep_view() =~= before.push(record_of(self@.entries[i as int])));
            }
            i += 1;
        }
        assert(self@.entries.take(i as int) =~= self@.entries);
        rows
    }

    /// Reconciles one observed file against the store. `present` lists the
    /// paths that exist on disk at this moment.
    pub fn reconcile_file(&mut self, file: &DataFile, present: &Vec<String>) -> (res: Outcome)
        ensures
            (final(self)@, res@) == step(old(self)@, file@, present.deep_view()),
    {
        match self.find(&file.hash) {
            None => {
                if self.next_id == u64::MAX {
                    Outcome::Rejected
                } else {
                    let id = self.push_fresh(file);
                    Outcome::Added { id }
                }
            },
            Some(k) => {
                let stored = self.entries[k].file.path.clone();
                let exists_still = is_listed(present, &stored);
                match reconcile(Some(&stored), &file.path, exists_still) {
                    Decision::Move => {
                        self.relocate(k, &file.path);
                        Outcome::Moved { from: stored, to: file.path.clone() }
                    },
                    Decision::Duplicate => Outcome::Duplicate {
                        original: stored,
                        new: file.path.clone(),
                    },
                    _ => Outcome::Unchanged,
                }
            },
        }
    }
}

/// Reconciles the files one after the other, in the order given, and returns
/// one outcome per file. `present` lists the paths that exist on disk.
pub fn insert_files(catalogue: &mut Catalogue, files: &Vec<DataFile>, present: &Vec<String>) -> (res:
    Vec<Outcome>)
    ensures
        (final(catalogue)@, res.deep_view()) == run(
            old(catalogue)@,
            files.deep_view(),
            present.deep_view(),
        ),
{
    let mut outcomes: Vec<Outcome> = Vec::new();
    let mut i: usize = 0;
    assert(files.deep_view().take(0) =~= Seq::empty());
    assert(outcomes.deep_view() =~= Seq::empty());
    while i < files.len()
        invariant
            i <= files.len(),
            (catalogue@, outcomes.deep_view()) == run(
                old(catalogue)@,
                files.deep_view().take(i as int),
                present.deep_view(),
            ),
        decreases files.len() - i,
    {
        let ghost before = outcomes.deep_view();
        let outcome = catalogue.reconcile_file(&files[i], present);
        outcomes.push(outcome);
        proof {
            let prefix = files.deep_view().take(i + 1);
            assert(prefix.drop_last() =~= files.deep_view().take(i as int));
            assert(prefix.last() == files[i as int]@);
            assert(outcomes.deep_view() =~= before.push(outcome@));
        }
        i += 1;
    }
    assert(files.deep_view().take(i as int) =~= files.deep_view());
    outcomes
}

/// Whether some entry has this identifier.
pub open spec fn has_id(c: CatalogueView, id: u64) -> bool {
    exists|i: int| 0 <= i < c.entries.len() && (#[trigger] c.entries[i]).id == id
}

/// The entry `e` with the annotation written into it. Its identifier, path,
/// size, digest, extension and creation time stay.
pub open spec fn annotated(e: EntryView, a: AnnotationView) -> EntryView {
    EntryView {
        id: e.id,
        file: DataFileView {
            title: a.title,
            description: a.description,
            publisher: a.publisher,
            read: a.read,
            ..e.file
        },
    }
}

/// The store after an annotation was uploaded, and the number of entries
/// that it changed: one where an entry has the annotation's identifier,
/// none otherwise.
pub open spec fn annotate_step(c: CatalogueView, a: AnnotationView) -> (CatalogueView, usize) {
    (
        CatalogueView {
            entries: Seq::new(
                c.entries.len(),
                |i: int|
                    if c.entries[i].id == a.id {
                        annotated(c.entries[i], a)
                    } else {
                        c.entries[i]
                    },
            ),
            next_id: c.next_id,
        },
        if has_id(c, a.id) {
            1usize
        } else {
            0usize
        },
    )
}

/// The store after the annotations were uploaded one after the other, and
/// the number of entries that each changed.
pub open spec fn annotate_run(c: CatalogueView, records: Seq<AnnotationView>) -> (
    CatalogueView,
    Seq<usize>,
)
    decreases records.len(),
{
    if records.len() == 0 {
        (c, Seq::empty())
    } else {
        let before = annotate_run(c, records.drop_last());
        let last = annotate_step(before.0, records.last());
        (last.0, before.1.push(last.1))
    }
}

/// Writes one annotation into the store; returns how many entries changed.
pub fn update_record(catalogue: &mut Catalogue, record: &Annotation) -> (rows: usize)
    ensures
        (final(catalogue)@, rows) == annotate_step(old(catalogue)@, record@),
{
    catalogue.annotate_entry(record)
}

/// An entry as a listing shows it.
pub open spec fn record_of(e: EntryView) -> AnnotationRecordView {
    AnnotationRecordView {
        id: e.id,
        path: e.file.path,
        title: e.file.title,
        description: e.file.description,
        publisher: e.file.publisher,
        read: e.file.read,
    }
}

/// Whether a creation time lies within the interval. A bound that is zero
/// or negative is no bound; a bound that is set is itself included.
pub open spec fn in_interval(created: u64, a_date: i64, b_date: i64) -> bool {
    (a_date > 0 ==> created >= a_date) && (b_date > 0 ==> created <= b_date)
}

/// The records of the entries created within the interval, in store order.
pub open spec fn rows_in(entries: Seq<EntryView>, a_date: i64, b_date: i64) -> Seq<
    AnnotationRecordView,
>
    decreases entries.len(),
{
    if entries.len() == 0 {
        Seq::empty()
    } else if in_interval(entries.last().file.created, a_date, b_date) {
        rows_in(entries.drop_last(), a_date, b_date).push(record_of(entries.last()))
    } else {
        rows_in(entries.drop_last(), a_date, b_date)
    }
}

/// Whether `needle` stands in `hay` at position `i`.
pub open spec fn occurs_at(hay: Seq<char>, needle: Seq<char>, i: int) -> bool {
    0 <= i && i + needle.len() <= hay.len() && hay.subrange(i, i + needle.len()) == needle
}

/// Whether `needle` stands somewhere in `hay`.
pub open spec fn contains_text(hay: Seq<char>, needle: Seq<char>) -> bool {
    exists|i: int| occurs_at(hay, needle, i)
}

/// The characters of a text, in order.
pub fn chars_of(text: &str) -> (res: Vec<char>)
    ensures
        res@ == text@,
{
    let n = text.unicode_len();
    let mut rest = text.chars();
    let mut taken: Vec<char> = Vec::new();
    assert(text@.skip(0) =~= text@);
    while taken.len() < n
        invariant
            n == text@.len(),
            taken.len() <= n,
            rest.obeys_prophetic_iter_laws(),
            taken@ == text@.take(taken.len() as int),
            rest.remaining() == text@.skip(taken.len() as int),
        decreases n - taken.len(),
    {
        let ghost had = taken@;
        match rest.next() {
            Some(c) => {
                taken.push(c);
                assert(taken@ =~= text@.take(taken.len() as int));
                assert(rest.remaining() =~= text@.skip(taken.len() as int));
            },
            None => {
                assert(false);
            },
        }
    }
    assert(text@.take(n as int) =~= text@);
    taken
}

/// Whether `needle` stands in `hay` at position `i`.
fn stands_at(hay: &Vec<char>, needle: &Vec<char>, i: usize) -> (res: bool)
    requires
        i + needle.len() <= hay.len(),
    ensures
        res == occurs_at(hay@, needle@, i as int),
{
    let mut k: usize = 0;
    while k < needle.len()
        invariant
            k <= needle.len(),
            i + needle.len() <= hay.len(),
            forall|j: int| 0 <= j < k ==> hay@[i + j] == needle@[j],
        decreases needle.len() - k,
    {
        if hay[i + k] != needle[k] {
            assert(hay@.subrange(i as int, i + needle@.len())[k as int] != needle@[k as int]);
            return false;
        }
        k += 1;
    }
    assert(hay@.subrange(i as int, i + needle@.len()) =~= needle@);
    true
}

/// Whether the characters `needle` stand somewhere in the characters `hay`.
/// Nothing at all stands in every text.
pub fn chars_contain(hay: &Vec<char>, needle: &Vec<char>) -> (res: bool)
    ensures
        res == contains_text(hay@, needle@),
{
    if needle.len() > hay.len() {
        return false;
    }
    let last = hay.len() - needle.len();
    let mut i: usize = 0;
    loop
        invariant
            i <= last,
            last == hay.len() - needle.len(),
            forall|j: int| 0 <= j < i ==> !occurs_at(hay@, needle@, j),
        decreases last - i,
    {
        if stands_at(hay, needle, i) {
            return true;
        }
        if i == last {
            return false;
        }
        i += 1;
    }
}

/// Whether `needle` stands somewhere in `hay`. The empty text stands in
/// every text.
pub fn text_contains(hay: &str, needle: &str) -> (res: bool)
    ensures
        res == contains_text(hay@, needle@),
{
    chars_contain(&chars_of(hay), &chars_of(needle))
}

/// Whether a record passes the search. Without a search text every record
/// passes. With one, the text is looked for in the title where `title` is
/// set and in the description where `description` is set, and one hit is
/// enough; with neither set nothing passes.
pub open spec fn matches_search(
    r: AnnotationRecordView,
    search: Seq<char>,
    description: bool,
    title: bool,
) -> bool {
    search.len() == 0 || (title && contains_text(r.title, search)) || (description
        && contains_text(r.description, search))
}

/// The records that pass the search, in their order.
pub open spec fn selected(
    rows: Seq<AnnotationRecordView>,
    search: Seq<char>,
    description: bool,
    title: bool,
) -> Seq<AnnotationRecordView>
    decreases rows.len(),
{
    if rows.len() == 0 {
        Seq::empty()
    } else if matches_search(rows.last(), search, description, title) {
        selected(rows.drop_last(), search, description, title).push(rows.last())
    } else {
        selected(rows.drop_last(), search, description, title)
    }
}

/// Keeps the records that pass the search, in their order.
pub fn get_records(rows: Vec<AnnotationRecord>, search: &str, description: bool, title: bool) -> (res:
    Vec<AnnotationRecord>)
    ensures
        res.deep_view() == selected(rows.deep_view(), search@, description, title),
{
    let mut kept: Vec<AnnotationRecord> = Vec::new();
    let wanted = chars_of(search);
    let no_search = wanted.len() == 0;
    let mut i: usize = 0;
    assert(rows.deep_view().take(0) =~= Seq::empty());
    assert(kept.deep_view() =~= Seq::empty());
    while i < rows.len()
        invariant
            i <= rows.len(),
            wanted@ == search@,
            no_search == (search@.len() == 0),
            kept.deep_view() == selected(
                rows.deep_view().take(i as int),
                search@,
                description,
                title,
            ),
        decreases rows.len() - i,
    {
        let ghost before = kept.deep_view();
        proof {
            let prefix = rows.deep_view().take(i + 1);
            assert(prefix.drop_last() =~= rows.deep_view().take(i as int));
            assert(prefix.last() == rows[i as int]@);
        }
        let row = &rows[i];
        let hit = no_search || (title && chars_contain(&chars_of(row.title.as_str()), &wanted)) || (
        description && chars_contain(&chars_of(row.description.as_str()), &wanted));
        if hit {
            kept.push(row.duplicate());
            assert(kept.deep_view() =~= before.push(row@));
        }
        i += 1;
    }
    assert(rows.deep_view().take(i as int) =~= rows.deep_view());
    kept
}

/// The records of a listing: the entries created within the interval that
/// pass the search, in store order.
pub open spec fn listing(
    c: CatalogueView,
    a_date: i64,
    b_date: i64,
    search: Seq<char>,
    description: bool,
    title: bool,
) -> Seq<AnnotationRecordView> {
    selected(rows_in(c.entries, a_date, b_date), search, description, title)
}

/// Lists the entries created between `a_date` and `b_date` (seconds since
/// the epoch, both included; a bound of zero or less is no bound) that pass
/// the search.
pub fn list_records(
    catalogue: &Catalogue,
    a_date: i64,
    b_date: i64,
    search: &str,
    description: bool,
    title: bool,
) -> (res: Vec<AnnotationRecord>)
    ensures
        res.deep_view() == listing(catalogue@, a_date, b_date, search@, description, title),
{
    let rows = catalogue.rows_between(a_date, b_date);
    get_records(rows, search, description, title)
}

/// The word that joins a statement to its first condition.
pub open spec fn where_word() -> Seq<char> {
    seq![' ', 'w', 'h', 'e', 'r', 'e', ' ']
}

/// The word that joins a statement to a further condition.
pub open spec fn and_word() -> Seq<char> {
    seq![' ', 'a', 'n', 'd', ' ']
}

/// A selection statement with its optional conditions appended: first the
/// one on the description, then the one on the title. The first condition
/// of a statement that has none yet (`sole`) is joined by ` where `, every
/// other by ` and `.
pub open spec fn assembled(
    query: Seq<char>,
    description: bool,
    title: bool,
    sole: bool,
    query_d: Seq<char>,
    query_t: Seq<char>,
) -> Seq<char> {
    let first = if description {
        query + (if sole {
            where_word()
        } else {
            and_word()
        }) + query_d
    } else {
        query
    };
    if title {
        first + (if sole && !description {
            where_word()
        } else {
            and_word()
        }) + query_t
    } else {
        first
    }
}

/// Appends to `query` the configured conditions on the description and on
/// the title, as far as they are asked for.
pub fn assemble_query(query: &str, description: bool, title: bool, sole: bool, config: &Config) -> (res:
    String)
    ensures
        res@ == assembled(
            query@,
            description,
            title,
            sole,
            config.database.query_d@,
            config.database.query_t@,
        ),
{
    proof {
        reveal_strlit(" where ");
        reveal_strlit(" and ");
        assert(" where "@ =~= where_word());
        assert(" and "@ =~= and_word());
    }
    let mut out_query = query.to_owned();
    if description {
        if sole {
            out_query.append(" where ");
        } else {
            out_query.append(" and ");
        }
        out_query.append(config.database.query_d.as_str());
    }
    if title {
        if sole && !description {
            out_query.append(" where ");
        } else {
            out_query.append(" and ");
        }
        out_query.append(config.database.query_t.as_str());
    }
    out_query
}

/// Which of the four selection statements a listing is made with.
#[derive(Debug, Clone, Copy, PartialEq, Eq, Structural)]
pub enum Selection {
    /// Both bounds are set.
    Interval,
    /// Only the lower bound is set.
    After,
    /// Only the upper bound is set.
    Before,
    /// No bound is set.
    All,
}

/// The selection that two bounds call for. A bound of zero or less is not set.
pub open spec fn selection_of(a_date: i64, b_date: i64) -> Selection {
    if a_date > 0 && b_date > 0 {
        Selection::Interval
    } else if a_date > 0 {
        Selection::After
    } else if b_date > 0 {
        Selection::Before
    } else {
        Selection::All
    }
}

/// The configured statement of a selection.
pub open spec fn template_of(selection: Selection, config: &Config) -> Seq<char> {
    match selection {
        Selection::Interval => config.database.interval_annotation@,
        Selection::After => config.database.after_annotation@,
        Selection::Before => config.database.before_annotation@,
        Selection::All => config.database.all_annotation@,
    }
}

/// The values that the statement of a selection takes: the bounds that are
/// set, the lower one first.
pub open spec fn bounds_of(selection: Selection, a_date: i64, b_date: i64) -> Seq<i64> {
    match selection {
        Selection::Interval => seq![a_date, b_date],
        Selection::After => seq![a_date],
        Selection::Before => seq![b_date],
        Selection::All => Seq::empty(),
    }
}

/// The selection that two bounds call for.
pub fn select(a_date: i64, b_date: i64) -> (res: Selection)
    ensures
        res == selection_of(a_date, b_date),
{
    if a_date > 0 && b_date > 0 {
        Selection::Interval
    } else if a_date > 0 {
        Selection::After
    } else if b_date > 0 {
        Selection::Before
    } else {
        Selection::All
    }
}

/// The statement that a listing is made with, and the values it takes: the
/// configured statement for the bounds that are set, with the conditions on
/// the description and the title appended as far as they are asked for.
/// Only the statement without bounds has no condition of its own yet.
pub fn select_statement(a_date: i64, b_date: i64, description: bool, title: bool, config: &Config) -> (res:
    (String, Vec<i64>))
    ensures
        res.0@ == assembled(
            template_of(selection_of(a_date, b_date), config),
            description,
            title,
            selection_of(a_date, b_date) is All,
            config.database.query_d@,
            config.database.query_t@,
        ),
        res.1@ == bounds_of(selection_of(a_date, b_date), a_date, b_date),
{
    let mut bounds: Vec<i64> = Vec::new();
    let database = &config.database;
    match select(a_date, b_date) {
        Selection::Interval => {
            bounds.push(a_date);
            bounds.push(b_date);
            assert(bounds@ =~= seq![a_date, b_date]);
            let query = assemble_query(
                database.interval_annotation.as_str(),
                description,
                title,
                false,
                config,
            );
            (query, bounds)
        },
        Selection::After => {
            bounds.push(a_date);
            assert(bounds@ =~= seq![a_date]);
            let query = assemble_query(
                database.after_annotation.as_str(),
                description,
                title,
                false,
                config,
            );
            (query, bounds)
        },
        Selection::Before => {
            bounds.push(b_date);
            assert(bounds@ =~= seq![b_date]);
            let query = assemble_query(
                database.before_annotation.as_str(),
                description,
                title,
                false,
                config,
            );
            (query, bounds)
        },
        Selection::All => {
            let query = assemble_query(
                database.all_annotation.as_str(),
                description,
                title,
                true,
                config,
            );
            (query, bounds)
        },
    }
}

} // verus!
