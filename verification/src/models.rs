//! The records that the catalogue works with, and their mathematical views.

use vstd::prelude::*;

verus! {

/// A file as the traversal saw it, and as the catalogue stores it.
#[derive(Debug)]
pub struct DataFile {
    pub created: u64,
    pub path: String,
    pub size: u64,
    pub title: String,
    pub description: String,
    pub hash: String,
    pub publisher: String,
    pub extension: String,
    pub read: bool,
}

/// What a `DataFile` holds, with each text as a sequence of characters.
pub struct DataFileView {
    pub created: u64,
    pub path: Seq<char>,
    pub size: u64,
    pub title: Seq<char>,
    pub description: Seq<char>,
    pub hash: Seq<char>,
    pub publisher: Seq<char>,
    pub extension: Seq<char>,
    pub read: bool,
}

impl View for DataFile {
    type V = DataFileView;

    open spec fn view(&self) -> DataFileView {
        DataFileView {
            created: self.created,
            path: self.path@,
            size: self.size,
            title: self.title@,
            description: self.description@,
            hash: self.hash@,
            publisher: self.publisher@,
            extension: self.extension@,
            read: self.read,
        }
    }
}

impl DeepView for DataFile {
    type V = DataFileView;

    open spec fn deep_view(&self) -> DataFileView {
        self@
    }
}

impl DataFile {
    /// A descriptor with nothing filled in: zero numbers, empty texts, unread.
    pub fn new() -> (res: Self)
        ensures
            res@ == DataFile::blank(),
    {
        Self {
            created: 0,
            path: String::new(),
            size: 0,
            title: String::new(),
            description: String::new(),
            hash: String::new(),
            publisher: String::new(),
            extension: String::new(),
            read: false,
        }
    }

    /// The view of a descriptor with nothing filled in.
    pub open spec fn blank() -> DataFileView {
        DataFileView {
            created: 0,
            path: Seq::empty(),
            size: 0,
            title: Seq::empty(),
            description: Seq::empty(),
            hash: Seq::empty(),
            publisher: Seq::empty(),
            extension: Seq::empty(),
            read: false,
        }
    }

    /// A copy that holds the same values.
    pub fn duplicate(&self) -> (res: Self)
        ensures
            res@ == self@,
    {
        Self {
            created: self.created,
            path: self.path.clone(),
            size: self.size,
            title: self.title.clone(),
            description: self.description.clone(),
            hash: self.hash.clone(),
            publisher: self.publisher.clone(),
            extension: self.extension.clone(),
            read: self.read,
        }
    }
}

/// Metadata that a person attaches to the entry with the given `id`.
#[derive(Debug)]
pub struct Annotation {
    pub id: u64,
    pub title: String,
    pub description: String,
    pub publisher: String,
    pub read: bool,
}

/// What an `Annotation` holds, with each text as a sequence of characters.
pub struct AnnotationView {
    pub id: u64,
    pub title: Seq<char>,
    pub description: Seq<char>,
    pub publisher: Seq<char>,
    pub read: bool,
}

impl View for Annotation {
    type V = AnnotationView;

    open spec fn view(&self) -> AnnotationView {
        AnnotationView {
            id: self.id,
            title: self.title@,
            description: self.description@,
            publisher: self.publisher@,
            read: self.read,
        }
    }
}

impl DeepView for Annotation {
    type V = AnnotationView;

    open spec fn deep_view(&self) -> AnnotationView {
        self@
    }
}

/// An entry as a listing shows it: where the file is and what was said of it.
#[derive(Debug)]
pub struct AnnotationRecord {
    pub id: u64,
    pub path: String,
    pub title: String,
    pub description: String,
    pub publisher: String,
    pub read: bool,
}

/// What an `AnnotationRecord` holds, with each text as a sequence of characters.
pub struct AnnotationRecordView {
    pub id: u64,
    pub path: Seq<char>,
    pub title: Seq<char>,
    pub description: Seq<char>,
    pub publisher: Seq<char>,
    pub read: bool,
}

impl View for AnnotationRecord {
    type V = AnnotationRecordView;

    open spec fn view(&self) -> AnnotationRecordView {
        AnnotationRecordView {
            id: self.id,
            path: self.path@,
            title: self.title@,
            description: self.description@,
            publisher: self.publisher@,
            read: self.read,
        }
    }
}

impl DeepView for AnnotationRecord {
    type V = AnnotationRecordView;

    open spec fn deep_view(&self) -> AnnotationRecordView {
        self@
    }
}

impl AnnotationRecord {
    /// A copy that holds the same values.
    pub fn duplicate(&self) -> (res: Self)
        ensures
            res@ == self@,
    {
        Self {
            id: self.id,
            path: self.path.clone(),
            title: self.title.clone(),
            description: self.description.clone(),
            publisher: self.publisher.clone(),
            read: self.read,
        }
    }
}

/// The settings of one installation.
#[derive(Debug)]
pub struct Config {
    pub database: Database,
}

/// Where the persistent store lives and the statements that are run against it.
/// The statements are opaque templates: nothing here looks inside them.
#[derive(Debug)]
pub struct Database {
    pub file: String,
    pub get_path: String,
    pub create_catalogue: String,
    pub insert_catalogue: String,
    pub update_catalogue: String,
    pub all_annotation: String,
    pub before_annotation: String,
    pub after_annotation: String,
    pub interval_annotation: String,
    pub query_d: String,
    pub query_t: String,
    pub update_record: String,
}

} // verus!
