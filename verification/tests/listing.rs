use catalogue::annotate::{annotate, list_records, read_bound, ListError};
use catalogue::catalogue_database::{
    assemble_query, chars_of, get_records, list_records as list_between, select,
    select_statement, text_contains, update_record, Catalogue, Outcome, Selection,
};
use catalogue::models::{Annotation, AnnotationRecord, Config, DataFile, Database};
use catalogue::scan;

fn file(path: &str, hash: &str, extension: &str, created: u64) -> DataFile {
    let mut f = DataFile::new();
    f.path = path.to_string();
    f.hash = hash.to_string();
    f.extension = extension.to_string();
    f.created = created;
    f
}

fn note(id: u64, title: &str, description: &str) -> Annotation {
    Annotation {
        id,
        title: title.to_string(),
        description: description.to_string(),
        publisher: "Acme".to_string(),
        read: true,
    }
}

fn row(id: u64, title: &str, description: &str) -> AnnotationRecord {
    AnnotationRecord {
        id,
        path: format!("/docs/{}.pdf", id),
        title: title.to_string(),
        description: description.to_string(),
        publisher: String::new(),
        read: false,
    }
}

fn ids(records: &[AnnotationRecord]) -> Vec<u64> {
    records.iter().map(|r| r.id).collect()
}

fn config(query_d: &str, query_t: &str) -> Config {
    Config {
        database: Database {
            file: "catalogue.db".to_string(),
            get_path: String::new(),
            create_catalogue: String::new(),
            insert_catalogue: String::new(),
            update_catalogue: String::new(),
            all_annotation: "select * from catalogue".to_string(),
            before_annotation: String::new(),
            after_annotation: String::new(),
            interval_annotation: String::new(),
            query_d: query_d.to_string(),
            query_t: query_t.to_string(),
            update_record: String::new(),
        },
    }
}

// 2021-01-01, 2021-06-01 and 2022-01-01, each at midnight UTC.
const JAN_2021: u64 = 1_609_459_200;
const JUN_2021: u64 = 1_622_505_600;
const JAN_2022: u64 = 1_640_995_200;

fn library() -> Catalogue {
    let mut catalogue = Catalogue::new();
    let files = vec![
        file("/docs/report.pdf", "AA", "pdf", JAN_2021),
        file("/docs/notes.txt", "TT", "txt", JUN_2021),
        file("/docs/novel.epub", "BB", "epub", JUN_2021),
        file("/docs/letter.docx", "CC", "docx", JAN_2022),
    ];
    let outcomes = scan(&mut catalogue, &files, &Vec::new());
    assert_eq!(outcomes.len(), 3);
    assert!(outcomes.iter().all(|o| matches!(o, Outcome::Added { .. })));
    let rows = annotate(
        &mut catalogue,
        &vec![
            note(1, "Annual Report", "figures of the year"),
            note(2, "A Novel", "the annual fair"),
            note(9, "Nobody", "no such entry"),
        ],
    );
    assert_eq!(rows, vec![1, 1, 0]);
    catalogue
}

#[test]
fn scan_passes_over_other_formats() {
    let catalogue = library();
    assert_eq!(catalogue.len(), 3);
    assert_eq!(catalogue.lookup_path(&"TT".to_string()), None);
    let extensions: Vec<&str> =
        catalogue.entries().iter().map(|e| e.file.extension.as_str()).collect();
    assert_eq!(extensions, vec!["pdf", "epub", "docx"]);
    let ids: Vec<u64> = catalogue.entries().iter().map(|e| e.id).collect();
    assert_eq!(ids, vec![1, 2, 3]);
}

#[test]
fn scan_of_other_formats_alone_does_nothing() {
    let mut catalogue = Catalogue::new();
    let files = vec![file("/a.txt", "AA", "txt", 1), file("/b", "BB", "", 1), file("/c.PDF", "CC", "PDF", 1)];
    assert!(scan(&mut catalogue, &files, &Vec::new()).is_empty());
    assert_eq!(catalogue.len(), 0);
}

#[test]
fn annotation_is_written_into_the_entry_with_its_identifier() {
    let mut catalogue = library();
    let e = &catalogue.entries()[0];
    assert_eq!(e.file.title, "Annual Report");
    assert_eq!(e.file.description, "figures of the year");
    assert_eq!(e.file.publisher, "Acme");
    assert!(e.file.read);
    assert_eq!(e.file.path, "/docs/report.pdf");
    assert_eq!(e.file.hash, "AA");
    assert_eq!(e.file.created, JAN_2021);
    let third = &catalogue.entries()[2];
    assert_eq!(third.file.title, "");
    assert!(!third.file.read);
    let mut again = note(1, "Renamed", "");
    again.read = false;
    assert_eq!(update_record(&mut catalogue, &again), 1);
    assert_eq!(update_record(&mut catalogue, &note(0, "x", "y")), 0);
    assert_eq!(catalogue.entries()[0].file.title, "Renamed");
    assert_eq!(catalogue.entries()[0].file.description, "");
    assert!(!catalogue.entries()[0].file.read);
    assert_eq!(catalogue.len(), 3);
}

#[test]
fn annotated_record_is_found_by_its_title() {
    let catalogue = library();
    let found = list_between(&catalogue, 0, 0, "Annual", false, true);
    assert_eq!(found.len(), 1);
    assert_eq!(found[0].id, 1);
    assert_eq!(found[0].path, "/docs/report.pdf");
    assert_eq!(found[0].title, "Annual Report");
    assert_eq!(found[0].description, "figures of the year");
    assert_eq!(found[0].publisher, "Acme");
    assert!(found[0].read);
    assert!(list_between(&catalogue, 0, 0, "Annual", false, false).is_empty());
    assert!(list_between(&catalogue, 0, 0, "Annual", true, false).is_empty());
    assert_eq!(ids(&list_between(&catalogue, 0, 0, "annual", true, false)), vec![2]);
    assert_eq!(ids(&list_between(&catalogue, 0, 0, "nnual", true, true)), vec![1, 2]);
    assert_eq!(ids(&list_between(&catalogue, 0, 0, "", false, false)), vec![1, 2, 3]);
    assert_eq!(ids(&list_between(&catalogue, 0, 0, "", true, true)), vec![1, 2, 3]);
}

#[test]
fn listing_is_bounded_by_creation_time() {
    let catalogue = library();
    let all = |a: i64, b: i64| ids(&list_between(&catalogue, a, b, "", false, false));
    assert_eq!(all(JUN_2021 as i64, 0), vec![2, 3]);
    assert_eq!(all(JUN_2021 as i64 + 1, 0), vec![3]);
    assert_eq!(all(0, JUN_2021 as i64), vec![1, 2]);
    assert_eq!(all(0, JUN_2021 as i64 - 1), vec![1]);
    assert_eq!(all(JAN_2021 as i64, JAN_2022 as i64), vec![1, 2, 3]);
    assert_eq!(all(JAN_2021 as i64 + 1, JAN_2022 as i64 - 1), vec![2]);
    assert_eq!(all(JAN_2022 as i64, JAN_2021 as i64), Vec::<u64>::new());
    assert_eq!(all(-5, -5), vec![1, 2, 3]);
    assert_eq!(all(i64::MAX, 0), Vec::<u64>::new());
    assert_eq!(
        ids(&list_between(&catalogue, JUN_2021 as i64, 0, "nnual", true, true)),
        vec![2]
    );
}

#[test]
fn a_creation_time_beyond_the_signed_range_lies_after_every_bound() {
    let mut catalogue = Catalogue::new();
    catalogue.insert(&file("/docs/far.pdf", "FF", "pdf", u64::MAX)).unwrap();
    assert_eq!(ids(&list_between(&catalogue, i64::MAX, 0, "", false, false)), vec![1]);
    assert!(list_between(&catalogue, 0, i64::MAX, "", false, false).is_empty());
}

#[test]
fn bounds_are_read_as_utc_date_and_time() {
    assert_eq!(read_bound(&Some("2021-01-01 00:00:00".to_string())), Some(JAN_2021 as i64));
    assert_eq!(read_bound(&Some("2021-06-01 00:00:01".to_string())), Some(JUN_2021 as i64 + 1));
    assert_eq!(read_bound(&Some("1970-01-01 00:00:00".to_string())), Some(0));
    assert_eq!(read_bound(&Some("1969-12-31 23:59:59".to_string())), Some(-1));
    assert_eq!(read_bound(&None), Some(0));
    assert_eq!(read_bound(&Some("2021-01-01".to_string())), None);
    assert_eq!(read_bound(&Some("yesterday".to_string())), None);
    assert_eq!(read_bound(&Some(String::new())), None);
    assert_eq!(read_bound(&Some("2021-13-01 00:00:00".to_string())), None);
}

#[test]
fn listing_by_written_dates() {
    let catalogue = library();
    let got = list_records(
        &catalogue,
        Some("2021-03-01 00:00:00".to_string()),
        Some("2021-12-31 23:59:59".to_string()),
        None,
        false,
        false,
    )
    .unwrap();
    assert_eq!(ids(&got), vec![2]);
    let got = list_records(
        &catalogue,
        None,
        Some("2021-06-01 00:00:00".to_string()),
        Some("Annual".to_string()),
        false,
        true,
    )
    .unwrap();
    assert_eq!(ids(&got), vec![1]);
    let got = list_records(&catalogue, None, None, None, false, false).unwrap();
    assert_eq!(ids(&got), vec![1, 2, 3]);
}

#[test]
fn a_bound_that_cannot_be_read_is_an_error() {
    let catalogue = library();
    let bad = || Some("2021-01-01".to_string());
    let good = || Some("2021-01-01 00:00:00".to_string());
    assert_eq!(
        list_records(&catalogue, bad(), good(), None, false, false).unwrap_err(),
        ListError::AfterDate
    );
    assert_eq!(
        list_records(&catalogue, good(), bad(), None, false, false).unwrap_err(),
        ListError::BeforeDate
    );
    assert_eq!(
        list_records(&catalogue, bad(), bad(), None, false, false).unwrap_err(),
        ListError::AfterDate
    );
}

#[test]
fn get_records_keeps_the_rows_that_pass_the_search() {
    let rows = || {
        vec![
            row(1, "Annual Report", "figures"),
            row(2, "Novel", "an Annual affair"),
            row(3, "", ""),
            row(4, "Annual", "Annual"),
        ]
    };
    assert_eq!(ids(&get_records(rows(), "Annual", false, true)), vec![1, 4]);
    assert_eq!(ids(&get_records(rows(), "Annual", true, false)), vec![2, 4]);
    assert_eq!(ids(&get_records(rows(), "Annual", true, true)), vec![1, 2, 4]);
    assert_eq!(ids(&get_records(rows(), "Annual", false, false)), Vec::<u64>::new());
    assert_eq!(ids(&get_records(rows(), "", false, false)), vec![1, 2, 3, 4]);
    assert_eq!(ids(&get_records(rows(), "Annual Reports", true, true)), Vec::<u64>::new());
    assert_eq!(ids(&get_records(rows(), "l R", true, true)), vec![1]);
    assert!(get_records(Vec::new(), "", true, true).is_empty());
    let kept = get_records(rows(), "Novel", false, true);
    assert_eq!(kept[0].path, "/docs/2.pdf");
    assert_eq!(kept[0].description, "an Annual affair");
}

#[test]
fn conditions_are_joined_to_the_statement() {
    let c = config("description is null", "title is null");
    let q = "select * from catalogue";
    assert_eq!(assemble_query(q, false, false, true, &c), q);
    assert_eq!(assemble_query(q, false, false, false, &c), q);
    assert_eq!(
        assemble_query(q, true, false, true, &c),
        "select * from catalogue where description is null"
    );
    assert_eq!(
        assemble_query(q, false, true, true, &c),
        "select * from catalogue where title is null"
    );
    assert_eq!(
        assemble_query(q, true, true, true, &c),
        "select * from catalogue where description is null and title is null"
    );
    let q = "select * from catalogue where created > ?";
    assert_eq!(
        assemble_query(q, true, false, false, &c),
        "select * from catalogue where created > ? and description is null"
    );
    assert_eq!(
        assemble_query(q, false, true, false, &c),
        "select * from catalogue where created > ? and title is null"
    );
    assert_eq!(
        assemble_query(q, true, true, false, &c),
        "select * from catalogue where created > ? and description is null and title is null"
    );
    assert_eq!(assemble_query("", true, false, true, &config("", "")), " where ");
}

fn templates() -> Config {
    let mut c = config("description is null", "title is null");
    c.database.all_annotation = "select * from catalogue".to_string();
    c.database.after_annotation = "select * from catalogue where created >= ?".to_string();
    c.database.before_annotation = "select * from catalogue where created <= ?".to_string();
    c.database.interval_annotation =
        "select * from catalogue where created between ? and ?".to_string();
    c
}

#[test]
fn the_bounds_that_are_set_choose_the_selection() {
    assert_eq!(select(5, 9), Selection::Interval);
    assert_eq!(select(9, 5), Selection::Interval);
    assert_eq!(select(5, 0), Selection::After);
    assert_eq!(select(5, -1), Selection::After);
    assert_eq!(select(0, 9), Selection::Before);
    assert_eq!(select(i64::MIN, 1), Selection::Before);
    assert_eq!(select(0, 0), Selection::All);
    assert_eq!(select(-3, -4), Selection::All);
}

#[test]
fn the_statement_of_a_listing_and_its_values() {
    let c = templates();
    assert_eq!(
        select_statement(0, 0, false, false, &c),
        ("select * from catalogue".to_string(), vec![])
    );
    assert_eq!(
        select_statement(0, -7, true, true, &c),
        (
            "select * from catalogue where description is null and title is null".to_string(),
            vec![]
        )
    );
    assert_eq!(
        select_statement(0, 0, false, true, &c),
        ("select * from catalogue where title is null".to_string(), vec![])
    );
    assert_eq!(
        select_statement(10, 0, false, false, &c),
        ("select * from catalogue where created >= ?".to_string(), vec![10])
    );
    assert_eq!(
        select_statement(10, 0, true, false, &c),
        (
            "select * from catalogue where created >= ? and description is null".to_string(),
            vec![10]
        )
    );
    assert_eq!(
        select_statement(0, 20, false, true, &c),
        ("select * from catalogue where created <= ? and title is null".to_string(), vec![20])
    );
    assert_eq!(
        select_statement(10, 20, true, true, &c),
        (
            "select * from catalogue where created between ? and ? and description is null and \
             title is null"
                .to_string(),
            vec![10, 20]
        )
    );
    assert_eq!(
        select_statement(20, 10, false, false, &c),
        ("select * from catalogue where created between ? and ?".to_string(), vec![20, 10])
    );
}

#[test]
fn a_text_is_searched_character_by_character() {
    assert!(text_contains("Annual Report", "Annual"));
    assert!(text_contains("Annual Report", "Report"));
    assert!(text_contains("Annual Report", "l R"));
    assert!(text_contains("Annual Report", "Annual Report"));
    assert!(text_contains("Annual Report", ""));
    assert!(text_contains("", ""));
    assert!(!text_contains("", "a"));
    assert!(!text_contains("Annual Report", "annual"));
    assert!(!text_contains("Annual Report", "Annual Reports"));
    assert!(!text_contains("Annual Report", "Reportt"));
    assert!(!text_contains("aab", "abb"));
    assert!(text_contains("aaab", "aab"));
    assert!(text_contains("r\u{e9}sum\u{e9} 2021", "sum\u{e9} "));
    assert!(text_contains("r\u{e9}sum\u{e9}", "\u{e9}"));
    assert!(!text_contains("r\u{e9}sum\u{e9}", "e"));
    assert!(!text_contains("resume", "\u{e9}"));
    assert!(text_contains("\u{65e5}\u{672c}\u{8a9e}", "\u{672c}"));
}

#[test]
fn the_characters_of_a_text() {
    assert_eq!(chars_of(""), Vec::<char>::new());
    assert_eq!(chars_of("a.pdf"), vec!['a', '.', 'p', 'd', 'f']);
    assert_eq!(chars_of("\u{e9}t\u{e9}"), vec!['\u{e9}', 't', '\u{e9}']);
}
