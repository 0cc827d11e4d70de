use catalogue::models::DataFile;
use catalogue::traverse::{
    depth_limit, describe_file, file_extension, find_files, is_catalogued_format, root_unreadable,
    WalkNode,
};

fn found(path: &str, depth: usize) -> WalkNode {
    WalkNode::Found { path: path.to_string(), depth, is_file: true }
}

fn dir(path: &str, depth: usize) -> WalkNode {
    WalkNode::Found { path: path.to_string(), depth, is_file: false }
}

fn unreadable(path: &str) -> WalkNode {
    WalkNode::Unreadable { path: path.to_string() }
}

fn ext(path: &str) -> Option<String> {
    file_extension(path)
}

#[test]
fn extension_is_what_follows_the_last_dot_of_the_file_name() {
    assert_eq!(ext("report.pdf"), Some("pdf".to_string()));
    assert_eq!(ext("/home/me/books/novel.epub"), Some("epub".to_string()));
    assert_eq!(ext("archive.tar.gz"), Some("gz".to_string()));
    assert_eq!(ext("a.b/c.docx"), Some("docx".to_string()));
    assert_eq!(ext("REPORT.PDF"), Some("PDF".to_string()));
    assert_eq!(ext("trailing."), Some(String::new()));
    assert_eq!(ext("r\u{e9}sum\u{e9}.pdf"), Some("pdf".to_string()));
    assert_eq!(ext("x.\u{e9}t\u{e9}"), Some("\u{e9}t\u{e9}".to_string()));
}

#[test]
fn both_separators_end_a_component() {
    assert_eq!(ext("C:\\docs\\report.pdf"), Some("pdf".to_string()));
    assert_eq!(ext("docs\\.pdf"), None);
    assert_eq!(ext("docs/sub\\.pdf"), None);
    assert_eq!(ext("docs\\sub/.pdf"), None);
    assert_eq!(ext("docs.d\\readme"), None);
    assert_eq!(ext("docs.d\\a.epub"), Some("epub".to_string()));
    assert_eq!(ext("a.pdf\\"), None);
    assert_eq!(ext("\\"), None);
    assert_eq!(ext("a\\b/c.d\\e.docx"), Some("docx".to_string()));
}

#[test]
fn some_paths_have_no_extension() {
    assert_eq!(ext(""), None);
    assert_eq!(ext("README"), None);
    assert_eq!(ext(".pdf"), None);
    assert_eq!(ext("/docs/.pdf"), None);
    assert_eq!(ext("/docs.d/readme"), None);
    assert_eq!(ext("/docs.pdf/"), None);
    assert_eq!(ext("/"), None);
    assert_eq!(ext("."), None);
}

#[test]
fn three_formats_are_catalogued() {
    for e in ["docx", "pdf", "epub"] {
        assert!(is_catalogued_format(&e.to_string()), "{}", e);
    }
    for e in ["", "PDF", "Pdf", "doc", "txt", "pdfx", "xpdf", "epub ", ".pdf"] {
        assert!(!is_catalogued_format(&e.to_string()), "{}", e);
    }
}

#[test]
fn depth_is_bounded_unless_recursive() {
    assert_eq!(depth_limit(false), Some(1));
    assert_eq!(depth_limit(true), None);
}

#[test]
fn only_catalogued_extensions_become_candidates() {
    let nodes = vec![
        dir("/root", 0),
        found("/root/a.pdf", 1),
        found("/root/notes.txt", 1),
        found("/root/b.docx", 1),
        found("/root/noext", 1),
        found("/root/c.epub", 1),
        found("/root/d.PDF", 1),
        found("/root/.pdf", 1),
    ];
    let files = find_files(&nodes, true);
    let got: Vec<(&str, &str)> =
        files.iter().map(|f| (f.path.as_str(), f.extension.as_str())).collect();
    assert_eq!(
        got,
        vec![("/root/a.pdf", "pdf"), ("/root/b.docx", "docx"), ("/root/c.epub", "epub")]
    );
    for f in &files {
        assert_eq!(f.hash, "");
        assert_eq!(f.size, 0);
        assert_eq!(f.created, 0);
        assert_eq!(f.title, "");
        assert!(!f.read);
    }
}

#[test]
fn subdirectories_are_left_alone_unless_recursive() {
    let nodes = vec![
        dir("/root", 0),
        found("/root/a.pdf", 1),
        dir("/root/sub", 1),
        found("/root/sub/b.pdf", 2),
        dir("/root/sub/deeper", 2),
        found("/root/sub/deeper/c.epub", 3),
    ];
    let shallow = find_files(&nodes, false);
    assert_eq!(shallow.len(), 1);
    assert_eq!(shallow[0].path, "/root/a.pdf");
    let deep = find_files(&nodes, true);
    let got: Vec<&str> = deep.iter().map(|f| f.path.as_str()).collect();
    assert_eq!(got, vec!["/root/a.pdf", "/root/sub/b.pdf", "/root/sub/deeper/c.epub"]);
}

#[test]
fn a_directory_named_like_a_document_is_no_candidate() {
    let nodes = vec![
        dir("top", 0),
        dir("top/x.pdf", 1),
        found("top/a.pdf", 1),
        found("top/x.pdf/inner.epub", 2),
        dir("top/y.docx", 1),
    ];
    let shallow = find_files(&nodes, false);
    let got: Vec<&str> = shallow.iter().map(|f| f.path.as_str()).collect();
    assert_eq!(got, vec!["top/a.pdf"]);
    let deep = find_files(&nodes, true);
    let got: Vec<&str> = deep.iter().map(|f| f.path.as_str()).collect();
    assert_eq!(got, vec!["top/a.pdf", "top/x.pdf/inner.epub"]);
    assert!(find_files(&vec![dir("library.epub", 0)], true).is_empty());
}

#[test]
fn a_recursive_walk_gives_each_catalogued_file_once() {
    let nodes = vec![
        dir("t", 0),
        found("t/1.pdf", 1),
        dir("t/a", 1),
        found("t/a/2.docx", 2),
        found("t/a/2.doc", 2),
        dir("t/a/b", 2),
        found("t/a/b/3.epub", 3),
        found("t/a/b/README", 3),
        dir("t/a/b/c.pdf", 3),
        found("t/a/b/c.pdf/4.pdf", 4),
        unreadable("t/a/b/locked"),
        found("t/5.PDF", 1),
    ];
    let mut got: Vec<String> = find_files(&nodes, true).into_iter().map(|f| f.path).collect();
    got.sort();
    assert_eq!(got, vec!["t/1.pdf", "t/a/2.docx", "t/a/b/3.epub", "t/a/b/c.pdf/4.pdf"]);
}

#[test]
fn an_unreadable_root_is_told_from_other_unreadable_nodes() {
    let nodes = vec![dir("top", 0), unreadable("top/locked"), found("top/a.pdf", 1)];
    assert!(!root_unreadable("top", &nodes));
    assert!(root_unreadable("top/locked", &nodes));
    assert!(root_unreadable("top", &vec![unreadable("top")]));
    assert!(!root_unreadable("top", &vec![unreadable("top/")]));
    assert!(!root_unreadable("top", &vec![found("top", 0)]));
    assert!(!root_unreadable("top", &Vec::new()));
    assert!(root_unreadable("", &vec![found("a.pdf", 0), unreadable("")]));
}

#[test]
fn a_root_that_is_a_file_is_a_candidate() {
    let files = find_files(&vec![found("book.epub", 0)], false);
    assert_eq!(files.len(), 1);
    assert_eq!(files[0].extension, "epub");
}

#[test]
fn unreadable_nodes_are_skipped_and_the_walk_goes_on() {
    let nodes = vec![
        unreadable("/root/locked.pdf"),
        found("/root/a.pdf", 1),
        unreadable(""),
        found("/root/b.pdf", 1),
    ];
    let files = find_files(&nodes, false);
    let got: Vec<&str> = files.iter().map(|f| f.path.as_str()).collect();
    assert_eq!(got, vec!["/root/a.pdf", "/root/b.pdf"]);
    assert!(find_files(&Vec::new(), true).is_empty());
}

#[test]
fn describe_file_fills_in_what_was_read() {
    let mut candidate = DataFile::new();
    candidate.path = "/root/a.pdf".to_string();
    candidate.extension = "pdf".to_string();
    let digest = catalogue::fingerprint::sha256_digest(b"abc");
    let file = describe_file(candidate, 3, Some(1_600_000_000), &digest).unwrap();
    assert_eq!(file.path, "/root/a.pdf");
    assert_eq!(file.extension, "pdf");
    assert_eq!(file.size, 3);
    assert_eq!(file.created, 1_600_000_000);
    assert_eq!(file.hash, "BA7816BF8F01CFEA414140DE5DAE2223B00361A396177A9CB410FF61F20015AD");
    assert_eq!(file.title, "");
    assert!(!file.read);
}

#[test]
fn describe_file_without_a_creation_time_or_a_whole_digest() {
    let file = describe_file(DataFile::new(), 5, None, &[0xAB; 32]).unwrap();
    assert_eq!(file.created, 0);
    assert_eq!(file.size, 5);
    assert_eq!(file.hash, "AB".repeat(32));
    assert!(describe_file(DataFile::new(), 5, None, &[0xAB; 20]).is_none());
    assert!(describe_file(DataFile::new(), 5, None, &[]).is_none());
}
