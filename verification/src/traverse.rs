//! Choosing the files of a directory walk that belong in the catalogue.
//!
//! The walk itself is done elsewhere and handed in as a list of nodes. A node
//! becomes a candidate when it could be read, is a regular file, lies within
//! the depth bound and has one of the catalogued extensions.

use vstd::prelude::*;
use vstd::string::*;
use crate::fingerprint::{digest_text, hex_upper, DIGEST_LEN};
use crate::models::{DataFile, DataFileView};

verus! {

/// The greatest position at which `s` holds `c`, or -1 where it holds none.
pub open spec fn last_position(s: Seq<char>, c: char) -> int
    decreases s.len(),
{
    if s.len() == 0 {
        -1
    } else if s.last() == c {
        s.len() - 1
    } else {
        last_position(s.drop_last(), c)
    }
}

/// `last_position` is the one position that holds `c` with no `c` behind it.
pub proof fn last_position_is_last(s: Seq<char>, c: char)
    ensures
        -1 <= last_position(s, c) < s.len(),
        last_position(s, c) >= 0 ==> s[last_position(s, c)] == c,
        forall|i: int| last_position(s, c) < i < s.len() ==> s[i] != c,
    decreases s.len(),
{
    if s.len() > 0 && s.last() != c {
        last_position_is_last(s.drop_last(), c);
        assert forall|i: int| last_position(s, c) < i < s.len() implies s[i] != c by {
            if i < s.len() - 1 {
                assert(s.drop_last()[i] == s[i]);
            }
        }
    }
}

/// A position that holds `c` with no `c` behind it is `last_position`.
pub proof fn last_position_found(s: Seq<char>, c: char, k: int)
    requires
        -1 <= k < s.len(),
        k >= 0 ==> s[k] == c,
        forall|i: int| k < i < s.len() ==> s[i] != c,
    ensures
        last_position(s, c) == k,
{
    last_position_is_last(s, c);
}

/// Whether a character separates the components of a path. Both `/` and
/// `\` do, on every machine.
pub open spec fn is_separator(c: char) -> bool {
    c == '/' || c == '\\'
}

/// The greatest position at which `path` holds a separator, or -1 where it
/// holds none.
pub open spec fn last_separator(path: Seq<char>) -> int {
    if last_position(path, '/') >= last_position(path, '\\') {
        last_position(path, '/')
    } else {
        last_position(path, '\\')
    }
}

/// `last_separator` is the one position that holds a separator with no
/// separator behind it.
pub proof fn last_separator_is_last(path: Seq<char>)
    ensures
        -1 <= last_separator(path) < path.len(),
        last_separator(path) >= 0 ==> is_separator(path[last_separator(path)]),
        forall|i: int| last_separator(path) < i < path.len() ==> !is_separator(#[trigger] path[i]),
{
    last_position_is_last(path, '/');
    last_position_is_last(path, '\\');
}

/// The extension of a path: what follows the last `.` of its final
/// component, where that component has a `.` that is not its first
/// character. The final component is what follows the last separator.
pub open spec fn extension_of(path: Seq<char>) -> Option<Seq<char>> {
    let dot = last_position(path, '.');
    if dot > last_separator(path) + 1 {
        Some(path.subrange(dot + 1, path.len() as int))
    } else {
        None
    }
}

/// The extension of `path`, as `extension_of` defines it.
pub fn file_extension(path: &str) -> (res: Option<String>)
    ensures
        res.deep_view() == extension_of(path@),
{
    let n = path.unicode_len();
    let mut i: usize = n;
    while i > 0
        invariant
            i <= n,
            n == path@.len(),
            forall|j: int| i <= j < n ==> path@[j] != '.' && path@[j] != '/' && path@[j] != '\\',
        decreases i,
    {
        proof {
            last_position_is_last(path@, '.');
            last_position_is_last(path@, '/');
            last_position_is_last(path@, '\\');
        }
        let c = path.get_char(i - 1);
        if c == '/' || c == '\\' {
            proof {
                last_position_found(path@, c, i - 1);
            }
            return None;
        }
        if c == '.' {
            proof {
                last_position_found(path@, '.', i - 1);
            }
            if i - 1 == 0 {
                return None;
            }
            let before = path.get_char(i - 2);
            if before == '/' || before == '\\' {
                proof {
                    last_position_found(path@, before, i - 2);
                }
                return None;
            }
            return Some(path.substring_char(i, n).to_owned());
        }
        i -= 1;
    }
    proof {
        last_position_found(path@, '.', -1);
        last_position_found(path@, '/', -1);
        last_position_found(path@, '\\', -1);
    }
    None
}

/// The extensions that are catalogued: `docx`, `pdf` and `epub`.
pub open spec fn formats() -> Seq<Seq<char>> {
    seq![seq!['d', 'o', 'c', 'x'], seq!['p', 'd', 'f'], seq!['e', 'p', 'u', 'b']]
}

/// Whether an extension is one of the catalogued ones, letter for letter.
pub open spec fn allowed_format(extension: Seq<char>) -> bool {
    formats().contains(extension)
}

/// Whether `extension` is one of the catalogued ones.
pub fn is_catalogued_format(extension: &String) -> (res: bool)
    ensures
        res == allowed_format(extension@),
{
    proof {
        reveal_strlit("docx");
        reveal_strlit("pdf");
        reveal_strlit("epub");
    }
    let docx = "docx".to_owned();
    let pdf = "pdf".to_owned();
    let epub = "epub".to_owned();
    assert(docx@ =~= formats()[0]);
    assert(pdf@ =~= formats()[1]);
    assert(epub@ =~= formats()[2]);
    *extension == docx || *extension == pdf || *extension == epub
}

/// One step of a directory walk.
#[derive(Debug)]
pub enum WalkNode {
    /// An entry that the walk reached, `depth` levels below the root (the
    /// root itself is at depth 0). `is_file` tells a regular file from a
    /// directory or anything else.
    Found { path: String, depth: usize, is_file: bool },
    /// An entry that could not be read.
    Unreadable { path: String },
}

/// What a `WalkNode` holds, with each path as a sequence of characters.
pub enum WalkNodeView {
    Found { path: Seq<char>, depth: usize, is_file: bool },
    Unreadable { path: Seq<char> },
}

impl View for WalkNode {
    type V = WalkNodeView;

    open spec fn view(&self) -> WalkNodeView {
        match self {
            WalkNode::Found { path, depth, is_file } => WalkNodeView::Found {
                path: path@,
                depth: *depth,
                is_file: *is_file,
            },
            WalkNode::Unreadable { path } => WalkNodeView::Unreadable { path: path@ },
        }
    }
}

impl DeepView for WalkNode {
    type V = WalkNodeView;

    open spec fn deep_view(&self) -> WalkNodeView {
        self@
    }
}

/// How deep a walk may go: without `recursive` only the root and its direct
/// children are looked at; with it there is no bound.
pub open spec fn depth_bound(recursive: bool) -> Option<usize> {
    if recursive {
        None
    } else {
        Some(1usize)
    }
}

/// The depth bound to walk with.
pub fn depth_limit(recursive: bool) -> (res: Option<usize>)
    ensures
        res == depth_bound(recursive),
{
    if recursive {
        None
    } else {
        Some(1)
    }
}

/// Whether a node is a candidate for the catalogue: a regular file that
/// could be read, within the depth bound, with a catalogued extension.
pub open spec fn is_candidate(node: WalkNodeView, recursive: bool) -> bool {
    &&& node matches WalkNodeView::Found { path, depth, is_file }
    &&& is_file
    &&& depth_bound(recursive) matches Some(bound) ==> depth <= bound
    &&& extension_of(path) matches Some(extension)
    &&& allowed_format(extension)
}

/// The descriptor of a candidate before anything was read from it: its path
/// and extension, everything else blank.
pub open spec fn candidate_of(path: Seq<char>) -> DataFileView {
    DataFileView { path, extension: extension_of(path)->0, ..DataFile::blank() }
}

/// The candidates among `nodes`, in the order of the walk.
pub open spec fn candidates(nodes: Seq<WalkNodeView>, recursive: bool) -> Seq<DataFileView>
    decreases nodes.len(),
{
    if nodes.len() == 0 {
        Seq::empty()
    } else if is_candidate(nodes.last(), recursive) {
        candidates(nodes.drop_last(), recursive).push(candidate_of(nodes.last()->Found_path))
    } else {
        candidates(nodes.drop_last(), recursive)
    }
}

/// Picks the candidates among the nodes of a walk, in the order of the walk.
/// Unreadable nodes, directories and whatever else is no regular file, nodes
/// beyond the depth bound and nodes without a catalogued extension are
/// passed over.
pub fn find_files(nodes: &Vec<WalkNode>, recursive: bool) -> (files: Vec<DataFile>)
    ensures
        files.deep_view() == candidates(nodes.deep_view(), recursive),
{
    let mut files: Vec<DataFile> = Vec::new();
    let mut i: usize = 0;
    assert(nodes.deep_view().take(0) =~= Seq::empty());
    assert(files.deep_view() =~= Seq::empty());
    while i < nodes.len()
        invariant
            i <= nodes.len(),
            files.deep_view() == candidates(nodes.deep_view().take(i as int), recursive),
        decreases nodes.len() - i,
    {
        let ghost before = files.deep_view();
        proof {
            let prefix = nodes.deep_view().take(i + 1);
            assert(prefix.drop_last() =~= nodes.deep_view().take(i as int));
            assert(prefix.last() == nodes[i as int]@);
        }
        match &nodes[i] {
            WalkNode::Found { path, depth, is_file } => {
                if *is_file && (recursive || *depth <= 1) {
                    match file_extension(path.as_str()) {
                        Some(extension) => {
                            if is_catalogued_format(&extension) {
                                let mut file = DataFile::new();
                                file.path = path.clone();
                                file.extension = extension;
                                assert(file@ == candidate_of(path@));
                                files.push(file);
                                assert(files.deep_view() =~= before.push(candidate_of(path@)));
                            }
                        },
                        None => {},
                    }
                }
            },
            WalkNode::Unreadable { .. } => {},
        }
        i += 1;
    }
    assert(nodes.deep_view().take(i as int) =~= nodes.deep_view());
    files
}

/// Every candidate has a catalogued extension, and is blank but for its
/// path and that extension.
pub proof fn candidates_have_catalogued_formats(nodes: Seq<WalkNodeView>, recursive: bool, j: int)
    requires
        0 <= j < candidates(nodes, recursive).len(),
    ensures
        allowed_format(candidates(nodes, recursive)[j].extension),
        candidates(nodes, recursive)[j] == candidate_of(candidates(nodes, recursive)[j].path),
    decreases nodes.len(),
{
    if nodes.len() > 0 {
        if is_candidate(nodes.last(), recursive) {
            if j < candidates(nodes.drop_last(), recursive).len() {
                candidates_have_catalogued_formats(nodes.drop_last(), recursive, j);
            }
        } else {
            candidates_have_catalogued_formats(nodes.drop_last(), recursive, j);
        }
    }
}

/// A node that is no candidate has no part in the result, wherever it
/// stands in the walk.
pub proof fn non_candidates_are_passed_over(
    nodes: Seq<WalkNodeView>,
    k: int,
    node: WalkNodeView,
    recursive: bool,
)
    requires
        0 <= k <= nodes.len(),
        !is_candidate(node, recursive),
    ensures
        candidates(nodes.insert(k, node), recursive) == candidates(nodes, recursive),
    decreases nodes.len(),
{
    let with = nodes.insert(k, node);
    if k == nodes.len() {
        assert(with.drop_last() =~= nodes);
    } else {
        assert(with.drop_last() =~= nodes.drop_last().insert(k, node));
        assert(with.last() == nodes.last());
        non_candidates_are_passed_over(nodes.drop_last(), k, node, recursive);
    }
}

/// A file whose extension is not catalogued is never a candidate, whatever
/// its depth and whether or not the walk is recursive.
pub proof fn other_extensions_are_passed_over(
    nodes: Seq<WalkNodeView>,
    k: int,
    path: Seq<char>,
    depth: usize,
    is_file: bool,
    recursive: bool,
)
    requires
        0 <= k <= nodes.len(),
        extension_of(path) matches Some(extension) ==> !allowed_format(extension),
    ensures
        candidates(nodes.insert(k, WalkNodeView::Found { path, depth, is_file }), recursive)
            == candidates(nodes, recursive),
{
    non_candidates_are_passed_over(
        nodes,
        k,
        WalkNodeView::Found { path, depth, is_file },
        recursive,
    );
}

/// A directory, or anything else that is no regular file, is never a
/// candidate, whatever its name.
pub proof fn directories_are_passed_over(
    nodes: Seq<WalkNodeView>,
    k: int,
    path: Seq<char>,
    depth: usize,
    recursive: bool,
)
    requires
        0 <= k <= nodes.len(),
    ensures
        candidates(nodes.insert(k, WalkNodeView::Found { path, depth, is_file: false }), recursive)
            == candidates(nodes, recursive),
{
    non_candidates_are_passed_over(
        nodes,
        k,
        WalkNodeView::Found { path, depth, is_file: false },
        recursive,
    );
}

/// Without `recursive`, a node more than one level below the root is never
/// a candidate, whatever its extension.
pub proof fn deep_nodes_are_passed_over(
    nodes: Seq<WalkNodeView>,
    k: int,
    path: Seq<char>,
    depth: usize,
    is_file: bool,
)
    requires
        0 <= k <= nodes.len(),
        depth > 1,
    ensures
        candidates(nodes.insert(k, WalkNodeView::Found { path, depth, is_file }), false)
            == candidates(nodes, false),
{
    non_candidates_are_passed_over(nodes, k, WalkNodeView::Found { path, depth, is_file }, false);
}

/// Every candidate is the descriptor of a node that is a candidate. The
/// position of that node is returned.
pub proof fn candidates_come_from_nodes(nodes: Seq<WalkNodeView>, recursive: bool, j: int) -> (k:
    int)
    requires
        0 <= j < candidates(nodes, recursive).len(),
    ensures
        0 <= k < nodes.len(),
        is_candidate(nodes[k], recursive),
        candidates(nodes, recursive)[j] == candidate_of(nodes[k]->Found_path),
    decreases nodes.len(),
{
    let head = nodes.drop_last();
    if j < candidates(head, recursive).len() {
        let k = candidates_come_from_nodes(head, recursive, j);
        assert(head[k] == nodes[k]);
        k
    } else {
        nodes.len() - 1
    }
}

/// Every node that is a candidate has its descriptor among the candidates.
pub proof fn candidate_nodes_are_found(nodes: Seq<WalkNodeView>, recursive: bool, k: int)
    requires
        0 <= k < nodes.len(),
        is_candidate(nodes[k], recursive),
    ensures
        candidates(nodes, recursive).contains(candidate_of(nodes[k]->Found_path)),
    decreases nodes.len(),
{
    let head = nodes.drop_last();
    let all = candidates(nodes, recursive);
    let wanted = candidate_of(nodes[k]->Found_path);
    if k == nodes.len() - 1 {
        assert(all[all.len() - 1] == wanted);
    } else {
        assert(head[k] == nodes[k]);
        candidate_nodes_are_found(head, recursive, k);
        let j = choose|j: int|
            0 <= j < candidates(head, recursive).len() && candidates(head, recursive)[j] == wanted;
        assert(all[j] == wanted);
    }
}

/// The path of a node.
pub open spec fn path_of(node: WalkNodeView) -> Seq<char> {
    match node {
        WalkNodeView::Found { path, .. } => path,
        WalkNodeView::Unreadable { path } => path,
    }
}

/// A walk that reaches no path twice gives no candidate twice.
pub proof fn distinct_nodes_give_distinct_candidates(
    nodes: Seq<WalkNodeView>,
    recursive: bool,
    a: int,
    b: int,
)
    requires
        forall|i: int, j: int|
            0 <= i < j < nodes.len() ==> path_of(#[trigger] nodes[i]) != path_of(#[trigger] nodes[j]),
        0 <= a < b < candidates(nodes, recursive).len(),
    ensures
        candidates(nodes, recursive)[a].path != candidates(nodes, recursive)[b].path,
    decreases nodes.len(),
{
    let head = nodes.drop_last();
    assert forall|i: int, j: int| 0 <= i < j < head.len() implies path_of(#[trigger] head[i])
        != path_of(#[trigger] head[j]) by {
        assert(head[i] == nodes[i]);
        assert(head[j] == nodes[j]);
    }
    if b < candidates(head, recursive).len() {
        distinct_nodes_give_distinct_candidates(head, recursive, a, b);
    } else {
        let k = candidates_come_from_nodes(head, recursive, a);
        assert(head[k] == nodes[k]);
        assert(path_of(nodes[k]) != path_of(nodes[nodes.len() - 1]));
    }
}

/// Whether the walk could not read its root: a scan of such a root is not
/// to go on.
pub fn root_unreadable(root: &str, nodes: &Vec<WalkNode>) -> (res: bool)
    ensures
        res == nodes.deep_view().contains(WalkNodeView::Unreadable { path: root@ }),
{
    let wanted = root.to_owned();
    let mut i: usize = 0;
    while i < nodes.len()
        invariant
            i <= nodes.len(),
            wanted@ == root@,
            forall|j: int|
                0 <= j < i ==> nodes.deep_view()[j] != (WalkNodeView::Unreadable { path: root@ }),
        decreases nodes.len() - i,
    {
        match &nodes[i] {
            WalkNode::Unreadable { path } => {
                if *path == wanted {
                    assert(nodes.deep_view()[i as int] == (WalkNodeView::Unreadable { path: root@ }));
                    return true;
                }
            },
            WalkNode::Found { .. } => {},
        }
        i += 1;
    }
    false
}

/// The descriptor `candidate` with what was read from the file filled in.
pub open spec fn described(
    candidate: DataFileView,
    size: u64,
    created: Option<u64>,
    digest: Seq<u8>,
) -> DataFileView {
    DataFileView {
        size,
        created: match created {
            Some(seconds) => seconds,
            None => 0,
        },
        hash: hex_upper(digest),
        ..candidate
    }
}

/// Fills in what was read from a candidate: its size, its creation time in
/// seconds since the epoch (0 where the file system has none) and the
/// fingerprint of its digest. `None` where `digest` is not 32 bytes long.
pub fn describe_file(candidate: DataFile, size: u64, created: Option<u64>, digest: &[u8]) -> (res:
    Option<DataFile>)
    ensures
        digest@.len() == DIGEST_LEN ==> res.deep_view() == Some(
            described(candidate@, size, created, digest@),
        ),
        digest@.len() != DIGEST_LEN ==> res is None,
{
    match digest_text(digest) {
        Some(hash) => {
            let mut file = candidate;
            file.size = size;
            file.created = match created {
                Some(seconds) => seconds,
                None => 0,
            };
            file.hash = hash;
            Some(file)
        },
        None => None,
    }
}

} // verus!
