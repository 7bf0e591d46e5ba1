//! The file tree: a flat listing of paths becomes nested directories.
//!
//! The tree keeps the order in which names were first met; nothing is
//! sorted. A directory is looked up among its siblings by a linear scan.

use vstd::prelude::*;
use vstd::string::StringExecFns;

use crate::delimiter::PARAM_INTERVAL;
use crate::err::{CustomerGitError, GitErrorKind};
use crate::structs::{lemma_children_view, RepoFileInfo, RepoFileInfoView};
use crate::text::{
    join_first, joined, matches_at, occurs_at, split, split_on, split_text, to_chars, to_text,
    to_texts, trim, trimmed, views,
};

verus! {

/// What a listing says of one object, apart from its path.
pub struct ObjectInfo {
    pub mode: Seq<char>,
    pub kind: Seq<char>,
    pub hash: Seq<char>,
    pub size: Seq<char>,
}

/// Whether `mode` is that of a directory object.
pub open spec fn is_directory_mode(mode: Seq<char>) -> bool {
    occurs_at(mode, "040000"@, 0)
}

/// Whether the node at index `k` is a directory called `name`.
pub open spec fn is_directory_at(nodes: Seq<RepoFileInfoView>, name: Seq<char>, k: int) -> bool {
    0 <= k < nodes.len() && nodes[k].is_dir && nodes[k].name == name
}

/// Whether a directory called `name` is among `nodes`.
pub open spec fn has_directory(nodes: Seq<RepoFileInfoView>, name: Seq<char>) -> bool {
    exists|k: int| is_directory_at(nodes, name, k)
}

/// Whether `k` is the index of the first directory called `name`.
pub open spec fn is_first_directory(nodes: Seq<RepoFileInfoView>, name: Seq<char>, k: int) -> bool {
    is_directory_at(nodes, name, k) && forall|j: int|
        0 <= j < k ==> !is_directory_at(nodes, name, j)
}

/// The index of the first directory called `name`, where there is one.
pub open spec fn first_directory(nodes: Seq<RepoFileInfoView>, name: Seq<char>) -> int {
    choose|k: int| is_first_directory(nodes, name, k)
}

/// The node that stands for segment `i` of a path of which no segment from
/// `i` on is in the tree yet. The last segment carries what the listing says
/// of the object; the segments before it are directories with empty object
/// fields, each holding the next.
pub open spec fn new_node(segments: Seq<Seq<char>>, i: int, info: ObjectInfo) -> RepoFileInfoView
    decreases segments.len() - i,
{
    let is_last = i >= segments.len() - 1;
    RepoFileInfoView {
        name: segments[i],
        dir: if i != 0 {
            joined(segments.take(i), "/"@)
        } else {
            "./"@
        },
        object_mode: if is_last {
            info.mode
        } else {
            Seq::empty()
        },
        object_type: if is_last {
            info.kind
        } else {
            Seq::empty()
        },
        object_name: if is_last {
            info.hash
        } else {
            Seq::empty()
        },
        object_size: if is_last {
            info.size
        } else {
            Seq::empty()
        },
        is_dir: is_directory_mode(info.mode) || !is_last,
        children: if is_last {
            Seq::empty()
        } else {
            seq![new_node(segments, i + 1, info)]
        },
    }
}

/// `nodes` after the path made of the segments from `i` on has been put in.
/// At each segment the first directory of that name is entered; where there
/// is none, a new node is added behind the others.
pub open spec fn inserted(
    nodes: Seq<RepoFileInfoView>,
    segments: Seq<Seq<char>>,
    i: int,
    info: ObjectInfo,
) -> Seq<RepoFileInfoView>
    decreases segments.len() - i,
{
    if i >= segments.len() {
        nodes
    } else if has_directory(nodes, segments[i]) {
        let k = first_directory(nodes, segments[i]);
        nodes.update(
            k,
            RepoFileInfoView {
                children: inserted(nodes[k].children, segments, i + 1, info),
                ..nodes[k]
            },
        )
    } else {
        nodes.push(new_node(segments, i, info))
    }
}

/// The node of a path of one segment at the top of the tree.
pub open spec fn top_level_node(path: Seq<char>, info: ObjectInfo) -> RepoFileInfoView {
    RepoFileInfoView {
        name: path,
        dir: "./"@,
        object_mode: info.mode,
        object_type: info.kind,
        object_name: info.hash,
        object_size: info.size,
        is_dir: is_directory_mode(info.mode),
        children: Seq::empty(),
    }
}

/// Whether a line of a listing can be read: it is empty, or it holds five
/// fields with the field separator between them.
pub open spec fn is_listing_line(line: Seq<char>) -> bool {
    line.len() == 0 || split_on(line, PARAM_INTERVAL@).len() == 5
}

/// `nodes` after one line of a listing, or nothing where the line cannot be
/// read. A line holds mode, type, size, hash and path, in this order, with
/// the field separator between them. An empty line changes nothing; a line
/// that is not empty and has not five fields cannot be read. A path of one
/// segment is added at the top without a search.
pub open spec fn with_line(nodes: Seq<RepoFileInfoView>, line: Seq<char>) -> Option<
    Seq<RepoFileInfoView>,
> {
    let fields = split_on(line, PARAM_INTERVAL@);
    if line.len() == 0 {
        Some(nodes)
    } else if fields.len() == 5 {
        let info = ObjectInfo {
            mode: fields[0],
            kind: fields[1],
            hash: fields[3],
            size: trimmed(fields[2]),
        };
        let segments = split_on(fields[4], "/"@);
        if segments.len() > 1 {
            Some(inserted(nodes, segments, 0, info))
        } else {
            Some(nodes.push(top_level_node(fields[4], info)))
        }
    } else {
        None
    }
}

/// The tree of a listing, or nothing where one of its lines cannot be
/// read: no tree is given for a part of a listing.
pub open spec fn listing_of(lines: Seq<Seq<char>>) -> Option<Seq<RepoFileInfoView>>
    decreases lines.len(),
{
    if lines.len() == 0 {
        Some(Seq::empty())
    } else {
        match listing_of(lines.drop_last()) {
            Some(nodes) => with_line(nodes, lines.last()),
            None => None,
        }
    }
}

/// A listing gives a tree where every line of it can be read, and there
/// only.
pub proof fn lemma_listing_is_read(lines: Seq<Seq<char>>)
    ensures
        listing_of(lines) is Some <==> forall|i: int|
            0 <= i < lines.len() ==> is_listing_line(#[trigger] lines[i]),
    decreases lines.len(),
{
    if lines.len() > 0 {
        let front = lines.drop_last();
        lemma_listing_is_read(front);
        if listing_of(lines) is Some {
            assert forall|i: int| 0 <= i < lines.len() implies is_listing_line(
                #[trigger] lines[i],
            ) by {
                if i < front.len() {
                    assert(front[i] == lines[i]);
                }
            }
        } else if listing_of(front) is Some {
            assert(!is_listing_line(lines[lines.len() - 1]));
        } else {
            let i = choose|i: int| 0 <= i < front.len() && !is_listing_line(#[trigger] front[i]);
            assert(!is_listing_line(lines[i]));
        }
    }
}

/// Where the first lines give no tree, all of them give none.
pub proof fn lemma_listing_fails(lines: Seq<Seq<char>>, n: int)
    requires
        0 <= n <= lines.len(),
        listing_of(lines.take(n)) is None,
    ensures
        listing_of(lines) is None,
    decreases lines.len() - n,
{
    if n == lines.len() {
        assert(lines.take(n) =~= lines);
    } else {
        assert(lines.take(n + 1).drop_last() =~= lines.take(n));
        lemma_listing_fails(lines, n + 1);
    }
}

/// Whether in each node of the trees only a directory has entries.
pub open spec fn well_formed(nodes: Seq<RepoFileInfoView>) -> bool
    decreases nodes,
{
    forall|k: int|
        0 <= k < nodes.len() ==> {
            &&& (#[trigger] nodes[k]).children.len() > 0 ==> nodes[k].is_dir
            &&& well_formed(nodes[k].children)
        }
}

/// A first directory is the first directory.
pub proof fn lemma_first_directory(nodes: Seq<RepoFileInfoView>, name: Seq<char>, k: int)
    requires
        is_first_directory(nodes, name, k),
    ensures
        has_directory(nodes, name),
        first_directory(nodes, name) == k,
{
}

/// Where a directory called `name` is among `nodes`, one of them is the
/// first.
pub proof fn lemma_has_first_directory(nodes: Seq<RepoFileInfoView>, name: Seq<char>)
    requires
        has_directory(nodes, name),
    ensures
        is_first_directory(nodes, name, first_directory(nodes, name)),
{
    let k = choose|k: int| is_directory_at(nodes, name, k);
    lemma_first_directory_below(nodes, name, k);
}

proof fn lemma_first_directory_below(nodes: Seq<RepoFileInfoView>, name: Seq<char>, k: int)
    requires
        is_directory_at(nodes, name, k),
    ensures
        exists|j: int| is_first_directory(nodes, name, j),
    decreases k,
{
    if forall|j: int| 0 <= j < k ==> !is_directory_at(nodes, name, j) {
        assert(is_first_directory(nodes, name, k));
    } else {
        let j = choose|j: int| 0 <= j < k && is_directory_at(nodes, name, j);
        lemma_first_directory_below(nodes, name, j);
    }
}

/// A chain of new nodes is well formed.
pub proof fn lemma_new_node_well_formed(segments: Seq<Seq<char>>, i: int, info: ObjectInfo)
    requires
        0 <= i < segments.len(),
    ensures
        well_formed(seq![new_node(segments, i, info)]),
    decreases segments.len() - i,
{
    let node = new_node(segments, i, info);
    if i < segments.len() - 1 {
        lemma_new_node_well_formed(segments, i + 1, info);
    }
    assert forall|k: int| 0 <= k < 1 implies {
        &&& (#[trigger] seq![node][k]).children.len() > 0 ==> seq![node][k].is_dir
        &&& well_formed(seq![node][k].children)
    } by {}
}

/// Insertion keeps a well-formed tree well formed: only directories get
/// entries.
pub proof fn lemma_inserted_well_formed(
    nodes: Seq<RepoFileInfoView>,
    segments: Seq<Seq<char>>,
    i: int,
    info: ObjectInfo,
)
    requires
        well_formed(nodes),
        0 <= i,
    ensures
        well_formed(inserted(nodes, segments, i, info)),
    decreases segments.len() - i,
{
    let after = inserted(nodes, segments, i, info);
    if i < segments.len() && has_directory(nodes, segments[i]) {
        let k = first_directory(nodes, segments[i]);
        lemma_has_first_directory(nodes, segments[i]);
        lemma_inserted_well_formed(nodes[k].children, segments, i + 1, info);
        assert forall|j: int| 0 <= j < after.len() implies {
            &&& (#[trigger] after[j]).children.len() > 0 ==> after[j].is_dir
            &&& well_formed(after[j].children)
        } by {}
    } else if i < segments.len() {
        lemma_new_node_well_formed(segments, i, info);
        let node = new_node(segments, i, info);
        assert(seq![node][0] == node);
        assert forall|j: int| 0 <= j < after.len() implies {
            &&& (#[trigger] after[j]).children.len() > 0 ==> after[j].is_dir
            &&& well_formed(after[j].children)
        } by {}
    }
}

/// Insertion keeps every node where it stands, and adds at most one node
/// behind them: the tree is in the order in which names were first met.
pub proof fn lemma_inserted_keeps_order(
    nodes: Seq<RepoFileInfoView>,
    segments: Seq<Seq<char>>,
    i: int,
    info: ObjectInfo,
)
    requires
        0 <= i,
    ensures
        nodes.len() <= inserted(nodes, segments, i, info).len() <= nodes.len() + 1,
        forall|k: int|
            0 <= k < nodes.len() ==> {
                let before = #[trigger] nodes[k];
                let after = inserted(nodes, segments, i, info)[k];
                after == (RepoFileInfoView { children: after.children, ..before })
            },
{
    if i < segments.len() && has_directory(nodes, segments[i]) {
        lemma_has_first_directory(nodes, segments[i]);
    }
}

/// Whether the path made of the segments from `i` on leads to a node of
/// the trees: each segment but the last names a directory, and the last
/// names a node in the directory before it.
pub open spec fn has_path(nodes: Seq<RepoFileInfoView>, segments: Seq<Seq<char>>, i: int) -> bool
    decreases segments.len() - i,
{
    if i >= segments.len() {
        true
    } else {
        exists|k: int|
            0 <= k < nodes.len() && (#[trigger] nodes[k]).name == segments[i] && (i
                == segments.len() - 1 || (nodes[k].is_dir && has_path(
                nodes[k].children,
                segments,
                i + 1,
            )))
    }
}

/// A chain of new nodes holds the path that it was made for.
pub proof fn lemma_new_node_has_path(segments: Seq<Seq<char>>, i: int, info: ObjectInfo)
    requires
        0 <= i < segments.len(),
    ensures
        has_path(seq![new_node(segments, i, info)], segments, i),
    decreases segments.len() - i,
{
    let node = new_node(segments, i, info);
    if i < segments.len() - 1 {
        lemma_new_node_has_path(segments, i + 1, info);
    }
    assert(seq![node][0] == node);
}

/// After a path was put into the tree, the tree holds the path.
pub proof fn lemma_inserted_has_path(
    nodes: Seq<RepoFileInfoView>,
    segments: Seq<Seq<char>>,
    i: int,
    info: ObjectInfo,
)
    requires
        0 <= i,
    ensures
        has_path(inserted(nodes, segments, i, info), segments, i),
    decreases segments.len() - i,
{
    let after = inserted(nodes, segments, i, info);
    if i < segments.len() && has_directory(nodes, segments[i]) {
        let k = first_directory(nodes, segments[i]);
        lemma_has_first_directory(nodes, segments[i]);
        lemma_inserted_has_path(nodes[k].children, segments, i + 1, info);
        assert(after[k].name == segments[i]);
    } else if i < segments.len() {
        lemma_new_node_has_path(segments, i, info);
        let node = new_node(segments, i, info);
        assert(after[nodes.len() as int] == node);
    }
}

/// A path that the tree holds is held by the tree after another path was
/// put in: nothing is lost.
pub proof fn lemma_inserted_keeps_paths(
    nodes: Seq<RepoFileInfoView>,
    segments: Seq<Seq<char>>,
    i: int,
    info: ObjectInfo,
    held: Seq<Seq<char>>,
    j: int,
)
    requires
        0 <= i,
        0 <= j,
        has_path(nodes, held, j),
    ensures
        has_path(inserted(nodes, segments, i, info), held, j),
    decreases held.len() - j,
{
    lemma_inserted_keeps_order(nodes, segments, i, info);
    if j < held.len() {
        let k = choose|k: int|
            0 <= k < nodes.len() && (#[trigger] nodes[k]).name == held[j] && (j == held.len() - 1
                || (nodes[k].is_dir && has_path(nodes[k].children, held, j + 1)));
        if j < held.len() - 1 {
            if i < segments.len() && has_directory(nodes, segments[i]) && k == first_directory(
                nodes,
                segments[i],
            ) {
                lemma_inserted_keeps_paths(nodes[k].children, segments, i + 1, info, held, j + 1);
            } else {
                if i < segments.len() && has_directory(nodes, segments[i]) {
                    lemma_has_first_directory(nodes, segments[i]);
                }
            }
        }
    }
}

/// The tree of a listing is well formed.
pub proof fn lemma_listing_well_formed(lines: Seq<Seq<char>>)
    ensures
        match listing_of(lines) {
            Some(nodes) => well_formed(nodes),
            None => true,
        },
    decreases lines.len(),
{
    if lines.len() > 0 {
        lemma_listing_well_formed(lines.drop_last());
        match listing_of(lines.drop_last()) {
            Some(nodes) => {
                let fields = split_on(lines.last(), PARAM_INTERVAL@);
                if lines.last().len() > 0 && fields.len() == 5 {
                    let info = ObjectInfo {
                        mode: fields[0],
                        kind: fields[1],
                        hash: fields[3],
                        size: trimmed(fields[2]),
                    };
                    let segments = split_on(fields[4], "/"@);
                    if segments.len() > 1 {
                        lemma_inserted_well_formed(nodes, segments, 0, info);
                    } else {
                        let after = nodes.push(top_level_node(fields[4], info));
                        assert forall|j: int| 0 <= j < after.len() implies {
                            &&& (#[trigger] after[j]).children.len() > 0 ==> after[j].is_dir
                            &&& well_formed(after[j].children)
                        } by {}
                    }
                }
            },
            None => {},
        }
    }
}

/// Tests whether `mode` is that of a directory object.
pub fn mode_is_directory(mode: &str) -> (b: bool)
    ensures
        b == is_directory_mode(mode@),
{
    let chars = to_chars(mode);
    let prefix = to_chars("040000");
    matches_at(chars.as_slice(), prefix.as_slice(), 0)
}

/// Looks for the first directory called `name`.
fn find_directory(nodes: &Vec<RepoFileInfo>, name: &String) -> (r: Option<usize>)
    ensures
        match r {
            Some(k) => is_first_directory(views(nodes@), name@, k as int),
            None => !has_directory(views(nodes@), name@),
        },
{
    let mut k: usize = 0;
    while k < nodes.len()
        invariant
            k <= nodes.len(),
            forall|j: int| 0 <= j < k ==> !is_directory_at(views(nodes@), name@, j),
        decreases nodes.len() - k,
    {
        if nodes[k].is_dir && nodes[k].name == *name {
            return Some(k);
        }
        k += 1;
    }
    None
}

/// Builds the node of segment `i` and, below it, those of the segments
/// after it.
fn build_node(
    segments: &Vec<String>,
    i: usize,
    object_mode: &str,
    object_type: &str,
    object_name: &str,
    object_size: &str,
) -> (node: RepoFileInfo)
    requires
        i < segments.len(),
    ensures
        node@ == new_node(
            views(segments@),
            i as int,
            ObjectInfo {
                mode: object_mode@,
                kind: object_type@,
                hash: object_name@,
                size: object_size@,
            },
        ),
    decreases segments.len() - i,
{
    let is_last = i == segments.len() - 1;
    let is_dir = mode_is_directory(object_mode) || !is_last;
    let dir = if i != 0 {
        join_first(segments, i, "/")
    } else {
        String::from_str("./")
    };
    let mut children: Vec<RepoFileInfo> = Vec::new();
    if !is_last {
        let child = build_node(
            segments,
            i + 1,
            object_mode,
            object_type,
            object_name,
            object_size,
        );
        children.push(child);
    }
    let node = RepoFileInfo {
        name: segments[i].clone(),
        dir,
        object_mode: if is_last {
            String::from_str(object_mode)
        } else {
            String::new()
        },
        object_type: if is_last {
            String::from_str(object_type)
        } else {
            String::new()
        },
        object_name: if is_last {
            String::from_str(object_name)
        } else {
            String::new()
        },
        object_size: if is_last {
            String::from_str(object_size)
        } else {
            String::new()
        },
        is_dir,
        children,
    };
    proof {
        let spec_node = new_node(
            views(segments@),
            i as int,
            ObjectInfo {
                mode: object_mode@,
                kind: object_type@,
                hash: object_name@,
                size: object_size@,
            },
        );
        assert(node@.children =~= spec_node.children);
    }
    node
}

/// Puts the segments from `i` on into `file_list`.
fn insert_from(
    file_list: &mut Vec<RepoFileInfo>,
    segments: &Vec<String>,
    i: usize,
    object_mode: &str,
    object_type: &str,
    object_name: &str,
    object_size: &str,
)
    requires
        i <= segments.len(),
    ensures
        views(final(file_list)@) == inserted(
            views(old(file_list)@),
            views(segments@),
            i as int,
            ObjectInfo {
                mode: object_mode@,
                kind: object_type@,
                hash: object_name@,
                size: object_size@,
            },
        ),
    decreases segments.len() - i,
{
    if i >= segments.len() {
        return ;
    }
    let ghost before = file_list@;
    match find_directory(file_list, &segments[i]) {
        Some(k) => {
            proof {
                lemma_first_directory(views(before), segments@[i as int]@, k as int);
                lemma_children_view(before[k as int]);
            }
            insert_from(
                &mut file_list[k].children,
                segments,
                i + 1,
                object_mode,
                object_type,
                object_name,
                object_size,
            );
            proof {
                lemma_children_view(file_list@[k as int]);
            }
        },
        None => {
            let node = build_node(
                segments,
                i,
                object_mode,
                object_type,
                object_name,
                object_size,
            );
            file_list.push(node);
        },
    }
}

/// Puts one object into the tree, at the place that its path gives.
///
/// The path is taken apart at each `/`. Directories that the tree has are
/// entered, the others are made; the node of the last segment carries mode,
/// type, hash and size, and is a directory only where the mode says so. A
/// path that ends at a directory which the tree has changes nothing.
pub fn insert_file_to_tree(
    file_list: &mut Vec<RepoFileInfo>,
    object_mode: &str,
    object_type: &str,
    object_name: &str,
    object_size: &str,
    object_path: &str,
)
    ensures
        views(final(file_list)@) == inserted(
            views(old(file_list)@),
            split_on(object_path@, "/"@),
            0,
            ObjectInfo {
                mode: object_mode@,
                kind: object_type@,
                hash: object_name@,
                size: object_size@,
            },
        ),
        well_formed(views(old(file_list)@)) ==> well_formed(views(final(file_list)@)),
        has_path(views(final(file_list)@), split_on(object_path@, "/"@), 0),
{
    let segments = split_text(object_path, "/");
    proof {
        lemma_inserted_has_path(
            views(file_list@),
            views(segments@),
            0,
            ObjectInfo {
                mode: object_mode@,
                kind: object_type@,
                hash: object_name@,
                size: object_size@,
            },
        );
        if well_formed(views(file_list@)) {
            lemma_inserted_well_formed(
                views(file_list@),
                views(segments@),
                0,
                ObjectInfo {
                    mode: object_mode@,
                    kind: object_type@,
                    hash: object_name@,
                    size: object_size@,
                },
            );
        }
    }
    insert_from(file_list, &segments, 0, object_mode, object_type, object_name, object_size);
}

/// Builds the tree of a listing, line by line. An empty line is passed
/// over. Fails where a line that is not empty has not five fields; no tree
/// is handed back for the other lines.
pub fn file_info_list_to_tree(file_info_list: Vec<&str>) -> (r: Result<
    Vec<RepoFileInfo>,
    CustomerGitError,
>)
    ensures
        match r {
            Ok(file_list) => listing_of(views(file_info_list@)) == Some(views(file_list@))
                && well_formed(views(file_list@)),
            Err(e) => listing_of(views(file_info_list@)) is None && e@.kind
                == GitErrorKind::Parse,
        },
{
    proof {
        lemma_listing_well_formed(views(file_info_list@));
    }
    let mut file_list: Vec<RepoFileInfo> = Vec::new();
    let mut n: usize = 0;
    assert(views(file_info_list@).take(0) =~= Seq::<Seq<char>>::empty());
    assert(views(file_list@) =~= Seq::<RepoFileInfoView>::empty());
    while n < file_info_list.len()
        invariant
            n <= file_info_list.len(),
            listing_of(views(file_info_list@).take(n as int)) == Some(views(file_list@)),
        decreases file_info_list.len() - n,
    {
        let line: &str = file_info_list[n];
        proof {
            let now = views(file_info_list@).take(n as int + 1);
            assert(now.drop_last() =~= views(file_info_list@).take(n as int));
            assert(now.last() == line@);
        }
        let file_info = split_text(line, PARAM_INTERVAL);
        if !line.is_empty() && file_info.len() != 5 {
            proof {
                lemma_listing_fails(views(file_info_list@), n as int + 1);
            }
            return Err(CustomerGitError::parse("A line of the listing has not five fields"));
        }
        if !line.is_empty() {
            let object_mode = file_info[0].as_str();
            let object_type = file_info[1].as_str();
            let size_chars = to_chars(file_info[2].as_str());
            let object_size = to_text(trim(size_chars.as_slice()));
            let object_name = file_info[3].as_str();
            let object_path = file_info[4].as_str();
            let segments = split_text(object_path, "/");
            if segments.len() > 1 {
                insert_from(
                    &mut file_list,
                    &segments,
                    0,
                    object_mode,
                    object_type,
                    object_name,
                    object_size.as_str(),
                );
            } else {
                let ghost before = file_list@;
                let is_dir = mode_is_directory(object_mode);
                let file = RepoFileInfo {
                    name: String::from_str(object_path),
                    dir: String::from_str("./"),
                    object_mode: String::from_str(object_mode),
                    object_type: String::from_str(object_type),
                    object_name: String::from_str(object_name),
                    object_size,
                    is_dir,
                    children: Vec::new(),
                };
                proof {
                    assert(file@.children =~= Seq::<RepoFileInfoView>::empty());
                }
                file_list.push(file);
                assert(views(file_list@) =~= views(before).push(file@));
            }
        }
        n += 1;
    }
    assert(views(file_info_list@).take(file_info_list.len() as int) =~= views(file_info_list@));
    Ok(file_list)
}

/// The tree that the output of a listing gives: the tree of its lines,
/// without the white space around the output. Nothing where a line cannot
/// be read.
pub open spec fn repo_file_list_of(stdout: Seq<char>) -> Option<Seq<RepoFileInfoView>> {
    listing_of(split_on(trimmed(stdout), "\n"@))
}

/// Reads the tree of files from the output of a listing. Fails where a
/// line that is not empty has not five fields.
pub fn parse_repo_file_list(stdout: &str) -> (r: Result<Vec<RepoFileInfo>, CustomerGitError>)
    ensures
        match r {
            Ok(file_list) => repo_file_list_of(stdout@) == Some(views(file_list@)) && well_formed(
                views(file_list@),
            ),
            Err(e) => repo_file_list_of(stdout@) is None && e@.kind == GitErrorKind::Parse,
        },
{
    let chars = to_chars(stdout);
    let newline = to_chars("\n");
    let rows = to_texts(&split(trim(chars.as_slice()), newline.as_slice()));
    let mut lines: Vec<&str> = Vec::new();
    let mut i: usize = 0;
    while i < rows.len()
        invariant
            i <= rows.len(),
            lines.len() == i,
            forall|k: int| 0 <= k < i ==> (#[trigger] lines@[k])@ == rows@[k]@,
        decreases rows.len() - i,
    {
        lines.push(rows[i].as_str());
        i += 1;
    }
    assert(views(lines@) =~= views(rows@));
    file_info_list_to_tree(lines)
}

} // verus!
