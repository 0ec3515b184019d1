//! Reading the long listing of a remote directory into tree entries.

use crate::commands::files::{ignored, is_ignored};
use crate::commands::ssh::{opt_text, FileNode};
use crate::order::{
    indices, precedes, rank, ranking, ranking_is_ranked, sort_keys, RankKey, SortKey,
};
use crate::scan::{lines, split_lines, split_words, words};
use crate::shell::push_text;
use crate::text::{
    chars_of, extend, glue, join_from, joined, rows, same, strip_end, strip_end_chars, text_of,
    CharClass,
};
use vstd::prelude::*;

verus! {

/// The absolute path that is listed for the directory asked for: the root
/// where none or an empty one is given, and the path with `/` put before it
/// where it does not begin with one.
pub open spec fn listing_path(dir: Option<Seq<char>>) -> Seq<char> {
    match dir {
        Some(p) => if p.len() == 0 {
            "/"@
        } else if p[0] == '/' {
            p
        } else {
            "/"@ + p
        },
        None => "/"@,
    }
}

/// The absolute path that is listed for the directory asked for.
pub fn path_to_list(dir: &Option<String>) -> (r: String)
    ensures
        r@ == listing_path(opt_text(*dir)),
{
    match dir {
        Some(p) => {
            let c = chars_of(p.as_str());
            if c.len() == 0 {
                "/".to_owned()
            } else if c[0] == '/' {
                p.clone()
            } else {
                glue("/", p.as_str())
            }
        },
        None => "/".to_owned(),
    }
}

/// An entry of a remote directory as a mathematical value.
pub struct NodeView {
    pub name: Seq<char>,
    pub path: Seq<char>,
    pub is_directory: bool,
}

/// The entry that one line of the listing of `path` stands for. A line of
/// fewer than nine words stands for none. The first word tells a directory
/// by its first letter `d`; the words from the ninth on, with one blank
/// between each two, are the name. The entries `.` and `..`, and the names
/// that every listing leaves out, stand for none.
pub open spec fn entry_of(path: Seq<char>, line: Seq<char>) -> Option<NodeView> {
    let w = words(line);
    if w.len() < 9 {
        None
    } else {
        let name = joined(w.skip(8), " "@);
        let is_directory = w[0].len() > 0 && w[0][0] == 'd';
        if name == "."@ || name == ".."@ || ignored(name, is_directory) {
            None
        } else {
            Some(
                NodeView {
                    name,
                    path: strip_end(path, CharClass::Only('/')) + "/"@ + name,
                    is_directory,
                },
            )
        }
    }
}

/// The entries that the lines `all` of the listing of `path` stand for, in
/// the order of the lines.
pub open spec fn entries(path: Seq<char>, all: Seq<Seq<char>>) -> Seq<NodeView>
    decreases all.len(),
{
    if all.len() == 0 {
        Seq::empty()
    } else {
        match entry_of(path, all.last()) {
            Some(n) => entries(path, all.drop_last()).push(n),
            None => entries(path, all.drop_last()),
        }
    }
}

/// What an entry is ordered by: directories first, and then the name.
pub open spec fn node_key(n: NodeView) -> SortKey {
    SortKey { late: !n.is_directory, name: n.name }
}

/// The entries of the directory `path` that the listing `output` shows:
/// directories before files, and by name inside each group.
pub open spec fn file_tree(path: Seq<char>, output: Seq<char>) -> Seq<NodeView> {
    let e = entries(path, lines(output));
    ranking(e.map_values(|n: NodeView| node_key(n))).map_values(|i: int| e[i])
}

/// An entry as it is read from a line, before the entries are ordered.
pub struct RawEntry {
    pub name: Vec<char>,
    pub path: Vec<char>,
    pub is_directory: bool,
}

impl View for RawEntry {
    type V = NodeView;

    open spec fn view(&self) -> NodeView {
        NodeView { name: self.name@, path: self.path@, is_directory: self.is_directory }
    }
}

/// The view of each raw entry of a list.
pub open spec fn raw_views(v: Seq<RawEntry>) -> Seq<NodeView> {
    v.map_values(|e: RawEntry| e@)
}

/// The entry that one line of the listing of `path` stands for.
pub fn read_entry(path: &Vec<char>, line: &Vec<char>) -> (r: Option<RawEntry>)
    ensures
        match r {
            Some(e) => entry_of(path@, line@) == Some(e@),
            None => entry_of(path@, line@) is None,
        },
{
    let w = split_words(line);
    if w.len() < 9 {
        return None;
    }
    let blank = chars_of(" ");
    let name = join_from(&w, 8, &blank);
    let is_directory = w[0].len() > 0 && w[0][0] == 'd';
    assert(rows(w@)[0] == w@[0]@);
    let dot = chars_of(".");
    let dots = chars_of("..");
    let shown = text_of(&name);
    if same(&name, &dot) || same(&name, &dots) || is_ignored(shown.as_str(), is_directory) {
        return None;
    }
    let mut full = strip_end_chars(path, CharClass::Only('/'));
    push_text(&mut full, "/");
    extend(&mut full, &name);
    Some(RawEntry { name, path: full, is_directory })
}

/// The view of a tree entry, its children left aside.
pub open spec fn node_view(n: FileNode) -> NodeView {
    NodeView { name: n.name@, path: n.path@, is_directory: n.is_directory }
}

/// The view of each tree entry of a list.
pub open spec fn node_views(v: Seq<FileNode>) -> Seq<NodeView> {
    v.map_values(|n: FileNode| node_view(n))
}

/// Whether the children of `n` are as they are for a fresh entry: an empty
/// list for a directory, none for a file.
pub open spec fn unopened(n: FileNode) -> bool {
    match n.children {
        Some(c) => n.is_directory && c@.len() == 0,
        None => !n.is_directory,
    }
}

/// The entries of the directory `dir` that the listing `output` shows.
pub fn read_file_tree(dir: &Option<String>, output: &str) -> (nodes: Vec<FileNode>)
    ensures
        node_views(nodes@) == file_tree(listing_path(opt_text(*dir)), output@),
        forall|i: int| 0 <= i < nodes.len() ==> unopened(#[trigger] nodes@[i]),
{
    let shown = path_to_list(dir);
    let path = chars_of(shown.as_str());
    let text = chars_of(output);
    let all = split_lines(&text);
    let mut raw: Vec<RawEntry> = Vec::new();
    let mut i: usize = 0;
    assert(raw_views(raw@) =~= Seq::empty());
    while i < all.len()
        invariant
            i <= all.len(),
            raw_views(raw@) == entries(path@, rows(all@).take(i as int)),
        decreases all.len() - i,
    {
        assert(rows(all@).take(i + 1).drop_last() =~= rows(all@).take(i as int));
        assert(rows(all@).take(i + 1).last() == all@[i as int]@);
        match read_entry(&path, &all[i]) {
            Some(e) => {
                let ghost before = raw@;
                raw.push(e);
                assert(raw_views(raw@) =~= raw_views(before).push(e@));
            },
            None => {},
        }
        i = i + 1;
    }
    assert(rows(all@).take(all.len() as int) =~= rows(all@));
    let ghost e = raw_views(raw@);
    let mut keys: Vec<RankKey> = Vec::new();
    let mut k: usize = 0;
    while k < raw.len()
        invariant
            k <= raw.len(),
            e == raw_views(raw@),
            keys.len() == k,
            forall|j: int| 0 <= j < k ==> (#[trigger] keys@[j])@ == node_key(e[j]),
        decreases raw.len() - k,
    {
        let mut name: Vec<char> = Vec::new();
        extend(&mut name, &raw[k].name);
        assert(name@ =~= raw@[k as int].name@);
        keys.push(RankKey { late: !raw[k].is_directory, name });
        k = k + 1;
    }
    assert(sort_keys(keys@) =~= e.map_values(|n: NodeView| node_key(n)));
    let order = rank(&keys);
    let mut nodes: Vec<FileNode> = Vec::new();
    let mut j: usize = 0;
    while j < order.len()
        invariant
            j <= order.len(),
            order.len() == raw.len(),
            e == raw_views(raw@),
            forall|k: int| 0 <= k < order.len() ==> order@[k] < raw.len(),
            nodes.len() == j,
            forall|k: int| 0 <= k < j ==> node_view(#[trigger] nodes@[k]) == e[order@[k] as int],
            forall|k: int| 0 <= k < j ==> unopened(#[trigger] nodes@[k]),
        decreases order.len() - j,
    {
        let r = &raw[order[j]];
        let children: Option<Vec<FileNode>> = if r.is_directory {
            Some(Vec::new())
        } else {
            None
        };
        let node = FileNode {
            name: text_of(&r.name),
            path: text_of(&r.path),
            is_directory: r.is_directory,
            children,
        };
        nodes.push(node);
        j = j + 1;
    }
    assert(node_views(nodes@) =~= indices(order@).map_values(|i: int| e[i]));
    nodes
}

/// A tree shows every entry of the listing once, and no entry stands
/// behind one that its kind first, and its name second, put behind it.
pub proof fn file_tree_is_ordered(path: Seq<char>, output: Seq<char>)
    ensures
        file_tree(path, output).len() == entries(path, lines(output)).len(),
        forall|i: int|
            0 <= i < entries(path, lines(output)).len() ==> file_tree(path, output).contains(
                #[trigger] entries(path, lines(output))[i],
            ),
        forall|a: int, b: int|
            0 <= a < b < file_tree(path, output).len() ==> !precedes(
                node_key(file_tree(path, output)[b]),
                node_key(file_tree(path, output)[a]),
            ),
{
    let e = entries(path, lines(output));
    let keys = e.map_values(|n: NodeView| node_key(n));
    let r = ranking(keys);
    let t = file_tree(path, output);
    ranking_is_ranked(keys);
    assert forall|i: int| 0 <= i < e.len() implies t.contains(#[trigger] e[i]) by {
        assert(r.contains(i));
        let j = choose|j: int| 0 <= j < r.len() && r[j] == i;
        assert(t[j] == e[i]);
    }
    assert forall|a: int, b: int| 0 <= a < b < t.len() implies !precedes(
        node_key(t[b]),
        node_key(t[a]),
    ) by {
        assert(0 <= r[a] < e.len() && 0 <= r[b] < e.len());
        assert(node_key(t[a]) == keys[r[a]]);
        assert(node_key(t[b]) == keys[r[b]]);
    }
}

} // verus!
