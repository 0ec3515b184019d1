//! The names that every listing of a project tree leaves out, and the
//! values that describe a tree entry and a search hit.

use crate::bytes::{byte_len, cuts_at, head_bytes, shorten, utf8_len};
use crate::order::{indices, rank, ranking, sort_keys, RankKey, SortKey};
use crate::scan::{after_last, find_after_last, find_text, first_at, occurs};
use crate::text::{chars_of, glue, lowercase_of, part, same, same_text, text_of};
use vstd::prelude::*;
use vstd::string::StringExecFns;

verus! {

/// An entry of the project tree.
#[derive(Debug)]
pub struct FileNode {
    pub name: String,
    /// The path below the project root, with `/` between its parts.
    pub path: String,
    pub is_directory: bool,
}

/// One line of a file that holds the text searched for.
#[derive(Debug)]
pub struct SearchResult {
    pub file: String,
    pub line: String,
    pub line_number: usize,
    pub column: usize,
}

/// Whether `name` is a directory that listings leave out: build output,
/// version control data and caches.
pub open spec fn ignored_dir(name: Seq<char>) -> bool {
    ||| name == "node_modules"@
    ||| name == ".git"@
    ||| name == "dist"@
    ||| name == ".next"@
    ||| name == ".nuxt"@
    ||| name == ".output"@
    ||| name == "coverage"@
    ||| name == "__pycache__"@
}

/// Whether `name` is a file that listings leave out.
pub open spec fn ignored_file(name: Seq<char>) -> bool {
    name == ".DS_Store"@ || name == "Thumbs.db"@
}

/// Whether listings leave out the entry `name`.
pub open spec fn ignored(name: Seq<char>, is_dir: bool) -> bool {
    if is_dir {
        ignored_dir(name)
    } else {
        ignored_file(name)
    }
}

/// Whether `name` is a directory that listings leave out.
pub fn is_ignored_dir(name: &str) -> (r: bool)
    ensures
        r == ignored_dir(name@),
{
    same_text(name, "node_modules") || same_text(name, ".git") || same_text(name, "dist")
        || same_text(name, ".next") || same_text(name, ".nuxt") || same_text(name, ".output")
        || same_text(name, "coverage") || same_text(name, "__pycache__")
}

/// Whether listings leave out the entry `name`.
pub fn is_ignored(name: &str, is_dir: bool) -> (r: bool)
    ensures
        r == ignored(name@, is_dir),
{
    if is_dir {
        is_ignored_dir(name)
    } else {
        same_text(name, ".DS_Store") || same_text(name, "Thumbs.db")
    }
}

/// The text that the standard base64 alphabet, with padding, makes of
/// `bytes`.
pub uninterp spec fn base64_text(bytes: Seq<u8>) -> Seq<char>;

/// The greatest number of bytes that `to_base64` takes: the length of the
/// result must fit the machine.
pub open spec fn encodable(len: nat) -> bool {
    (len / 3 + 1) * 4 <= usize::MAX
}

/// `base64::Engine::encode` of the engine `general_purpose::STANDARD`
/// writes bytes in the standard alphabet with padding: four characters for
/// every three bytes, the last group filled up. It does not return where
/// the length of the result does not fit the machine.
#[verifier::external_body]
fn to_base64(bytes: &[u8]) -> (s: String)
    requires
        encodable(bytes@.len()),
    ensures
        s@ == base64_text(bytes@),
        s@.len() == (bytes@.len() + 2) / 3 * 4,
{
    base64::Engine::encode(&base64::engine::general_purpose::STANDARD, bytes)
}

/// The content of a binary file as it is handed to the front end: in
/// base64. `None` stands for a content too long to encode.
pub fn binary_content(bytes: &[u8]) -> (r: Option<String>)
    ensures
        match r {
            Some(s) => encodable(bytes@.len()) && s@ == base64_text(bytes@) && s@.len() == (
            bytes@.len() + 2) / 3 * 4,
            None => !encodable(bytes@.len()),
        },
{
    if bytes.len() / 3 < usize::MAX / 4 {
        Some(to_base64(bytes))
    } else {
        None
    }
}

/// An entry of a directory as the system lists it, as a mathematical
/// value.
pub struct ItemView {
    pub name: Seq<char>,
    pub is_dir: bool,
}

/// An entry of a directory as the system lists it.
#[derive(Debug)]
pub struct DirItem {
    pub name: String,
    pub is_dir: bool,
}

impl View for DirItem {
    type V = ItemView;

    open spec fn view(&self) -> ItemView {
        ItemView { name: self.name@, is_dir: self.is_dir }
    }
}

/// The view of each entry of a list.
pub open spec fn item_views(v: Seq<DirItem>) -> Seq<ItemView> {
    v.map_values(|d: DirItem| d@)
}

/// An entry of the project tree, as a mathematical value.
pub struct TreeView {
    pub name: Seq<char>,
    pub path: Seq<char>,
    pub is_directory: bool,
}

impl View for FileNode {
    type V = TreeView;

    open spec fn view(&self) -> TreeView {
        TreeView { name: self.name@, path: self.path@, is_directory: self.is_directory }
    }
}

/// The view of each entry of a list.
pub open spec fn tree_views(v: Seq<FileNode>) -> Seq<TreeView> {
    v.map_values(|n: FileNode| n@)
}

/// The path of the entry `name` of the directory `rel`, both below the
/// project root.
pub open spec fn node_path(rel: Seq<char>, name: Seq<char>) -> Seq<char> {
    if rel.len() == 0 {
        name
    } else {
        rel + "/"@ + name
    }
}

/// The path of the entry `name` of the directory `rel`.
pub fn join_path(rel: &str, name: &str) -> (r: String)
    ensures
        r@ == node_path(rel@, name@),
{
    if rel.is_empty() {
        name.to_owned()
    } else {
        let mut r = glue(rel, "/");
        r.append(name);
        r
    }
}

/// The entries of `items` that listings show, in their order.
pub open spec fn shown(items: Seq<ItemView>) -> Seq<ItemView>
    decreases items.len(),
{
    if items.len() == 0 {
        Seq::empty()
    } else if ignored(items.last().name, items.last().is_dir) {
        shown(items.drop_last())
    } else {
        shown(items.drop_last()).push(items.last())
    }
}

/// What an entry of the project tree is ordered by: directories first, and
/// then the name in lower case.
pub open spec fn tree_key(item: ItemView) -> SortKey {
    SortKey { late: !item.is_dir, name: lowercase_of(item.name) }
}

/// The tree entry for the entry `item` of the directory `rel`.
pub open spec fn tree_node(rel: Seq<char>, item: ItemView) -> TreeView {
    TreeView { name: item.name, path: node_path(rel, item.name), is_directory: item.is_dir }
}

/// The entries of the directory `rel` as the project tree shows them:
/// without the names that listings leave out, directories before files, and
/// by name, without regard to case, inside each group.
pub open spec fn project_tree(rel: Seq<char>, items: Seq<ItemView>) -> Seq<TreeView> {
    let s = shown(items);
    ranking(s.map_values(|i: ItemView| tree_key(i))).map_values(|i: int| tree_node(rel, s[i]))
}

/// The entries of the directory `rel`, which holds `items`, as the project
/// tree shows them.
pub fn get_file_tree(rel: &str, items: &Vec<DirItem>) -> (nodes: Vec<FileNode>)
    ensures
        tree_views(nodes@) == project_tree(rel@, item_views(items@)),
{
    let ghost all = item_views(items@);
    let mut kept: Vec<usize> = Vec::new();
    let mut keys: Vec<RankKey> = Vec::new();
    let mut i: usize = 0;
    assert(indices(kept@).map_values(|k: int| all[k]) =~= shown(all.take(0)));
    while i < items.len()
        invariant
            i <= items.len(),
            all == item_views(items@),
            kept.len() == keys.len(),
            forall|k: int| 0 <= k < kept.len() ==> kept@[k] < i,
            indices(kept@).map_values(|k: int| all[k]) == shown(all.take(i as int)),
            forall|k: int|
                0 <= k < keys.len() ==> (#[trigger] keys@[k])@ == tree_key(all[kept@[k] as int]),
        decreases items.len() - i,
    {
        assert(all.take(i + 1).drop_last() =~= all.take(i as int));
        assert(all.take(i + 1).last() == items@[i as int]@);
        let item = &items[i];
        if !is_ignored(item.name.as_str(), item.is_dir) {
            let lower = item.name.as_str().to_lowercase();
            let ghost before = kept@;
            kept.push(i);
            keys.push(RankKey { late: !item.is_dir, name: chars_of(lower.as_str()) });
            assert(indices(kept@).map_values(|k: int| all[k]) =~= indices(before).map_values(
                |k: int| all[k],
            ).push(all[i as int]));
        }
        i = i + 1;
    }
    assert(all.take(items.len() as int) =~= all);
    let ghost s = shown(all);
    assert(sort_keys(keys@) =~= s.map_values(|i: ItemView| tree_key(i))) by {
        assert forall|k: int| 0 <= k < keys.len() implies sort_keys(keys@)[k] == tree_key(
            s[k],
        ) by {
            assert(s[k] == indices(kept@).map_values(|k: int| all[k])[k]);
        }
    }
    let order = rank(&keys);
    let mut nodes: Vec<FileNode> = Vec::new();
    let mut j: usize = 0;
    while j < order.len()
        invariant
            j <= order.len(),
            order.len() == kept.len(),
            all == item_views(items@),
            s == indices(kept@).map_values(|k: int| all[k]),
            forall|k: int| 0 <= k < kept.len() ==> kept@[k] < items.len(),
            forall|k: int| 0 <= k < order.len() ==> order@[k] < kept.len(),
            nodes.len() == j,
            forall|k: int|
                0 <= k < j ==> (#[trigger] nodes@[k])@ == tree_node(rel@, s[order@[k] as int]),
        decreases order.len() - j,
    {
        let item = &items[kept[order[j]]];
        assert(s[order@[j as int] as int] == item@);
        nodes.push(
            FileNode {
                name: item.name.clone(),
                path: join_path(rel, item.name.as_str()),
                is_directory: item.is_dir,
            },
        );
        j = j + 1;
    }
    assert(tree_views(nodes@) =~= indices(order@).map_values(|i: int| tree_node(rel@, s[i])));
    nodes
}

/// The most hits that a search returns where `max_results` asks for that
/// many: 100 where it asks for none, and never more than 500.
pub fn search_limit(max_results: Option<usize>) -> (r: usize)
    ensures
        r == match max_results {
            Some(n) => if n < 500 {
                n
            } else {
                500
            },
            None => 100,
        },
{
    match max_results {
        Some(n) => if n < 500 {
            n
        } else {
            500
        },
        None => 100,
    }
}

/// The extension of the file name `name`: what follows its last dot. A
/// name without a dot has none, nor has one whose only dot is its first
/// character, nor has `..`.
pub open spec fn extension(name: Seq<char>) -> Option<Seq<char>> {
    let p = after_last(name, '.');
    if p <= 1 || name == ".."@ {
        None
    } else {
        Some(name.skip(p))
    }
}

/// Whether `ext`, in lower case, is the extension of a kind of file that
/// holds no text: pictures, sound and film, archives, programs, documents
/// and fonts.
pub open spec fn binary_ext(ext: Seq<char>) -> bool {
    ||| ext == "png"@ || ext == "jpg"@ || ext == "jpeg"@ || ext == "gif"@ || ext == "bmp"@
    ||| ext == "ico"@ || ext == "svg"@ || ext == "webp"@
    ||| ext == "mp3"@ || ext == "mp4"@ || ext == "avi"@ || ext == "mov"@ || ext == "wav"@
    ||| ext == "flac"@
    ||| ext == "zip"@ || ext == "tar"@ || ext == "gz"@ || ext == "rar"@ || ext == "7z"@
    ||| ext == "exe"@ || ext == "dll"@ || ext == "so"@ || ext == "dylib"@ || ext == "bin"@
    ||| ext == "pdf"@ || ext == "doc"@ || ext == "docx"@ || ext == "xls"@ || ext == "xlsx"@
    ||| ext == "woff"@ || ext == "woff2"@ || ext == "ttf"@ || ext == "eot"@ || ext == "otf"@
}

/// Whether `ext` is the extension of a kind of file that holds no text.
pub fn is_binary_ext(ext: &str) -> (r: bool)
    ensures
        r == binary_ext(ext@),
{
    same_text(ext, "png") || same_text(ext, "jpg") || same_text(ext, "jpeg") || same_text(
        ext,
        "gif",
    ) || same_text(ext, "bmp") || same_text(ext, "ico") || same_text(ext, "svg") || same_text(
        ext,
        "webp",
    ) || same_text(ext, "mp3") || same_text(ext, "mp4") || same_text(ext, "avi") || same_text(
        ext,
        "mov",
    ) || same_text(ext, "wav") || same_text(ext, "flac") || same_text(ext, "zip") || same_text(
        ext,
        "tar",
    ) || same_text(ext, "gz") || same_text(ext, "rar") || same_text(ext, "7z") || same_text(
        ext,
        "exe",
    ) || same_text(ext, "dll") || same_text(ext, "so") || same_text(ext, "dylib") || same_text(
        ext,
        "bin",
    ) || same_text(ext, "pdf") || same_text(ext, "doc") || same_text(ext, "docx") || same_text(
        ext,
        "xls",
    ) || same_text(ext, "xlsx") || same_text(ext, "woff") || same_text(ext, "woff2")
        || same_text(ext, "ttf") || same_text(ext, "eot") || same_text(ext, "otf")
}

/// Whether a search skips the file `name` as one that holds no text: its
/// extension, in lower case, is one of a binary kind.
pub open spec fn binary_name(name: Seq<char>) -> bool {
    binary_ext(
        lowercase_of(
            match extension(name) {
                Some(e) => e,
                None => Seq::empty(),
            },
        ),
    )
}

/// Whether a search skips the file `name` as one that holds no text.
pub fn is_binary_name(name: &str) -> (r: bool)
    ensures
        r == binary_name(name@),
{
    let text = chars_of(name);
    let p = find_after_last(&text, '.');
    let dots = chars_of("..");
    let ext = if p <= 1 || same(&text, &dots) {
        String::new()
    } else {
        let e = part(&text, p, text.len());
        assert(e@ =~= name@.skip(p as int));
        text_of(&e)
    };
    let lower = ext.as_str().to_lowercase();
    is_binary_ext(lower.as_str())
}

/// What a search finds in one line.
#[derive(Debug)]
pub enum LineHit {
    /// The line does not hold the text.
    Miss,
    /// The line holds the text.
    Hit(SearchResult),
    /// The line holds the text, is longer than can be shown, and cannot
    /// be cut where it would have to be.
    Uncut,
}

/// The most bytes of a line that a hit shows.
pub const MAX_HIT_BYTES: usize = 200;

/// What a search for `query` finds in `line`, the line `line_number` of
/// the file `file`. A hit names the file and the line, gives the byte at
/// which the text first stands, and shows at most the first 200 bytes of
/// the line.
pub fn search_line(file: &str, line: &str, line_number: usize, query: &str) -> (r: LineHit)
    ensures
        match r {
            LineHit::Miss => !occurs(line@, query@),
            LineHit::Hit(hit) => {
                &&& occurs(line@, query@)
                &&& hit.file@ == file@
                &&& hit.line_number == line_number
                &&& hit.column == byte_len(line@.take(first_at(line@, query@)))
                &&& hit.line@ == if byte_len(line@) > MAX_HIT_BYTES {
                    head_bytes(line@, MAX_HIT_BYTES as int)
                } else {
                    line@
                }
                &&& byte_len(line@) > MAX_HIT_BYTES ==> cuts_at(line@, MAX_HIT_BYTES as int)
            },
            LineHit::Uncut => {
                &&& occurs(line@, query@)
                &&& byte_len(line@) > MAX_HIT_BYTES
                &&& !cuts_at(line@, MAX_HIT_BYTES as int)
            },
        },
{
    let text = chars_of(line);
    let q = chars_of(query);
    let p = find_text(&text, &q);
    if p == text.len() && q.len() > 0 {
        return LineHit::Miss;
    }
    assert(occurs(line@, query@));
    let before = part(&text, 0, p);
    assert(before@ =~= line@.take(p as int));
    let shown_before = text_of(&before);
    let column = utf8_len(shown_before.as_str());
    match shorten(line, MAX_HIT_BYTES, "") {
        Some(shown) => {
            proof {
                reveal_strlit("");
                assert(head_bytes(line@, MAX_HIT_BYTES as int) + ""@ =~= head_bytes(
                    line@,
                    MAX_HIT_BYTES as int,
                ));
            }
            LineHit::Hit(SearchResult { file: file.to_owned(), line: shown, line_number, column })
        },
        None => LineHit::Uncut,
    }
}

} // verus!
