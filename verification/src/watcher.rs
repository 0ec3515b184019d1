//! What a change in the project tree is reported as.

use crate::commands::files::{ignored_dir, is_ignored_dir};
use crate::scan::{fields, split};
use crate::text::{chars_of, rows, text_of, CharClass};
use vstd::prelude::*;

verus! {

/// Whether a part of the path `rel`, whose parts stand between `/`, is a
/// directory that listings leave out.
pub open spec fn ignored_path(rel: Seq<char>) -> bool {
    exists|i: int|
        0 <= i < fields(rel, CharClass::Only('/')).len() && ignored_dir(
            #[trigger] fields(rel, CharClass::Only('/'))[i],
        )
}

/// Whether a part of the path `rel` is a directory that listings leave out.
pub fn is_ignored_path(rel: &str) -> (r: bool)
    ensures
        r == ignored_path(rel@),
{
    let text = chars_of(rel);
    let parts = split(&text, CharClass::Only('/'));
    let ghost all = fields(rel@, CharClass::Only('/'));
    let mut i: usize = 0;
    while i < parts.len()
        invariant
            i <= parts.len(),
            rows(parts@) == all,
            all == fields(rel@, CharClass::Only('/')),
            forall|j: int| 0 <= j < i ==> !ignored_dir(#[trigger] all[j]),
        decreases parts.len() - i,
    {
        let name = text_of(&parts[i]);
        assert(all[i as int] == parts@[i as int]@);
        if is_ignored_dir(name.as_str()) {
            return true;
        }
        i = i + 1;
    }
    false
}

/// `s` with each backslash replaced by a slash.
pub open spec fn with_slashes(s: Seq<char>) -> Seq<char> {
    s.map_values(
        |c: char|
            if c == '\\' {
                '/'
            } else {
                c
            },
    )
}

/// `s` with each backslash replaced by a slash.
pub fn slashes(s: &str) -> (r: String)
    ensures
        r@ == with_slashes(s@),
{
    let text = chars_of(s);
    let mut out: Vec<char> = Vec::new();
    let mut i: usize = 0;
    while i < text.len()
        invariant
            i <= text.len(),
            out.len() == i,
            forall|j: int| 0 <= j < i ==> out@[j] == with_slashes(text@)[j],
        decreases text.len() - i,
    {
        let c = text[i];
        out.push(
            if c == '\\' {
                '/'
            } else {
                c
            },
        );
        i = i + 1;
    }
    assert(out@ =~= with_slashes(s@));
    text_of(&out)
}

/// A change in the project tree as it is reported: `change` for a file
/// that is there, `unlink` for a path that is no file any more.
#[derive(Debug)]
pub struct FileChange {
    pub event: String,
    pub path: String,
}

/// What is reported of a change at `rel`, a path below the project root.
/// The path is reported with slashes. Nothing is reported of a path with an
/// ignored part.
pub fn file_event(rel: &str, is_file: bool) -> (r: Option<FileChange>)
    ensures
        match r {
            Some(c) => {
                &&& !ignored_path(with_slashes(rel@))
                &&& c.path@ == with_slashes(rel@)
                &&& c.event@ == if is_file {
                    "change"@
                } else {
                    "unlink"@
                }
            },
            None => ignored_path(with_slashes(rel@)),
        },
{
    let path = slashes(rel);
    if is_ignored_path(path.as_str()) {
        return None;
    }
    let event = if is_file {
        "change".to_owned()
    } else {
        "unlink".to_owned()
    };
    Some(FileChange { event, path })
}

} // verus!
