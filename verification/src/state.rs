//! The project that is open and the projects that were open lately.

use crate::commands::ssh::opt_text;
use crate::pty::{shell_dir, strip_verbatim_prefix, Platform};
use crate::scan::occurs;
use crate::text::{copy_texts, same_text, texts};
use vstd::prelude::*;

verus! {

/// How many projects the list of recent projects holds at most.
pub const MAX_RECENT: usize = 5;

/// `list` without the texts equal to `path`.
pub open spec fn without(list: Seq<Seq<char>>, path: Seq<char>) -> Seq<Seq<char>>
    decreases list.len(),
{
    if list.len() == 0 {
        Seq::empty()
    } else if list.last() == path {
        without(list.drop_last(), path)
    } else {
        without(list.drop_last(), path).push(list.last())
    }
}

/// The first `n` texts of `list`, or all of it where it holds fewer.
pub open spec fn at_most(list: Seq<Seq<char>>, n: nat) -> Seq<Seq<char>> {
    if list.len() <= n {
        list
    } else {
        list.take(n as int)
    }
}

/// The recent projects once `path` was opened: `path` first, then the
/// others in their order, and no more than five in all.
pub open spec fn recent_after(list: Seq<Seq<char>>, path: Seq<char>) -> Seq<Seq<char>> {
    at_most(seq![path] + without(list, path), MAX_RECENT as nat)
}

/// The name of the last part of a path: what `Path::file_name` gives, as
/// text, or the empty text where the path has no such part.
pub open spec fn name_or_empty(file_name: Option<Seq<char>>) -> Seq<char> {
    match file_name {
        Some(n) => n,
        None => Seq::empty(),
    }
}

/// What holds on every system of the last part of the path `path`, where
/// it has one: it is a piece of the path's text, and it is not `..`. Which
/// piece it is depends on the characters that part a path on the system.
pub open spec fn may_be_last_part(path: Seq<char>, file_name: Option<Seq<char>>) -> bool {
    file_name matches Some(n) ==> occurs(path, n) && n != ".."@
}

/// `std::path::Path::file_name` gives the final component of a path, if
/// there is one, and none where the path ends in `..`. The contract claims
/// that a component is a piece of the path's text and is never `..`; it
/// does not say which piece, nor when there is none.
#[verifier::external_body]
fn file_name_of(path: &str) -> (name: Option<String>)
    ensures
        may_be_last_part(path@, opt_text(name)),
{
    std::path::Path::new(path).file_name().map(|n| n.to_string_lossy().into_owned())
}

/// The name of a project whose root has the last part `file_name`.
pub fn project_name_from(file_name: Option<String>) -> (name: String)
    ensures
        name@ == name_or_empty(
            match file_name {
                Some(n) => Some(n@),
                None => None,
            },
        ),
{
    match file_name {
        Some(n) => n,
        None => String::new(),
    }
}

/// The project that is open, by the path of its root, and the paths of the
/// projects that were open lately, the latest first.
pub struct AppState {
    pub workspace_root: String,
    pub recent_projects: Vec<String>,
    /// Where the state is kept, if it is kept.
    pub config_path: Option<String>,
}

impl AppState {
    /// The state at the start: the project `root` is open. `saved` is the
    /// list of recent projects as it was kept; where it is empty the list
    /// starts with `root`. `config_path` is where the state is kept.
    pub fn new(config_path: Option<String>, root: String, saved: Vec<String>) -> (s: Self)
        ensures
            s.workspace_root@ == root@,
            texts(s.recent_projects@) == if saved@.len() == 0 {
                seq![root@]
            } else {
                texts(saved@)
            },
            s.config_path == config_path,
    {
        let recent_projects = if saved.len() == 0 {
            let mut v: Vec<String> = Vec::new();
            v.push(root.clone());
            assert(texts(v@) =~= seq![root@]);
            v
        } else {
            saved
        };
        AppState { workspace_root: root, recent_projects, config_path }
    }

    /// The root of the open project.
    pub fn get_root(&self) -> (r: String)
        ensures
            r@ == self.workspace_root@,
    {
        self.workspace_root.clone()
    }

    /// The name of the open project: the last part of its root, and the
    /// empty text where the root has none. Whatever the system takes for the
    /// last part, the name is a piece of the root's text and is not `..`.
    pub fn get_project_name(&self) -> (r: String)
        ensures
            exists|file_name: Option<Seq<char>>|
                #[trigger] may_be_last_part(self.workspace_root@, file_name) && r@
                    == name_or_empty(file_name),
    {
        let file_name = file_name_of(self.workspace_root.as_str());
        assert(may_be_last_part(self.workspace_root@, opt_text(file_name)));
        project_name_from(file_name)
    }

    /// The recent projects, the latest first.
    pub fn get_recent(&self) -> (r: Vec<String>)
        ensures
            r@ == self.recent_projects@,
    {
        copy_texts(&self.recent_projects)
    }

    /// Puts `path` at the head of the recent projects.
    pub fn add_recent(&mut self, path: String)
        ensures
            texts(final(self).recent_projects@) == recent_after(
                texts(old(self).recent_projects@),
                path@,
            ),
            final(self).workspace_root == old(self).workspace_root,
            final(self).config_path == old(self).config_path,
    {
        let mut list: Vec<String> = Vec::new();
        let ghost target = path@;
        list.push(path);
        let ghost all = texts(self.recent_projects@);
        let mut i: usize = 0;
        assert(texts(list@) =~= seq![target] + without(all.take(0), target));
        while i < self.recent_projects.len()
            invariant
                i <= self.recent_projects.len(),
                all == texts(self.recent_projects@),
                list.len() >= 1,
                list@[0]@ == target,
                texts(list@) == seq![target] + without(all.take(i as int), target),
                self.workspace_root == old(self).workspace_root,
                self.config_path == old(self).config_path,
                self.recent_projects == old(self).recent_projects,
            decreases self.recent_projects.len() - i,
        {
            assert(all.take(i + 1).drop_last() =~= all.take(i as int));
            assert(all.take(i + 1).last() == self.recent_projects@[i as int]@);
            if !same_text(self.recent_projects[i].as_str(), list[0].as_str()) {
                let p = self.recent_projects[i].clone();
                let ghost before = list@;
                list.push(p);
                assert(texts(list@) =~= texts(before).push(p@));
                assert(texts(list@) =~= seq![target] + without(all.take(i + 1), target));
            }
            i = i + 1;
        }
        assert(all.take(self.recent_projects.len() as int) =~= all);
        let ghost full = list@;
        list.truncate(MAX_RECENT);
        assert(texts(list@) =~= at_most(texts(full), MAX_RECENT as nat));
        self.recent_projects = list;
    }

    /// Opens the project at `resolved`, a path that the system has resolved.
    /// On Windows the verbatim prefix is taken off first. Where that is the
    /// root already, nothing changes and the answer is `false`. Otherwise it
    /// becomes the root and the head of the recent projects, and the answer
    /// is `true`: the state is then to be kept.
    pub fn set_root(&mut self, resolved: &str, platform: Platform) -> (changed: bool)
        ensures
            final(self).config_path == old(self).config_path,
            changed == (shell_dir(resolved@, platform) != old(self).workspace_root@),
            changed ==> {
                &&& final(self).workspace_root@ == shell_dir(resolved@, platform)
                &&& texts(final(self).recent_projects@) == recent_after(
                    texts(old(self).recent_projects@),
                    shell_dir(resolved@, platform),
                )
            },
            !changed ==> {
                &&& final(self).workspace_root == old(self).workspace_root
                &&& final(self).recent_projects == old(self).recent_projects
            },
    {
        let root = strip_verbatim_prefix(resolved, platform);
        if same_text(root.as_str(), self.workspace_root.as_str()) {
            return false;
        }
        self.workspace_root = root.clone();
        self.add_recent(root);
        true
    }
}

} // verus!
