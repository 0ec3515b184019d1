//! Reading what the version control program prints.

use crate::bytes::{byte_len, cuts_at, shorten, shortened, split_bytes, tail_bytes, utf8_len};
use crate::number::{parse_i64, parsed_i64};
use crate::scan::{
    find_text, first_at, first_fields, lines, split_first, split_lines,
};
use crate::text::{
    chars_of, glue, part, rows, strip_chars, strip_start, text_of, texts, trimmed, CharClass,
};
use vstd::prelude::*;

verus! {

/// What a finished run of the program means: failure gives what it wrote to
/// its error stream; success gives its output, trimmed where `trim` asks
/// for it.
pub open spec fn git_outcome(success: bool, stdout: Seq<char>, stderr: Seq<char>, trim: bool) -> Result<
    Seq<char>,
    Seq<char>,
> {
    if !success {
        Err(stderr)
    } else if trim {
        Ok(trimmed(stdout))
    } else {
        Ok(stdout)
    }
}

/// What a finished run of the program means.
pub fn git_output(success: bool, stdout: String, stderr: String, trim: bool) -> (r: Result<
    String,
    String,
>)
    ensures
        match r {
            Ok(s) => git_outcome(success, stdout@, stderr@, trim) == Ok::<Seq<char>, Seq<char>>(
                s@,
            ),
            Err(e) => git_outcome(success, stdout@, stderr@, trim) == Err::<Seq<char>, Seq<char>>(
                e@,
            ),
        },
{
    if !success {
        Err(stderr)
    } else if trim {
        let text = chars_of(stdout.as_str());
        let t = strip_chars(&text, CharClass::Space);
        Ok(text_of(&t))
    } else {
        Ok(stdout)
    }
}

/// A path of the work tree with its state, as a mathematical value.
pub struct StatusView {
    pub path: Seq<char>,
    pub status: Seq<char>,
    pub staged: bool,
}

/// A path of the work tree with its state.
#[derive(Debug)]
pub struct StatusEntry {
    pub path: String,
    pub status: String,
    pub staged: bool,
}

impl View for StatusEntry {
    type V = StatusView;

    open spec fn view(&self) -> StatusView {
        StatusView { path: self.path@, status: self.status@, staged: self.staged }
    }
}

/// The view of each entry of a list.
pub open spec fn status_views(v: Seq<StatusEntry>) -> Seq<StatusView> {
    v.map_values(|e: StatusEntry| e@)
}

/// The state that the two letters of a status line stand for.
pub open spec fn status_word(x: char, y: char) -> Seq<char> {
    if x == '?' && y == '?' {
        "untracked"@
    } else if x == 'A' || y == 'A' {
        "added"@
    } else if x == 'D' || y == 'D' {
        "deleted"@
    } else if x == 'R' || y == 'R' {
        "renamed"@
    } else {
        "modified"@
    }
}

/// The character of `s` at `i`, and a blank where `s` is shorter.
pub open spec fn letter(s: Seq<char>, i: int) -> char {
    if 0 <= i < s.len() {
        s[i]
    } else {
        ' '
    }
}

/// Whether a status line counts: it has at least two bytes.
pub open spec fn counts(line: Seq<char>) -> bool {
    byte_len(line) >= 2
}

/// What a status line that counts says: the state by its first two
/// letters, and the path, which begins at the fourth byte.
pub open spec fn status_of(line: Seq<char>) -> StatusView {
    StatusView {
        path: trimmed(tail_bytes(line, 3)),
        status: status_word(letter(line, 0), letter(line, 1)),
        staged: letter(line, 0) != ' ' && letter(line, 0) != '?',
    }
}

/// What the status lines `all` say, in their order.
pub open spec fn statuses(all: Seq<Seq<char>>) -> Seq<StatusView>
    decreases all.len(),
{
    if all.len() == 0 {
        Seq::empty()
    } else if counts(all.last()) {
        statuses(all.drop_last()).push(status_of(all.last()))
    } else {
        statuses(all.drop_last())
    }
}

/// Whether every status line that counts can be read: a character begins
/// at its fourth byte, or the line ends there.
pub open spec fn all_readable(all: Seq<Seq<char>>) -> bool {
    forall|i: int| 0 <= i < all.len() && counts(#[trigger] all[i]) ==> cuts_at(all[i], 3)
}

/// The paths of the work tree with their states, read from the short
/// status `raw`. `None` stands for a status with a line that cannot be
/// read.
pub fn git_status(raw: &str) -> (r: Option<Vec<StatusEntry>>)
    ensures
        match r {
            Some(v) => all_readable(lines(raw@)) && status_views(v@) == statuses(lines(raw@)),
            None => !all_readable(lines(raw@)),
        },
{
    let text = chars_of(raw);
    let all = split_lines(&text);
    let mut out: Vec<StatusEntry> = Vec::new();
    let mut i: usize = 0;
    let ghost ls = rows(all@);
    assert(status_views(out@) =~= Seq::empty());
    while i < all.len()
        invariant
            i <= all.len(),
            ls == rows(all@),
            ls == lines(raw@),
            status_views(out@) == statuses(ls.take(i as int)),
            all_readable(ls.take(i as int)),
        decreases all.len() - i,
    {
        assert(ls.take(i + 1).drop_last() =~= ls.take(i as int));
        assert(ls.take(i + 1).last() == all@[i as int]@);
        let line = &all[i];
        let shown = text_of(line);
        if utf8_len(shown.as_str()) >= 2 {
            let rest = match split_bytes(shown.as_str(), 3) {
                Some((_, rest)) => rest,
                None => {
                    assert(counts(ls[i as int]) && !cuts_at(ls[i as int], 3));
                    return None;
                },
            };
            let x = if line.len() > 0 {
                line[0]
            } else {
                ' '
            };
            let y = if line.len() > 1 {
                line[1]
            } else {
                ' '
            };
            let status = if x == '?' && y == '?' {
                "untracked"
            } else if x == 'A' || y == 'A' {
                "added"
            } else if x == 'D' || y == 'D' {
                "deleted"
            } else if x == 'R' || y == 'R' {
                "renamed"
            } else {
                "modified"
            };
            let tail = chars_of(rest);
            let path = strip_chars(&tail, CharClass::Space);
            let e = StatusEntry {
                path: text_of(&path),
                status: status.to_owned(),
                staged: x != ' ' && x != '?',
            };
            let ghost before = out@;
            out.push(e);
            assert(status_views(out@) =~= status_views(before).push(e@));
        }
        assert forall|k: int| 0 <= k < i + 1 && counts(#[trigger] ls.take(i + 1)[k]) implies cuts_at(
            ls.take(i + 1)[k],
            3,
        ) by {
            if k < i {
                assert(ls.take(i as int)[k] == ls.take(i + 1)[k]);
            }
        }
        i = i + 1;
    }
    assert(ls.take(all.len() as int) =~= ls);
    Some(out)
}

/// The branches of a repository and the one that is checked out.
#[derive(Debug)]
pub struct BranchList {
    /// The branch that is checked out; empty where none is marked.
    pub current: String,
    pub branches: Vec<String>,
}

/// The name on a line of the branch list: the line without the stars at
/// its start, trimmed.
pub open spec fn branch_name(line: Seq<char>) -> Seq<char> {
    trimmed(strip_start(line, CharClass::Only('*')))
}

/// The names on the lines `all`.
pub open spec fn branch_names(all: Seq<Seq<char>>) -> Seq<Seq<char>> {
    all.map_values(|l: Seq<char>| branch_name(l))
}

/// The name on the last of the lines `all` that begins with a star; the
/// empty text where none does.
pub open spec fn marked_branch(all: Seq<Seq<char>>) -> Seq<char>
    decreases all.len(),
{
    if all.len() == 0 {
        Seq::empty()
    } else if all.last().len() > 0 && all.last()[0] == '*' {
        branch_name(all.last())
    } else {
        marked_branch(all.drop_last())
    }
}

/// The branches that the list `raw` names, one on each line.
pub fn git_branches(raw: &str) -> (r: BranchList)
    ensures
        r.current@ == marked_branch(lines(raw@)),
        texts(r.branches@) == branch_names(lines(raw@)),
{
    let text = chars_of(raw);
    let all = split_lines(&text);
    let mut current = String::new();
    let mut branches: Vec<String> = Vec::new();
    let mut i: usize = 0;
    let ghost ls = rows(all@);
    while i < all.len()
        invariant
            i <= all.len(),
            ls == rows(all@),
            current@ == marked_branch(ls.take(i as int)),
            branches.len() == i,
            forall|k: int| 0 <= k < i ==> (#[trigger] branches@[k])@ == branch_name(ls[k]),
        decreases all.len() - i,
    {
        assert(ls.take(i + 1).drop_last() =~= ls.take(i as int));
        assert(ls.take(i + 1).last() == all@[i as int]@);
        let line = &all[i];
        let from = crate::text::skip_start(line, 0, CharClass::Only('*'));
        assert(line@.skip(0) =~= line@);
        let rest = part(line, from, line.len());
        assert(rest@ =~= line@.skip(from as int));
        let name = strip_chars(&rest, CharClass::Space);
        if line.len() > 0 && line[0] == '*' {
            current = text_of(&name);
        }
        branches.push(text_of(&name));
        i = i + 1;
    }
    assert(ls.take(all.len() as int) =~= ls);
    assert(texts(branches@) =~= branch_names(ls));
    BranchList { current, branches }
}

/// The field `i` of `f`, and the empty text where `f` has fewer fields.
pub open spec fn field(f: Seq<Seq<char>>, i: int) -> Seq<char> {
    if 0 <= i < f.len() {
        f[i]
    } else {
        Seq::empty()
    }
}

/// The field `i` of `f`, and the empty text where `f` has fewer fields.
pub fn field_text(f: &Vec<Vec<char>>, i: usize) -> (r: String)
    ensures
        r@ == field(rows(f@), i as int),
{
    if i < f.len() {
        text_of(&f[i])
    } else {
        String::new()
    }
}

/// A commit of the log, as a mathematical value.
pub struct LogView {
    pub hash: Seq<char>,
    pub short_hash: Seq<char>,
    pub message: Seq<char>,
    pub author: Seq<char>,
    pub date: Seq<char>,
    pub refs: Seq<char>,
}

/// A commit of the log.
#[derive(Debug)]
pub struct LogEntry {
    pub hash: String,
    pub short_hash: String,
    pub message: String,
    pub author: String,
    pub date: String,
    pub refs: String,
}

impl View for LogEntry {
    type V = LogView;

    open spec fn view(&self) -> LogView {
        LogView {
            hash: self.hash@,
            short_hash: self.short_hash@,
            message: self.message@,
            author: self.author@,
            date: self.date@,
            refs: self.refs@,
        }
    }
}

/// The view of each commit of a list.
pub open spec fn log_views(v: Seq<LogEntry>) -> Seq<LogView> {
    v.map_values(|e: LogEntry| e@)
}

/// The commit that a line of the log names: six fields with `|` between
/// them, of which the last may hold further `|`.
pub open spec fn log_entry(line: Seq<char>) -> LogView {
    let f = first_fields(line, '|', 6);
    LogView {
        hash: field(f, 0),
        short_hash: field(f, 1),
        message: field(f, 2),
        author: field(f, 3),
        date: field(f, 4),
        refs: field(f, 5),
    }
}

/// The commits that the lines `all` name; empty lines name none.
pub open spec fn log_entries(all: Seq<Seq<char>>) -> Seq<LogView>
    decreases all.len(),
{
    if all.len() == 0 {
        Seq::empty()
    } else if all.last().len() > 0 {
        log_entries(all.drop_last()).push(log_entry(all.last()))
    } else {
        log_entries(all.drop_last())
    }
}

/// The commits that the log `raw` names.
pub fn git_log(raw: &str) -> (r: Vec<LogEntry>)
    ensures
        log_views(r@) == log_entries(lines(raw@)),
{
    let text = chars_of(raw);
    let all = split_lines(&text);
    let mut out: Vec<LogEntry> = Vec::new();
    let mut i: usize = 0;
    let ghost ls = rows(all@);
    assert(log_views(out@) =~= Seq::empty());
    while i < all.len()
        invariant
            i <= all.len(),
            ls == rows(all@),
            log_views(out@) == log_entries(ls.take(i as int)),
        decreases all.len() - i,
    {
        assert(ls.take(i + 1).drop_last() =~= ls.take(i as int));
        assert(ls.take(i + 1).last() == all@[i as int]@);
        if all[i].len() > 0 {
            let f = split_first(&all[i], '|', 6);
            let e = LogEntry {
                hash: field_text(&f, 0),
                short_hash: field_text(&f, 1),
                message: field_text(&f, 2),
                author: field_text(&f, 3),
                date: field_text(&f, 4),
                refs: field_text(&f, 5),
            };
            let ghost before = out@;
            out.push(e);
            assert(log_views(out@) =~= log_views(before).push(e@));
        }
        i = i + 1;
    }
    assert(ls.take(all.len() as int) =~= ls);
    out
}

/// A file that a commit changed, as a mathematical value.
pub struct ChangeView {
    pub file: Seq<char>,
    pub stats: Seq<char>,
}

/// A file that a commit changed, with the summary of its changes.
#[derive(Debug)]
pub struct ChangedFile {
    pub file: String,
    pub stats: String,
}

/// The view of each changed file of a list.
pub open spec fn change_views(v: Seq<ChangedFile>) -> Seq<ChangeView> {
    v.map_values(|c: ChangedFile| ChangeView { file: c.file@, stats: c.stats@ })
}

/// A commit as it is shown.
#[derive(Debug)]
pub struct CommitInfo {
    pub hash: String,
    pub short_hash: String,
    pub subject: String,
    pub author: String,
    pub email: String,
    pub date: String,
    pub body: String,
    pub files: Vec<ChangedFile>,
}

/// Whether a line of the summary names a changed file: it holds ` | `.
pub open spec fn names_change(line: Seq<char>) -> bool {
    first_at(line, " | "@) < line.len()
}

/// The changed file that a line of the summary names: what stands before
/// the first ` | ` is the file, what stands behind it the summary, both
/// trimmed.
pub open spec fn change_of(line: Seq<char>) -> ChangeView {
    let p = first_at(line, " | "@);
    ChangeView {
        file: trimmed(line.take(p)),
        stats: trimmed(line.skip(p + " | "@.len())),
    }
}

/// The changed files that the lines `all` name.
pub open spec fn changes(all: Seq<Seq<char>>) -> Seq<ChangeView>
    decreases all.len(),
{
    if all.len() == 0 {
        Seq::empty()
    } else if names_change(all.last()) {
        changes(all.drop_last()).push(change_of(all.last()))
    } else {
        changes(all.drop_last())
    }
}

/// The commit that the output `info` shows. Its first line holds seven
/// fields with `|` between them; the lines behind it name the changed
/// files. An output without lines is a failure.
pub fn git_show(info: &str) -> (r: Result<CommitInfo, String>)
    ensures
        match r {
            Ok(c) => {
                let all = lines(info@);
                let f = first_fields(all[0], '|', 7);
                &&& all.len() > 0
                &&& c.hash@ == field(f, 0)
                &&& c.short_hash@ == field(f, 1)
                &&& c.subject@ == field(f, 2)
                &&& c.author@ == field(f, 3)
                &&& c.email@ == field(f, 4)
                &&& c.date@ == field(f, 5)
                &&& c.body@ == trimmed(field(f, 6))
                &&& change_views(c.files@) == changes(all.skip(1))
            },
            Err(e) => lines(info@).len() == 0 && e@ == "empty output"@,
        },
{
    let text = chars_of(info);
    let all = split_lines(&text);
    if all.len() == 0 {
        return Err("empty output".to_owned());
    }
    let ghost ls = rows(all@);
    let f = split_first(&all[0], '|', 7);
    assert(ls[0] == all@[0]@);
    let body = if 6 < f.len() {
        strip_chars(&f[6], CharClass::Space)
    } else {
        let empty: Vec<char> = Vec::new();
        strip_chars(&empty, CharClass::Space)
    };
    assert(rows(f@)[6] == f@[6]@ || f.len() <= 6);
    let mark = chars_of(" | ");
    let mut files: Vec<ChangedFile> = Vec::new();
    let mut i: usize = 1;
    let ghost rest = ls.skip(1);
    assert(change_views(files@) =~= Seq::empty());
    while i < all.len()
        invariant
            1 <= i <= all.len(),
            ls == rows(all@),
            rest == ls.skip(1),
            mark@ == " | "@,
            change_views(files@) == changes(rest.take(i - 1)),
        decreases all.len() - i,
    {
        assert(rest.take(i as int).drop_last() =~= rest.take(i - 1));
        assert(rest.take(i as int).last() == all@[i as int]@);
        let line = &all[i];
        let p = find_text(line, &mark);
        if p < line.len() {
            let head = part(line, 0, p);
            assert(head@ =~= line@.take(p as int));
            let tail = part(line, p + mark.len(), line.len());
            assert(tail@ =~= line@.skip(p + mark@.len()));
            let file = strip_chars(&head, CharClass::Space);
            let stats = strip_chars(&tail, CharClass::Space);
            let c = ChangedFile { file: text_of(&file), stats: text_of(&stats) };
            let ghost before = files@;
            files.push(c);
            assert(change_views(files@) =~= change_views(before).push(change_of(line@)));
        }
        i = i + 1;
    }
    assert(rest.take(all.len() - 1) =~= rest);
    Ok(
        CommitInfo {
            hash: field_text(&f, 0),
            short_hash: field_text(&f, 1),
            subject: field_text(&f, 2),
            author: field_text(&f, 3),
            email: field_text(&f, 4),
            date: field_text(&f, 5),
            body: text_of(&body),
            files,
        },
    )
}

/// A staged file with the letter of its state, as a mathematical value.
pub struct StagedView {
    pub status: Seq<char>,
    pub path: Seq<char>,
}

/// A staged file with the letter of its state.
#[derive(Debug)]
pub struct StagedFile {
    pub status: String,
    pub path: String,
}

/// The view of each staged file of a list.
pub open spec fn staged_views(v: Seq<StagedFile>) -> Seq<StagedView> {
    v.map_values(|c: StagedFile| StagedView { status: c.status@, path: c.path@ })
}

/// The staged file that a line names: the state stands before the first
/// tab, the path behind it.
pub open spec fn staged_of(line: Seq<char>) -> StagedView {
    let f = first_fields(line, '\t', 2);
    StagedView { status: field(f, 0), path: field(f, 1) }
}

/// The staged files that the lines `all` name; empty lines name none.
pub open spec fn staged_files(all: Seq<Seq<char>>) -> Seq<StagedView>
    decreases all.len(),
{
    if all.len() == 0 {
        Seq::empty()
    } else if all.last().len() > 0 {
        staged_files(all.drop_last()).push(staged_of(all.last()))
    } else {
        staged_files(all.drop_last())
    }
}

/// The staged files of the list `status_out`, one on each line.
pub fn staged_file_list(status_out: &str) -> (r: Vec<StagedFile>)
    ensures
        staged_views(r@) == staged_files(lines(status_out@)),
{
    let text = chars_of(status_out);
    let all = split_lines(&text);
    let mut out: Vec<StagedFile> = Vec::new();
    let mut i: usize = 0;
    let ghost ls = rows(all@);
    assert(staged_views(out@) =~= Seq::empty());
    while i < all.len()
        invariant
            i <= all.len(),
            ls == rows(all@),
            staged_views(out@) == staged_files(ls.take(i as int)),
        decreases all.len() - i,
    {
        assert(ls.take(i + 1).drop_last() =~= ls.take(i as int));
        assert(ls.take(i + 1).last() == all@[i as int]@);
        if all[i].len() > 0 {
            let f = split_first(&all[i], '\t', 2);
            let c = StagedFile { status: field_text(&f, 0), path: field_text(&f, 1) };
            let ghost before = out@;
            out.push(c);
            assert(staged_views(out@) =~= staged_views(before).push(staged_of(all@[i as int]@)));
        }
        i = i + 1;
    }
    assert(ls.take(all.len() as int) =~= ls);
    out
}

/// The most bytes of a staged diff that are handed on.
pub const MAX_DIFF_BYTES: usize = 30720;

/// What is staged: the summary, the diff, and the staged files.
#[derive(Debug)]
pub struct StagedDiff {
    pub stat: String,
    pub diff: String,
    pub files: Vec<StagedFile>,
}

/// What is staged. A diff of more than 30 KiB is cut there and marked as
/// cut. `None` stands for a diff that cannot be cut there, as a character
/// reaches over that place.
pub fn git_staged_diff(stat: String, diff_raw: &str, status_out: &str) -> (r: Option<StagedDiff>)
    ensures
        match r {
            Some(d) => {
                &&& d.stat@ == stat@
                &&& d.diff@ == shortened(
                    diff_raw@,
                    MAX_DIFF_BYTES as nat,
                    "\n... [diff truncated]"@,
                )
                &&& staged_views(d.files@) == staged_files(lines(status_out@))
                &&& byte_len(diff_raw@) > MAX_DIFF_BYTES ==> cuts_at(
                    diff_raw@,
                    MAX_DIFF_BYTES as int,
                )
            },
            None => byte_len(diff_raw@) > MAX_DIFF_BYTES && !cuts_at(
                diff_raw@,
                MAX_DIFF_BYTES as int,
            ),
        },
{
    match shorten(diff_raw, MAX_DIFF_BYTES, "\n... [diff truncated]") {
        Some(diff) => Some(StagedDiff { stat, diff, files: staged_file_list(status_out) }),
        None => None,
    }
}

/// How the branch stands to its upstream.
#[derive(Clone, Copy, Debug, PartialEq, Eq, Structural)]
pub struct SyncStatus {
    pub ahead: i64,
    pub behind: i64,
    pub has_remote: bool,
}

/// The state of a branch for which no upstream is found.
pub fn no_remote() -> (s: SyncStatus)
    ensures
        s == (SyncStatus { ahead: 0, behind: 0, has_remote: false }),
{
    SyncStatus { ahead: 0, behind: 0, has_remote: false }
}

/// The reference to compare with where no upstream is set: the branch of
/// the same name at `origin`. A checkout without a branch has none.
pub fn fallback_upstream(branch: &str) -> (r: Option<String>)
    ensures
        match r {
            Some(u) => branch@.len() > 0 && u@ == "origin/"@ + branch@,
            None => branch@.len() == 0,
        },
{
    if branch.is_empty() {
        None
    } else {
        Some(glue("origin/", branch))
    }
}

/// The range of the commits that the branch has and `upstream` has not.
pub fn ahead_range(upstream: &str) -> (r: String)
    ensures
        r@ == upstream@ + "..HEAD"@,
{
    glue(upstream, "..HEAD")
}

/// The range of the commits that `upstream` has and the branch has not.
pub fn behind_range(upstream: &str) -> (r: String)
    ensures
        r@ == "HEAD.."@ + upstream@,
{
    glue("HEAD..", upstream)
}

/// The count that a run printed: 0 where the run failed or printed no
/// number.
pub open spec fn counted(run: Result<Seq<char>, Seq<char>>) -> i64 {
    match run {
        Ok(s) => match parsed_i64(trimmed(s)) {
            Some(n) => n,
            None => 0,
        },
        Err(_) => 0,
    }
}

/// The count that a run printed.
pub fn commit_count(run: &Result<String, String>) -> (n: i64)
    ensures
        n == counted(
            match *run {
                Ok(s) => Ok(s@),
                Err(e) => Err(e@),
            },
        ),
{
    match run {
        Ok(s) => {
            let text = chars_of(s.as_str());
            let t = strip_chars(&text, CharClass::Space);
            match parse_i64(&t) {
                Some(n) => n,
                None => 0,
            }
        },
        Err(_) => 0,
    }
}

/// How the branch stands to its upstream, from the two counts.
pub fn git_sync_status(ahead: &Result<String, String>, behind: &Result<String, String>) -> (s:
    SyncStatus)
    ensures
        s.has_remote,
        s.ahead == counted(
            match *ahead {
                Ok(t) => Ok(t@),
                Err(e) => Err(e@),
            },
        ),
        s.behind == counted(
            match *behind {
                Ok(t) => Ok(t@),
                Err(e) => Err(e@),
            },
        ),
{
    SyncStatus { ahead: commit_count(ahead), behind: commit_count(behind), has_remote: true }
}

} // verus!
