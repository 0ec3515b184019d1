//! Running one command on a remote host: the arguments handed to the
//! secure-shell client, the command line of each remote operation, and what
//! the finished process means.

use crate::commands::ssh::{
    opt_session, opt_text, ActiveSession, Endpoint, SSHConnection, SessionView,
};
use crate::number::{decimal, decimal_of};
use crate::shell::{push_quoted, push_text, quoted};
use crate::text::{chars_of, joined, same_text, text_of, texts};
use vstd::prelude::*;

verus! {

/// Appends one argument.
pub fn push_arg(args: &mut Vec<String>, s: String)
    ensures
        texts(final(args)@) == texts(old(args)@).push(s@),
{
    args.push(s);
    assert(texts(args@) =~= texts(old(args)@).push(s@));
}

/// The arguments of the secure-shell client for the endpoint `c`: the
/// port; new host keys accepted without a question; a connection timeout
/// of 30 seconds; batch mode only where the endpoint asks for key
/// authentication, so that `auto` may still fall back to a password; the
/// identity file where one is set; `user@host`; and the command, if any.
pub open spec fn ssh_args(c: Endpoint, command: Option<Seq<char>>) -> Seq<Seq<char>> {
    seq![
        "-p"@,
        decimal(c.port as nat),
        "-o"@,
        "StrictHostKeyChecking=accept-new"@,
        "-o"@,
        "ConnectTimeout=30"@,
    ] + (if c.auth_type == "key"@ {
        seq!["-o"@, "BatchMode=yes"@]
    } else {
        Seq::empty()
    }) + (match c.private_key_path {
        Some(k) => seq!["-i"@, k],
        None => Seq::empty(),
    }) + seq![c.username + "@"@ + c.host] + (match command {
        Some(cmd) => seq![cmd],
        None => Seq::empty(),
    })
}

/// The view of a command that may be absent.
pub open spec fn opt_str(o: Option<&str>) -> Option<Seq<char>> {
    match o {
        Some(s) => Some(s@),
        None => None,
    }
}

/// The arguments of the secure-shell client for `conn` and `command`.
pub fn build_ssh_args(conn: &SSHConnection, command: Option<&str>) -> (args: Vec<String>)
    ensures
        texts(args@) == ssh_args(conn@, opt_str(command)),
{
    let mut args: Vec<String> = Vec::new();
    assert(texts(args@) =~= Seq::empty());
    push_arg(&mut args, "-p".to_owned());
    let port = decimal_of(conn.port as u64);
    push_arg(&mut args, text_of(&port));
    push_arg(&mut args, "-o".to_owned());
    push_arg(&mut args, "StrictHostKeyChecking=accept-new".to_owned());
    push_arg(&mut args, "-o".to_owned());
    push_arg(&mut args, "ConnectTimeout=30".to_owned());
    if same_text(conn.auth_type.as_str(), "key") {
        push_arg(&mut args, "-o".to_owned());
        push_arg(&mut args, "BatchMode=yes".to_owned());
    }
    match &conn.private_key_path {
        Some(k) => {
            push_arg(&mut args, "-i".to_owned());
            push_arg(&mut args, k.clone());
        },
        None => {},
    }
    let mut target = chars_of(conn.username.as_str());
    push_text(&mut target, "@");
    push_text(&mut target, conn.host.as_str());
    push_arg(&mut args, text_of(&target));
    match command {
        Some(cmd) => {
            push_arg(&mut args, cmd.to_owned());
        },
        None => {},
    }
    assert(texts(args@) =~= ssh_args(conn@, opt_str(command)));
    args
}

/// What a finished remote command means. Success gives what the command
/// wrote to its output. Failure gives what it wrote to its error stream, and
/// a fixed message where it wrote nothing there: a caller can always tell a
/// command without output from one that failed.
pub open spec fn outcome(success: bool, stdout: Seq<char>, stderr: Seq<char>) -> Result<
    Seq<char>,
    Seq<char>,
> {
    if success {
        Ok(stdout)
    } else if stderr.len() == 0 {
        Err("命令执行失败"@)
    } else {
        Err(stderr)
    }
}

/// What a finished remote command means.
pub fn command_outcome(success: bool, stdout: String, stderr: String) -> (r: Result<
    String,
    String,
>)
    ensures
        match r {
            Ok(s) => outcome(success, stdout@, stderr@) == Ok::<Seq<char>, Seq<char>>(s@),
            Err(e) => outcome(success, stdout@, stderr@) == Err::<Seq<char>, Seq<char>>(e@),
        },
{
    if success {
        Ok(stdout)
    } else if stderr.as_str().is_empty() {
        Err("命令执行失败".to_owned())
    } else {
        Err(stderr)
    }
}

/// A process to run, as a mathematical value.
pub struct CallView {
    pub program: Seq<char>,
    pub args: Seq<Seq<char>>,
    pub input: Option<Seq<char>>,
}

/// A process to run: the program, its arguments, and what to write to its
/// input before the input is closed.
#[derive(Debug)]
pub struct RemoteCall {
    pub program: String,
    pub args: Vec<String>,
    pub input: Option<String>,
}

impl View for RemoteCall {
    type V = CallView;

    open spec fn view(&self) -> CallView {
        CallView { program: self.program@, args: texts(self.args@), input: opt_text(self.input) }
    }
}

/// The call that runs `command` on the endpoint `c` with `input`.
pub open spec fn ssh_call(c: Endpoint, command: Seq<char>, input: Option<Seq<char>>) -> CallView {
    CallView { program: "ssh"@, args: ssh_args(c, Some(command)), input }
}

/// The call that runs `command` on the endpoint `conn` with `input`.
pub fn run_ssh_command(conn: &SSHConnection, command: &str, input: Option<String>) -> (r:
    RemoteCall)
    ensures
        r@ == ssh_call(conn@, command@, opt_text(input)),
{
    RemoteCall { program: "ssh".to_owned(), args: build_ssh_args(conn, Some(command)), input }
}

/// An operation on the remote host, as a mathematical value.
pub enum OpView {
    FileTree(Seq<char>),
    ReadFile(Seq<char>),
    WriteFile(Seq<char>, Seq<char>),
    CreateDir(Seq<char>),
    DeleteFile(Seq<char>),
    DeleteDir(Seq<char>),
    Rename(Seq<char>, Seq<char>),
    GitStatus,
    GitLog,
    GitBranches,
    GitStage(Seq<Seq<char>>),
    GitCommit(Seq<char>),
}

/// An operation on the remote host. Each one is a single command line for
/// the remote shell.
#[derive(Debug)]
pub enum RemoteOp {
    /// Lists the directory with the given absolute path.
    FileTree(String),
    /// Reads the file.
    ReadFile(String),
    /// Writes the content, the second text, to the file.
    WriteFile(String, String),
    /// Creates the directory and the directories above it.
    CreateDir(String),
    /// Removes the file.
    DeleteFile(String),
    /// Removes the directory with all that is in it.
    DeleteDir(String),
    /// Moves the first path to the second.
    Rename(String, String),
    /// The state of the work tree in the working directory.
    GitStatus,
    /// The last 50 commits in the working directory.
    GitLog,
    /// The branches in the working directory.
    GitBranches,
    /// Stages the paths in the working directory.
    GitStage(Vec<String>),
    /// Commits with the message in the working directory.
    GitCommit(String),
}

impl View for RemoteOp {
    type V = OpView;

    open spec fn view(&self) -> OpView {
        match self {
            RemoteOp::FileTree(p) => OpView::FileTree(p@),
            RemoteOp::ReadFile(p) => OpView::ReadFile(p@),
            RemoteOp::WriteFile(p, c) => OpView::WriteFile(p@, c@),
            RemoteOp::CreateDir(p) => OpView::CreateDir(p@),
            RemoteOp::DeleteFile(p) => OpView::DeleteFile(p@),
            RemoteOp::DeleteDir(p) => OpView::DeleteDir(p@),
            RemoteOp::Rename(a, b) => OpView::Rename(a@, b@),
            RemoteOp::GitStatus => OpView::GitStatus,
            RemoteOp::GitLog => OpView::GitLog,
            RemoteOp::GitBranches => OpView::GitBranches,
            RemoteOp::GitStage(v) => OpView::GitStage(texts(v@)),
            RemoteOp::GitCommit(m) => OpView::GitCommit(m@),
        }
    }
}

/// Whether the operation runs in the session's working directory.
pub open spec fn in_working_dir(op: OpView) -> bool {
    op is GitStatus || op is GitLog || op is GitBranches || op is GitStage || op is GitCommit
}

/// The directory change that stands before a command that runs in `dir`.
pub open spec fn enter(dir: Seq<char>) -> Seq<char> {
    "cd "@ + quoted(dir) + " && "@
}

/// Each text of `paths` as one word of a shell command.
pub open spec fn quoted_all(paths: Seq<Seq<char>>) -> Seq<Seq<char>> {
    paths.map_values(|p: Seq<char>| quoted(p))
}

/// The command line of the operation `op`, where `dir` is the working
/// directory.
pub open spec fn command_text(op: OpView, dir: Seq<char>) -> Seq<char> {
    match op {
        OpView::FileTree(p) => "ls -la "@ + quoted(p) + " 2>/dev/null | tail -n +2"@,
        OpView::ReadFile(p) => "cat "@ + quoted(p),
        OpView::WriteFile(p, _) => "cat > "@ + quoted(p),
        OpView::CreateDir(p) => "mkdir -p "@ + quoted(p),
        OpView::DeleteFile(p) => "rm -f "@ + quoted(p),
        OpView::DeleteDir(p) => "rm -rf "@ + quoted(p),
        OpView::Rename(a, b) => "mv "@ + quoted(a) + " "@ + quoted(b),
        OpView::GitStatus => enter(dir) + "git status --porcelain"@,
        OpView::GitLog => enter(dir)
            + "git log --oneline -50 --pretty=format:'%H|%h|%s|%an|%ar'"@,
        OpView::GitBranches => enter(dir) + "git branch -a"@,
        OpView::GitStage(paths) => enter(dir) + "git add "@ + joined(quoted_all(paths), " "@),
        OpView::GitCommit(m) => enter(dir) + "git commit -m "@ + quoted(m),
    }
}

/// What the operation writes to the input of the remote command.
pub open spec fn payload(op: OpView) -> Option<Seq<char>> {
    match op {
        OpView::WriteFile(_, content) => Some(content),
        _ => None,
    }
}

/// Appends the directory change for `dir`.
pub fn push_enter(out: &mut Vec<char>, dir: &str)
    ensures
        final(out)@ == old(out)@ + enter(dir@),
{
    push_text(out, "cd ");
    push_quoted(out, dir);
    push_text(out, " && ");
    assert(out@ =~= old(out)@ + enter(dir@));
}

/// Appends the paths, each as one word, with a blank between each two.
pub fn push_quoted_all(out: &mut Vec<char>, paths: &Vec<String>)
    ensures
        final(out)@ == old(out)@ + joined(quoted_all(texts(paths@)), " "@),
{
    let ghost all = quoted_all(texts(paths@));
    let mut i: usize = 0;
    assert(out@ =~= old(out)@ + joined(all.take(0), " "@));
    while i < paths.len()
        invariant
            i <= paths.len(),
            all == quoted_all(texts(paths@)),
            out@ == old(out)@ + joined(all.take(i as int), " "@),
        decreases paths.len() - i,
    {
        assert(all.take(i + 1).drop_last() =~= all.take(i as int));
        assert(all.take(i + 1).last() == quoted(paths@[i as int]@));
        if i > 0 {
            push_text(out, " ");
        }
        push_quoted(out, paths[i].as_str());
        assert(out@ =~= old(out)@ + joined(all.take(i + 1), " "@));
        i = i + 1;
    }
    assert(all.take(paths.len() as int) =~= all);
}

/// The command line of the operation `op`, where `dir` is the working
/// directory.
pub fn command_for(op: &RemoteOp, dir: &str) -> (r: String)
    ensures
        r@ == command_text(op@, dir@),
{
    let mut out: Vec<char> = Vec::new();
    match op {
        RemoteOp::FileTree(p) => {
            push_text(&mut out, "ls -la ");
            push_quoted(&mut out, p.as_str());
            push_text(&mut out, " 2>/dev/null | tail -n +2");
        },
        RemoteOp::ReadFile(p) => {
            push_text(&mut out, "cat ");
            push_quoted(&mut out, p.as_str());
        },
        RemoteOp::WriteFile(p, _) => {
            push_text(&mut out, "cat > ");
            push_quoted(&mut out, p.as_str());
        },
        RemoteOp::CreateDir(p) => {
            push_text(&mut out, "mkdir -p ");
            push_quoted(&mut out, p.as_str());
        },
        RemoteOp::DeleteFile(p) => {
            push_text(&mut out, "rm -f ");
            push_quoted(&mut out, p.as_str());
        },
        RemoteOp::DeleteDir(p) => {
            push_text(&mut out, "rm -rf ");
            push_quoted(&mut out, p.as_str());
        },
        RemoteOp::Rename(a, b) => {
            push_text(&mut out, "mv ");
            push_quoted(&mut out, a.as_str());
            push_text(&mut out, " ");
            push_quoted(&mut out, b.as_str());
        },
        RemoteOp::GitStatus => {
            push_enter(&mut out, dir);
            push_text(&mut out, "git status --porcelain");
        },
        RemoteOp::GitLog => {
            push_enter(&mut out, dir);
            push_text(&mut out, "git log --oneline -50 --pretty=format:'%H|%h|%s|%an|%ar'");
        },
        RemoteOp::GitBranches => {
            push_enter(&mut out, dir);
            push_text(&mut out, "git branch -a");
        },
        RemoteOp::GitStage(paths) => {
            push_enter(&mut out, dir);
            push_text(&mut out, "git add ");
            push_quoted_all(&mut out, paths);
        },
        RemoteOp::GitCommit(m) => {
            push_enter(&mut out, dir);
            push_text(&mut out, "git commit -m ");
            push_quoted(&mut out, m.as_str());
        },
    }
    assert(out@ =~= command_text(op@, dir@));
    text_of(&out)
}

/// What asking for the operation `op` comes to. Without an active session
/// it fails. An operation that runs in the working directory fails where
/// the session has none. Otherwise it is one call of the secure-shell
/// client on the session's endpoint.
pub open spec fn planned(session: Option<SessionView>, op: OpView) -> Result<CallView, Seq<char>> {
    match session {
        None => Err("No active SSH connection"@),
        Some(s) => if in_working_dir(op) {
            match s.working_dir {
                None => Err("No working directory set"@),
                Some(dir) => Ok(ssh_call(s.connection, command_text(op, dir), payload(op))),
            }
        } else {
            Ok(ssh_call(s.connection, command_text(op, Seq::empty()), payload(op)))
        },
    }
}

/// Whether `r` is the result `p`, seen through the views.
pub open spec fn plans(r: Result<RemoteCall, String>, p: Result<CallView, Seq<char>>) -> bool {
    match r {
        Ok(c) => p == Ok::<CallView, Seq<char>>(c@),
        Err(e) => p == Err::<CallView, Seq<char>>(e@),
    }
}

/// The call that carries out `op` in the session `session`.
pub fn plan(session: &Option<ActiveSession>, op: &RemoteOp) -> (r: Result<RemoteCall, String>)
    ensures
        plans(r, planned(opt_session(*session), op@)),
{
    let s = match session {
        Some(s) => s,
        None => {
            return Err("No active SSH connection".to_owned());
        },
    };
    let runs_in_dir = match op {
        RemoteOp::GitStatus => true,
        RemoteOp::GitLog => true,
        RemoteOp::GitBranches => true,
        RemoteOp::GitStage(_) => true,
        RemoteOp::GitCommit(_) => true,
        _ => false,
    };
    let input = match op {
        RemoteOp::WriteFile(_, content) => Some(content.clone()),
        _ => None,
    };
    if runs_in_dir {
        match &s.working_dir {
            None => Err("No working directory set".to_owned()),
            Some(dir) => {
                let command = command_for(op, dir.as_str());
                Ok(run_ssh_command(&s.connection, command.as_str(), input))
            },
        }
    } else {
        let command = command_for(op, "");
        proof {
            reveal_strlit("");
            assert(""@ =~= Seq::<char>::empty());
        }
        Ok(run_ssh_command(&s.connection, command.as_str(), input))
    }
}

} // verus!
