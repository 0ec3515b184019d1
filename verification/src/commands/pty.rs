//! Terminal sessions as the front end asks for them: a new terminal is a
//! shell on the remote host while a remote session is active, and a local
//! shell in the project directory otherwise.

use crate::commands::ssh::{SSHManager, SessionView};
use crate::pty::{
    local_plan, local_shell, not_found, remote_plan, remote_shell, size_of, PlanView, Platform,
    PtyManager, SpawnPlan, TerminalSize,
};
use vstd::prelude::*;

verus! {

/// How a new terminal is started: on the endpoint of the active session
/// where there is one, and else in the project directory `root`.
pub open spec fn terminal_plan(session: Option<SessionView>, root: Seq<char>, platform: Platform) -> PlanView {
    match session {
        Some(s) => remote_plan(
            s.connection.host,
            s.connection.port,
            s.connection.username,
            s.connection.private_key_path,
            platform,
        ),
        None => local_plan(root, platform),
    }
}

/// How a new terminal is started now.
pub fn pty_spawn(ssh: &SSHManager, root: &str, platform: Platform) -> (plan: SpawnPlan)
    ensures
        plan@ == terminal_plan(ssh.session(), root@, platform),
{
    match ssh.get_active_session_info() {
        Some((host, port, user, key)) => remote_shell(
            host.as_str(),
            port,
            user.as_str(),
            &key,
            platform,
        ),
        None => local_shell(root, platform),
    }
}

/// The handle through which the terminal `id` is written to.
pub fn pty_write<H>(pty: &PtyManager<H>, id: u32) -> (r: Result<&H, String>)
    ensures
        match r {
            Ok(h) => pty.sessions().contains_key(id) && *h == pty.sessions()[id],
            Err(e) => !pty.sessions().contains_key(id) && e@ == not_found(id),
        },
{
    pty.write_input(id)
}

/// The handle of the terminal `id` and the geometry to give it.
pub fn pty_resize<H>(pty: &PtyManager<H>, id: u32, cols: u16, rows: u16) -> (r: Result<
    (&H, TerminalSize),
    String,
>)
    ensures
        match r {
            Ok((h, size)) => {
                &&& pty.sessions().contains_key(id)
                &&& *h == pty.sessions()[id]
                &&& size == size_of(cols, rows)
            },
            Err(e) => !pty.sessions().contains_key(id) && e@ == not_found(id),
        },
{
    pty.resize(id, cols, rows)
}

/// Takes the terminal `id` out of the table and returns its handle.
pub fn pty_kill<H>(pty: &mut PtyManager<H>, id: u32) -> (r: Result<H, String>)
    ensures
        final(pty).upcoming() == old(pty).upcoming(),
        old(pty).valid() ==> final(pty).valid(),
        match r {
            Ok(h) => {
                &&& old(pty).sessions().contains_key(id)
                &&& h == old(pty).sessions()[id]
                &&& final(pty).sessions() == old(pty).sessions().remove(id)
            },
            Err(e) => {
                &&& !old(pty).sessions().contains_key(id)
                &&& e@ == not_found(id)
                &&& final(pty).sessions() == old(pty).sessions()
            },
        },
{
    pty.kill(id)
}

} // verus!
