//! Remote endpoints, the registry that holds them, and the one remote
//! session that may be active.

use crate::number::wide_signed_decimal_of;
use crate::order::{indices, rank, sort_keys, RankKey};
use crate::registry::{
    delete_outcome, drafted, first_free, ids, imported, imported_endpoint, known, listing,
    manual_id, manual_part, masked, removal_keeps_valid, restored, restored_keeps_valid, revised,
    revision_keeps_valid, slot, sort_key, taken_from, taken_is_bounded, taken_shrinks,
    update_outcome, upsert, upsert_keeps_valid, valid_registry, Changes, Draft,
};
use crate::remote::{
    build_ssh_args, plan, planned, plans, ssh_args, ssh_call, CallView, OpView, RemoteCall,
    RemoteOp,
};
use crate::scan::first_is_position;
use crate::text::{
    chars_of, extend, glue, same_text, strip_chars, text_of, texts, trimmed, CharClass,
};
use crate::tree::{listing_path, path_to_list};
use vstd::prelude::*;

verus! {

/// The view of a text that may be absent.
pub open spec fn opt_text(o: Option<String>) -> Option<Seq<char>> {
    match o {
        Some(s) => Some(s@),
        None => None,
    }
}

/// A copy of a text that may be absent.
pub fn copy_opt(o: &Option<String>) -> (r: Option<String>)
    ensures
        r == *o,
{
    match o {
        Some(s) => Some(s.clone()),
        None => None,
    }
}

/// A remote endpoint as a mathematical value.
pub struct Endpoint {
    pub id: Seq<char>,
    pub name: Seq<char>,
    pub host: Seq<char>,
    pub port: u16,
    pub username: Seq<char>,
    pub auth_type: Seq<char>,
    pub private_key_path: Option<Seq<char>>,
    pub password: Option<Seq<char>>,
    pub source: Seq<char>,
}

/// A remote endpoint: where to connect, as whom, and how to authenticate.
/// `source` is `config` for an endpoint read from the host's secure-shell
/// configuration, which is read-only, and `manual` for one that the user
/// added.
#[derive(Debug)]
pub struct SSHConnection {
    pub id: String,
    pub name: String,
    pub host: String,
    pub port: u16,
    pub username: String,
    pub auth_type: String,
    pub private_key_path: Option<String>,
    pub password: Option<String>,
    pub source: String,
}

impl View for SSHConnection {
    type V = Endpoint;

    open spec fn view(&self) -> Endpoint {
        Endpoint {
            id: self.id@,
            name: self.name@,
            host: self.host@,
            port: self.port,
            username: self.username@,
            auth_type: self.auth_type@,
            private_key_path: opt_text(self.private_key_path),
            password: opt_text(self.password),
            source: self.source@,
        }
    }
}

impl Clone for SSHConnection {
    fn clone(&self) -> (r: Self)
        ensures
            r == *self,
    {
        SSHConnection {
            id: self.id.clone(),
            name: self.name.clone(),
            host: self.host.clone(),
            port: self.port,
            username: self.username.clone(),
            auth_type: self.auth_type.clone(),
            private_key_path: copy_opt(&self.private_key_path),
            password: copy_opt(&self.password),
            source: self.source.clone(),
        }
    }
}

/// The state of the remote session as reported to the front end.
#[derive(Debug)]
pub struct SSHSession {
    pub connection_id: String,
    pub status: String,
    pub last_error: Option<String>,
    pub connected_at: Option<String>,
}

/// A host block of the secure-shell configuration as a mathematical value.
pub struct HostEntry {
    pub name: Seq<char>,
    pub host: Seq<char>,
    pub port: u16,
    pub username: Seq<char>,
    pub identity_file: Option<Seq<char>>,
}

/// One host block of the secure-shell configuration.
#[derive(Debug)]
pub struct SSHConfigHost {
    pub name: String,
    pub host: String,
    pub port: u16,
    pub username: String,
    pub identity_file: Option<String>,
}

impl View for SSHConfigHost {
    type V = HostEntry;

    open spec fn view(&self) -> HostEntry {
        HostEntry {
            name: self.name@,
            host: self.host@,
            port: self.port,
            username: self.username@,
            identity_file: opt_text(self.identity_file),
        }
    }
}

impl Clone for SSHConfigHost {
    fn clone(&self) -> (r: Self)
        ensures
            r == *self,
    {
        SSHConfigHost {
            name: self.name.clone(),
            host: self.host.clone(),
            port: self.port,
            username: self.username.clone(),
            identity_file: copy_opt(&self.identity_file),
        }
    }
}

/// The view of each host block of a list.
pub open spec fn host_entries(v: Seq<SSHConfigHost>) -> Seq<HostEntry> {
    v.map_values(|h: SSHConfigHost| h@)
}

/// The active remote session as a mathematical value.
pub struct SessionView {
    pub connection_id: Seq<char>,
    pub connection: Endpoint,
    pub working_dir: Option<Seq<char>>,
}

/// The one remote session that is active: the endpoint it is connected to
/// and the directory in which remote commands are to run. The directory is
/// kept on this side only: every remote command is a new process.
#[derive(Debug)]
pub struct ActiveSession {
    pub connection_id: String,
    pub connection: SSHConnection,
    pub working_dir: Option<String>,
}

impl View for ActiveSession {
    type V = SessionView;

    open spec fn view(&self) -> SessionView {
        SessionView {
            connection_id: self.connection_id@,
            connection: self.connection@,
            working_dir: opt_text(self.working_dir),
        }
    }
}

/// The view of a session that may be absent.
pub open spec fn opt_session(o: Option<ActiveSession>) -> Option<SessionView> {
    match o {
        Some(s) => Some(s@),
        None => None,
    }
}

/// The view of each endpoint of a list.
pub open spec fn endpoints_of(v: Seq<SSHConnection>) -> Seq<Endpoint> {
    v.map_values(|c: SSHConnection| c@)
}

/// The place of the endpoint with the identifier `id`; the length of the
/// list where there is none.
pub fn find_slot(conns: &Vec<SSHConnection>, id: &str) -> (r: usize)
    ensures
        r == slot(endpoints_of(conns@), id@),
        r <= conns.len(),
        r < conns.len() ==> conns@[r as int].id@ == id@,
{
    let mut i: usize = 0;
    let ghost all = ids(endpoints_of(conns@));
    while i < conns.len() && !same_text(conns[i].id.as_str(), id)
        invariant
            i <= conns.len(),
            all == ids(endpoints_of(conns@)),
            forall|j: int| 0 <= j < i ==> all[j] != id@,
        decreases conns.len() - i,
    {
        i = i + 1;
    }
    proof {
        first_is_position(all, id@, i as int);
    }
    i
}

/// Puts `c` in the place of the endpoint that has its identifier, or at the
/// end where there is none.
pub fn put(conns: &mut Vec<SSHConnection>, c: SSHConnection)
    ensures
        endpoints_of(final(conns)@) == upsert(endpoints_of(old(conns)@), c@),
{
    let k = find_slot(conns, c.id.as_str());
    if k < conns.len() {
        conns[k] = c;
        assert(endpoints_of(conns@) =~= endpoints_of(old(conns)@).update(k as int, c@));
    } else {
        conns.push(c);
        assert(endpoints_of(conns@) =~= endpoints_of(old(conns)@).push(c@));
    }
}

/// The registry of remote endpoints, with the one session that may be
/// active.
pub struct SSHManager {
    connections: Vec<SSHConnection>,
    active_session: Option<ActiveSession>,
}

impl SSHManager {
    /// The endpoints of the registry, in the order in which they came.
    pub closed spec fn endpoints(&self) -> Seq<Endpoint> {
        endpoints_of(self.connections@)
    }

    /// The active session, if there is one.
    pub closed spec fn session(&self) -> Option<SessionView> {
        opt_session(self.active_session)
    }

    /// A registry that holds one read-only endpoint for each host block of
    /// the configuration, and no session.
    pub fn new(hosts: Vec<SSHConfigHost>) -> (m: Self)
        ensures
            m.endpoints() == imported(host_entries(hosts@)),
            m.session() is None,
            valid_registry(m.endpoints()),
    {
        let mut connections: Vec<SSHConnection> = Vec::new();
        let mut i: usize = 0;
        let ghost all = host_entries(hosts@);
        assert(endpoints_of(connections@) =~= Seq::empty());
        while i < hosts.len()
            invariant
                i <= hosts.len(),
                all == host_entries(hosts@),
                endpoints_of(connections@) == imported(all.take(i as int)),
                valid_registry(endpoints_of(connections@)),
            decreases hosts.len() - i,
        {
            let h = &hosts[i];
            let c = SSHConnection {
                id: glue("config-", h.name.as_str()),
                name: h.name.clone(),
                host: h.host.clone(),
                port: h.port,
                username: h.username.clone(),
                auth_type: "auto".to_owned(),
                private_key_path: copy_opt(&h.identity_file),
                password: None,
                source: "config".to_owned(),
            };
            assert(all.take(i + 1).drop_last() =~= all.take(i as int));
            assert(all.take(i + 1).last() == h@);
            assert(c@ == imported_endpoint(h@));
            proof {
                assert("config-"@.is_prefix_of(c@.id)) by {
                    assert(c@.id.subrange(0, "config-"@.len() as int) =~= "config-"@);
                }
                upsert_keeps_valid(endpoints_of(connections@), c@);
            }
            put(&mut connections, c);
            i = i + 1;
        }
        assert(all.take(hosts.len() as int) =~= all);
        SSHManager { connections, active_session: None }
    }

    /// Host, port, user and key file of the active session's endpoint: what
    /// a terminal on the remote host is started with.
    pub fn get_active_session_info(&self) -> (r: Option<(String, u16, String, Option<String>)>)
        ensures
            match self.session() {
                Some(s) => r matches Some((host, port, user, key)) && host@ == s.connection.host
                    && port == s.connection.port && user@ == s.connection.username && opt_text(
                    key,
                ) == s.connection.private_key_path,
                None => r is None,
            },
    {
        match &self.active_session {
            Some(s) => Some(
                (
                    s.connection.host.clone(),
                    s.connection.port,
                    s.connection.username.clone(),
                    copy_opt(&s.connection.private_key_path),
                ),
            ),
            None => None,
        }
    }

    /// The working directory of the active session.
    pub fn get_working_dir(&self) -> (r: Option<String>)
        ensures
            opt_text(r) == match self.session() {
                Some(s) => s.working_dir,
                None => None,
            },
    {
        match &self.active_session {
            Some(s) => copy_opt(&s.working_dir),
            None => None,
        }
    }

    /// Makes `dir` the working directory of the active session. Without a
    /// session it fails and changes nothing.
    pub fn set_working_dir(&mut self, dir: String) -> (r: Result<(), String>)
        ensures
            final(self).endpoints() == old(self).endpoints(),
            match old(self).session() {
                Some(s) => r is Ok && final(self).session() == Some(
                    (SessionView { working_dir: Some(dir@), ..s }),
                ),
                None => {
                    &&& r matches Err(e) && e@ == "No active SSH session"@
                    &&& final(self).session() is None
                },
            },
    {
        match self.active_session.take() {
            Some(s) => {
                let mut s = s;
                s.working_dir = Some(dir);
                self.active_session = Some(s);
                Ok(())
            },
            None => Err("No active SSH session".to_owned()),
        }
    }
}

/// The endpoints of the registry as they are listed.
pub fn ssh_get_connections(manager: &SSHManager) -> (r: Result<Vec<SSHConnection>, String>)
    ensures
        r matches Ok(v) && endpoints_of(v@) == listing(manager.endpoints()),
{
    let conns = &manager.connections;
    let ghost eps = endpoints_of(conns@);
    let mut keys: Vec<RankKey> = Vec::new();
    let mut i: usize = 0;
    while i < conns.len()
        invariant
            i <= conns.len(),
            eps == endpoints_of(conns@),
            keys.len() == i,
            forall|j: int| 0 <= j < i ==> (#[trigger] keys@[j])@ == sort_key(eps[j]),
        decreases conns.len() - i,
    {
        let late = !same_text(conns[i].source.as_str(), "config");
        keys.push(RankKey { late, name: chars_of(conns[i].name.as_str()) });
        i = i + 1;
    }
    assert(sort_keys(keys@) =~= eps.map_values(|e: Endpoint| sort_key(e)));
    let order = rank(&keys);
    let mut out: Vec<SSHConnection> = Vec::new();
    let mut j: usize = 0;
    while j < order.len()
        invariant
            j <= order.len(),
            order.len() == conns.len(),
            eps == endpoints_of(conns@),
            forall|k: int| 0 <= k < order.len() ==> order@[k] < conns.len(),
            out.len() == j,
            forall|k: int| 0 <= k < j ==> (#[trigger] out@[k])@ == masked(eps[order@[k] as int]),
        decreases order.len() - j,
    {
        let mut c = conns[order[j]].clone();
        if c.password.is_some() {
            c.password = Some("••••••••".to_owned());
        }
        out.push(c);
        j = j + 1;
    }
    assert(endpoints_of(out@) =~= indices(order@).map_values(|i: int| masked(eps[i])));
    Ok(out)
}

/// The identifier that the stamp `s` makes.
pub fn manual_id_text(s: i128) -> (id: String)
    ensures
        id@ == manual_id(s as int),
{
    let mut id = chars_of("manual-");
    let digits = wide_signed_decimal_of(s);
    extend(&mut id, &digits);
    text_of(&id)
}

/// The first stamp from `stamp` on whose identifier no endpoint of `conns`
/// has, with that identifier.
pub fn free_stamp(conns: &Vec<SSHConnection>, stamp: i64) -> (r: (i128, String))
    ensures
        first_free(endpoints_of(conns@), stamp as int, r.0 as int),
        r.1@ == manual_id(r.0 as int),
{
    let ghost eps = endpoints_of(conns@);
    let mut s: i128 = stamp as i128;
    let mut id = manual_id_text(s);
    let mut k = find_slot(conns, id.as_str());
    proof {
        taken_is_bounded(eps, stamp as int);
    }
    while k < conns.len()
        invariant
            eps == endpoints_of(conns@),
            stamp <= s,
            id@ == manual_id(s as int),
            k == slot(eps, id@),
            k < conns.len() ==> conns@[k as int].id@ == id@,
            s - stamp + taken_from(eps, s as int) <= conns.len(),
            forall|t: int| stamp <= t < s ==> known(eps, #[trigger] manual_id(t)),
        decreases taken_from(eps, s as int),
    {
        proof {
            assert(eps[k as int].id == manual_id(s as int));
            taken_shrinks(eps, s as int, k as int);
        }
        s = s + 1;
        id = manual_id_text(s);
        k = find_slot(conns, id.as_str());
    }
    (s, id)
}

/// Adds the endpoint that the user's entries make at the time `stamp` and
/// returns it. Its identifier is made from the time, or, where an endpoint
/// has that identifier already, from the first number behind it whose
/// identifier is free: adding never takes the place of an endpoint.
pub fn add_connection_at(
    manager: &mut SSHManager,
    stamp: i64,
    name: String,
    host: String,
    port: Option<u16>,
    username: String,
    auth_type: String,
    private_key_path: Option<String>,
    password: Option<String>,
) -> (c: SSHConnection)
    ensures
        exists|s: int|
            #[trigger] first_free(old(manager).endpoints(), stamp as int, s) && c@ == drafted(
                s,
                (Draft {
                    name: name@,
                    host: host@,
                    port,
                    username: username@,
                    auth_type: auth_type@,
                    private_key_path: opt_text(private_key_path),
                    password: opt_text(password),
                }),
            ),
        !known(old(manager).endpoints(), c@.id),
        final(manager).endpoints() == old(manager).endpoints().push(c@),
        final(manager).session() == old(manager).session(),
        valid_registry(old(manager).endpoints()) ==> valid_registry(final(manager).endpoints()),
{
    let (s, id) = free_stamp(&manager.connections, stamp);
    let c = SSHConnection {
        id,
        name,
        host,
        port: match port {
            Some(p) => p,
            None => 22,
        },
        username,
        auth_type,
        private_key_path,
        password,
        source: "manual".to_owned(),
    };
    proof {
        assert(first_free(old(manager).endpoints(), stamp as int, s as int));
        assert("manual-"@.is_prefix_of(c@.id)) by {
            assert(c@.id.subrange(0, "manual-"@.len() as int) =~= "manual-"@);
        }
        assert(upsert(manager.endpoints(), c@) == manager.endpoints().push(c@));
        if valid_registry(manager.endpoints()) {
            upsert_keeps_valid(manager.endpoints(), c@);
        }
    }
    let added = c.clone();
    manager.connections.push(c);
    assert(endpoints_of(manager.connections@) =~= endpoints_of(old(manager).connections@).push(
        added@,
    ));
    added
}

/// `chrono::Utc::now` reads the system clock and
/// `DateTime::timestamp_millis` gives the milliseconds from 1970 to that
/// moment. Nothing is stated of the number. The call does not return where
/// the clock stands before 1970.
#[verifier::external_body]
fn now_millis() -> (stamp: i64) {
    chrono::Utc::now().timestamp_millis()
}

/// Adds a user's endpoint and returns it. Its identifier is made from the
/// time of the call, or from the first number behind it whose identifier is
/// free: the registry grows by this one endpoint and loses none.
pub fn ssh_add_connection(
    manager: &mut SSHManager,
    name: String,
    host: String,
    port: Option<u16>,
    username: String,
    auth_type: String,
    private_key_path: Option<String>,
    password: Option<String>,
) -> (r: Result<SSHConnection, String>)
    ensures
        r matches Ok(c) && !known(old(manager).endpoints(), c@.id) && final(manager).endpoints()
            == old(manager).endpoints().push(c@) && (exists|s: int|
            c@ == #[trigger] drafted(
                s,
                (Draft {
                    name: name@,
                    host: host@,
                    port,
                    username: username@,
                    auth_type: auth_type@,
                    private_key_path: opt_text(private_key_path),
                    password: opt_text(password),
                }),
            )),
        final(manager).session() == old(manager).session(),
        valid_registry(old(manager).endpoints()) ==> valid_registry(final(manager).endpoints()),
{
    let stamp = now_millis();
    Ok(
        add_connection_at(
            manager,
            stamp,
            name,
            host,
            port,
            username,
            auth_type,
            private_key_path,
            password,
        ),
    )
}

/// Replaces the fields that are given of the endpoint `id`, which must be
/// one that the user added, and returns the endpoint as it then is.
pub fn ssh_update_connection(
    manager: &mut SSHManager,
    id: String,
    name: Option<String>,
    host: Option<String>,
    port: Option<u16>,
    username: Option<String>,
    auth_type: Option<String>,
    private_key_path: Option<String>,
    password: Option<String>,
) -> (r: Result<SSHConnection, String>)
    ensures
        match r {
            Ok(c) => {
                &&& update_outcome(
                    old(manager).endpoints(),
                    id@,
                    (Changes {
                        name: opt_text(name),
                        host: opt_text(host),
                        port,
                        username: opt_text(username),
                        auth_type: opt_text(auth_type),
                        private_key_path: opt_text(private_key_path),
                        password: opt_text(password),
                    }),
                ) == Ok::<Seq<Endpoint>, Seq<char>>(final(manager).endpoints())
                &&& c@ == final(manager).endpoints()[slot(old(manager).endpoints(), id@)]
            },
            Err(e) => {
                &&& update_outcome(
                    old(manager).endpoints(),
                    id@,
                    (Changes {
                        name: opt_text(name),
                        host: opt_text(host),
                        port,
                        username: opt_text(username),
                        auth_type: opt_text(auth_type),
                        private_key_path: opt_text(private_key_path),
                        password: opt_text(password),
                    }),
                ) == Err::<Seq<Endpoint>, Seq<char>>(e@)
                &&& final(manager).endpoints() == old(manager).endpoints()
            },
        },
        final(manager).session() == old(manager).session(),
        valid_registry(old(manager).endpoints()) ==> valid_registry(final(manager).endpoints()),
{
    let k = find_slot(&manager.connections, id.as_str());
    if k >= manager.connections.len() {
        return Err("Connection not found".to_owned());
    }
    let cur = &manager.connections[k];
    if !same_text(cur.source.as_str(), "manual") {
        return Err("Cannot modify config-based connection".to_owned());
    }
    let ghost ch = Changes {
        name: opt_text(name),
        host: opt_text(host),
        port,
        username: opt_text(username),
        auth_type: opt_text(auth_type),
        private_key_path: opt_text(private_key_path),
        password: opt_text(password),
    };
    let next = SSHConnection {
        id: cur.id.clone(),
        name: match name {
            Some(n) => n,
            None => cur.name.clone(),
        },
        host: match host {
            Some(h) => h,
            None => cur.host.clone(),
        },
        port: match port {
            Some(p) => p,
            None => cur.port,
        },
        username: match username {
            Some(u) => u,
            None => cur.username.clone(),
        },
        auth_type: match auth_type {
            Some(a) => a,
            None => cur.auth_type.clone(),
        },
        private_key_path: match private_key_path {
            Some(p) => Some(p),
            None => copy_opt(&cur.private_key_path),
        },
        password: match password {
            Some(p) => Some(p),
            None => copy_opt(&cur.password),
        },
        source: cur.source.clone(),
    };
    assert(next@ == revised(old(manager).endpoints()[k as int], ch));
    proof {
        if valid_registry(manager.endpoints()) {
            revision_keeps_valid(manager.endpoints(), k as int, ch);
        }
    }
    let updated = next.clone();
    manager.connections[k] = next;
    assert(manager.endpoints() =~= old(manager).endpoints().update(k as int, updated@));
    Ok(updated)
}

/// Removes the endpoint `id`, which must be one that the user added.
pub fn ssh_delete_connection(manager: &mut SSHManager, id: String) -> (r: Result<(), String>)
    ensures
        match r {
            Ok(_) => delete_outcome(old(manager).endpoints(), id@) == Ok::<
                Seq<Endpoint>,
                Seq<char>,
            >(final(manager).endpoints()),
            Err(e) => {
                &&& delete_outcome(old(manager).endpoints(), id@) == Err::<
                    Seq<Endpoint>,
                    Seq<char>,
                >(e@)
                &&& final(manager).endpoints() == old(manager).endpoints()
            },
        },
        final(manager).session() == old(manager).session(),
        valid_registry(old(manager).endpoints()) ==> valid_registry(final(manager).endpoints()),
{
    let k = find_slot(&manager.connections, id.as_str());
    if k >= manager.connections.len() {
        return Err("Connection not found".to_owned());
    }
    if !same_text(manager.connections[k].source.as_str(), "manual") {
        return Err("Cannot delete config-based connection".to_owned());
    }
    proof {
        if valid_registry(manager.endpoints()) {
            removal_keeps_valid(manager.endpoints(), k as int);
        }
    }
    manager.connections.remove(k);
    assert(manager.endpoints() =~= old(manager).endpoints().remove(k as int));
    Ok(())
}

/// An entry of a remote directory. `children` is an empty list for a
/// directory, whose entries are listed when it is opened, and absent for a
/// file.
#[derive(Debug)]
pub struct FileNode {
    pub name: String,
    pub path: String,
    pub is_directory: bool,
    pub children: Option<Vec<FileNode>>,
}

/// Ends the active session, if there is one.
pub fn ssh_disconnect(manager: &mut SSHManager) -> (r: Result<(), String>)
    ensures
        r is Ok,
        final(manager).session() is None,
        final(manager).endpoints() == old(manager).endpoints(),
{
    manager.active_session = None;
    Ok(())
}

/// The state of the active session, if there is one.
pub fn ssh_get_session(manager: &SSHManager) -> (r: Result<Option<SSHSession>, String>)
    ensures
        r matches Ok(o) && match manager.session() {
            Some(s) => o matches Some(x) && x.connection_id@ == s.connection_id && x.status@
                == "connected"@ && x.last_error is None && x.connected_at is None,
            None => o is None,
        },
{
    Ok(
        match &manager.active_session {
            Some(s) => Some(
                SSHSession {
                    connection_id: s.connection_id.clone(),
                    status: "connected".to_owned(),
                    last_error: None,
                    connected_at: None,
                },
            ),
            None => None,
        },
    )
}

/// The working directory of the active session.
pub fn ssh_get_working_dir(manager: &SSHManager) -> (r: Result<Option<String>, String>)
    ensures
        r matches Ok(o) && opt_text(o) == match manager.session() {
            Some(s) => s.working_dir,
            None => None,
        },
{
    Ok(manager.get_working_dir())
}

/// Makes `dir` the working directory of the active session.
pub fn ssh_set_working_dir(manager: &mut SSHManager, dir: String) -> (r: Result<(), String>)
    ensures
        final(manager).endpoints() == old(manager).endpoints(),
        match old(manager).session() {
            Some(s) => r is Ok && final(manager).session() == Some(
                (SessionView { working_dir: Some(dir@), ..s }),
            ),
            None => {
                &&& r matches Err(e) && e@ == "No active SSH session"@
                &&& final(manager).session() is None
            },
        },
{
    manager.set_working_dir(dir)
}

/// The first step of connecting to the endpoint `id`: the session that was
/// active ends, and the endpoint to probe is returned. Where no endpoint
/// has that identifier it fails and changes nothing.
pub fn begin_connect(manager: &mut SSHManager, id: &str) -> (r: Result<SSHConnection, String>)
    ensures
        final(manager).endpoints() == old(manager).endpoints(),
        match r {
            Ok(c) => {
                &&& known(old(manager).endpoints(), id@)
                &&& c@ == old(manager).endpoints()[slot(old(manager).endpoints(), id@)]
                &&& final(manager).session() is None
            },
            Err(e) => {
                &&& !known(old(manager).endpoints(), id@)
                &&& e@ == "Connection not found"@
                &&& final(manager).session() == old(manager).session()
            },
        },
{
    let k = find_slot(&manager.connections, id);
    if k >= manager.connections.len() {
        return Err("Connection not found".to_owned());
    }
    let c = manager.connections[k].clone();
    manager.active_session = None;
    Ok(c)
}

/// The command that probes a connection. What it prints is the home
/// directory of the remote user.
pub open spec fn probe_command() -> Seq<char> {
    "echo $HOME"@
}

/// The call that probes the endpoint `conn`.
pub fn probe_call(conn: &SSHConnection) -> (r: RemoteCall)
    ensures
        r@ == ssh_call(conn@, probe_command(), None),
{
    crate::remote::run_ssh_command(conn, "echo $HOME", None)
}

/// `chrono::Utc::now` reads the system clock and `DateTime::to_rfc3339`
/// writes that moment as a date and time of RFC 3339. Nothing is stated of
/// the text. The call does not return where the clock stands before 1970.
#[verifier::external_body]
fn now_rfc3339() -> (stamp: String) {
    chrono::Utc::now().to_rfc3339()
}

/// The session that a successful probe of `conn` opens: its working
/// directory is what the probe printed, trimmed.
pub open spec fn opened(id: Seq<char>, conn: Endpoint, home: Seq<char>) -> SessionView {
    SessionView { connection_id: id, connection: conn, working_dir: Some(trimmed(home)) }
}

/// Makes the session to `conn` the active one, with the trimmed `home` as
/// its working directory, and reports it as connected at the time `at`.
pub fn open_session(
    manager: &mut SSHManager,
    id: String,
    conn: SSHConnection,
    home: &str,
    at: String,
) -> (s: SSHSession)
    ensures
        final(manager).endpoints() == old(manager).endpoints(),
        final(manager).session() == Some(opened(id@, conn@, home@)),
        s.connection_id@ == id@,
        s.status@ == "connected"@,
        s.last_error is None,
        s.connected_at matches Some(t) && t@ == at@,
{
    let text = chars_of(home);
    let dir = strip_chars(&text, CharClass::Space);
    manager.active_session = Some(
        ActiveSession { connection_id: id.clone(), connection: conn, working_dir: Some(text_of(&dir)) },
    );
    SSHSession {
        connection_id: id,
        status: "connected".to_owned(),
        last_error: None,
        connected_at: Some(at),
    }
}

/// The last step of connecting: `probe` is what the probe of `conn` came
/// to. A probe that succeeded opens the session. One that failed leaves the
/// registry without a session, as the first step left it, and its reason is
/// handed on word for word behind a fixed prefix.
pub fn finish_connect(
    manager: &mut SSHManager,
    id: String,
    conn: SSHConnection,
    probe: Result<String, String>,
) -> (r: Result<SSHSession, String>)
    ensures
        final(manager).endpoints() == old(manager).endpoints(),
        match probe {
            Ok(home) => {
                &&& r matches Ok(s) && s.connection_id@ == id@ && s.status@ == "connected"@
                    && s.last_error is None && s.connected_at is Some
                &&& final(manager).session() == Some(opened(id@, conn@, home@))
            },
            Err(reason) => {
                &&& r matches Err(e) && e@ == "连接失败: "@ + reason@
                &&& final(manager).session() == old(manager).session()
            },
        },
{
    match probe {
        Ok(home) => {
            let at = now_rfc3339();
            Ok(open_session(manager, id, conn, home.as_str(), at))
        },
        Err(reason) => Err(glue("连接失败: ", reason.as_str())),
    }
}

/// `e` as it is used to connect with a password that the user entered.
pub open spec fn with_password(e: Endpoint, password: Seq<char>) -> Endpoint {
    Endpoint { auth_type: "password"@, password: Some(password), ..e }
}

/// The first step of connecting to the endpoint `id` with a password: the
/// session that was active ends, and the endpoint is returned with password
/// authentication and that password. Where no endpoint has that identifier
/// it fails and changes nothing.
pub fn begin_connect_with_password(manager: &mut SSHManager, id: &str, password: String) -> (r:
    Result<SSHConnection, String>)
    ensures
        final(manager).endpoints() == old(manager).endpoints(),
        match r {
            Ok(c) => {
                &&& known(old(manager).endpoints(), id@)
                &&& c@ == with_password(
                    old(manager).endpoints()[slot(old(manager).endpoints(), id@)],
                    password@,
                )
                &&& final(manager).session() is None
            },
            Err(e) => {
                &&& !known(old(manager).endpoints(), id@)
                &&& e@ == "Connection not found"@
                &&& final(manager).session() == old(manager).session()
            },
        },
{
    let k = find_slot(&manager.connections, id);
    if k >= manager.connections.len() {
        return Err("Connection not found".to_owned());
    }
    let mut c = manager.connections[k].clone();
    c.auth_type = "password".to_owned();
    c.password = Some(password);
    manager.active_session = None;
    Ok(c)
}

/// The command that tests a connection made with a password.
pub open spec fn password_test_command() -> Seq<char> {
    "echo 'SSH_CONNECTION_TEST_OK'"@
}

/// The call that runs `command` on the endpoint `c` through the password
/// relay, which hands the password `password` to the secure-shell client.
pub open spec fn relay_call(c: Endpoint, password: Seq<char>, command: Seq<char>) -> CallView {
    CallView {
        program: "sshpass"@,
        args: seq!["-p"@, password, "ssh"@] + ssh_args(c, Some(command)),
        input: None,
    }
}

/// The call that runs `command` on `conn` through the password relay.
pub fn relay(conn: &SSHConnection, command: &str) -> (r: RemoteCall)
    requires
        conn.password is Some,
    ensures
        r@ == relay_call(conn@, conn@.password->0, command@),
{
    let mut args: Vec<String> = Vec::new();
    args.push("-p".to_owned());
    match &conn.password {
        Some(p) => {
            args.push(p.clone());
        },
        None => {},
    }
    args.push("ssh".to_owned());
    let mut rest = build_ssh_args(conn, Some(command));
    let ghost tail = rest@;
    args.append(&mut rest);
    assert(texts(args@) =~= seq!["-p"@, conn@.password->0, "ssh"@] + texts(tail));
    RemoteCall { program: "sshpass".to_owned(), args, input: None }
}

/// The call that tests the connection to `conn` with its password.
pub fn password_test_call(conn: &SSHConnection) -> (r: RemoteCall)
    requires
        conn.password is Some,
    ensures
        r@ == relay_call(conn@, conn@.password->0, password_test_command()),
{
    relay(conn, "echo 'SSH_CONNECTION_TEST_OK'")
}

/// The call that asks `conn` for the home directory through the relay.
pub fn password_home_call(conn: &SSHConnection) -> (r: RemoteCall)
    requires
        conn.password is Some,
    ensures
        r@ == relay_call(conn@, conn@.password->0, probe_command()),
{
    relay(conn, "echo $HOME")
}

/// The failure reported where the password relay could not be started:
/// how to install it where the program is missing, and otherwise the
/// system's reason `detail` behind a fixed prefix.
pub open spec fn relay_failure(missing: bool, detail: Seq<char>) -> Seq<char> {
    if missing {
        "需要安装 sshpass 来支持密码认证。在 Windows 上可以使用: scoop install sshpass 或使用私钥认证"@
    } else {
        "执行失败: "@ + detail
    }
}

/// The failure reported where the password relay could not be started.
pub fn relay_start_failure(missing: bool, detail: &str) -> (r: String)
    ensures
        r@ == relay_failure(missing, detail@),
{
    if missing {
        "需要安装 sshpass 来支持密码认证。在 Windows 上可以使用: scoop install sshpass 或使用私钥认证".to_owned()
    } else {
        glue("执行失败: ", detail)
    }
}

/// What the test of a password connection means: a failure hands on what
/// the client wrote to its error stream behind a fixed prefix, and the
/// prefix alone where it wrote nothing.
pub open spec fn password_verdict(success: bool, stderr: Seq<char>) -> Result<(), Seq<char>> {
    if success {
        Ok(())
    } else if stderr.len() == 0 {
        Err("密码认证失败"@)
    } else {
        Err("密码认证失败: "@ + stderr)
    }
}

/// What the test of a password connection means.
pub fn check_password_test(success: bool, stderr: &str) -> (r: Result<(), String>)
    ensures
        match r {
            Ok(_) => password_verdict(success, stderr@) == Ok::<(), Seq<char>>(()),
            Err(e) => password_verdict(success, stderr@) == Err::<(), Seq<char>>(e@),
        },
{
    if success {
        Ok(())
    } else if stderr.is_empty() {
        Err("密码认证失败".to_owned())
    } else {
        Err(glue("密码认证失败: ", stderr))
    }
}

/// The failure reported where the home directory could not be asked for.
pub fn home_failure(detail: &str) -> (r: String)
    ensures
        r@ == "获取主目录失败: "@ + detail@,
{
    glue("获取主目录失败: ", detail)
}

impl SSHManager {
    /// The call that carries out `op` in the active session.
    pub fn plan(&self, op: &RemoteOp) -> (r: Result<RemoteCall, String>)
        ensures
            plans(r, planned(self.session(), op@)),
    {
        plan(&self.active_session, op)
    }
}

/// The call that lists the remote directory `dir`.
pub fn ssh_get_file_tree(manager: &SSHManager, dir: Option<String>) -> (r: Result<
    RemoteCall,
    String,
>)
    ensures
        plans(r, planned(manager.session(), OpView::FileTree(listing_path(opt_text(dir))))),
{
    manager.plan(&RemoteOp::FileTree(path_to_list(&dir)))
}

/// The call that reads the remote file `path`.
pub fn ssh_read_file(manager: &SSHManager, path: String) -> (r: Result<RemoteCall, String>)
    ensures
        plans(r, planned(manager.session(), OpView::ReadFile(path@))),
{
    manager.plan(&RemoteOp::ReadFile(path))
}

/// The call that writes `content` to the remote file `path`.
pub fn ssh_write_file(manager: &SSHManager, path: String, content: String) -> (r: Result<
    RemoteCall,
    String,
>)
    ensures
        plans(r, planned(manager.session(), OpView::WriteFile(path@, content@))),
{
    manager.plan(&RemoteOp::WriteFile(path, content))
}

/// The call that shows the state of the remote work tree.
pub fn ssh_git_status(manager: &SSHManager) -> (r: Result<RemoteCall, String>)
    ensures
        plans(r, planned(manager.session(), OpView::GitStatus)),
{
    manager.plan(&RemoteOp::GitStatus)
}

/// The call that shows the last commits of the remote repository.
pub fn ssh_git_log(manager: &SSHManager) -> (r: Result<RemoteCall, String>)
    ensures
        plans(r, planned(manager.session(), OpView::GitLog)),
{
    manager.plan(&RemoteOp::GitLog)
}

/// The call that shows the branches of the remote repository.
pub fn ssh_git_branches(manager: &SSHManager) -> (r: Result<RemoteCall, String>)
    ensures
        plans(r, planned(manager.session(), OpView::GitBranches)),
{
    manager.plan(&RemoteOp::GitBranches)
}

/// The call that stages `paths` in the remote repository.
pub fn ssh_git_stage(manager: &SSHManager, paths: Vec<String>) -> (r: Result<RemoteCall, String>)
    ensures
        plans(r, planned(manager.session(), OpView::GitStage(texts(paths@)))),
{
    manager.plan(&RemoteOp::GitStage(paths))
}

/// The call that commits in the remote repository with `message`.
pub fn ssh_git_commit(manager: &SSHManager, message: String) -> (r: Result<RemoteCall, String>)
    ensures
        plans(r, planned(manager.session(), OpView::GitCommit(message@))),
{
    manager.plan(&RemoteOp::GitCommit(message))
}

/// The call that creates the remote directory `path`.
pub fn ssh_create_dir(manager: &SSHManager, path: String) -> (r: Result<RemoteCall, String>)
    ensures
        plans(r, planned(manager.session(), OpView::CreateDir(path@))),
{
    manager.plan(&RemoteOp::CreateDir(path))
}

/// The call that removes the remote file `path`.
pub fn ssh_delete_file(manager: &SSHManager, path: String) -> (r: Result<RemoteCall, String>)
    ensures
        plans(r, planned(manager.session(), OpView::DeleteFile(path@))),
{
    manager.plan(&RemoteOp::DeleteFile(path))
}

/// The call that removes the remote directory `path` with all in it.
pub fn ssh_delete_dir(manager: &SSHManager, path: String) -> (r: Result<RemoteCall, String>)
    ensures
        plans(r, planned(manager.session(), OpView::DeleteDir(path@))),
{
    manager.plan(&RemoteOp::DeleteDir(path))
}

/// The call that moves the remote `old_path` to `new_path`.
pub fn ssh_rename(manager: &SSHManager, old_path: String, new_path: String) -> (r: Result<
    RemoteCall,
    String,
>)
    ensures
        plans(r, planned(manager.session(), OpView::Rename(old_path@, new_path@))),
{
    manager.plan(&RemoteOp::Rename(old_path, new_path))
}

/// Without an active session every remote operation fails, with the
/// message that names the missing connection.
pub proof fn remote_operation_needs_session(op: OpView)
    ensures
        planned(None, op) == Err::<CallView, Seq<char>>("No active SSH connection"@),
{
}

/// In a session that has a working directory every remote operation comes
/// to one call of the secure-shell client on the session's endpoint. A
/// successful connect opens such a session: its working directory is the
/// remote home directory.
pub proof fn session_allows_remote_operation(s: SessionView, op: OpView)
    requires
        s.working_dir is Some,
    ensures
        planned(Some(s), op) == Ok::<CallView, Seq<char>>(
            ssh_call(
                s.connection,
                crate::remote::command_text(op, s.working_dir->0),
                crate::remote::payload(op),
            ),
        ),
        forall|id: Seq<char>, conn: Endpoint, home: Seq<char>|
            (#[trigger] opened(id, conn, home)).working_dir is Some,
{
}

impl SSHManager {
    /// The endpoints that the user added, in their order: what is kept on
    /// disk after each change.
    pub fn manual_connections(&self) -> (r: Vec<SSHConnection>)
        ensures
            endpoints_of(r@) == manual_part(self.endpoints()),
    {
        let mut r: Vec<SSHConnection> = Vec::new();
        let mut i: usize = 0;
        let ghost eps = endpoints_of(self.connections@);
        assert(endpoints_of(r@) =~= Seq::empty());
        while i < self.connections.len()
            invariant
                i <= self.connections.len(),
                eps == endpoints_of(self.connections@),
                endpoints_of(r@) == manual_part(eps.take(i as int)),
            decreases self.connections.len() - i,
        {
            assert(eps.take(i + 1).drop_last() =~= eps.take(i as int));
            assert(eps.take(i + 1).last() == self.connections@[i as int]@);
            if same_text(self.connections[i].source.as_str(), "manual") {
                let c = self.connections[i].clone();
                let ghost before = r@;
                r.push(c);
                assert(endpoints_of(r@) =~= endpoints_of(before).push(c@));
            }
            i = i + 1;
        }
        assert(eps.take(self.connections.len() as int) =~= eps);
        r
    }

    /// Takes the endpoints `saved`, as they were read from disk, back into
    /// the registry.
    pub fn load_manual_connections(&mut self, saved: Vec<SSHConnection>)
        ensures
            final(self).endpoints() == restored(old(self).endpoints(), endpoints_of(saved@)),
            final(self).session() == old(self).session(),
            valid_registry(old(self).endpoints()) ==> valid_registry(final(self).endpoints()),
    {
        let mut i: usize = 0;
        let ghost all = endpoints_of(saved@);
        let prefix = chars_of("manual-");
        while i < saved.len()
            invariant
                i <= saved.len(),
                all == endpoints_of(saved@),
                prefix@ == "manual-"@,
                self.endpoints() == restored(old(self).endpoints(), all.take(i as int)),
                self.session() == old(self).session(),
            decreases saved.len() - i,
        {
            assert(all.take(i + 1).drop_last() =~= all.take(i as int));
            assert(all.take(i + 1).last() == saved@[i as int]@);
            let e = &saved[i];
            let id = chars_of(e.id.as_str());
            if same_text(e.source.as_str(), "manual") && crate::text::begins_with(&id, &prefix) {
                let k = find_slot(&self.connections, e.id.as_str());
                if k >= self.connections.len() {
                    let c = e.clone();
                    let ghost before = self.connections@;
                    self.connections.push(c);
                    assert(endpoints_of(self.connections@) =~= endpoints_of(before).push(c@));
                }
            }
            i = i + 1;
        }
        assert(all.take(saved.len() as int) =~= all);
        proof {
            if valid_registry(old(self).endpoints()) {
                restored_keeps_valid(old(self).endpoints(), all);
            }
        }
    }
}

} // verus!
