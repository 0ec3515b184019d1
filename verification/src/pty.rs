//! The table of pseudo-terminal sessions. Each session is known by a small
//! number that a counter hands out; the table maps the numbers of the live
//! sessions to the handles through which a session is written to, resized
//! and ended.

use crate::number::{decimal, decimal_of};
use crate::shell::push_text;
use crate::text::{begins_with, chars_of, extend, glue, part, text_of, texts};
use std::collections::HashMap;
use vstd::prelude::*;
use vstd::utf8::{decode_utf8, valid_utf8};

verus! {

broadcast use vstd::std_specs::hash::group_hash_axioms;

/// A piece of a session's output, tagged with the session's number.
#[derive(Debug)]
pub struct PtyOutputPayload {
    pub id: u32,
    pub data: String,
}

impl Clone for PtyOutputPayload {
    fn clone(&self) -> (r: Self)
        ensures
            r == *self,
    {
        PtyOutputPayload { id: self.id, data: self.data.clone() }
    }
}

/// The notice that a session's output has ended.
#[derive(Clone, Copy, Debug)]
pub struct PtyExitPayload {
    pub id: u32,
}

/// The geometry of a terminal.
#[derive(Clone, Copy, Debug, PartialEq, Eq, Structural)]
pub struct TerminalSize {
    pub rows: u16,
    pub cols: u16,
    pub pixel_width: u16,
    pub pixel_height: u16,
}

/// The geometry of a terminal of `cols` columns and `rows` rows.
pub open spec fn size_of(cols: u16, rows: u16) -> TerminalSize {
    TerminalSize { rows, cols, pixel_width: 0, pixel_height: 0 }
}

/// The geometry that a session starts with: 80 columns and 24 rows.
pub fn default_size() -> (s: TerminalSize)
    ensures
        s == size_of(80, 24),
{
    TerminalSize { rows: 24, cols: 80, pixel_width: 0, pixel_height: 0 }
}

/// What the counter holds after a spawn that found it at `c`. A counter
/// above the greatest number is used up and stays as it is; any other
/// moves on by one.
pub open spec fn next_counter(c: nat) -> nat {
    if c > u32::MAX {
        c
    } else {
        c + 1
    }
}

/// The message of a spawn that finds the counter used up.
pub open spec fn no_number_left() -> Seq<char> {
    "PTY numbers are used up"@
}

/// The message of a spawn that finds the counter used up.
pub fn no_number_left_message() -> (r: String)
    ensures
        r@ == no_number_left(),
{
    "PTY numbers are used up".to_owned()
}

/// The message for a session number that the table does not hold.
pub open spec fn not_found(id: u32) -> Seq<char> {
    "PTY "@ + decimal(id as nat) + " not found"@
}

/// The message for a session number that the table does not hold.
pub fn not_found_message(id: u32) -> (r: String)
    ensures
        r@ == not_found(id),
{
    let mut out = chars_of("PTY ");
    let digits = decimal_of(id as u64);
    extend(&mut out, &digits);
    push_text(&mut out, " not found");
    text_of(&out)
}

/// The sessions of a process. `H` is the handle of a live session: what
/// the caller needs to write to it, resize it and end it. A counter gives
/// each session its number: 1 for the first, and for every later one a
/// greater number than for any before it. No number is given twice.
pub struct PtyManager<H> {
    instances: HashMap<u32, H>,
    next_id: u64,
}

impl<H> PtyManager<H> {
    /// The live sessions by their numbers.
    pub closed spec fn sessions(&self) -> Map<u32, H> {
        self.instances@
    }

    /// The counter: the number that the next session gets, and a number
    /// above the greatest one where none is left.
    pub closed spec fn upcoming(&self) -> nat {
        self.next_id as nat
    }

    /// Whether no number is left for a further session.
    pub open spec fn used_up(&self) -> bool {
        self.upcoming() > u32::MAX
    }

    /// What holds of a table at all times: the counter is at least 1 and at
    /// most one above the greatest number, and the number of every live
    /// session is at least 1 and below the counter.
    pub open spec fn valid(&self) -> bool {
        &&& 1 <= self.upcoming() <= u32::MAX + 1
        &&& forall|id: u32| #[trigger]
            self.sessions().contains_key(id) ==> 1 <= id && (id as nat) < self.upcoming()
    }

    /// A table without sessions, whose first session gets the number 1.
    pub fn new() -> (m: Self)
        ensures
            m.sessions() == Map::<u32, H>::empty(),
            m.upcoming() == 1,
            m.valid(),
    {
        PtyManager { instances: HashMap::new(), next_id: 1 }
    }

    /// A table without sessions in which the numbers up to `spent` are
    /// spent: its first session gets the number behind `spent`, and none
    /// where `spent` is the greatest number.
    pub fn with_spent(spent: u32) -> (m: Self)
        ensures
            m.sessions() == Map::<u32, H>::empty(),
            m.upcoming() == spent + 1,
            m.valid(),
    {
        PtyManager { instances: HashMap::new(), next_id: spent as u64 + 1 }
    }

    /// Whether a number is left for a further session.
    pub fn has_number_left(&self) -> (r: bool)
        ensures
            r == !self.used_up(),
    {
        self.next_id <= 0xFFFF_FFFF
    }

    /// Registers a session. `opened` is what opening the terminal and
    /// starting its process came to. Where no number is left, the spawn
    /// fails, and table and counter stay as they are. Otherwise the counter
    /// moves on, whether the start succeeded or not. Where the start
    /// succeeded, the session enters the table under the number taken, which
    /// no session has, and the number is returned. Where it failed, the
    /// failure is returned and the table is left as it was.
    pub fn spawn(&mut self, opened: Result<H, String>) -> (r: Result<u32, String>)
        requires
            old(self).valid(),
        ensures
            final(self).valid(),
            final(self).upcoming() == next_counter(old(self).upcoming()),
            if old(self).used_up() {
                &&& r matches Err(e) && e@ == no_number_left()
                &&& final(self).sessions() == old(self).sessions()
            } else {
                match opened {
                    Ok(h) => {
                        let id = old(self).upcoming() as u32;
                        &&& r == Ok::<u32, String>(id)
                        &&& id >= 1
                        &&& !old(self).sessions().contains_key(id)
                        &&& final(self).sessions() == old(self).sessions().insert(id, h)
                        &&& final(self).upcoming() > id
                    },
                    Err(e) => {
                        &&& r == Err::<u32, String>(e)
                        &&& final(self).sessions() == old(self).sessions()
                    },
                }
            },
    {
        if self.next_id > 0xFFFF_FFFF {
            return Err(no_number_left_message());
        }
        let id: u32 = self.next_id as u32;
        self.next_id = self.next_id + 1;
        match opened {
            Ok(h) => {
                self.instances.insert(id, h);
                assert forall|k: u32| #[trigger] self.sessions().contains_key(k) implies 1 <= k
                    && (k as nat) < self.upcoming() by {
                    if k != id {
                        assert(old(self).sessions().contains_key(k));
                    }
                }
                Ok(id)
            },
            Err(e) => Err(e),
        }
    }

    /// The handle through which the session `id` is written to.
    pub fn write_input(&self, id: u32) -> (r: Result<&H, String>)
        ensures
            match r {
                Ok(h) => self.sessions().contains_key(id) && *h == self.sessions()[id],
                Err(e) => !self.sessions().contains_key(id) && e@ == not_found(id),
            },
    {
        match self.instances.get(&id) {
            Some(h) => Ok(h),
            None => Err(not_found_message(id)),
        }
    }

    /// The handle of the session `id` and the geometry to give it.
    pub fn resize(&self, id: u32, cols: u16, rows: u16) -> (r: Result<(&H, TerminalSize), String>)
        ensures
            match r {
                Ok((h, size)) => {
                    &&& self.sessions().contains_key(id)
                    &&& *h == self.sessions()[id]
                    &&& size == size_of(cols, rows)
                },
                Err(e) => !self.sessions().contains_key(id) && e@ == not_found(id),
            },
    {
        match self.instances.get(&id) {
            Some(h) => Ok((h, TerminalSize { rows, cols, pixel_width: 0, pixel_height: 0 })),
            None => Err(not_found_message(id)),
        }
    }

    /// Takes the session `id` out of the table and returns its handle, for
    /// the caller to end the process.
    pub fn kill(&mut self, id: u32) -> (r: Result<H, String>)
        ensures
            final(self).upcoming() == old(self).upcoming(),
            old(self).valid() ==> final(self).valid(),
            match r {
                Ok(h) => {
                    &&& old(self).sessions().contains_key(id)
                    &&& h == old(self).sessions()[id]
                    &&& final(self).sessions() == old(self).sessions().remove(id)
                },
                Err(e) => {
                    &&& !old(self).sessions().contains_key(id)
                    &&& e@ == not_found(id)
                    &&& final(self).sessions() == old(self).sessions()
                },
            },
    {
        match self.instances.remove(&id) {
            Some(h) => {
                assert forall|k: u32| #[trigger]
                    self.sessions().contains_key(k) && old(self).valid() implies 1 <= k && (
                k as nat) < self.upcoming() by {
                    assert(old(self).sessions().contains_key(k));
                }
                Ok(h)
            },
            None => {
                assert(self.sessions() =~= old(self).sessions());
                Err(not_found_message(id))
            },
        }
    }
}

/// What is asked of a table, as far as its counter goes.
pub enum Asked {
    /// A spawn whose process started.
    Started,
    /// A spawn whose process did not start.
    Failed,
    /// A write, a resize or a kill.
    Other,
}

/// What the counter holds after all of `asked` was asked, in order, of a
/// table whose counter stood at `start`.
pub open spec fn counter_after(start: nat, asked: Seq<Asked>) -> nat
    decreases asked.len(),
{
    if asked.len() == 0 {
        start
    } else if asked.last() is Other {
        counter_after(start, asked.drop_last())
    } else {
        next_counter(counter_after(start, asked.drop_last()))
    }
}

/// The number that the request `i` of `asked` hands out: a spawn whose
/// process started hands out the counter as it finds it, unless it finds
/// it used up; nothing else hands out a number.
pub open spec fn handed_out(start: nat, asked: Seq<Asked>, i: int) -> Option<u32> {
    let c = counter_after(start, asked.take(i));
    if asked[i] is Started && c <= u32::MAX {
        Some(c as u32)
    } else {
        None
    }
}

/// The counter never falls, whatever is asked.
pub proof fn counter_never_falls(start: nat, asked: Seq<Asked>, i: int, j: int)
    requires
        0 <= i <= j <= asked.len(),
    ensures
        counter_after(start, asked.take(i)) <= counter_after(start, asked.take(j)),
    decreases j - i,
{
    if i < j {
        counter_never_falls(start, asked, i, j - 1);
        assert(asked.take(j).drop_last() =~= asked.take(j - 1));
    }
}

/// Session numbers rise, for as long as the process lives. Whatever is
/// asked of a table, and in whatever order, a session that is registered
/// later gets a greater number than any session registered before it, be
/// that one ended or not. So every number is at least 1, and none is
/// handed out twice.
pub proof fn session_ids_increase(start: nat, asked: Seq<Asked>, i: int, j: int)
    requires
        1 <= start,
        0 <= i < j < asked.len(),
        handed_out(start, asked, i) is Some,
        handed_out(start, asked, j) is Some,
    ensures
        1 <= handed_out(start, asked, i)->0 < handed_out(start, asked, j)->0,
{
    counter_never_falls(start, asked, 0, i);
    assert(asked.take(0) =~= Seq::<Asked>::empty());
    assert(asked.take(i + 1).drop_last() =~= asked.take(i));
    assert(asked.take(i + 1).last() == asked[i]);
    counter_never_falls(start, asked, i + 1, j);
}

/// A session that was ended is no longer found: after `kill`, a write to
/// the same number fails.
pub proof fn ended_session_is_gone<H>(sessions: Map<u32, H>, id: u32)
    ensures
        !sessions.remove(id).contains_key(id),
{
}

/// A session is there as soon as it is registered: right after `spawn`,
/// with nothing written to it yet, its number is found by `resize`, by
/// `write_input` and by `kill`.
pub proof fn new_session_is_found<H>(sessions: Map<u32, H>, id: u32, handle: H)
    ensures
        sessions.insert(id, handle).contains_key(id),
        sessions.insert(id, handle)[id] == handle,
{
}

/// The kinds of system that need a treatment of their own.
#[derive(Clone, Copy, Debug, PartialEq, Eq, Structural)]
pub enum Platform {
    Windows,
    MacOs,
    Other,
}

/// A variable of the environment: its name and its value.
#[derive(Debug)]
pub struct EnvVar {
    pub name: String,
    pub value: String,
}

/// The view of each variable of a list.
pub open spec fn env_views(v: Seq<EnvVar>) -> Seq<(Seq<char>, Seq<char>)> {
    v.map_values(|e: EnvVar| (e.name@, e.value@))
}

/// How to start the process of a session, as a mathematical value.
pub struct PlanView {
    pub program: Option<Seq<char>>,
    pub args: Seq<Seq<char>>,
    pub cwd: Option<Seq<char>>,
    pub env: Seq<(Seq<char>, Seq<char>)>,
    pub size: TerminalSize,
}

/// How to start the process of a session: the program, where `None`
/// stands for the system's default shell; its arguments; the directory to
/// start it in; the variables to set; and the geometry of its terminal.
#[derive(Debug)]
pub struct SpawnPlan {
    pub program: Option<String>,
    pub args: Vec<String>,
    pub cwd: Option<String>,
    pub env: Vec<EnvVar>,
    pub size: TerminalSize,
}

impl View for SpawnPlan {
    type V = PlanView;

    open spec fn view(&self) -> PlanView {
        PlanView {
            program: match self.program {
                Some(p) => Some(p@),
                None => None,
            },
            args: texts(self.args@),
            cwd: match self.cwd {
                Some(d) => Some(d@),
                None => None,
            },
            env: env_views(self.env@),
            size: self.size,
        }
    }
}

/// The directory as a shell takes it. On Windows a resolved path may
/// begin with the verbatim prefix `\\?\`, which the default shell there
/// refuses: it is taken off.
pub open spec fn shell_dir(cwd: Seq<char>, platform: Platform) -> Seq<char> {
    if platform == Platform::Windows && "\\\\?\\"@.is_prefix_of(cwd) {
        cwd.skip("\\\\?\\"@.len() as int)
    } else {
        cwd
    }
}

/// The directory as a shell takes it.
pub fn strip_verbatim_prefix(cwd: &str, platform: Platform) -> (r: String)
    ensures
        r@ == shell_dir(cwd@, platform),
{
    let text = chars_of(cwd);
    let prefix = chars_of("\\\\?\\");
    if platform == Platform::Windows && begins_with(&text, &prefix) {
        let rest = part(&text, prefix.len(), text.len());
        assert(rest@ =~= cwd@.skip(prefix@.len() as int));
        text_of(&rest)
    } else {
        cwd.to_owned()
    }
}

/// The variables that every session's process gets: the terminal type, so
/// that line editing works, and on macOS a UTF-8 locale.
pub open spec fn terminal_env(platform: Platform) -> Seq<(Seq<char>, Seq<char>)> {
    if platform == Platform::MacOs {
        seq![
            ("TERM"@, "xterm-256color"@),
            ("LANG"@, "en_US.UTF-8"@),
            ("LC_ALL"@, "en_US.UTF-8"@),
        ]
    } else {
        seq![("TERM"@, "xterm-256color"@)]
    }
}

/// The variables that every session's process gets.
pub fn session_env(platform: Platform) -> (env: Vec<EnvVar>)
    ensures
        env_views(env@) == terminal_env(platform),
{
    let mut env: Vec<EnvVar> = Vec::new();
    env.push(EnvVar { name: "TERM".to_owned(), value: "xterm-256color".to_owned() });
    if platform == Platform::MacOs {
        env.push(EnvVar { name: "LANG".to_owned(), value: "en_US.UTF-8".to_owned() });
        env.push(EnvVar { name: "LC_ALL".to_owned(), value: "en_US.UTF-8".to_owned() });
    }
    assert(env_views(env@) =~= terminal_env(platform));
    env
}

/// A local session: the default shell in the directory `cwd`.
pub open spec fn local_plan(cwd: Seq<char>, platform: Platform) -> PlanView {
    PlanView {
        program: None,
        args: Seq::empty(),
        cwd: Some(shell_dir(cwd, platform)),
        env: terminal_env(platform),
        size: size_of(80, 24),
    }
}

/// A local session: the default shell in the directory `cwd`.
pub fn local_shell(cwd: &str, platform: Platform) -> (plan: SpawnPlan)
    ensures
        plan@ == local_plan(cwd@, platform),
{
    let args: Vec<String> = Vec::new();
    assert(texts(args@) =~= Seq::empty());
    SpawnPlan {
        program: None,
        args,
        cwd: Some(strip_verbatim_prefix(cwd, platform)),
        env: session_env(platform),
        size: default_size(),
    }
}

/// A remote session: the secure-shell client, pointed at `user@host` on
/// the port `port`, with the identity file `key` where one is set.
pub open spec fn remote_plan(
    host: Seq<char>,
    port: u16,
    user: Seq<char>,
    key: Option<Seq<char>>,
    platform: Platform,
) -> PlanView {
    PlanView {
        program: Some("ssh"@),
        args: seq!["-p"@, decimal(port as nat)] + (match key {
            Some(k) => seq!["-i"@, k],
            None => Seq::empty(),
        }) + seq![user + "@"@ + host],
        cwd: None,
        env: terminal_env(platform),
        size: size_of(80, 24),
    }
}

/// A remote session on `user@host`.
pub fn remote_shell(
    host: &str,
    port: u16,
    user: &str,
    key: &Option<String>,
    platform: Platform,
) -> (plan: SpawnPlan)
    ensures
        plan@ == remote_plan(
            host@,
            port,
            user@,
            match *key {
                Some(k) => Some(k@),
                None => None,
            },
            platform,
        ),
{
    let mut args: Vec<String> = Vec::new();
    args.push("-p".to_owned());
    let digits = decimal_of(port as u64);
    args.push(text_of(&digits));
    match key {
        Some(k) => {
            args.push("-i".to_owned());
            args.push(k.clone());
        },
        None => {},
    }
    let at = glue(user, "@");
    let target = glue(at.as_str(), host);
    args.push(target);
    let plan = SpawnPlan {
        program: Some("ssh".to_owned()),
        args,
        cwd: None,
        env: session_env(platform),
        size: default_size(),
    };
    assert(plan@.args =~= remote_plan(
        host@,
        port,
        user@,
        match *key {
            Some(k) => Some(k@),
            None => None,
        },
        platform,
    ).args);
    plan
}

/// The text that `String::from_utf8_lossy` makes of `bytes`.
pub uninterp spec fn lossy_text(bytes: Seq<u8>) -> Seq<char>;

/// `String::from_utf8_lossy` reads bytes as UTF-8 and puts the replacement
/// character in the place of what is not valid. Bytes that are valid UTF-8
/// give the text that they encode.
#[verifier::external_body]
fn decode_lossy(bytes: &[u8]) -> (s: String)
    ensures
        s@ == lossy_text(bytes@),
        valid_utf8(bytes@) ==> s@ == decode_utf8(bytes@),
{
    String::from_utf8_lossy(bytes).into_owned()
}

/// What the reader of a session reports after one read.
#[derive(Debug)]
pub enum ReaderEvent {
    /// A piece of output.
    Output(PtyOutputPayload),
    /// The output has ended; the reader stops.
    Exit(PtyExitPayload),
}

/// What the reader of the session `id` reports after one read. `chunk` is
/// what the read gave: `None` where it failed. Bytes are reported as a
/// piece of output. A read without bytes, and one that failed, end the
/// output.
pub fn reader_event(id: u32, chunk: Option<&[u8]>) -> (e: ReaderEvent)
    ensures
        match chunk {
            Some(bytes) => if bytes@.len() > 0 {
                e matches ReaderEvent::Output(p) && p.id == id && p.data@ == lossy_text(bytes@)
                    && (valid_utf8(bytes@) ==> p.data@ == decode_utf8(bytes@))
            } else {
                e matches ReaderEvent::Exit(p) && p.id == id
            },
            None => e matches ReaderEvent::Exit(p) && p.id == id,
        },
{
    match chunk {
        Some(bytes) => {
            if bytes.len() > 0 {
                ReaderEvent::Output(PtyOutputPayload { id, data: decode_lossy(bytes) })
            } else {
                ReaderEvent::Exit(PtyExitPayload { id })
            }
        },
        None => ReaderEvent::Exit(PtyExitPayload { id }),
    }
}

} // verus!
