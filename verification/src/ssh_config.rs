//! Reading the host blocks of a secure-shell client configuration.

use crate::commands::ssh::{host_entries, HostEntry, SSHConfigHost};
use crate::number::{parse_u16, parsed_u16};
use crate::scan::{cut, cut_at, lines, split_lines};
use crate::text::{chars_of, folded, folds_to, rows, same, strip, strip_chars, text_of, trimmed, CharClass};
use vstd::prelude::*;

verus! {

/// `v` without the double quotes, and then without the single quotes, that
/// stand at its two ends.
pub open spec fn unquoted(v: Seq<char>) -> Seq<char> {
    strip(strip(v, CharClass::Only('"')), CharClass::Only('\''))
}

/// The keyword and the value of a configuration line. A line that is empty
/// or a comment once trimmed has none. Otherwise the line is cut at its
/// first `=`, or, where it holds none, at its first blank; a line with
/// neither has none.
pub open spec fn directive(line: Seq<char>) -> Option<(Seq<char>, Seq<char>)> {
    let l = trimmed(line);
    if l.len() == 0 || l[0] == '#' {
        None
    } else {
        match cut(l, '=') {
            Some((k, v)) => Some((trimmed(k), unquoted(trimmed(v)))),
            None => match cut(l, ' ') {
                Some((k, v)) => Some((k, unquoted(trimmed(v)))),
                None => None,
            },
        }
    }
}

/// The keyword and the value of a configuration line.
pub fn read_directive(line: &Vec<char>) -> (r: Option<(Vec<char>, Vec<char>)>)
    ensures
        match r {
            Some((k, v)) => directive(line@) == Some((k@, v@)),
            None => directive(line@) is None,
        },
{
    let l = strip_chars(line, CharClass::Space);
    if l.len() == 0 || l[0] == '#' {
        return None;
    }
    match cut_at(&l, '=') {
        Some((k, v)) => {
            let key = strip_chars(&k, CharClass::Space);
            let t = strip_chars(&v, CharClass::Space);
            let u = strip_chars(&t, CharClass::Only('"'));
            let value = strip_chars(&u, CharClass::Only('\''));
            Some((key, value))
        },
        None => match cut_at(&l, ' ') {
            Some((k, v)) => {
                let t = strip_chars(&v, CharClass::Space);
                let u = strip_chars(&t, CharClass::Only('"'));
                let value = strip_chars(&u, CharClass::Only('\''));
                Some((k, value))
            },
            None => None,
        },
    }
}

/// How far the reading of a configuration has come: the host blocks that
/// are complete, and the one that later lines may still change.
pub struct Progress {
    pub done: Seq<HostEntry>,
    pub open: Option<HostEntry>,
}

/// The host blocks read so far, the open one included.
pub open spec fn all_hosts(p: Progress) -> Seq<HostEntry> {
    match p.open {
        Some(h) => p.done.push(h),
        None => p.done,
    }
}

/// The port that `value` writes, and 22 where it writes none.
pub open spec fn port_of(value: Seq<char>) -> u16 {
    match parsed_u16(value) {
        Some(n) => n,
        None => 22,
    }
}

/// The effect of one line. Keywords are matched without regard to the case
/// of the letters `A` to `Z`. `Host` closes the open block; with a value
/// other than `*` it opens a block named by the value, with the value as
/// host, port 22, the user `user` and no identity file, and with `*` it
/// opens none, so that the lines of a wildcard block change nothing.
/// `HostName`, `Port`, `User` and `IdentityFile` set a field of the open
/// block. Any other line changes nothing.
pub open spec fn step(p: Progress, line: Seq<char>, user: Seq<char>) -> Progress {
    match directive(line) {
        None => p,
        Some((key, value)) => {
            let k = folded(key);
            if k == "host"@ {
                Progress {
                    done: all_hosts(p),
                    open: if value == "*"@ {
                        None
                    } else {
                        Some(
                            HostEntry {
                                name: value,
                                host: value,
                                port: 22,
                                username: user,
                                identity_file: None,
                            },
                        )
                    },
                }
            } else {
                match p.open {
                    None => p,
                    Some(h) => if k == "hostname"@ {
                        Progress { done: p.done, open: Some(HostEntry { host: value, ..h }) }
                    } else if k == "port"@ {
                        Progress {
                            done: p.done,
                            open: Some(HostEntry { port: port_of(value), ..h }),
                        }
                    } else if k == "user"@ {
                        Progress { done: p.done, open: Some(HostEntry { username: value, ..h }) }
                    } else if k == "identityfile"@ {
                        Progress {
                            done: p.done,
                            open: Some(HostEntry { identity_file: Some(value), ..h }),
                        }
                    } else {
                        p
                    },
                }
            }
        },
    }
}

/// The effect of the lines `all`, read in order from nothing.
pub open spec fn progress(all: Seq<Seq<char>>, user: Seq<char>) -> Progress
    decreases all.len(),
{
    if all.len() == 0 {
        Progress { done: Seq::empty(), open: None }
    } else {
        step(progress(all.drop_last(), user), all.last(), user)
    }
}

/// The host blocks of the configuration text `content`, in the order in
/// which they begin, where `user` is the user of a block that names none.
pub open spec fn parsed_hosts(content: Seq<char>, user: Seq<char>) -> Seq<HostEntry> {
    all_hosts(progress(lines(content), user))
}

/// The view of a host block that may be absent.
pub open spec fn opt_entry(o: Option<SSHConfigHost>) -> Option<HostEntry> {
    match o {
        Some(h) => Some(h@),
        None => None,
    }
}

/// Applies one line to the blocks read so far and returns the open block.
pub fn advance(
    done: &mut Vec<SSHConfigHost>,
    open: Option<SSHConfigHost>,
    line: &Vec<char>,
    user: &str,
) -> (next: Option<SSHConfigHost>)
    ensures
        (Progress { done: host_entries(final(done)@), open: opt_entry(next) }) == step(
            Progress { done: host_entries(old(done)@), open: opt_entry(open) },
            line@,
            user@,
        ),
{
    let (key, value) = match read_directive(line) {
        Some(kv) => kv,
        None => {
            return open;
        },
    };
    if folds_to(&key, "host") {
        match open {
            Some(h) => {
                let ghost before = done@;
                done.push(h);
                assert(host_entries(done@) =~= host_entries(before).push(h@));
            },
            None => {},
        }
        let star = chars_of("*");
        if same(&value, &star) {
            None
        } else {
            Some(
                SSHConfigHost {
                    name: text_of(&value),
                    host: text_of(&value),
                    port: 22,
                    username: user.to_owned(),
                    identity_file: None,
                },
            )
        }
    } else {
        match open {
            None => None,
            Some(h) => {
                let mut h = h;
                if folds_to(&key, "hostname") {
                    h.host = text_of(&value);
                } else if folds_to(&key, "port") {
                    h.port = match parse_u16(&value) {
                        Some(n) => n,
                        None => 22,
                    };
                } else if folds_to(&key, "user") {
                    h.username = text_of(&value);
                } else if folds_to(&key, "identityfile") {
                    h.identity_file = Some(text_of(&value));
                }
                Some(h)
            },
        }
    }
}

/// The host blocks of the configuration text `content`, where `user` is the
/// user of a block that names none.
pub fn parse_hosts(content: &str, user: &str) -> (hosts: Vec<SSHConfigHost>)
    ensures
        host_entries(hosts@) == parsed_hosts(content@, user@),
{
    let text = chars_of(content);
    let all = split_lines(&text);
    let mut done: Vec<SSHConfigHost> = Vec::new();
    let mut open: Option<SSHConfigHost> = None;
    let mut i: usize = 0;
    assert(host_entries(done@) =~= Seq::empty());
    while i < all.len()
        invariant
            i <= all.len(),
            rows(all@) == lines(content@),
            (Progress { done: host_entries(done@), open: opt_entry(open) }) == progress(
                rows(all@).take(i as int),
                user@,
            ),
        decreases all.len() - i,
    {
        assert(rows(all@).take(i + 1).drop_last() =~= rows(all@).take(i as int));
        assert(rows(all@).take(i + 1).last() == all@[i as int]@);
        open = advance(&mut done, open, &all[i], user);
        i = i + 1;
    }
    assert(rows(all@).take(all.len() as int) =~= rows(all@));
    match open {
        Some(h) => {
            let ghost before = done@;
            done.push(h);
            assert(host_entries(done@) =~= host_entries(before).push(h@));
        },
        None => {},
    }
    done
}

/// `whoami::username` gives the name of the user that runs the process, and
/// a fixed name where the system gives none. Nothing is stated of it.
#[verifier::external_body]
fn current_user() -> (user: String) {
    whoami::username()
}

/// The host blocks of the configuration text `content`. A block that names
/// no user gets the user that runs the process.
pub fn parse_ssh_config(content: &str) -> (hosts: Vec<SSHConfigHost>)
    ensures
        exists|user: Seq<char>| host_entries(hosts@) == parsed_hosts(content@, user),
{
    let user = current_user();
    parse_hosts(content, user.as_str())
}

/// Whether no host block read so far is named by the wildcard.
pub open spec fn no_wildcard(p: Progress) -> bool {
    &&& forall|i: int| 0 <= i < p.done.len() ==> (#[trigger] p.done[i]).name != "*"@
    &&& p.open matches Some(h) ==> h.name != "*"@
}

/// Reading lines never makes a block named by the wildcard.
pub proof fn progress_has_no_wildcard(all: Seq<Seq<char>>, user: Seq<char>)
    ensures
        no_wildcard(progress(all, user)),
    decreases all.len(),
{
    if all.len() > 0 {
        progress_has_no_wildcard(all.drop_last(), user);
        let p = progress(all.drop_last(), user);
        let q = step(p, all.last(), user);
        assert forall|i: int| 0 <= i < q.done.len() implies (#[trigger] q.done[i]).name
            != "*"@ by {
            if i < p.done.len() {
                assert(q.done[i] == p.done[i]);
            }
        }
    }
}

/// Wildcard blocks are skipped: no host block of a configuration is named
/// `*`, whatever the text and the user.
pub proof fn parsed_hosts_skip_wildcards(content: Seq<char>, user: Seq<char>)
    ensures
        forall|i: int|
            0 <= i < parsed_hosts(content, user).len() ==> (#[trigger] parsed_hosts(
                content,
                user,
            )[i]).name != "*"@,
{
    progress_has_no_wildcard(lines(content), user);
    let p = progress(lines(content), user);
    assert forall|i: int| 0 <= i < all_hosts(p).len() implies (#[trigger] all_hosts(p)[i]).name
        != "*"@ by {
        if i < p.done.len() {
            assert(all_hosts(p)[i] == p.done[i]);
        }
    }
}

} // verus!
