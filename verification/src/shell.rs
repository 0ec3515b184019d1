//! Command lines for the remote shell. Every argument is wrapped in single
//! quotes, with each single quote inside it written as `'\''`, so that it
//! reaches the remote command unchanged.

use crate::text::{chars_of, extend};
use vstd::prelude::*;

verus! {

/// What stands for the character `c` inside single quotes.
pub open spec fn escaped_char(c: char) -> Seq<char> {
    if c == '\'' {
        seq!['\'', '\\', '\'', '\'']
    } else {
        seq![c]
    }
}

/// `s` with each single quote replaced by `'\''`.
pub open spec fn escaped(s: Seq<char>) -> Seq<char>
    decreases s.len(),
{
    if s.len() == 0 {
        Seq::empty()
    } else {
        escaped(s.drop_last()) + escaped_char(s.last())
    }
}

/// `s` as one word of a shell command: escaped, between single quotes.
pub open spec fn quoted(s: Seq<char>) -> Seq<char> {
    seq!['\''] + escaped(s) + seq!['\'']
}

/// Appends `s`, escaped, to `out`.
pub fn push_escaped(out: &mut Vec<char>, s: &Vec<char>)
    ensures
        final(out)@ == old(out)@ + escaped(s@),
{
    let mut i: usize = 0;
    while i < s.len()
        invariant
            i <= s.len(),
            out@ == old(out)@ + escaped(s@.take(i as int)),
        decreases s.len() - i,
    {
        let c = s[i];
        assert(s@.take(i + 1).drop_last() =~= s@.take(i as int));
        assert(s@.take(i + 1).last() == c);
        let ghost before = out@;
        if c == '\'' {
            out.push('\'');
            out.push('\\');
            out.push('\'');
            out.push('\'');
        } else {
            out.push(c);
        }
        assert(out@ =~= before + escaped_char(c));
        assert(out@ =~= old(out)@ + escaped(s@.take(i + 1)));
        i = i + 1;
    }
    assert(s@.take(s.len() as int) =~= s@);
}

/// Appends `s` as one word of a shell command to `out`.
pub fn push_quoted(out: &mut Vec<char>, s: &str)
    ensures
        final(out)@ == old(out)@ + quoted(s@),
{
    let text = chars_of(s);
    out.push('\'');
    push_escaped(out, &text);
    out.push('\'');
    assert(out@ =~= old(out)@ + quoted(s@));
}

/// Appends the text `s` to `out`.
pub fn push_text(out: &mut Vec<char>, s: &str)
    ensures
        final(out)@ == old(out)@ + s@,
{
    let text = chars_of(s);
    extend(out, &text);
}

/// `head` put before what was read, where something was read.
pub open spec fn after(head: Seq<char>, read: Option<Seq<char>>) -> Option<Seq<char>> {
    match read {
        Some(t) => Some(head + t),
        None => None,
    }
}

/// What a shell reads of the word `w`, made of parts in single quotes and
/// of escaped characters between them. Inside single quotes every
/// character stands for itself up to the next single quote. Outside, a
/// backslash makes the character behind it stand for itself. `inside`
/// tells whether the word begins inside quotes. `None` stands for a word
/// that is not of this form: one that ends inside quotes or with a
/// backslash, or that holds another character outside quotes.
pub open spec fn shell_reads(w: Seq<char>, inside: bool) -> Option<Seq<char>>
    decreases w.len(),
{
    if w.len() == 0 {
        if inside {
            None
        } else {
            Some(Seq::empty())
        }
    } else if inside {
        if w[0] == '\'' {
            shell_reads(w.drop_first(), false)
        } else {
            after(seq![w[0]], shell_reads(w.drop_first(), true))
        }
    } else if w[0] == '\'' {
        shell_reads(w.drop_first(), true)
    } else if w[0] == '\\' && w.len() >= 2 {
        after(seq![w[1]], shell_reads(w.skip(2), false))
    } else {
        None
    }
}

/// Escaping two texts one after the other escapes their concatenation.
pub proof fn escaped_concat(a: Seq<char>, b: Seq<char>)
    ensures
        escaped(a + b) == escaped(a) + escaped(b),
    decreases b.len(),
{
    if b.len() == 0 {
        assert(a + b =~= a);
        assert(escaped(a) + escaped(b) =~= escaped(a));
    } else {
        escaped_concat(a, b.drop_last());
        assert((a + b).drop_last() =~= a + b.drop_last());
        assert(escaped(a + b) =~= escaped(a) + escaped(b));
    }
}

/// Inside single quotes a shell reads the escaped form of `s` as `s`, and
/// is inside quotes again behind it.
pub proof fn escaped_is_read_back(s: Seq<char>, rest: Seq<char>)
    ensures
        shell_reads(escaped(s) + rest, true) == after(s, shell_reads(rest, true)),
    decreases s.len(),
{
    if s.len() == 0 {
        assert(escaped(s) + rest =~= rest);
        assert(after(s, shell_reads(rest, true)) =~= shell_reads(rest, true)) by {
            if shell_reads(rest, true) is Some {
                assert(s + shell_reads(rest, true)->0 =~= shell_reads(rest, true)->0);
            }
        }
    } else {
        let c = s[0];
        let t = s.drop_first();
        assert(s =~= seq![c] + t);
        escaped_concat(seq![c], t);
        assert(escaped(seq![c]) =~= escaped_char(c)) by {
            assert(seq![c].drop_last() =~= Seq::<char>::empty());
            assert(escaped(Seq::<char>::empty()) =~= Seq::<char>::empty());
            assert(escaped(seq![c]) == escaped(seq![c].drop_last()) + escaped_char(c));
        }
        escaped_is_read_back(t, rest);
        let tail = escaped(t) + rest;
        let w = escaped(s) + rest;
        assert(w =~= escaped_char(c) + tail);
        let read_tail = shell_reads(tail, true);
        if c == '\'' {
            let w1 = w.drop_first();
            let w2 = w1.skip(2);
            assert(w1 =~= seq!['\\', '\'', '\''] + tail);
            assert(w2 =~= seq!['\''] + tail);
            assert(w2.drop_first() =~= tail);
            assert(w[0] == '\'');
            assert(shell_reads(w, true) == shell_reads(w1, false));
            assert(w1[0] == '\\' && w1[1] == '\'' && w1.len() >= 2);
            assert(shell_reads(w1, false) == after(seq![w1[1]], shell_reads(w2, false)));
            assert(w2[0] == '\'');
            assert(shell_reads(w2, false) == read_tail);
            assert(shell_reads(w, true) == after(seq!['\''], read_tail));
        } else {
            assert(w.drop_first() =~= tail);
            assert(w[0] == c);
            assert(shell_reads(w, true) == after(seq![c], read_tail));
        }
        if shell_reads(rest, true) is Some {
            assert(seq![c] + (t + shell_reads(rest, true)->0) =~= s + shell_reads(rest, true)->0);
        }
    }
}

/// A quoted argument reaches the remote command unchanged: a shell reads
/// the quoted form of any text as that text, whatever characters it holds.
pub proof fn quoted_is_read_back(s: Seq<char>)
    ensures
        shell_reads(quoted(s), false) == Some(s),
{
    let close = seq!['\''];
    escaped_is_read_back(s, close);
    assert(quoted(s).drop_first() =~= escaped(s) + close);
    assert(close.drop_first() =~= Seq::<char>::empty());
    assert(quoted(s)[0] == '\'');
    assert(shell_reads(quoted(s), false) == shell_reads(escaped(s) + close, true));
    assert(close[0] == '\'');
    assert(shell_reads(close.drop_first(), false) == Some(Seq::<char>::empty()));
    assert(shell_reads(close, true) == Some(Seq::<char>::empty()));
    assert(s + Seq::<char>::empty() =~= s);
}

} // verus!
