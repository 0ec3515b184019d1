//! Finding characters and cutting text into lines, words and fields.

use crate::text::{is_space, part, rows, CharClass};
use vstd::prelude::*;

verus! {

/// The index of the first `c` in `s`; the length of `s` where there is none.
pub open spec fn position<T>(s: Seq<T>, c: T) -> int
    decreases s.len(),
{
    if s.len() == 0 || s[0] == c {
        0
    } else {
        1 + position(s.drop_first(), c)
    }
}

/// `position` is the least index that holds `c`, or the length.
pub proof fn position_is_first<T>(s: Seq<T>, c: T)
    ensures
        0 <= position(s, c) <= s.len(),
        forall|j: int| 0 <= j < position(s, c) ==> s[j] != c,
        position(s, c) < s.len() ==> s[position(s, c)] == c,
    decreases s.len(),
{
    if s.len() != 0 && s[0] != c {
        position_is_first(s.drop_first(), c);
        assert forall|j: int| 0 <= j < position(s, c) implies s[j] != c by {
            if j > 0 {
                assert(s.drop_first()[j - 1] == s[j]);
            }
        }
    }
}

/// An index with no `c` before it, which holds `c` or is the length, is
/// the position of `c`.
pub proof fn first_is_position<T>(s: Seq<T>, c: T, i: int)
    requires
        0 <= i <= s.len(),
        forall|j: int| 0 <= j < i ==> s[j] != c,
        i < s.len() ==> s[i] == c,
    ensures
        position(s, c) == i,
    decreases s.len(),
{
    if s.len() != 0 && s[0] != c {
        assert(i > 0);
        assert forall|j: int| 0 <= j < i - 1 implies s.drop_first()[j] != c by {
            assert(s.drop_first()[j] == s[j + 1]);
        }
        first_is_position(s.drop_first(), c, i - 1);
    }
}

/// The index of the first `c` in `s`; the length of `s` where there is none.
pub fn find(s: &Vec<char>, c: char) -> (r: usize)
    ensures
        r == position(s@, c),
{
    let mut i: usize = 0;
    while i < s.len() && s[i] != c
        invariant
            i <= s.len(),
            forall|j: int| 0 <= j < i ==> s@[j] != c,
        decreases s.len() - i,
    {
        i = i + 1;
    }
    proof {
        first_is_position(s@, c, i as int);
    }
    i
}

/// What stands before the first `c` and what stands after it; `None` where
/// `s` holds no `c`.
pub open spec fn cut(s: Seq<char>, c: char) -> Option<(Seq<char>, Seq<char>)> {
    let p = position(s, c);
    if p < s.len() {
        Some((s.take(p), s.skip(p + 1)))
    } else {
        None
    }
}

/// Cuts `s` at its first `c`.
pub fn cut_at(s: &Vec<char>, c: char) -> (r: Option<(Vec<char>, Vec<char>)>)
    ensures
        match r {
            Some((a, b)) => cut(s@, c) == Some((a@, b@)),
            None => cut(s@, c) is None,
        },
{
    let p = find(s, c);
    proof {
        position_is_first(s@, c);
    }
    if p < s.len() {
        let a = part(s, 0, p);
        let b = part(s, p + 1, s.len());
        assert(s@.take(p as int) =~= s@.subrange(0, p as int));
        assert(s@.skip(p + 1) =~= s@.subrange(p + 1, s.len() as int));
        Some((a, b))
    } else {
        None
    }
}

/// What stands in `s` after its last character of class `k`: all of `s`
/// where it holds none.
pub open spec fn tail(s: Seq<char>, k: CharClass) -> Seq<char>
    decreases s.len(),
{
    if s.len() == 0 || k.has(s.last()) {
        Seq::empty()
    } else {
        tail(s.drop_last(), k).push(s.last())
    }
}

/// The fields of `s` that a character of class `k` ends, in order.
pub open spec fn closed(s: Seq<char>, k: CharClass) -> Seq<Seq<char>>
    decreases s.len(),
{
    if s.len() == 0 {
        Seq::empty()
    } else if k.has(s.last()) {
        closed(s.drop_last(), k).push(tail(s.drop_last(), k))
    } else {
        closed(s.drop_last(), k)
    }
}

/// The fields into which the characters of class `k` cut `s`: one more
/// than there are such characters, empty fields included.
pub open spec fn fields(s: Seq<char>, k: CharClass) -> Seq<Seq<char>> {
    closed(s, k).push(tail(s, k))
}

/// The fields into which the characters of class `k` cut `s`.
pub fn split(s: &Vec<char>, k: CharClass) -> (out: Vec<Vec<char>>)
    ensures
        rows(out@) == fields(s@, k),
{
    let mut out: Vec<Vec<char>> = Vec::new();
    let mut cur: Vec<char> = Vec::new();
    let mut i: usize = 0;
    while i < s.len()
        invariant
            i <= s.len(),
            rows(out@) == closed(s@.take(i as int), k),
            cur@ == tail(s@.take(i as int), k),
        decreases s.len() - i,
    {
        let c = s[i];
        assert(s@.take(i + 1).drop_last() =~= s@.take(i as int));
        assert(s@.take(i + 1).last() == c);
        if k.holds(c) {
            let ghost before = out@;
            out.push(cur);
            assert(rows(out@) =~= rows(before).push(cur@));
            cur = Vec::new();
        } else {
            cur.push(c);
        }
        i = i + 1;
    }
    assert(s@.take(s.len() as int) =~= s@);
    let ghost before = out@;
    out.push(cur);
    assert(rows(out@) =~= rows(before).push(cur@));
    out
}

/// `s` without one carriage return at its end.
pub open spec fn drop_return(s: Seq<char>) -> Seq<char> {
    if s.len() > 0 && s.last() == '\r' {
        s.drop_last()
    } else {
        s
    }
}

/// The lines of `s` that a line feed ends, each without the carriage
/// return that may stand before the line feed.
pub open spec fn ended_lines(s: Seq<char>) -> Seq<Seq<char>>
    decreases s.len(),
{
    if s.len() == 0 {
        Seq::empty()
    } else if s.last() == '\n' {
        ended_lines(s.drop_last()).push(drop_return(tail(s.drop_last(), CharClass::Only('\n'))))
    } else {
        ended_lines(s.drop_last())
    }
}

/// The lines of `s`. A line ends at a line feed, or at a carriage return
/// followed by a line feed; what follows the last line feed is a line of
/// its own unless it is empty.
pub open spec fn lines(s: Seq<char>) -> Seq<Seq<char>> {
    let rest = tail(s, CharClass::Only('\n'));
    if rest.len() > 0 {
        ended_lines(s).push(rest)
    } else {
        ended_lines(s)
    }
}

/// The lines of `s`.
pub fn split_lines(s: &Vec<char>) -> (out: Vec<Vec<char>>)
    ensures
        rows(out@) == lines(s@),
{
    let mut out: Vec<Vec<char>> = Vec::new();
    let mut cur: Vec<char> = Vec::new();
    let mut i: usize = 0;
    while i < s.len()
        invariant
            i <= s.len(),
            rows(out@) == ended_lines(s@.take(i as int)),
            cur@ == tail(s@.take(i as int), CharClass::Only('\n')),
        decreases s.len() - i,
    {
        let c = s[i];
        assert(s@.take(i + 1).drop_last() =~= s@.take(i as int));
        assert(s@.take(i + 1).last() == c);
        if c == '\n' {
            let n = cur.len();
            if n > 0 && cur[n - 1] == '\r' {
                cur.pop();
            }
            let ghost before = out@;
            out.push(cur);
            assert(rows(out@) =~= rows(before).push(cur@));
            cur = Vec::new();
        } else {
            cur.push(c);
        }
        i = i + 1;
    }
    assert(s@.take(s.len() as int) =~= s@);
    if cur.len() > 0 {
        let ghost before = out@;
        out.push(cur);
        assert(rows(out@) =~= rows(before).push(cur@));
    }
    out
}

/// The words of `s` that white space ends, in order.
pub open spec fn ended_words(s: Seq<char>) -> Seq<Seq<char>>
    decreases s.len(),
{
    if s.len() == 0 {
        Seq::empty()
    } else if is_space(s.last()) && tail(s.drop_last(), CharClass::Space).len() > 0 {
        ended_words(s.drop_last()).push(tail(s.drop_last(), CharClass::Space))
    } else {
        ended_words(s.drop_last())
    }
}

/// The words of `s`: its longest runs of characters that are not white
/// space, in order.
pub open spec fn words(s: Seq<char>) -> Seq<Seq<char>> {
    let rest = tail(s, CharClass::Space);
    if rest.len() > 0 {
        ended_words(s).push(rest)
    } else {
        ended_words(s)
    }
}

/// The words of `s`.
pub fn split_words(s: &Vec<char>) -> (out: Vec<Vec<char>>)
    ensures
        rows(out@) == words(s@),
{
    let mut out: Vec<Vec<char>> = Vec::new();
    let mut cur: Vec<char> = Vec::new();
    let mut i: usize = 0;
    while i < s.len()
        invariant
            i <= s.len(),
            rows(out@) == ended_words(s@.take(i as int)),
            cur@ == tail(s@.take(i as int), CharClass::Space),
        decreases s.len() - i,
    {
        let c = s[i];
        assert(s@.take(i + 1).drop_last() =~= s@.take(i as int));
        assert(s@.take(i + 1).last() == c);
        if CharClass::Space.holds(c) {
            if cur.len() > 0 {
                let ghost before = out@;
                out.push(cur);
                assert(rows(out@) =~= rows(before).push(cur@));
                cur = Vec::new();
            }
        } else {
            cur.push(c);
        }
        i = i + 1;
    }
    assert(s@.take(s.len() as int) =~= s@);
    if cur.len() > 0 {
        let ghost before = out@;
        out.push(cur);
        assert(rows(out@) =~= rows(before).push(cur@));
    }
    out
}

/// Whether `sub` stands in `s` at the index `i`.
pub open spec fn stands_at(s: Seq<char>, sub: Seq<char>, i: int) -> bool {
    0 <= i && i + sub.len() <= s.len() && s.subrange(i, i + sub.len()) == sub
}

/// Whether `sub` stands somewhere in `s`.
pub open spec fn occurs(s: Seq<char>, sub: Seq<char>) -> bool {
    exists|i: int| stands_at(s, sub, i)
}

/// Whether `sub` stands in `s` at the index `i`.
pub fn matches_at(s: &Vec<char>, sub: &Vec<char>, i: usize) -> (r: bool)
    requires
        i + sub.len() <= s.len(),
    ensures
        r == stands_at(s@, sub@, i as int),
{
    let mut j: usize = 0;
    while j < sub.len()
        invariant
            j <= sub.len(),
            i + sub.len() <= s.len(),
            forall|k: int| 0 <= k < j ==> s@[i + k] == sub@[k],
        decreases sub.len() - j,
    {
        if s[i + j] != sub[j] {
            assert(s@.subrange(i as int, i + sub.len())[j as int] != sub@[j as int]);
            return false;
        }
        j = j + 1;
    }
    assert(s@.subrange(i as int, i + sub.len()) =~= sub@);
    true
}

/// Whether `sub` stands somewhere in `s`.
pub fn contains_text(s: &Vec<char>, sub: &Vec<char>) -> (r: bool)
    ensures
        r == occurs(s@, sub@),
{
    if sub.len() > s.len() {
        assert(forall|i: int| !stands_at(s@, sub@, i));
        return false;
    }
    let last: usize = s.len() - sub.len();
    let mut i: usize = 0;
    while i < last
        invariant
            i <= last,
            last == s.len() - sub.len(),
            forall|k: int| 0 <= k < i ==> !stands_at(s@, sub@, k),
        decreases last - i,
    {
        if matches_at(s, sub, i) {
            return true;
        }
        i = i + 1;
    }
    let r = matches_at(s, sub, last);
    assert(!r ==> forall|k: int| !stands_at(s@, sub@, k));
    r
}

/// Whether `s` ends with `sub`.
pub fn ends_with(s: &Vec<char>, sub: &Vec<char>) -> (r: bool)
    ensures
        r == sub@.is_suffix_of(s@),
{
    if sub.len() > s.len() {
        return false;
    }
    let r = matches_at(s, sub, s.len() - sub.len());
    assert(s@.subrange(s.len() - sub.len(), s.len() as int) =~= s@.skip(s.len() - sub.len()));
    r
}

/// The first fields of `s` that `c` parts, at most `n` of them: the last
/// one holds all that is left, further `c` included.
pub open spec fn first_fields(s: Seq<char>, c: char, n: nat) -> Seq<Seq<char>>
    decreases n,
{
    if n == 0 {
        Seq::empty()
    } else if n == 1 {
        seq![s]
    } else {
        match cut(s, c) {
            Some((a, b)) => seq![a] + first_fields(b, c, (n - 1) as nat),
            None => seq![s],
        }
    }
}

/// The first fields of `s` that `c` parts, at most `n` of them.
pub fn split_first(s: &Vec<char>, c: char, n: usize) -> (out: Vec<Vec<char>>)
    ensures
        rows(out@) == first_fields(s@, c, n as nat),
{
    let mut out: Vec<Vec<char>> = Vec::new();
    if n == 0 {
        assert(rows(out@) =~= Seq::empty());
        return out;
    }
    let mut rest: Vec<char> = part(s, 0, s.len());
    assert(rest@ =~= s@);
    let mut left: usize = n;
    assert(rows(out@) + first_fields(rest@, c, left as nat) =~= first_fields(s@, c, n as nat));
    while left > 1
        invariant
            1 <= left <= n,
            rows(out@) + first_fields(rest@, c, left as nat) == first_fields(s@, c, n as nat),
        decreases left,
    {
        match cut_at(&rest, c) {
            Some((a, b)) => {
                let ghost before = out@;
                out.push(a);
                assert(rows(out@) =~= rows(before).push(a@));
                assert(rows(out@) + first_fields(b@, c, (left - 1) as nat) =~= rows(before)
                    + first_fields(rest@, c, left as nat));
                rest = b;
                left = left - 1;
            },
            None => {
                let ghost before = out@;
                out.push(rest);
                assert(rows(out@) =~= rows(before).push(rest@));
                assert(rows(out@) =~= rows(before) + first_fields(rest@, c, left as nat));
                return out;
            },
        }
    }
    let ghost before = out@;
    out.push(rest);
    assert(rows(out@) =~= rows(before).push(rest@));
    assert(rows(out@) =~= rows(before) + first_fields(rest@, c, 1));
    out
}

/// The first index at which `sub` stands in `s`; the length of `s` where it
/// stands nowhere.
pub open spec fn first_at(s: Seq<char>, sub: Seq<char>) -> int
    decreases s.len(),
{
    if stands_at(s, sub, 0) || s.len() == 0 {
        0
    } else {
        1 + first_at(s.drop_first(), sub)
    }
}

/// `sub` stands in `s` at an index `i`, and nowhere before it, exactly
/// where `i` is `first_at` and is not the length of `s`, or `sub` is empty.
pub proof fn first_at_is_first(s: Seq<char>, sub: Seq<char>, i: int)
    requires
        0 <= i <= s.len(),
        forall|k: int| 0 <= k < i ==> !stands_at(s, sub, k),
        stands_at(s, sub, i) || i == s.len(),
    ensures
        first_at(s, sub) == i,
    decreases s.len(),
{
    if !(stands_at(s, sub, 0) || s.len() == 0) {
        assert(i > 0);
        let t = s.drop_first();
        assert forall|k: int| 0 <= k < i - 1 implies !stands_at(t, sub, k) by {
            if stands_at(t, sub, k) {
                assert(s.subrange(k + 1, k + 1 + sub.len()) =~= t.subrange(k, k + sub.len()));
                assert(stands_at(s, sub, k + 1));
            }
        }
        if stands_at(s, sub, i) {
            assert(t.subrange(i - 1, i - 1 + sub.len()) =~= s.subrange(i, i + sub.len()));
        }
        first_at_is_first(t, sub, i - 1);
    } else if s.len() > 0 {
        assert(i == 0);
    }
}

/// The first index at which `sub` stands in `s`; the length of `s` where it
/// stands nowhere.
pub fn find_text(s: &Vec<char>, sub: &Vec<char>) -> (r: usize)
    ensures
        r == first_at(s@, sub@),
        r <= s.len(),
        r < s.len() ==> stands_at(s@, sub@, r as int),
        r == s.len() ==> (occurs(s@, sub@) <==> sub@.len() == 0),
{
    let mut i: usize = 0;
    while i < s.len()
        invariant
            i <= s.len(),
            forall|k: int| 0 <= k < i ==> !stands_at(s@, sub@, k),
        decreases s.len() - i,
    {
        if sub.len() <= s.len() - i && matches_at(s, sub, i) {
            proof {
                first_at_is_first(s@, sub@, i as int);
            }
            return i;
        }
        i = i + 1;
    }
    proof {
        first_at_is_first(s@, sub@, i as int);
        if sub@.len() == 0 {
            assert(s@.subrange(s.len() as int, s.len() as int) =~= sub@);
            assert(stands_at(s@, sub@, s.len() as int));
        } else {
            assert forall|k: int| !stands_at(s@, sub@, k) by {
                if stands_at(s@, sub@, k) {
                    assert(k < s.len());
                }
            }
        }
    }
    i
}

/// The index after the last `c` in `s`; 0 where there is none.
pub open spec fn after_last(s: Seq<char>, c: char) -> int
    decreases s.len(),
{
    if s.len() == 0 {
        0
    } else if s.last() == c {
        s.len() as int
    } else {
        after_last(s.drop_last(), c)
    }
}

/// The index after the last `c` in `s`; 0 where there is none.
pub fn find_after_last(s: &Vec<char>, c: char) -> (r: usize)
    ensures
        r == after_last(s@, c),
        r <= s.len(),
{
    let mut i: usize = s.len();
    assert(s@.take(i as int) =~= s@);
    while i > 0 && s[i - 1] != c
        invariant
            i <= s.len(),
            after_last(s@, c) == after_last(s@.take(i as int), c),
        decreases i,
    {
        assert(s@.take(i as int).drop_last() =~= s@.take(i - 1));
        i = i - 1;
    }
    i
}

} // verus!
