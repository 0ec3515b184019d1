//! Text measured and cut by the bytes of its UTF-8 form.

use vstd::prelude::*;
use vstd::string::StringExecFns;
use vstd::utf8::{decode_utf8, encode_utf8, is_char_boundary};

verus! {

broadcast use vstd::utf8::encode_utf8_decode_utf8;

/// The number of bytes of `s` in UTF-8.
pub open spec fn byte_len(s: Seq<char>) -> nat {
    encode_utf8(s).len()
}

/// Whether a character of `s` begins at the byte `n`, or `s` ends there.
pub open spec fn cuts_at(s: Seq<char>, n: int) -> bool {
    is_char_boundary(encode_utf8(s), n)
}

/// The text of the first `n` bytes of `s`.
pub open spec fn head_bytes(s: Seq<char>, n: int) -> Seq<char> {
    decode_utf8(encode_utf8(s).subrange(0, n))
}

/// The text of `s` from the byte `n` on.
pub open spec fn tail_bytes(s: Seq<char>, n: int) -> Seq<char> {
    decode_utf8(encode_utf8(s).subrange(n, encode_utf8(s).len() as int))
}

/// The number of bytes of `s` in UTF-8.
pub fn utf8_len(s: &str) -> (n: usize)
    ensures
        n == byte_len(s@),
{
    s.as_bytes().len()
}

/// `s` cut at the byte `n`; `None` where no character begins there.
pub fn split_bytes(s: &str, n: usize) -> (r: Option<(&str, &str)>)
    ensures
        match r {
            Some((a, b)) => cuts_at(s@, n as int) && a@ == head_bytes(s@, n as int) && b@
                == tail_bytes(s@, n as int),
            None => !cuts_at(s@, n as int),
        },
{
    if s.is_char_boundary(n) {
        let (a, b) = s.split_at(n);
        assert(decode_utf8(encode_utf8(a@)) == a@);
        assert(decode_utf8(encode_utf8(b@)) == b@);
        Some((a, b))
    } else {
        None
    }
}

/// `text` as it is handed on where at most `max` bytes may be: a longer
/// text is cut after `max` bytes and `notice` is put behind it.
pub open spec fn shortened(text: Seq<char>, max: nat, notice: Seq<char>) -> Seq<char> {
    if byte_len(text) > max {
        head_bytes(text, max as int) + notice
    } else {
        text
    }
}

/// `text` with at most `max` of its bytes; `None` where it is longer and
/// no character begins at the byte `max`.
pub fn shorten(text: &str, max: usize, notice: &str) -> (r: Option<String>)
    ensures
        match r {
            Some(s) => s@ == shortened(text@, max as nat, notice@) && (byte_len(text@) > max
                ==> cuts_at(text@, max as int)),
            None => byte_len(text@) > max && !cuts_at(text@, max as int),
        },
{
    if utf8_len(text) > max {
        match split_bytes(text, max) {
            Some((head, _)) => {
                let mut s = head.to_owned();
                s.append(notice);
                Some(s)
            },
            None => None,
        }
    } else {
        Some(text.to_owned())
    }
}

} // verus!
