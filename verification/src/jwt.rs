//! The shape of a compact JWT: three dot-separated segments of unpadded
//! URL-safe base64, the first two of which carry JSON documents.
//!
//! Signature verification is not here: it belongs to the token validator,
//! which delegates the cryptography. This module pins down what the
//! token's text itself says.

use crate::json::{JsonValue, Jv};
use crate::json_parse::p_text;
use vstd::prelude::*;
use vstd::utf8::{decode_utf8, valid_utf8};

verus! {

/// The value of a URL-safe base64 alphabet character, or -1.
pub open spec fn b64_val(c: char) -> int {
    if 65 <= c as int && c as int <= 90 {
        c as int - 65
    } else if 97 <= c as int && c as int <= 122 {
        c as int - 71
    } else if 48 <= c as int && c as int <= 57 {
        c as int + 4
    } else if c == '-' {
        62
    } else if c == '_' {
        63
    } else {
        -1
    }
}

/// The bytes an unpadded URL-safe base64 text denotes, if it is valid:
/// whole groups of four characters yield three bytes; a trailing group of
/// three or two characters yields two bytes or one, with zero trailing
/// bits; a trailing single character is invalid.
pub open spec fn b64_decode(s: Seq<char>) -> Option<Seq<u8>>
    decreases s.len(),
{
    if s.len() >= 4 {
        if b64_val(s[0]) >= 0 && b64_val(s[1]) >= 0 && b64_val(s[2]) >= 0 && b64_val(s[3]) >= 0 {
            match b64_decode(s.skip(4)) {
                Some(rest) => Some(
                    seq![
                        (b64_val(s[0]) * 4 + b64_val(s[1]) / 16) as u8,
                        ((b64_val(s[1]) % 16) * 16 + b64_val(s[2]) / 4) as u8,
                        ((b64_val(s[2]) % 4) * 64 + b64_val(s[3])) as u8,
                    ] + rest,
                ),
                None => None,
            }
        } else {
            None
        }
    } else if s.len() == 3 {
        if b64_val(s[0]) >= 0 && b64_val(s[1]) >= 0 && b64_val(s[2]) >= 0 && b64_val(s[2]) % 4
            == 0 {
            Some(
                seq![
                    (b64_val(s[0]) * 4 + b64_val(s[1]) / 16) as u8,
                    ((b64_val(s[1]) % 16) * 16 + b64_val(s[2]) / 4) as u8,
                ],
            )
        } else {
            None
        }
    } else if s.len() == 2 {
        if b64_val(s[0]) >= 0 && b64_val(s[1]) >= 0 && b64_val(s[1]) % 16 == 0 {
            Some(seq![(b64_val(s[0]) * 4 + b64_val(s[1]) / 16) as u8])
        } else {
            None
        }
    } else if s.len() == 1 {
        None
    } else {
        Some(Seq::empty())
    }
}

/// The value of a URL-safe base64 alphabet character.
fn x_b64_val(c: char) -> (r: Option<u32>)
    ensures
        r is Some <==> b64_val(c) >= 0,
        r matches Some(v) ==> v as int == b64_val(c) && v < 64,
{
    if c >= 'A' && c <= 'Z' {
        Some(c as u32 - 65)
    } else if c >= 'a' && c <= 'z' {
        Some(c as u32 - 71)
    } else if c >= '0' && c <= '9' {
        Some(c as u32 + 4)
    } else if c == '-' {
        Some(62)
    } else if c == '_' {
        Some(63)
    } else {
        None
    }
}

/// Glue for the decoding loop: when one group at the front of the
/// remainder yields `bs` and the rest decodes, the whole decodes to the
/// accumulated bytes.
proof fn b64_step(s: Seq<char>, cur: Seq<char>, acc: Seq<u8>, bs: Seq<u8>)
    requires
        b64_decode(s) == (match b64_decode(cur) {
            Some(rest) => Some(acc + rest),
            None => None::<Seq<u8>>,
        }),
        b64_decode(cur) == (match b64_decode(cur.skip(4)) {
            Some(rest) => Some(bs + rest),
            None => None::<Seq<u8>>,
        }),
    ensures
        b64_decode(s) == (match b64_decode(cur.skip(4)) {
            Some(rest) => Some((acc + bs) + rest),
            None => None::<Seq<u8>>,
        }),
{
    match b64_decode(cur.skip(4)) {
        Some(rest) => {
            assert(acc + (bs + rest) =~= (acc + bs) + rest);
        },
        None => {},
    }
}

/// Decodes an unpadded URL-safe base64 text.
pub fn b64_decode_chars(s: &Vec<char>) -> (r: Option<Vec<u8>>)
    ensures
        r is Some <==> b64_decode(s@) is Some,
        r matches Some(bs) ==> b64_decode(s@) == Some(bs@),
{
    let mut out: Vec<u8> = Vec::new();
    let mut cur: usize = 0;
    proof {
        assert(s@.skip(0) =~= s@);
        match b64_decode(s@) {
            Some(rest) => {
                assert(Seq::<u8>::empty() + rest =~= rest);
            },
            None => {},
        }
    }
    while s.len() - cur >= 4
        invariant
            cur <= s.len(),
            b64_decode(s@) == (match b64_decode(s@.skip(cur as int)) {
                Some(rest) => Some(out@ + rest),
                None => None::<Seq<u8>>,
            }),
        decreases s.len() - cur,
    {
        let a = match x_b64_val(s[cur]) {
            Some(v) => v,
            None => {
                return None;
            },
        };
        let b = match x_b64_val(s[cur + 1]) {
            Some(v) => v,
            None => {
                return None;
            },
        };
        let c = match x_b64_val(s[cur + 2]) {
            Some(v) => v,
            None => {
                return None;
            },
        };
        let d = match x_b64_val(s[cur + 3]) {
            Some(v) => v,
            None => {
                return None;
            },
        };
        let b0: u8 = (a * 4 + b / 16) as u8;
        let b1: u8 = ((b % 16) * 16 + c / 4) as u8;
        let b2: u8 = ((c % 4) * 64 + d) as u8;
        proof {
            let rem = s@.skip(cur as int);
            assert(rem.len() >= 4);
            assert(rem[0] == s@[cur as int] && rem[1] == s@[cur + 1] && rem[2] == s@[cur + 2]
                && rem[3] == s@[cur + 3]);
            assert(rem.skip(4) =~= s@.skip(cur + 4));
            b64_step(s@, rem, out@, seq![b0, b1, b2]);
            assert(out@ + seq![b0, b1, b2] =~= out@.push(b0).push(b1).push(b2));
        }
        out.push(b0);
        out.push(b1);
        out.push(b2);
        cur = cur + 4;
    }
    let tail = s.len() - cur;
    if tail == 3 {
        let a = match x_b64_val(s[cur]) {
            Some(v) => v,
            None => {
                return None;
            },
        };
        let b = match x_b64_val(s[cur + 1]) {
            Some(v) => v,
            None => {
                return None;
            },
        };
        let c = match x_b64_val(s[cur + 2]) {
            Some(v) => v,
            None => {
                return None;
            },
        };
        if c % 4 != 0 {
            return None;
        }
        let b0: u8 = (a * 4 + b / 16) as u8;
        let b1: u8 = ((b % 16) * 16 + c / 4) as u8;
        proof {
            let rem = s@.skip(cur as int);
            assert(rem.len() == 3);
            assert(rem[0] == s@[cur as int] && rem[1] == s@[cur + 1] && rem[2] == s@[cur + 2]);
            assert(out@ + seq![b0, b1] =~= out@.push(b0).push(b1));
        }
        out.push(b0);
        out.push(b1);
        Some(out)
    } else if tail == 2 {
        let a = match x_b64_val(s[cur]) {
            Some(v) => v,
            None => {
                return None;
            },
        };
        let b = match x_b64_val(s[cur + 1]) {
            Some(v) => v,
            None => {
                return None;
            },
        };
        if b % 16 != 0 {
            return None;
        }
        let b0: u8 = (a * 4 + b / 16) as u8;
        proof {
            let rem = s@.skip(cur as int);
            assert(rem.len() == 2);
            assert(rem[0] == s@[cur as int] && rem[1] == s@[cur + 1]);
            assert(out@ + seq![b0] =~= out@.push(b0));
        }
        out.push(b0);
        Some(out)
    } else if tail == 1 {
        proof {
            assert(s@.skip(cur as int).len() == 1);
        }
        None
    } else {
        proof {
            assert(s@.skip(cur as int).len() == 0);
            assert(out@ + Seq::<u8>::empty() =~= out@);
        }
        Some(out)
    }
}

// ---------------------------------------------------------------------------
// Token segments.
// ---------------------------------------------------------------------------

/// The first position at or after `i` holding a dot, or the length.
pub open spec fn dot_end(s: Seq<char>, i: int) -> int
    decreases s.len() - i,
{
    if 0 <= i < s.len() && s[i] != '.' {
        dot_end(s, i + 1)
    } else {
        i
    }
}

proof fn lemma_dot_end_bounds(s: Seq<char>, i: int)
    requires
        0 <= i <= s.len(),
    ensures
        i <= dot_end(s, i) <= s.len(),
    decreases s.len() - i,
{
    if i < s.len() && s[i] != '.' {
        lemma_dot_end_bounds(s, i + 1);
    }
}

/// The three segments of a compact token: the text split at its exactly
/// two dots.
pub open spec fn jwt_segments(s: Seq<char>) -> Option<(Seq<char>, Seq<char>, Seq<char>)> {
    let a = dot_end(s, 0);
    if a >= s.len() {
        None
    } else {
        let b = dot_end(s, a + 1);
        if b >= s.len() {
            None
        } else if dot_end(s, b + 1) < s.len() {
            None
        } else {
            Some((s.subrange(0, a), s.subrange(a + 1, b), s.subrange(b + 1, s.len() as int)))
        }
    }
}

/// The first position at or after `i` holding a dot, or the length.
fn x_dot_end(s: &Vec<char>, i: usize) -> (r: usize)
    requires
        i <= s.len(),
    ensures
        r as int == dot_end(s@, i as int),
        i <= r <= s.len(),
{
    let mut k = i;
    while k < s.len() && s[k] != '.'
        invariant
            i <= k <= s.len(),
            dot_end(s@, i as int) == dot_end(s@, k as int),
        decreases s.len() - k,
    {
        k = k + 1;
    }
    k
}

/// Splits a compact token into its three segments.
pub fn split_segments(s: &Vec<char>) -> (r: Option<(Vec<char>, Vec<char>, Vec<char>)>)
    ensures
        r is Some <==> jwt_segments(s@) is Some,
        r matches Some((h, p, g)) ==> jwt_segments(s@) == Some((h@, p@, g@)),
{
    let a = x_dot_end(s, 0);
    if a >= s.len() {
        return None;
    }
    let b = x_dot_end(s, a + 1);
    if b >= s.len() {
        return None;
    }
    if x_dot_end(s, b + 1) < s.len() {
        return None;
    }
    let mut h: Vec<char> = Vec::new();
    let mut i: usize = 0;
    while i < a
        invariant
            i <= a <= s.len(),
            h@ == s@.subrange(0, i as int),
        decreases a - i,
    {
        h.push(s[i]);
        proof {
            assert(h@ =~= s@.subrange(0, i + 1 as int));
        }
        i = i + 1;
    }
    let mut p: Vec<char> = Vec::new();
    let mut j: usize = a + 1;
    while j < b
        invariant
            a + 1 <= j <= b <= s.len(),
            p@ == s@.subrange(a + 1 as int, j as int),
        decreases b - j,
    {
        p.push(s[j]);
        proof {
            assert(p@ =~= s@.subrange(a + 1 as int, j + 1 as int));
        }
        j = j + 1;
    }
    let mut g: Vec<char> = Vec::new();
    let mut k: usize = b + 1;
    while k < s.len()
        invariant
            b + 1 <= k <= s.len(),
            g@ == s@.subrange(b + 1 as int, k as int),
        decreases s.len() - k,
    {
        g.push(s[k]);
        proof {
            assert(g@ =~= s@.subrange(b + 1 as int, k + 1 as int));
        }
        k = k + 1;
    }
    proof {
        assert(h@ =~= s@.subrange(0, a as int));
        assert(p@ =~= s@.subrange(a + 1 as int, b as int));
        assert(g@ =~= s@.subrange(b + 1 as int, s@.len() as int));
    }
    Some((h, p, g))
}

// ---------------------------------------------------------------------------
// Segment documents.
// ---------------------------------------------------------------------------

/// The JSON document a base64 segment carries, if any: the segment must
/// decode, its bytes must be UTF-8, and the text must be a document the
/// reader admits.
pub open spec fn segment_doc(seg: Seq<char>) -> Option<Jv> {
    match b64_decode(seg) {
        Some(bytes) => if valid_utf8(bytes) {
            p_text(decode_utf8(bytes))
        } else {
            None
        },
        None => None,
    }
}

/// Reads the JSON document a base64 segment carries.
pub fn read_segment_doc(seg: &Vec<char>) -> (r: Option<JsonValue>)
    ensures
        r is Some <==> segment_doc(seg@) is Some,
        r matches Some(v) ==> segment_doc(seg@) == Some(v.jv()),
{
    let bytes = match b64_decode_chars(seg) {
        Some(bytes) => bytes,
        None => {
            return None;
        },
    };
    let text = match core::str::from_utf8(bytes.as_slice()) {
        Ok(text) => text,
        Err(_) => {
            return None;
        },
    };
    crate::json_read::from_text(text)
}

} // verus!
