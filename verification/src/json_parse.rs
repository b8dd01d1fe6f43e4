//! The meaning of JSON text: a recursive-descent reading of a character
//! sequence.
//!
//! `p_value(s, i, d)` is the value found at position `i` of `s` together
//! with the position just past it, or `None` when no value can be read
//! there. `d` bounds how many containers may nest below this point, as
//! the executable reader enforces; text nested more deeply has no reading.
//! The grammar is strict JSON; a number is returned as its exact lexeme.

use crate::json::Jv;
use vstd::prelude::*;

verus! {

pub open spec fn is_ws(c: char) -> bool {
    c == ' ' || c == '\t' || c == '\n' || c == '\r'
}

pub open spec fn is_digit(c: char) -> bool {
    48 <= c as int && c as int <= 57
}

/// The value of a hexadecimal digit character, or -1.
pub open spec fn hex_val(c: char) -> int {
    if 48 <= c as int && c as int <= 57 {
        c as int - 48
    } else if 97 <= c as int && c as int <= 102 {
        c as int - 87
    } else if 65 <= c as int && c as int <= 70 {
        c as int - 55
    } else {
        -1
    }
}

/// The character a simple (single-letter) escape stands for.
pub open spec fn unescape_simple(c: char) -> Option<char> {
    if c == '"' {
        Some('"')
    } else if c == '\\' {
        Some('\\')
    } else if c == '/' {
        Some('/')
    } else if c == 'b' {
        Some('\u{8}')
    } else if c == 'f' {
        Some('\u{c}')
    } else if c == 'n' {
        Some('\n')
    } else if c == 'r' {
        Some('\r')
    } else if c == 't' {
        Some('\t')
    } else {
        None
    }
}

/// The first position at or after `i` that does not hold whitespace.
pub open spec fn skip_ws(s: Seq<char>, i: int) -> int
    decreases s.len() - i,
{
    if 0 <= i < s.len() && is_ws(s[i]) {
        skip_ws(s, i + 1)
    } else {
        i
    }
}

pub proof fn lemma_skip_ws_bounds(s: Seq<char>, i: int)
    requires
        0 <= i <= s.len(),
    ensures
        i <= skip_ws(s, i) <= s.len(),
        skip_ws(s, i) < s.len() ==> !is_ws(s[skip_ws(s, i)]),
    decreases s.len() - i,
{
    if i < s.len() && is_ws(s[i]) {
        lemma_skip_ws_bounds(s, i + 1);
    }
}

/// The first position at or after `i` that does not hold a decimal digit.
pub open spec fn digits_end(s: Seq<char>, i: int) -> int
    decreases s.len() - i,
{
    if 0 <= i < s.len() && is_digit(s[i]) {
        digits_end(s, i + 1)
    } else {
        i
    }
}

pub proof fn lemma_digits_end_bounds(s: Seq<char>, i: int)
    requires
        0 <= i <= s.len(),
    ensures
        i <= digits_end(s, i) <= s.len(),
        digits_end(s, i) < s.len() ==> !is_digit(s[digits_end(s, i)]),
        forall|k: int| i <= k < digits_end(s, i) ==> is_digit(#[trigger] s[k]),
    decreases s.len() - i,
{
    if i < s.len() && is_digit(s[i]) {
        lemma_digits_end_bounds(s, i + 1);
    }
}

/// Whether a character may extend a number lexeme: a digit, a decimal
/// point, or an exponent marker.
pub open spec fn num_continues(c: char) -> bool {
    is_digit(c) || c == '.' || c == 'e' || c == 'E'
}

/// The end of a fraction part starting at `i`: `i` itself when no decimal
/// point stands there; past the point's digits, of which there must be at
/// least one, otherwise.
pub open spec fn frac_end(s: Seq<char>, i: int) -> Option<int> {
    if 0 <= i < s.len() && s[i] == '.' {
        let de = digits_end(s, i + 1);
        if de > i + 1 {
            Some(de)
        } else {
            None
        }
    } else {
        Some(i)
    }
}

/// The end of an exponent part starting at `i`: `i` itself when no
/// exponent marker stands there; past the optional sign and digits, of
/// which there must be at least one, otherwise.
pub open spec fn exp_end(s: Seq<char>, i: int) -> Option<int> {
    if 0 <= i < s.len() && (s[i] == 'e' || s[i] == 'E') {
        let sp = if i + 1 < s.len() && (s[i + 1] == '+' || s[i + 1] == '-') {
            i + 2
        } else {
            i + 1
        };
        let de = digits_end(s, sp);
        if de > sp {
            Some(de)
        } else {
            None
        }
    } else {
        Some(i)
    }
}

/// The end of the number lexeme starting at `i`, if one does: an optional
/// minus sign, an integer part without a superfluous leading zero, an
/// optional fraction and an optional exponent, read greedily.
pub open spec fn num_end(s: Seq<char>, i: int) -> Option<int> {
    let d0 = if 0 <= i < s.len() && s[i] == '-' {
        i + 1
    } else {
        i
    };
    if !(0 <= d0 < s.len() && is_digit(s[d0])) {
        None
    } else {
        let ie = digits_end(s, d0);
        if s[d0] == '0' && ie > d0 + 1 {
            None
        } else {
            match frac_end(s, ie) {
                Some(fe) => exp_end(s, fe),
                None => None,
            }
        }
    }
}

/// Whether a text is exactly one number lexeme.
pub open spec fn num_wf(lexeme: Seq<char>) -> bool {
    num_end(lexeme, 0) == Some(lexeme.len() as int)
}

/// The number starting at `i`: its exact lexeme and the position past it.
pub open spec fn p_number(s: Seq<char>, i: int) -> Option<(Jv, int)> {
    match num_end(s, i) {
        Some(end) => Some((Jv::Num(s.subrange(i, end)), end)),
        None => None,
    }
}

/// Whether every number lexeme of a value is well formed.
pub open spec fn jv_wf(j: Jv) -> bool
    decreases j,
{
    match j {
        Jv::Num(lexeme) => num_wf(lexeme),
        Jv::Arr(elems) => jv_wf_elems(elems),
        Jv::Obj(members) => jv_wf_members(members),
        _ => true,
    }
}

pub open spec fn jv_wf_elems(elems: Seq<Jv>) -> bool
    decreases elems,
{
    if elems.len() == 0 {
        true
    } else {
        jv_wf(elems.first()) && jv_wf_elems(elems.drop_first())
    }
}

pub open spec fn jv_wf_members(members: Seq<(Seq<char>, Jv)>) -> bool
    decreases members,
{
    if members.len() == 0 {
        true
    } else {
        jv_wf(members.first().1) && jv_wf_members(members.drop_first())
    }
}

/// The string body starting at `i`, which must follow an opening quote:
/// the characters it denotes and the position just past the closing quote.
pub open spec fn p_string(s: Seq<char>, i: int) -> Option<(Seq<char>, int)>
    decreases s.len() - i,
{
    if !(0 <= i < s.len()) {
        None
    } else if s[i] == '"' {
        Some((Seq::empty(), i + 1))
    } else if s[i] == '\\' {
        if i + 2 > s.len() {
            None
        } else if s[i + 1] == 'u' {
            if i + 6 > s.len() {
                None
            } else if hex_val(s[i + 2]) >= 0 && hex_val(s[i + 3]) >= 0 && hex_val(s[i + 4]) >= 0
                && hex_val(s[i + 5]) >= 0 {
                let h = hex_val(s[i + 2]) * 4096 + hex_val(s[i + 3]) * 256 + hex_val(s[i + 4]) * 16
                    + hex_val(s[i + 5]);
                if 0xD800 <= h < 0xDC00 {
                    if i + 12 > s.len() {
                        None
                    } else if s[i + 6] == '\\' && s[i + 7] == 'u' && hex_val(s[i + 8]) >= 0
                        && hex_val(s[i + 9]) >= 0 && hex_val(s[i + 10]) >= 0 && hex_val(s[i + 11])
                        >= 0 {
                        let l = hex_val(s[i + 8]) * 4096 + hex_val(s[i + 9]) * 256 + hex_val(
                            s[i + 10],
                        ) * 16 + hex_val(s[i + 11]);
                        if 0xDC00 <= l < 0xE000 {
                            let cp = 0x10000 + (h - 0xD800) * 1024 + (l - 0xDC00);
                            match p_string(s, i + 12) {
                                Some((rest, j)) => Some((seq![cp as char] + rest, j)),
                                None => None,
                            }
                        } else {
                            None
                        }
                    } else {
                        None
                    }
                } else if 0xDC00 <= h < 0xE000 {
                    None
                } else {
                    match p_string(s, i + 6) {
                        Some((rest, j)) => Some((seq![h as char] + rest, j)),
                        None => None,
                    }
                }
            } else {
                None
            }
        } else {
            match unescape_simple(s[i + 1]) {
                Some(c) => match p_string(s, i + 2) {
                    Some((rest, j)) => Some((seq![c] + rest, j)),
                    None => None,
                },
                None => None,
            }
        }
    } else if (s[i] as int) < 32 {
        None
    } else {
        match p_string(s, i + 1) {
            Some((rest, j)) => Some((seq![s[i]] + rest, j)),
            None => None,
        }
    }
}

/// The value at `i`, after leading whitespace, with nesting budget `d`.
pub open spec fn p_value(s: Seq<char>, i: int, d: int) -> Option<(Jv, int)>
    decreases d, s.len() - i, 0int,
{
    let i0 = skip_ws(s, i);
    if !(0 <= i0 < s.len()) {
        None
    } else if s[i0] == 'n' {
        if i0 + 4 <= s.len() && s[i0 + 1] == 'u' && s[i0 + 2] == 'l' && s[i0 + 3] == 'l' {
            Some((Jv::Null, i0 + 4))
        } else {
            None
        }
    } else if s[i0] == 't' {
        if i0 + 4 <= s.len() && s[i0 + 1] == 'r' && s[i0 + 2] == 'u' && s[i0 + 3] == 'e' {
            Some((Jv::Bool(true), i0 + 4))
        } else {
            None
        }
    } else if s[i0] == 'f' {
        if i0 + 5 <= s.len() && s[i0 + 1] == 'a' && s[i0 + 2] == 'l' && s[i0 + 3] == 's' && s[i0
            + 4] == 'e' {
            Some((Jv::Bool(false), i0 + 5))
        } else {
            None
        }
    } else if s[i0] == '"' {
        match p_string(s, i0 + 1) {
            Some((cs, j)) => Some((Jv::Str(cs), j)),
            None => None,
        }
    } else if s[i0] == '[' {
        if d <= 0 {
            None
        } else {
            let k = skip_ws(s, i0 + 1);
            if 0 <= k < s.len() && s[k] == ']' {
                Some((Jv::Arr(Seq::empty()), k + 1))
            } else {
                match p_elems(s, i0 + 1, d - 1) {
                    Some((elems, j)) => Some((Jv::Arr(elems), j)),
                    None => None,
                }
            }
        }
    } else if s[i0] == '{' {
        if d <= 0 {
            None
        } else {
            let k = skip_ws(s, i0 + 1);
            if 0 <= k < s.len() && s[k] == '}' {
                Some((Jv::Obj(Seq::empty()), k + 1))
            } else {
                match p_members(s, i0 + 1, d - 1) {
                    Some((members, j)) => Some((Jv::Obj(members), j)),
                    None => None,
                }
            }
        }
    } else if s[i0] == '-' || is_digit(s[i0]) {
        p_number(s, i0)
    } else {
        None
    }
}

/// One or more comma-separated values followed by `]`, starting at `i`
/// just past the opening bracket.
pub open spec fn p_elems(s: Seq<char>, i: int, d: int) -> Option<(Seq<Jv>, int)>
    decreases d, s.len() - i, 1int,
{
    if !(0 <= i <= s.len()) {
        None
    } else {
        match p_value(s, i, d) {
            Some((v, j)) => {
                if j <= i || j > s.len() {
                    None
                } else {
                    let k = skip_ws(s, j);
                    if k < j || k >= s.len() {
                        None
                    } else if s[k] == ',' {
                        match p_elems(s, k + 1, d) {
                            Some((rest, end)) => Some((seq![v] + rest, end)),
                            None => None,
                        }
                    } else if s[k] == ']' {
                        Some((seq![v], k + 1))
                    } else {
                        None
                    }
                }
            },
            None => None,
        }
    }
}

/// One or more comma-separated `"key": value` members followed by `}`,
/// starting at `i` just past the opening brace.
pub open spec fn p_members(s: Seq<char>, i: int, d: int) -> Option<(Seq<(Seq<char>, Jv)>, int)>
    decreases d, s.len() - i, 1int,
{
    if !(0 <= i <= s.len()) {
        None
    } else {
        let k0 = skip_ws(s, i);
        if k0 < i || k0 >= s.len() || s[k0] != '"' {
            None
        } else {
            match p_string(s, k0 + 1) {
                Some((name, jn)) => {
                    if jn <= k0 || jn > s.len() {
                        None
                    } else {
                        let k1 = skip_ws(s, jn);
                        if k1 < jn || k1 >= s.len() || s[k1] != ':' {
                            None
                        } else {
                            match p_value(s, k1 + 1, d) {
                                Some((v, jv_end)) => {
                                    if jv_end <= k1 || jv_end > s.len() {
                                        None
                                    } else {
                                        let k2 = skip_ws(s, jv_end);
                                        if k2 < jv_end || k2 >= s.len() {
                                            None
                                        } else if s[k2] == ',' {
                                            match p_members(s, k2 + 1, d) {
                                                Some((rest, end)) => Some(
                                                    (seq![(name, v)] + rest, end),
                                                ),
                                                None => None,
                                            }
                                        } else if s[k2] == '}' {
                                            Some((seq![(name, v)], k2 + 1))
                                        } else {
                                            None
                                        }
                                    }
                                },
                                None => None,
                            }
                        }
                    }
                },
                None => None,
            }
        }
    }
}

pub proof fn lemma_p_string_bounds(s: Seq<char>, i: int)
    requires
        0 <= i,
    ensures
        p_string(s, i) matches Some((cs, j)) ==> i < j <= s.len(),
    decreases s.len() - i,
{
    if 0 <= i < s.len() {
        if s[i] == '"' {
        } else if s[i] == '\\' {
            if i + 2 <= s.len() {
                if s[i + 1] == 'u' {
                    if i + 6 <= s.len() {
                        lemma_p_string_bounds(s, i + 6);
                        if i + 12 <= s.len() {
                            lemma_p_string_bounds(s, i + 12);
                        }
                    }
                } else {
                    lemma_p_string_bounds(s, i + 2);
                }
            }
        } else {
            lemma_p_string_bounds(s, i + 1);
        }
    }
}

pub proof fn lemma_digits_end_progress(s: Seq<char>, i: int)
    requires
        0 <= i < s.len(),
        is_digit(s[i]),
    ensures
        i < digits_end(s, i) <= s.len(),
{
    lemma_digits_end_bounds(s, i + 1);
}

pub proof fn lemma_num_end_bounds(s: Seq<char>, i: int)
    requires
        0 <= i,
    ensures
        num_end(s, i) matches Some(e) ==> i < e <= s.len(),
{
    let d0 = if 0 <= i < s.len() && s[i] == '-' {
        i + 1
    } else {
        i
    };
    if 0 <= d0 < s.len() && is_digit(s[d0]) {
        lemma_digits_end_progress(s, d0);
        let ie = digits_end(s, d0);
        match frac_end(s, ie) {
            Some(fe) => {
                if ie < s.len() && s[ie] == '.' {
                    lemma_digits_end_bounds(s, ie + 1);
                }
                match exp_end(s, fe) {
                    Some(e) => {
                        if fe < s.len() && (s[fe] == 'e' || s[fe] == 'E') {
                            if fe + 1 < s.len() && (s[fe + 1] == '+' || s[fe + 1] == '-') {
                                lemma_digits_end_bounds(s, fe + 2);
                            } else {
                                lemma_digits_end_bounds(s, fe + 1);
                            }
                        }
                    },
                    None => {},
                }
            },
            None => {},
        }
    }
}

pub proof fn lemma_p_number_bounds(s: Seq<char>, i: int)
    requires
        0 <= i,
    ensures
        p_number(s, i) matches Some((v, j)) ==> i < j <= s.len(),
{
    lemma_num_end_bounds(s, i);
}

pub proof fn lemma_p_value_bounds(s: Seq<char>, i: int, d: int)
    requires
        0 <= i,
    ensures
        p_value(s, i, d) matches Some((v, j)) ==> i < j <= s.len(),
    decreases d, s.len() - i, 0int,
{
    lemma_skip_ws_bounds(s, if i <= s.len() {
        i
    } else {
        s.len() as int
    });
    let i0 = skip_ws(s, i);
    if 0 <= i0 < s.len() {
        if s[i0] == '"' {
            lemma_p_string_bounds(s, i0 + 1);
        } else if s[i0] == '[' {
            if d > 0 {
                lemma_skip_ws_bounds(s, i0 + 1);
                lemma_p_elems_bounds(s, i0 + 1, d - 1);
            }
        } else if s[i0] == '{' {
            if d > 0 {
                lemma_skip_ws_bounds(s, i0 + 1);
                lemma_p_members_bounds(s, i0 + 1, d - 1);
            }
        } else if s[i0] == '-' || is_digit(s[i0]) {
            lemma_p_number_bounds(s, i0);
        }
    }
}

pub proof fn lemma_p_elems_bounds(s: Seq<char>, i: int, d: int)
    requires
        0 <= i,
    ensures
        p_elems(s, i, d) matches Some((elems, j)) ==> i < j <= s.len(),
    decreases d, s.len() - i, 1int,
{
    if 0 <= i <= s.len() {
        lemma_p_value_bounds(s, i, d);
        match p_value(s, i, d) {
            Some((v, j)) => {
                if i < j <= s.len() {
                    let k = skip_ws(s, j);
                    lemma_skip_ws_bounds(s, j);
                    if j <= k < s.len() && s[k] == ',' {
                        lemma_p_elems_bounds(s, k + 1, d);
                    }
                }
            },
            None => {},
        }
    }
}

pub proof fn lemma_p_members_bounds(s: Seq<char>, i: int, d: int)
    requires
        0 <= i,
    ensures
        p_members(s, i, d) matches Some((members, j)) ==> i < j <= s.len(),
    decreases d, s.len() - i, 1int,
{
    if 0 <= i <= s.len() {
        let k0 = skip_ws(s, i);
        lemma_skip_ws_bounds(s, i);
        if i <= k0 < s.len() && s[k0] == '"' {
            lemma_p_string_bounds(s, k0 + 1);
            match p_string(s, k0 + 1) {
                Some((name, jn)) => {
                    if k0 < jn <= s.len() {
                        let k1 = skip_ws(s, jn);
                        lemma_skip_ws_bounds(s, jn);
                        if jn <= k1 < s.len() && s[k1] == ':' {
                            lemma_p_value_bounds(s, k1 + 1, d);
                            match p_value(s, k1 + 1, d) {
                                Some((v, jv_end)) => {
                                    if k1 < jv_end <= s.len() {
                                        let k2 = skip_ws(s, jv_end);
                                        lemma_skip_ws_bounds(s, jv_end);
                                        if jv_end <= k2 < s.len() && s[k2] == ',' {
                                            lemma_p_members_bounds(s, k2 + 1, d);
                                        }
                                    }
                                },
                                None => {},
                            }
                        }
                    }
                },
                None => {},
            }
        }
    }
}

/// The nesting budget the executable reader grants a whole document.
pub open spec fn max_nesting() -> int {
    128
}

/// The reading of a whole document: one value, with nothing but
/// whitespace around it.
pub open spec fn p_text(s: Seq<char>) -> Option<Jv> {
    match p_value(s, 0, max_nesting()) {
        Some((v, j)) => {
            if 0 <= j <= s.len() && skip_ws(s, j) == s.len() {
                Some(v)
            } else {
                None
            }
        },
        None => None,
    }
}

} // verus!
