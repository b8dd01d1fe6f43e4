//! The executable JSON reader: returns exactly the reading that the
//! `p_value` family of specifications describes.

use crate::json::{jv_of_elems, jv_of_members, JsonValue, Jv};
use crate::json_parse::{
    digits_end, exp_end, frac_end, hex_val, is_digit, is_ws,
    lemma_num_end_bounds, lemma_p_string_bounds, lemma_p_value_bounds, num_end, p_elems, p_members,
    p_number, p_string, p_text, p_value, skip_ws, unescape_simple,
};
use crate::text::{char_from_scalar, chars_to_string, str_to_chars};
use vstd::prelude::*;

verus! {

/// Whether `c` is JSON whitespace.
fn x_is_ws(c: char) -> (r: bool)
    ensures
        r == is_ws(c),
{
    c == ' ' || c == '\t' || c == '\n' || c == '\r'
}

/// Whether `c` is a decimal digit.
fn x_is_digit(c: char) -> (r: bool)
    ensures
        r == is_digit(c),
{
    c >= '0' && c <= '9'
}

/// The value of a hexadecimal digit character.
fn x_hex_val(c: char) -> (r: Option<u32>)
    ensures
        r is Some <==> hex_val(c) >= 0,
        r matches Some(v) ==> v as int == hex_val(c) && v < 16,
{
    if c >= '0' && c <= '9' {
        Some(c as u32 - 48)
    } else if c >= 'a' && c <= 'f' {
        Some(c as u32 - 87)
    } else if c >= 'A' && c <= 'F' {
        Some(c as u32 - 55)
    } else {
        None
    }
}

/// The first position at or after `i` that does not hold whitespace.
fn x_skip_ws(s: &Vec<char>, i: usize) -> (r: usize)
    requires
        i <= s.len(),
    ensures
        r as int == skip_ws(s@, i as int),
        i <= r <= s.len(),
{
    let mut k = i;
    while k < s.len() && x_is_ws(s[k])
        invariant
            i <= k <= s.len(),
            skip_ws(s@, i as int) == skip_ws(s@, k as int),
        decreases s.len() - k,
    {
        k = k + 1;
    }
    k
}

/// The first position at or after `i` that does not hold a digit.
fn x_digits_end(s: &Vec<char>, i: usize) -> (r: usize)
    requires
        i <= s.len(),
    ensures
        r as int == digits_end(s@, i as int),
        i <= r <= s.len(),
{
    let mut k = i;
    while k < s.len() && x_is_digit(s[k])
        invariant
            i <= k <= s.len(),
            digits_end(s@, i as int) == digits_end(s@, k as int),
        decreases s.len() - k,
    {
        k = k + 1;
    }
    k
}

/// Reads the number lexeme at `i`.
fn x_number(s: &Vec<char>, i: usize) -> (r: Option<(JsonValue, usize)>)
    requires
        i <= s.len(),
    ensures
        r is Some <==> p_number(s@, i as int) is Some,
        r matches Some((v, j)) ==> p_number(s@, i as int) matches Some((jv2, j2)) && v.jv() == jv2
            && j as int == j2 && i < j <= s.len(),
{
    proof {
        lemma_num_end_bounds(s@, i as int);
    }
    let d0 = if i < s.len() && s[i] == '-' {
        i + 1
    } else {
        i
    };
    if !(d0 < s.len() && x_is_digit(s[d0])) {
        return None;
    }
    let ie = x_digits_end(s, d0);
    if s[d0] == '0' && ie > d0 + 1 {
        return None;
    }
    let fe = if ie < s.len() && s[ie] == '.' {
        let de = x_digits_end(s, ie + 1);
        if de > ie + 1 {
            de
        } else {
            return None;
        }
    } else {
        ie
    };
    proof {
        assert(frac_end(s@, ie as int) == Some(fe as int));
    }
    let end = if fe < s.len() && (s[fe] == 'e' || s[fe] == 'E') {
        let sp = if fe + 1 < s.len() && (s[fe + 1] == '+' || s[fe + 1] == '-') {
            fe + 2
        } else {
            fe + 1
        };
        let de = x_digits_end(s, sp);
        if de > sp {
            de
        } else {
            return None;
        }
    } else {
        fe
    };
    proof {
        assert(exp_end(s@, fe as int) == Some(end as int));
        assert(num_end(s@, i as int) == Some(end as int));
    }
    let mut lexeme: Vec<char> = Vec::new();
    let mut k = i;
    while k < end
        invariant
            i <= k <= end <= s.len(),
            lexeme@ == s@.subrange(i as int, k as int),
        decreases end - k,
    {
        lexeme.push(s[k]);
        proof {
            assert(lexeme@ =~= s@.subrange(i as int, k + 1 as int));
        }
        k = k + 1;
    }
    let text = chars_to_string(&lexeme);
    Some((JsonValue::Num(text), end))
}

/// Reads the string body at `i`, which must follow an opening quote.
fn x_string(s: &Vec<char>, i: usize) -> (r: Option<(Vec<char>, usize)>)
    requires
        i <= s.len(),
    ensures
        r is Some <==> p_string(s@, i as int) is Some,
        r matches Some((cs, j)) ==> p_string(s@, i as int) matches Some((cs2, j2)) && cs@ == cs2
            && j as int == j2 && i < j <= s.len(),
{
    proof {
        lemma_p_string_bounds(s@, i as int);
    }
    let mut acc: Vec<char> = Vec::new();
    let mut cur = i;
    proof {
        match p_string(s@, i as int) {
            Some((rest, j)) => {
                assert(Seq::<char>::empty() + rest =~= rest);
            },
            None => {},
        }
    }
    loop
        invariant
            i <= cur <= s.len(),
            p_string(s@, i as int) == (match p_string(s@, cur as int) {
                Some((rest, j)) => Some((acc@ + rest, j)),
                None => None::<(Seq<char>, int)>,
            }),
        decreases s.len() - cur,
    {
        if cur >= s.len() {
            proof {
                assert(p_string(s@, cur as int) is None);
            }
            return None;
        }
        let c = s[cur];
        if c == '"' {
            proof {
                assert(p_string(s@, cur as int) == Some((Seq::<char>::empty(), cur + 1 as int)));
                assert(acc@ + Seq::<char>::empty() =~= acc@);
            }
            return Some((acc, cur + 1));
        } else if c == '\\' {
            if cur + 1 >= s.len() {
                return None;
            }
            let e = s[cur + 1];
            if e == 'u' {
                if s.len() < 6 || cur > s.len() - 6 {
                    proof {
                        assert(cur + 6 > s@.len());
                    }
                    return None;
                }
                let h0 = x_hex_val(s[cur + 2]);
                let h1 = x_hex_val(s[cur + 3]);
                let h2 = x_hex_val(s[cur + 4]);
                let h3 = x_hex_val(s[cur + 5]);
                match (h0, h1, h2, h3) {
                    (Some(a), Some(b), Some(cc), Some(dd)) => {
                        let h: u32 = a * 4096 + b * 256 + cc * 16 + dd;
                        if 0xD800 <= h && h < 0xDC00 {
                            if s.len() < 12 || cur > s.len() - 12 {
                                proof {
                                    assert(cur + 12 > s@.len());
                                }
                                return None;
                            }
                            if !(s[cur + 6] == '\\' && s[cur + 7] == 'u') {
                                return None;
                            }
                            let l0 = x_hex_val(s[cur + 8]);
                            let l1 = x_hex_val(s[cur + 9]);
                            let l2 = x_hex_val(s[cur + 10]);
                            let l3 = x_hex_val(s[cur + 11]);
                            match (l0, l1, l2, l3) {
                                (Some(la), Some(lb), Some(lc), Some(ld)) => {
                                    let l: u32 = la * 4096 + lb * 256 + lc * 16 + ld;
                                    if 0xDC00 <= l && l < 0xE000 {
                                        let cp: u32 = 0x10000 + (h - 0xD800) * 1024 + (l - 0xDC00);
                                        let ch = match char_from_scalar(cp) {
                                            Some(ch) => ch,
                                            None => {
                                                proof {
                                                    assert(false);
                                                }
                                                return None;
                                            },
                                        };
                                        proof {
                                            vstd::utf8::char_u32_cast(ch, cp);
                                            step_helper(s@, i as int, cur as int, acc@, ch, 12);
                                        }
                                        acc.push(ch);
                                        cur = cur + 12;
                                    } else {
                                        return None;
                                    }
                                },
                                _ => {
                                    return None;
                                },
                            }
                        } else if 0xDC00 <= h && h < 0xE000 {
                            return None;
                        } else {
                            let ch = match char_from_scalar(h) {
                                Some(ch) => ch,
                                None => {
                                    proof {
                                        assert(false);
                                    }
                                    return None;
                                },
                            };
                            proof {
                                vstd::utf8::char_u32_cast(ch, h);
                                step_helper(s@, i as int, cur as int, acc@, ch, 6);
                            }
                            acc.push(ch);
                            cur = cur + 6;
                        }
                    },
                    _ => {
                        return None;
                    },
                }
            } else {
                let ch = if e == '"' {
                    '"'
                } else if e == '\\' {
                    '\\'
                } else if e == '/' {
                    '/'
                } else if e == 'b' {
                    '\u{8}'
                } else if e == 'f' {
                    '\u{c}'
                } else if e == 'n' {
                    '\n'
                } else if e == 'r' {
                    '\r'
                } else if e == 't' {
                    '\t'
                } else {
                    return None;
                };
                proof {
                    assert(unescape_simple(s@[cur + 1 as int]) == Some(ch));
                    step_helper(s@, i as int, cur as int, acc@, ch, 2);
                }
                acc.push(ch);
                cur = cur + 2;
            }
        } else if c >= ' ' {
            proof {
                step_helper(s@, i as int, cur as int, acc@, c, 1);
            }
            acc.push(c);
            cur = cur + 1;
        } else {
            return None;
        }
    }
}

/// Reads the value at `i` with nesting budget `d`.
#[verifier::loop_isolation(false)]
#[verifier::rlimit(100)]
fn x_value(s: &Vec<char>, i: usize, d: u32) -> (r: Option<(JsonValue, usize)>)
    requires
        i <= s.len(),
    ensures
        r is Some <==> p_value(s@, i as int, d as int) is Some,
        r matches Some((v, j)) ==> p_value(s@, i as int, d as int) matches Some((jv2, j2))
            && v.jv() == jv2 && j as int == j2 && i < j <= s.len(),
    decreases d, s.len() - i,
{
    proof {
        lemma_p_value_bounds(s@, i as int, d as int);
    }
    let i0 = x_skip_ws(s, i);
    if i0 >= s.len() {
        return None;
    }
    let c = s[i0];
    if c == 'n' {
        if s.len() - i0 >= 4 && s[i0 + 1] == 'u' && s[i0 + 2] == 'l' && s[i0 + 3] == 'l' {
            Some((JsonValue::Null, i0 + 4))
        } else {
            None
        }
    } else if c == 't' {
        if s.len() - i0 >= 4 && s[i0 + 1] == 'r' && s[i0 + 2] == 'u' && s[i0 + 3] == 'e' {
            Some((JsonValue::Bool(true), i0 + 4))
        } else {
            None
        }
    } else if c == 'f' {
        if s.len() - i0 >= 5 && s[i0 + 1] == 'a' && s[i0 + 2] == 'l' && s[i0 + 3] == 's' && s[i0
            + 4] == 'e' {
            Some((JsonValue::Bool(false), i0 + 5))
        } else {
            None
        }
    } else if c == '"' {
        match x_string(s, i0 + 1) {
            Some((cs, j)) => {
                let st = chars_to_string(&cs);
                Some((JsonValue::Str(st), j))
            },
            None => None,
        }
    } else if c == '[' {
        if d == 0 {
            return None;
        }
        let k = x_skip_ws(s, i0 + 1);
        if k < s.len() && s[k] == ']' {
            proof {
                assert(jv_of_elems(Seq::<JsonValue>::empty()) =~= Seq::<Jv>::empty());
            }
            return Some((JsonValue::Arr(Vec::new()), k + 1));
        }
        let mut elems: Vec<JsonValue> = Vec::new();
        let mut cur = i0 + 1;
        proof {
            match p_elems(s@, i0 + 1 as int, d - 1 as int) {
                Some((rest, end)) => {
                    assert(jv_of_elems(Seq::<JsonValue>::empty()) + rest =~= rest);
                },
                None => {},
            }
        }
        loop
            invariant
                i0 + 1 <= cur <= s.len(),
                d >= 1,
                p_elems(s@, i0 + 1 as int, d - 1 as int) == (match p_elems(
                    s@,
                    cur as int,
                    d - 1 as int,
                ) {
                    Some((rest, end)) => Some((jv_of_elems(elems@) + rest, end)),
                    None => None::<(Seq<Jv>, int)>,
                }),
            decreases s.len() - cur,
        {
            let (v, j) = match x_value(s, cur, d - 1) {
                Some(p) => p,
                None => {
                    return None;
                },
            };
            let k2 = x_skip_ws(s, j);
            if k2 >= s.len() {
                return None;
            }
            if s[k2] == ',' {
                proof {
                    let pre = elems@;
                    lemma_jv_of_elems_push_local(pre, v);
                    match p_elems(s@, k2 + 1 as int, d - 1 as int) {
                        Some((rest, end)) => {
                            assert(jv_of_elems(pre) + (seq![v.jv()] + rest) =~= jv_of_elems(
                                pre.push(v),
                            ) + rest);
                        },
                        None => {},
                    }
                }
                elems.push(v);
                cur = k2 + 1;
            } else if s[k2] == ']' {
                proof {
                    let pre = elems@;
                    lemma_jv_of_elems_push_local(pre, v);
                    assert(jv_of_elems(pre) + seq![v.jv()] =~= jv_of_elems(pre.push(v)));
                }
                elems.push(v);
                return Some((JsonValue::Arr(elems), k2 + 1));
            } else {
                return None;
            }
        }
    } else if c == '{' {
        if d == 0 {
            return None;
        }
        let k = x_skip_ws(s, i0 + 1);
        if k < s.len() && s[k] == '}' {
            proof {
                assert(jv_of_members(Seq::<(String, JsonValue)>::empty()) =~= Seq::<
                    (Seq<char>, Jv),
                >::empty());
            }
            return Some((JsonValue::Obj(Vec::new()), k + 1));
        }
        let mut members: Vec<(String, JsonValue)> = Vec::new();
        let mut cur = i0 + 1;
        proof {
            match p_members(s@, i0 + 1 as int, d - 1 as int) {
                Some((rest, end)) => {
                    assert(jv_of_members(Seq::<(String, JsonValue)>::empty()) + rest =~= rest);
                },
                None => {},
            }
        }
        loop
            invariant
                i0 + 1 <= cur <= s.len(),
                d >= 1,
                p_members(s@, i0 + 1 as int, d - 1 as int) == (match p_members(
                    s@,
                    cur as int,
                    d - 1 as int,
                ) {
                    Some((rest, end)) => Some((jv_of_members(members@) + rest, end)),
                    None => None::<(Seq<(Seq<char>, Jv)>, int)>,
                }),
            decreases s.len() - cur,
        {
            let k0 = x_skip_ws(s, cur);
            if k0 >= s.len() {
                return None;
            }
            if s[k0] != '"' {
                return None;
            }
            let (name_cs, jn) = match x_string(s, k0 + 1) {
                Some(p) => p,
                None => {
                    return None;
                },
            };
            let k1 = x_skip_ws(s, jn);
            if k1 >= s.len() {
                return None;
            }
            if s[k1] != ':' {
                return None;
            }
            let (v, jv_end) = match x_value(s, k1 + 1, d - 1) {
                Some(p) => p,
                None => {
                    return None;
                },
            };
            let k2 = x_skip_ws(s, jv_end);
            if k2 >= s.len() {
                return None;
            }
            let name = chars_to_string(&name_cs);
            if s[k2] == ',' {
                proof {
                    let pre = members@;
                    lemma_jv_of_members_push_local(pre, name, v);
                    match p_members(s@, k2 + 1 as int, d - 1 as int) {
                        Some((rest, end)) => {
                            assert(jv_of_members(pre) + (seq![(name@, v.jv())] + rest)
                                =~= jv_of_members(pre.push((name, v))) + rest);
                        },
                        None => {},
                    }
                }
                members.push((name, v));
                cur = k2 + 1;
            } else if s[k2] == '}' {
                proof {
                    let pre = members@;
                    lemma_jv_of_members_push_local(pre, name, v);
                    assert(jv_of_members(pre) + seq![(name@, v.jv())] =~= jv_of_members(
                        pre.push((name, v)),
                    ));
                }
                members.push((name, v));
                return Some((JsonValue::Obj(members), k2 + 1));
            } else {
                return None;
            }
        }
    } else if c == '-' || x_is_digit(c) {
        x_number(s, i0)
    } else {
        None
    }
}

proof fn lemma_jv_of_elems_push_local(elems: Seq<JsonValue>, x: JsonValue)
    ensures
        jv_of_elems(elems.push(x)) == jv_of_elems(elems).push(x.jv()),
{
    crate::json::lemma_jv_of_elems_push(elems, x);
}

proof fn lemma_jv_of_members_push_local(members: Seq<(String, JsonValue)>, k: String, x: JsonValue)
    ensures
        jv_of_members(members.push((k, x))) == jv_of_members(members).push((k@, x.jv())),
{
    crate::json::lemma_jv_of_members_push(members, k, x);
}

/// Reads a whole document from characters: one value with nothing but
/// whitespace around it.
pub fn from_chars(s: &Vec<char>) -> (r: Option<JsonValue>)
    ensures
        r is Some <==> p_text(s@) is Some,
        r matches Some(v) ==> p_text(s@) == Some(v.jv()),
{
    match x_value(s, 0, 128) {
        Some((v, j)) => {
            let k = x_skip_ws(s, j);
            if k == s.len() {
                Some(v)
            } else {
                None
            }
        },
        None => None,
    }
}

/// Reads a whole document from text.
pub fn from_text(t: &str) -> (r: Option<JsonValue>)
    ensures
        r is Some <==> p_text(t@) is Some,
        r matches Some(v) ==> p_text(t@) == Some(v.jv()),
{
    let cs = str_to_chars(t);
    from_chars(&cs)
}

/// Glue for `x_string`'s loop: when one reading step at `cur` yields the
/// character `ch` and continues at `cur + n`, the whole-string invariant
/// carries over.
proof fn step_helper(s: Seq<char>, i: int, cur: int, acc: Seq<char>, ch: char, n: int)
    requires
        p_string(s, i) == (match p_string(s, cur) {
            Some((rest, j)) => Some((acc + rest, j)),
            None => None::<(Seq<char>, int)>,
        }),
        p_string(s, cur) == (match p_string(s, cur + n) {
            Some((rest, j)) => Some((seq![ch] + rest, j)),
            None => None::<(Seq<char>, int)>,
        }),
    ensures
        p_string(s, i) == (match p_string(s, cur + n) {
            Some((rest, j)) => Some((acc.push(ch) + rest, j)),
            None => None::<(Seq<char>, int)>,
        }),
{
    match p_string(s, cur + n) {
        Some((rest, j)) => {
            assert(acc + (seq![ch] + rest) =~= acc.push(ch) + rest);
        },
        None => {},
    }
}

} // verus!
