//! The executable JSON serializer: produces exactly the canonical text
//! that `ser_value` describes.

use crate::json::{
    digit_char, esc_char, hex_char, jv_of_elems, jv_of_members, lemma_jv_of_elems_len,
    lemma_jv_of_elems_push, lemma_jv_of_members_len, lemma_jv_of_members_push, ser_elems, ser_int,
    ser_members, ser_nat, ser_str_body, ser_value, JsonValue, Jv,
};
use crate::text::{chars_to_string, str_to_chars, string_to_bytes};
use vstd::prelude::*;
use vstd::utf8::encode_utf8;

verus! {

broadcast use vstd::seq::axiom_seq_index_decreases, vstd::std_specs::vec::axiom_vec_decreases_to_view;

// ---------------------------------------------------------------------------
// Facts about the canonical text, used to run the spec left to right.
// ---------------------------------------------------------------------------



pub proof fn lemma_ser_elems_push(elems: Seq<Jv>, x: Jv)
    ensures
        ser_elems(elems.push(x)) == if elems.len() == 0 {
            ser_value(x)
        } else {
            ser_elems(elems) + seq![','] + ser_value(x)
        },
    decreases elems.len(),
{
    if elems.len() == 0 {
        assert(elems.push(x).len() == 1);
        assert(elems.push(x).first() == x);
    } else {
        assert(elems.push(x).drop_first() =~= elems.drop_first().push(x));
        lemma_ser_elems_push(elems.drop_first(), x);
        if elems.len() == 1 {
            assert(ser_elems(elems.push(x)) =~= ser_elems(elems) + seq![','] + ser_value(x));
        } else {
            assert(ser_elems(elems.push(x)) =~= ser_elems(elems) + seq![','] + ser_value(x));
        }
    }
}

pub proof fn lemma_ser_members_push(members: Seq<(Seq<char>, Jv)>, m: (Seq<char>, Jv))
    ensures
        ser_members(members.push(m)) == if members.len() == 0 {
            seq!['"'] + ser_str_body(m.0) + seq!['"', ':'] + ser_value(m.1)
        } else {
            ser_members(members) + seq![','] + (seq!['"'] + ser_str_body(m.0) + seq!['"', ':']
                + ser_value(m.1))
        },
    decreases members.len(),
{
    if members.len() == 0 {
        assert(members.push(m).len() == 1);
        assert(members.push(m).first() == m);
    } else {
        assert(members.push(m).drop_first() =~= members.drop_first().push(m));
        lemma_ser_members_push(members.drop_first(), m);
        assert(ser_members(members.push(m)) =~= ser_members(members) + seq![','] + (seq!['"']
            + ser_str_body(m.0) + seq!['"', ':'] + ser_value(m.1)));
    }
}

pub proof fn lemma_ser_str_body_push(s: Seq<char>, c: char)
    ensures
        ser_str_body(s.push(c)) == ser_str_body(s) + esc_char(c),
    decreases s.len(),
{
    if s.len() == 0 {
        reveal_with_fuel(ser_str_body, 2);
        assert(s.push(c).drop_first() =~= Seq::<char>::empty());
        assert(ser_str_body(s.push(c)) =~= ser_str_body(s) + esc_char(c));
    } else {
        assert(s.push(c).drop_first() =~= s.drop_first().push(c));
        lemma_ser_str_body_push(s.drop_first(), c);
        assert(ser_str_body(s.push(c)) =~= ser_str_body(s) + esc_char(c));
    }
}

// ---------------------------------------------------------------------------
// The serializer.
// ---------------------------------------------------------------------------

/// The decimal digit character of `d`.
fn write_digit(d: u64) -> (c: char)
    requires
        d < 10,
    ensures
        c == digit_char(d as int),
{
    match d {
        0 => '0',
        1 => '1',
        2 => '2',
        3 => '3',
        4 => '4',
        5 => '5',
        6 => '6',
        7 => '7',
        8 => '8',
        _ => '9',
    }
}

/// The lowercase hexadecimal digit character of `d`.
fn write_hex(d: u32) -> (c: char)
    requires
        d < 16,
    ensures
        c == hex_char(d as int),
{
    match d {
        0 => '0',
        1 => '1',
        2 => '2',
        3 => '3',
        4 => '4',
        5 => '5',
        6 => '6',
        7 => '7',
        8 => '8',
        9 => '9',
        10 => 'a',
        11 => 'b',
        12 => 'c',
        13 => 'd',
        14 => 'e',
        _ => 'f',
    }
}

/// Appends the decimal digits of `n`, most significant first.
fn write_nat(out: &mut Vec<char>, n: u64)
    ensures
        final(out)@ == old(out)@ + ser_nat(n as int),
    decreases n,
{
    if n < 10 {
        out.push(write_digit(n));
        proof {
            assert(final(out)@ =~= old(out)@ + ser_nat(n as int));
        }
    } else {
        proof {
            assert(n / 10 < n);
        }
        write_nat(out, n / 10);
        out.push(write_digit(n % 10));
        proof {
            assert(final(out)@ =~= old(out)@ + ser_nat(n as int));
        }
    }
}

/// Appends the decimal text of `n`, with a minus sign when negative.
fn write_int(out: &mut Vec<char>, n: i64)
    ensures
        final(out)@ == old(out)@ + ser_int(n as int),
{
    if n < 0 {
        out.push('-');
        let magnitude: u64 = if n == i64::MIN {
            9223372036854775808u64
        } else {
            (-n) as u64
        };
        proof {
            assert(magnitude as int == -(n as int));
        }
        write_nat(out, magnitude);
        proof {
            assert(final(out)@ =~= old(out)@ + ser_int(n as int));
        }
    } else {
        write_nat(out, n as u64);
    }
}

/// Appends the escaped text of one string character.
fn write_escaped(out: &mut Vec<char>, c: char)
    ensures
        final(out)@ == old(out)@ + esc_char(c),
{
    if c == '"' {
        out.push('\\');
        out.push('"');
    } else if c == '\\' {
        out.push('\\');
        out.push('\\');
    } else if c == '\u{8}' {
        out.push('\\');
        out.push('b');
    } else if c == '\u{c}' {
        out.push('\\');
        out.push('f');
    } else if c == '\n' {
        out.push('\\');
        out.push('n');
    } else if c == '\r' {
        out.push('\\');
        out.push('r');
    } else if c == '\t' {
        out.push('\\');
        out.push('t');
    } else if (c as u32) < 32 {
        out.push('\\');
        out.push('u');
        out.push('0');
        out.push('0');
        out.push(write_hex((c as u32) / 16));
        out.push(write_hex((c as u32) % 16));
    } else {
        out.push(c);
    }
    proof {
        assert(final(out)@ =~= old(out)@ + esc_char(c));
    }
}

/// Appends the characters of `s` as they stand.
fn write_verbatim(out: &mut Vec<char>, s: &String)
    ensures
        final(out)@ == old(out)@ + s@,
{
    let cs = str_to_chars(s.as_str());
    let mut i: usize = 0;
    while i < cs.len()
        invariant
            i <= cs.len(),
            cs@ == s@,
            out@ == old(out)@ + cs@.subrange(0, i as int),
        decreases cs.len() - i,
    {
        out.push(cs[i]);
        proof {
            assert(out@ =~= old(out)@ + cs@.subrange(0, i + 1 as int));
        }
        i = i + 1;
    }
    proof {
        assert(cs@.subrange(0, cs@.len() as int) =~= s@);
        assert(final(out)@ =~= old(out)@ + s@);
    }
}

/// Appends a quoted, escaped string literal.
fn write_string(out: &mut Vec<char>, s: &String)
    ensures
        final(out)@ == old(out)@ + ser_value(Jv::Str(s@)),
{
    let cs = str_to_chars(s.as_str());
    out.push('"');
    let mut i: usize = 0;
    while i < cs.len()
        invariant
            i <= cs.len(),
            cs@ == s@,
            out@ == old(out)@ + seq!['"'] + ser_str_body(cs@.subrange(0, i as int)),
        decreases cs.len() - i,
    {
        write_escaped(out, cs[i]);
        proof {
            assert(cs@.subrange(0, i + 1 as int) =~= cs@.subrange(0, i as int).push(cs@[i as int]));
            lemma_ser_str_body_push(cs@.subrange(0, i as int), cs@[i as int]);
            assert(out@ =~= old(out)@ + seq!['"'] + ser_str_body(cs@.subrange(0, i + 1 as int)));
        }
        i = i + 1;
    }
    out.push('"');
    proof {
        assert(cs@.subrange(0, cs@.len() as int) =~= s@);
        assert(final(out)@ =~= old(out)@ + ser_value(Jv::Str(s@)));
    }
}

/// Appends the canonical text of a value.
#[verifier::loop_isolation(false)]
#[verifier::rlimit(50)]
pub fn write_value(out: &mut Vec<char>, v: &JsonValue)
    ensures
        final(out)@ == old(out)@ + ser_value(v.jv()),
    decreases v,
{
    match v {
        JsonValue::Null => {
            out.push('n');
            out.push('u');
            out.push('l');
            out.push('l');
            proof {
                assert(final(out)@ =~= old(out)@ + ser_value(v.jv()));
            }
        },
        JsonValue::Bool(b) => {
            if *b {
                out.push('t');
                out.push('r');
                out.push('u');
                out.push('e');
            } else {
                out.push('f');
                out.push('a');
                out.push('l');
                out.push('s');
                out.push('e');
            }
            proof {
                assert(final(out)@ =~= old(out)@ + ser_value(v.jv()));
            }
        },
        JsonValue::Num(lexeme) => {
            write_verbatim(out, lexeme);
        },
        JsonValue::Str(s) => {
            write_string(out, s);
        },
        JsonValue::Arr(elems) => {
            out.push('[');
            let mut i: usize = 0;
            while i < elems.len()
                invariant
                    i <= elems.len(),
                    out@ == old(out)@ + seq!['['] + ser_elems(
                        jv_of_elems(elems@.subrange(0, i as int)),
                    ),
                decreases elems.len() - i,
            {
                if i > 0 {
                    out.push(',');
                }
                proof {
                    assert(decreases_to!(*v => v->Arr_0));
                    vstd::std_specs::vec::axiom_vec_index_decreases(*elems, i as int);
                }
                write_value(out, &elems[i]);
                proof {
                    let pre = elems@.subrange(0, i as int);
                    assert(elems@.subrange(0, i + 1 as int) =~= pre.push(elems@[i as int]));
                    lemma_jv_of_elems_push(pre, elems@[i as int]);
                    lemma_ser_elems_push(jv_of_elems(pre), elems@[i as int].jv());
                    lemma_jv_of_elems_len(pre);
                    assert(out@ =~= old(out)@ + seq!['['] + ser_elems(
                        jv_of_elems(elems@.subrange(0, i + 1 as int)),
                    ));
                }
                i = i + 1;
            }
            out.push(']');
            proof {
                assert(elems@.subrange(0, elems@.len() as int) =~= elems@);
                assert(final(out)@ =~= old(out)@ + ser_value(v.jv()));
            }
        },
        JsonValue::Obj(members) => {
            out.push('{');
            let mut i: usize = 0;
            while i < members.len()
                invariant
                    i <= members.len(),
                    out@ == old(out)@ + seq!['{'] + ser_members(
                        jv_of_members(members@.subrange(0, i as int)),
                    ),
                decreases members.len() - i,
            {
                if i > 0 {
                    out.push(',');
                }
                write_string(out, &members[i].0);
                out.push(':');
                proof {
                    assert(decreases_to!(*v => v->Obj_0));
                    vstd::std_specs::vec::axiom_vec_index_decreases(*members, i as int);
                }
                write_value(out, &members[i].1);
                proof {
                    let pre = members@.subrange(0, i as int);
                    assert(members@.subrange(0, i + 1 as int) =~= pre.push(members@[i as int]));
                    lemma_jv_of_members_push(pre, members@[i as int].0, members@[i as int].1);
                    lemma_ser_members_push(
                        jv_of_members(pre),
                        (members@[i as int].0@, members@[i as int].1.jv()),
                    );
                    lemma_jv_of_members_len(pre);
                    assert(out@ =~= old(out)@ + seq!['{'] + ser_members(
                        jv_of_members(members@.subrange(0, i + 1 as int)),
                    ));
                }
                i = i + 1;
            }
            out.push('}');
            proof {
                assert(members@.subrange(0, members@.len() as int) =~= members@);
                assert(final(out)@ =~= old(out)@ + ser_value(v.jv()));
            }
        },
    }
}



impl JsonValue {
    /// A number document carrying the canonical decimal text of `n`.
    pub fn from_int(n: i64) -> (r: JsonValue)
        ensures
            r.jv() == Jv::Num(ser_int(n as int)),
    {
        let mut cs: Vec<char> = Vec::new();
        write_int(&mut cs, n);
        proof {
            assert(cs@ =~= ser_int(n as int));
        }
        JsonValue::Num(chars_to_string(&cs))
    }
}

/// The canonical text of a value, as characters.
pub fn to_chars(v: &JsonValue) -> (r: Vec<char>)
    ensures
        r@ == ser_value(v.jv()),
{
    let mut out: Vec<char> = Vec::new();
    write_value(&mut out, v);
    proof {
        assert(out@ =~= ser_value(v.jv()));
    }
    out
}

/// The canonical text of a value.
pub fn to_text(v: &JsonValue) -> (r: String)
    ensures
        r@ == ser_value(v.jv()),
{
    let cs = to_chars(v);
    chars_to_string(&cs)
}

/// The canonical text of a value, encoded as UTF-8 bytes.
pub fn to_bytes(v: &JsonValue) -> (r: Vec<u8>)
    ensures
        r@ == encode_utf8(ser_value(v.jv())),
{
    let s = to_text(v);
    string_to_bytes(&s)
}

} // verus!
