//! The codec's central law: reading the canonical text of a value gives
//! back exactly that value.

use crate::json::{
    digit_char, esc_char, hex_char, jv_depth, jv_depth_elems, jv_depth_members, ser_elems, ser_int,
    ser_members, ser_nat, ser_str_body, ser_value, Jv,
};
use crate::json_parse::{
    digits_end, exp_end, frac_end, hex_val, is_digit, is_ws, jv_wf, jv_wf_elems, jv_wf_members,
    lemma_digits_end_bounds,
    max_nesting, num_continues, num_end, num_wf, p_elems, p_members, p_number, p_string, p_text,
    p_value, skip_ws, unescape_simple,
};
use vstd::prelude::*;

verus! {

broadcast use vstd::seq::axiom_seq_index_decreases, vstd::seq::axiom_seq_subrange_decreases;

/// The text `t` stands at position `i` of `s`.
pub open spec fn region_is(s: Seq<char>, i: int, t: Seq<char>) -> bool {
    &&& 0 <= i
    &&& i + t.len() <= s.len()
    &&& forall|k: int| 0 <= k < t.len() ==> s[i + k] == t[k]
}

pub proof fn lemma_region_index(s: Seq<char>, i: int, t: Seq<char>, k: int)
    requires
        region_is(s, i, t),
        0 <= k < t.len(),
    ensures
        s[i + k] == t[k],
{
}

pub proof fn lemma_region_split(s: Seq<char>, i: int, a: Seq<char>, b: Seq<char>)
    requires
        region_is(s, i, a + b),
    ensures
        region_is(s, i, a),
        region_is(s, i + a.len(), b),
{
    assert forall|k: int| 0 <= k < a.len() implies s[i + k] == a[k] by {
        assert((a + b)[k] == a[k]);
    }
    assert forall|k: int| 0 <= k < b.len() implies s[i + a.len() + k] == b[k] by {
        assert((a + b)[a.len() + k] == b[k]);
    }
}

// ---------------------------------------------------------------------------
// Numbers.
// ---------------------------------------------------------------------------

pub proof fn lemma_ser_nat_props(n: int)
    requires
        n >= 0,
    ensures
        ser_nat(n).len() >= 1,
        forall|k: int| 0 <= k < ser_nat(n).len() ==> is_digit(#[trigger] ser_nat(n)[k]),
        n >= 1 ==> ser_nat(n)[0] != '0',
        n == 0 ==> ser_nat(n).len() == 1,
    decreases n,
{
    if n < 10 {
        assert(ser_nat(n) == seq![digit_char(n)]);
        assert(digit_char(n) as int == 48 + n);
        assert(is_digit(digit_char(n)));
        if n >= 1 {
            assert(digit_char(n) as int != 48);
            assert(('0') as int == 48);
        }
    } else {
        lemma_ser_nat_props(n / 10);
        let pre = ser_nat(n / 10);
        let last = digit_char(n % 10);
        assert(ser_nat(n) == pre + seq![last]);
        assert(last as int == 48 + n % 10);
        assert(is_digit(last));
        assert forall|k: int| 0 <= k < ser_nat(n).len() implies is_digit(
            #[trigger] ser_nat(n)[k],
        ) by {
            if k < pre.len() {
                assert(ser_nat(n)[k] == pre[k]);
            } else {
                assert(ser_nat(n)[k] == last);
            }
        }
        assert(n / 10 >= 1);
        assert(ser_nat(n)[0] == pre[0]);
    }
}

pub proof fn lemma_digits_end_exact(s: Seq<char>, i: int, j: int)
    requires
        0 <= i <= j <= s.len(),
        forall|k: int| i <= k < j ==> is_digit(#[trigger] s[k]),
        j == s.len() || !is_digit(s[j]),
    ensures
        digits_end(s, i) == j,
    decreases j - i,
{
    if i < j {
        lemma_digits_end_exact(s, i + 1, j);
    }
}

/// A digit run transplants: with the region's trailing boundary not a
/// digit, the run ends in `s` where it ends in the region's own text.
pub proof fn lemma_digits_end_region(s: Seq<char>, i: int, lex: Seq<char>, x: int)
    requires
        region_is(s, i, lex),
        0 <= x <= lex.len(),
        i + lex.len() == s.len() || !is_digit(s[i + lex.len()]),
    ensures
        digits_end(s, i + x) == i + digits_end(lex, x),
    decreases lex.len() - x,
{
    if x < lex.len() {
        lemma_region_index(s, i, lex, x);
        assert(s[i + x] == lex[x]);
        if is_digit(lex[x]) {
            lemma_digits_end_region(s, i, lex, x + 1);
        }
    }
}

/// A well-formed number lexeme is nonempty and starts with a minus sign
/// or a digit.
pub proof fn lemma_num_lexeme_first(lexeme: Seq<char>)
    requires
        num_wf(lexeme),
    ensures
        lexeme.len() >= 1,
        lexeme[0] == '-' || is_digit(lexeme[0]),
{
    if lexeme.len() == 0 {
        assert(num_end(lexeme, 0) is None);
    }
}

/// A whole number lexeme transplants: embedded at `i` and not followed by
/// a character that could extend it, it is read back as exactly itself.
pub proof fn lemma_num_end_region(s: Seq<char>, i: int, lex: Seq<char>)
    requires
        region_is(s, i, lex),
        num_wf(lex),
        i + lex.len() == s.len() || !num_continues(s[i + lex.len()]),
    ensures
        num_end(s, i) == Some(i + lex.len()),
        s.subrange(i, i + lex.len()) == lex,
{
    let n = lex.len() as int;
    assert(i + n == s.len() || !is_digit(s[i + n]));
    lemma_num_lexeme_first(lex);
    lemma_region_index(s, i, lex, 0);
    assert(s[i + 0] == lex[0]);
    let d0l: int = if lex[0] == '-' {
        1
    } else {
        0
    };
    let d0s = i + d0l;
    assert(0 <= d0l < n && is_digit(lex[d0l]));
    lemma_region_index(s, i, lex, d0l);
    assert(s[i + d0l] == lex[d0l]);
    lemma_digits_end_region(s, i, lex, d0l);
    let iel = digits_end(lex, d0l);
    lemma_digits_end_bounds(lex, d0l);
    assert(digits_end(s, d0s) == i + iel);
    assert(!(lex[d0l] == '0' && iel > d0l + 1));
    assert(frac_end(lex, iel) is Some);
    let fel = frac_end(lex, iel)->Some_0;
    if iel < n && lex[iel] == '.' {
        lemma_region_index(s, i, lex, iel);
        assert(s[i + iel] == '.');
        lemma_digits_end_region(s, i, lex, iel + 1);
        lemma_digits_end_bounds(lex, iel + 1);
        assert(fel == digits_end(lex, iel + 1));
        assert(frac_end(s, i + iel) == Some(i + fel));
    } else {
        assert(fel == iel);
        if iel < n {
            lemma_region_index(s, i, lex, iel);
            assert(s[i + iel] != '.');
        } else {
            assert(iel == n);
            assert(i + iel == s.len() || s[i + iel] != '.');
        }
        assert(frac_end(s, i + iel) == Some(i + fel));
    }
    assert(exp_end(lex, fel) == Some(n));
    if fel < n && (lex[fel] == 'e' || lex[fel] == 'E') {
        lemma_region_index(s, i, lex, fel);
        assert(s[i + fel] == lex[fel]);
        let spl: int = if fel + 1 < n && (lex[fel + 1] == '+' || lex[fel + 1] == '-') {
            fel + 2
        } else {
            fel + 1
        };
        assert(digits_end(lex, spl) == n && n > spl);
        assert(fel + 1 < n) by {
            if fel + 1 >= n {
                lemma_digits_end_bounds(lex, fel + 1);
            }
        }
        lemma_region_index(s, i, lex, fel + 1);
        assert(s[i + fel + 1] == lex[fel + 1]);
        lemma_digits_end_region(s, i, lex, spl);
        assert(exp_end(s, i + fel) == Some(i + n));
    } else {
        assert(fel == n);
        if fel < n {
            lemma_region_index(s, i, lex, fel);
        } else {
            assert(i + fel == s.len() || (s[i + fel] != 'e' && s[i + fel] != 'E'));
        }
        assert(exp_end(s, i + fel) == Some(i + n));
    }
    assert(num_end(s, i) == Some(i + n));
    assert(s.subrange(i, i + n) =~= lex);
}

/// The canonical decimal text of an integer is a well-formed lexeme.
pub proof fn lemma_int_lexeme_wf(n: i64)
    ensures
        num_wf(ser_int(n as int)),
{
    let lex = ser_int(n as int);
    let d0l: int = if n < 0 {
        1
    } else {
        0
    };
    let m: int = if n < 0 {
        -(n as int)
    } else {
        n as int
    };
    lemma_ser_nat_props(m);
    if n < 0 {
        assert(lex == seq!['-'] + ser_nat(m));
        assert(lex[0] == '-');
    } else {
        assert(lex == ser_nat(m));
        assert(lex[0] == ser_nat(m)[0]);
        assert(is_digit(lex[0]));
        assert(lex[0] != '-');
    }
    assert(lex[d0l] == ser_nat(m)[0]);
    assert(is_digit(lex[d0l]));
    assert forall|k: int| d0l <= k < lex.len() implies is_digit(#[trigger] lex[k]) by {
        assert(lex[k] == ser_nat(m)[k - d0l]);
    }
    lemma_digits_end_exact(lex, d0l, lex.len() as int);
    if lex[d0l] == '0' {
        assert(m == 0 ==> ser_nat(m).len() == 1);
        assert(m >= 1 ==> ser_nat(m)[0] != '0');
        assert(lex.len() == d0l + 1);
    }
    assert(frac_end(lex, lex.len() as int) == Some(lex.len() as int));
    assert(exp_end(lex, lex.len() as int) == Some(lex.len() as int));
    assert(num_end(lex, 0) == Some(lex.len() as int));
}

// ---------------------------------------------------------------------------
// Strings.
// ---------------------------------------------------------------------------

pub proof fn lemma_parse_ser_str_body(s: Seq<char>, i: int, cs: Seq<char>)
    requires
        region_is(s, i, ser_str_body(cs) + seq!['"']),
    ensures
        p_string(s, i) == Some((cs, i + ser_str_body(cs).len() + 1)),
    decreases cs.len(),
{
    let body = ser_str_body(cs);
    if cs.len() == 0 {
        assert(body == Seq::<char>::empty());
        assert(s[i] == (body + seq!['"'])[0]);
        assert(s[i] == '"');
        assert(p_string(s, i) == Some((Seq::<char>::empty(), i + 1)));
        assert(Seq::<char>::empty() =~= cs);
    } else {
        let c = cs.first();
        let e = esc_char(c);
        let rest_body = ser_str_body(cs.drop_first());
        assert(body == e + rest_body);
        assert(body + seq!['"'] =~= e + (rest_body + seq!['"']));
        lemma_region_split(s, i, e, rest_body + seq!['"']);
        lemma_parse_ser_str_body(s, i + e.len(), cs.drop_first());
        let after = Some((cs.drop_first(), i + e.len() + rest_body.len() + 1));
        assert(p_string(s, i + e.len()) == after);
        let end = i + body.len() + 1;
        assert(i + e.len() + rest_body.len() + 1 == end);
        if c == '"' || c == '\\' {
            assert(e == seq!['\\', if c == '"' {
                '"'
            } else {
                '\\'
            }]);
            assert(s[i] == '\\');
            assert(unescape_simple(s[i + 1]) == Some(c));
            assert(p_string(s, i) == Some((seq![c] + cs.drop_first(), end)));
            assert(seq![c] + cs.drop_first() =~= cs);
        } else if c == '\u{8}' || c == '\u{c}' || c == '\n' || c == '\r' || c == '\t' {
            assert(s[i] == '\\');
            assert(s[i + 1] == e[1]);
            assert(unescape_simple(s[i + 1]) == Some(c));
            assert(p_string(s, i) == Some((seq![c] + cs.drop_first(), end)));
            assert(seq![c] + cs.drop_first() =~= cs);
        } else if (c as int) < 32 {
            let hi = hex_char(c as int / 16);
            let lo = hex_char(c as int % 16);
            assert(e == seq!['\\', 'u', '0', '0', hi, lo]);
            lemma_region_index(s, i, e, 0);
            lemma_region_index(s, i, e, 1);
            lemma_region_index(s, i, e, 2);
            lemma_region_index(s, i, e, 3);
            lemma_region_index(s, i, e, 4);
            lemma_region_index(s, i, e, 5);
            assert(s[i] == '\\' && s[i + 1] == 'u' && s[i + 2] == '0' && s[i + 3] == '0' && s[i + 4]
                == hi && s[i + 5] == lo);
            assert(hex_val('0') == 0);
            let ci = c as int;
            assert(ci < 32);
            assert(0 <= ci) by {
                vstd::utf8::char_is_scalar(c);
                vstd::utf8::char_u32_cast(c, c as u32);
            }
            assert(0 <= ci / 16 < 2 && 0 <= ci % 16 < 16 && (ci / 16) * 16 + ci % 16 == ci)
                by (nonlinear_arith)
                requires
                    0 <= ci < 32,
            ;
            assert(hex_val(hi) == ci / 16);
            assert(hex_val(lo) == ci % 16);
            let h = hex_val(s[i + 2]) * 4096 + hex_val(s[i + 3]) * 256 + hex_val(s[i + 4]) * 16
                + hex_val(s[i + 5]);
            assert(h == (ci / 16) * 16 + ci % 16);
            assert(h == ci);
            assert(0 <= h < 32);
            assert(h as char == c);
            assert(p_string(s, i) == Some((seq![c] + cs.drop_first(), end)));
            assert(seq![c] + cs.drop_first() =~= cs);
        } else {
            assert(e == seq![c]);
            lemma_region_index(s, i, e, 0);
            assert(s[i + 0] == c);
            assert(s[i] == c);
            assert(c != '"' && c != '\\' && !((c as int) < 32));
            assert(p_string(s, i) == Some((seq![c] + cs.drop_first(), end)));
            assert(seq![c] + cs.drop_first() =~= cs);
        }
    }
}

// ---------------------------------------------------------------------------
// Values.
// ---------------------------------------------------------------------------

/// The canonical text of any well-formed value is nonempty, starts with
/// a character that is neither whitespace nor a closing token, and starts
/// with a digit or minus sign only when the value is a number.
pub proof fn lemma_ser_value_first(j: Jv)
    requires
        jv_wf(j),
    ensures
        ser_value(j).len() >= 1,
        !is_ws(ser_value(j)[0]),
        ser_value(j)[0] != ']',
        ser_value(j)[0] != '}',
        ser_value(j)[0] != ',',
        ser_value(j)[0] != ':',
{
    match j {
        Jv::Num(lexeme) => {
            lemma_num_lexeme_first(lexeme);
            assert(ser_value(j)[0] == lexeme[0]);
        },
        Jv::Arr(elems) => {
            assert(ser_value(j)[0] == '[');
        },
        Jv::Obj(members) => {
            assert(ser_value(j)[0] == '{');
        },
        _ => {},
    }
}

/// Reading the canonical text of a well-formed `j`, embedded at `i` and
/// not followed by a character that could extend a number, yields
/// exactly `j`.
#[verifier::rlimit(100)]
pub proof fn lemma_parse_ser_value(s: Seq<char>, i: int, j: Jv, d: int)
    requires
        region_is(s, i, ser_value(j)),
        jv_wf(j),
        d >= jv_depth(j),
        i + ser_value(j).len() == s.len() || !num_continues(s[i + ser_value(j).len()]),
    ensures
        p_value(s, i, d) == Some((j, i + ser_value(j).len())),
    decreases j,
{
    let t = ser_value(j);
    lemma_ser_value_first(j);
    lemma_region_index(s, i, t, 0);
    assert(s[i + 0] == t[0]);
    assert(!is_ws(s[i]));
    assert(skip_ws(s, i) == i);
    match j {
        Jv::Null => {
            lemma_region_index(s, i, t, 1);
            lemma_region_index(s, i, t, 2);
            lemma_region_index(s, i, t, 3);
            assert(s[i] == 'n' && s[i + 1] == 'u' && s[i + 2] == 'l' && s[i + 3] == 'l');
            assert(p_value(s, i, d) == Some((j, i + t.len())));
        },
        Jv::Bool(b) => {
            lemma_region_index(s, i, t, 1);
            lemma_region_index(s, i, t, 2);
            lemma_region_index(s, i, t, 3);
            if !b {
                lemma_region_index(s, i, t, 4);
            }
            assert(p_value(s, i, d) == Some((j, i + t.len())));
        },
        Jv::Num(lexeme) => {
            assert(t == lexeme);
            lemma_num_end_region(s, i, lexeme);
            lemma_num_lexeme_first(lexeme);
            assert(s[i] == lexeme[0]);
            if lexeme[0] == '-' {
                assert(s[i] == '-');
            } else {
                assert(is_digit(s[i]));
                assert(s[i] != 'n' && s[i] != 't' && s[i] != 'f' && s[i] != '"' && s[i] != '['
                    && s[i] != '{');
            }
            assert(p_number(s, i) == Some((Jv::Num(s.subrange(i, i + t.len() as int)), i
                + t.len())));
            assert(p_value(s, i, d) == Some((j, i + t.len())));
        },
        Jv::Str(cs) => {
            assert(s[i] == '"');
            assert(t =~= seq!['"'] + (ser_str_body(cs) + seq!['"']));
            lemma_region_split(s, i, seq!['"'], ser_str_body(cs) + seq!['"']);
            lemma_parse_ser_str_body(s, i + 1, cs);
            assert(p_value(s, i, d) == Some((j, i + t.len())));
        },
        Jv::Arr(elems) => {
            assert(s[i] == '[');
            assert(d >= 1);
            if elems.len() == 0 {
                assert(elems =~= Seq::<Jv>::empty());
                assert(ser_elems(elems) == Seq::<char>::empty());
                assert(t =~= seq!['[', ']']);
                lemma_region_index(s, i, t, 1);
                assert(s[i + 1] == ']');
                assert(skip_ws(s, i + 1) == i + 1);
            } else {
                assert(t =~= seq!['['] + (ser_elems(elems) + seq![']']));
                lemma_region_split(s, i, seq!['['], ser_elems(elems) + seq![']']);
                lemma_parse_ser_elems(s, i + 1, elems, d - 1);
                // The nonempty-array branch is taken: the first element's
                // text begins right after the bracket, so no `]` is found.
                lemma_ser_value_first(elems.first());
                assert(ser_elems(elems)[0] == ser_value(elems.first())[0]);
                lemma_region_index(s, i + 1, ser_elems(elems) + seq![']'], 0);
                assert(s[i + 1] == ser_elems(elems)[0]);
                assert(!is_ws(s[i + 1]));
                assert(skip_ws(s, i + 1) == i + 1);
                assert(s[i + 1] != ']');
            }
            assert(p_value(s, i, d) == Some((j, i + t.len())));
        },
        Jv::Obj(members) => {
            assert(s[i] == '{');
            assert(d >= 1);
            if members.len() == 0 {
                assert(members =~= Seq::<(Seq<char>, Jv)>::empty());
                assert(ser_members(members) == Seq::<char>::empty());
                assert(t =~= seq!['{', '}']);
                lemma_region_index(s, i, t, 1);
                assert(s[i + 1] == '}');
                assert(skip_ws(s, i + 1) == i + 1);
            } else {
                assert(t =~= seq!['{'] + (ser_members(members) + seq!['}']));
                lemma_region_split(s, i, seq!['{'], ser_members(members) + seq!['}']);
                lemma_parse_ser_members(s, i + 1, members, d - 1);
                assert(ser_members(members)[0] == '"');
                lemma_region_index(s, i + 1, ser_members(members) + seq!['}'], 0);
                assert(s[i + 1] == '"');
                assert(skip_ws(s, i + 1) == i + 1);
                assert(s[i + 1] != '}');
            }
            assert(p_value(s, i, d) == Some((j, i + t.len())));
        },
    }
}

/// Reading the canonical comma-separated texts of one or more values,
/// followed by a closing bracket, yields exactly those values.
pub proof fn lemma_parse_ser_elems(s: Seq<char>, i: int, elems: Seq<Jv>, d: int)
    requires
        elems.len() >= 1,
        region_is(s, i, ser_elems(elems) + seq![']']),
        jv_wf_elems(elems),
        d >= jv_depth_elems(elems),
    ensures
        p_elems(s, i, d) == Some((elems, i + ser_elems(elems).len() + 1)),
    decreases elems,
{
    let e0 = elems.first();
    let t0 = ser_value(e0);
    assert(jv_wf(e0) && jv_wf_elems(elems.drop_first()));
    lemma_ser_value_first(e0);
    assert(jv_depth_elems(elems) >= jv_depth(e0));
    if elems.len() == 1 {
        assert(ser_elems(elems) == t0);
        lemma_region_split(s, i, t0, seq![']']);
        lemma_region_index(s, i + t0.len(), seq![']'], 0);
        assert(s[i + t0.len() + 0] == ']');
        let jend = i + t0.len();
        assert(!num_continues(s[jend]));
        lemma_parse_ser_value(s, i, e0, d);
        assert(!is_ws(s[jend]));
        assert(skip_ws(s, jend) == jend);
        assert(seq![e0] =~= elems);
    } else {
        let rest = elems.drop_first();
        assert(ser_elems(elems) == t0 + seq![','] + ser_elems(rest));
        assert(ser_elems(elems) + seq![']'] =~= t0 + (seq![','] + (ser_elems(rest) + seq![']'])));
        lemma_region_split(s, i, t0, seq![','] + (ser_elems(rest) + seq![']']));
        lemma_region_split(s, i + t0.len(), seq![','], ser_elems(rest) + seq![']']);
        let jend = i + t0.len();
        lemma_region_index(s, jend, seq![','], 0);
        assert(s[jend + 0] == ',');
        assert(!num_continues(s[jend]));
        lemma_parse_ser_value(s, i, e0, d);
        assert(!is_ws(s[jend]));
        assert(skip_ws(s, jend) == jend);
        assert(jv_depth_elems(elems) >= jv_depth_elems(rest));
        lemma_parse_ser_elems(s, jend + 1, rest, d);
        assert(p_elems(s, jend + 1, d) == Some(
            (rest, jend + 1 + ser_elems(rest).len() + 1),
        ));
        assert(seq![e0] + rest =~= elems);
        assert(jend + 1 + ser_elems(rest).len() + 1 == i + ser_elems(elems).len() + 1);
    }
}

/// Reading the canonical comma-separated texts of one or more members,
/// followed by a closing brace, yields exactly those members.
pub proof fn lemma_parse_ser_members(s: Seq<char>, i: int, members: Seq<(Seq<char>, Jv)>, d: int)
    requires
        members.len() >= 1,
        region_is(s, i, ser_members(members) + seq!['}']),
        jv_wf_members(members),
        d >= jv_depth_members(members),
    ensures
        p_members(s, i, d) == Some((members, i + ser_members(members).len() + 1)),
    decreases members,
{
    let name = members.first().0;
    let v0 = members.first().1;
    let body = ser_str_body(name);
    let tv = ser_value(v0);
    let head = seq!['"'] + body + seq!['"', ':'] + tv;
    assert(jv_wf(v0) && jv_wf_members(members.drop_first()));
    lemma_ser_value_first(v0);
    assert(jv_depth_members(members) >= jv_depth(v0));
    // Lay the head out as quote, body+quote, colon, value text.
    assert(head =~= seq!['"'] + ((body + seq!['"']) + (seq![':'] + tv)));
    if members.len() == 1 {
        assert(ser_members(members) == head);
        assert(ser_members(members) + seq!['}'] =~= seq!['"'] + ((body + seq!['"']) + (seq![':']
            + (tv + seq!['}']))));
        lemma_region_split(s, i, seq!['"'], (body + seq!['"']) + (seq![':'] + (tv + seq!['}'])));
        lemma_region_split(s, i + 1, body + seq!['"'], seq![':'] + (tv + seq!['}']));
        let jn = i + 1 + body.len() + 1;
        lemma_region_split(s, jn, seq![':'], tv + seq!['}']);
        lemma_region_split(s, jn + 1, tv, seq!['}']);
        lemma_region_index(s, i, seq!['"'], 0);
        assert(s[i + 0] == '"');
        assert(skip_ws(s, i) == i);
        lemma_parse_ser_str_body(s, i + 1, name);
        lemma_region_index(s, jn, seq![':'], 0);
        assert(s[jn + 0] == ':');
        assert(skip_ws(s, jn) == jn);
        let jv_end = jn + 1 + tv.len();
        lemma_region_index(s, jv_end, seq!['}'], 0);
        assert(s[jv_end + 0] == '}');
        assert(!num_continues(s[jv_end]));
        lemma_parse_ser_value(s, jn + 1, v0, d);
        assert(skip_ws(s, jv_end) == jv_end);
        assert(seq![(name, v0)] =~= members);
        assert(jv_end + 1 == i + ser_members(members).len() + 1);
    } else {
        let rest = members.drop_first();
        assert(ser_members(members) == head + seq![','] + ser_members(rest));
        assert(ser_members(members) + seq!['}'] =~= seq!['"'] + ((body + seq!['"']) + (seq![':']
            + (tv + (seq![','] + (ser_members(rest) + seq!['}']))))));
        lemma_region_split(
            s,
            i,
            seq!['"'],
            (body + seq!['"']) + (seq![':'] + (tv + (seq![','] + (ser_members(rest)
                + seq!['}'])))),
        );
        lemma_region_split(
            s,
            i + 1,
            body + seq!['"'],
            seq![':'] + (tv + (seq![','] + (ser_members(rest) + seq!['}']))),
        );
        let jn = i + 1 + body.len() + 1;
        lemma_region_split(s, jn, seq![':'], tv + (seq![','] + (ser_members(rest) + seq!['}'])));
        lemma_region_split(s, jn + 1, tv, seq![','] + (ser_members(rest) + seq!['}']));
        let jv_end = jn + 1 + tv.len();
        lemma_region_split(s, jv_end, seq![','], ser_members(rest) + seq!['}']);
        lemma_region_index(s, i, seq!['"'], 0);
        assert(s[i + 0] == '"');
        assert(skip_ws(s, i) == i);
        lemma_parse_ser_str_body(s, i + 1, name);
        lemma_region_index(s, jn, seq![':'], 0);
        assert(s[jn + 0] == ':');
        assert(skip_ws(s, jn) == jn);
        lemma_region_index(s, jv_end, seq![','], 0);
        assert(s[jv_end + 0] == ',');
        assert(!num_continues(s[jv_end]));
        lemma_parse_ser_value(s, jn + 1, v0, d);
        assert(skip_ws(s, jv_end) == jv_end);
        assert(jv_depth_members(members) >= jv_depth_members(rest));
        lemma_parse_ser_members(s, jv_end + 1, rest, d);
        assert(seq![(name, v0)] + rest =~= members);
        assert(jv_end + 1 + ser_members(rest).len() + 1 == i + ser_members(members).len() + 1);
    }
}

/// The codec's round trip: reading back the canonical text of any
/// well-formed value whose nesting the reader admits yields exactly that
/// value.
pub proof fn lemma_text_round_trip(j: Jv)
    requires
        jv_wf(j),
        jv_depth(j) <= max_nesting(),
    ensures
        p_text(ser_value(j)) == Some(j),
{
    let s = ser_value(j);
    assert forall|k: int| 0 <= k < s.len() implies s[0 + k] == #[trigger] s[k] by {}
    assert(region_is(s, 0, s));
    lemma_parse_ser_value(s, 0, j, max_nesting());
    assert(skip_ws(s, s.len() as int) == s.len());
}

} // verus!
