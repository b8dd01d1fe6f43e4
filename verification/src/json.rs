//! The library's model of JSON data.
//!
//! Wire requests and replies are JSON documents. The framework only ever
//! inspects strings, objects and arrays of strings, but it must carry whole
//! documents through to handlers, so it owns a complete value type.
//! `JsonValue` is the executable representation; `Jv` is its mathematical
//! shadow, over which every contract in the crate speaks. A number is
//! carried as its exact text — its lexeme — so every JSON number,
//! fractional, exponential or arbitrarily large, passes through the
//! framework verbatim, with no floating point anywhere.
//!
//! Objects are sequences of key/value pairs in document order. Duplicate
//! keys are representable; lookups take the last binding, as a map built
//! by repeated insertion would.

use vstd::prelude::*;

verus! {

broadcast use vstd::seq::axiom_seq_index_decreases, vstd::std_specs::vec::axiom_vec_decreases_to_view;

/// The mathematical form of a JSON document.
#[verifier::ext_equal]
pub enum Jv {
    Null,
    Bool(bool),
    Num(Seq<char>),
    Str(Seq<char>),
    Arr(Seq<Jv>),
    Obj(Seq<(Seq<char>, Jv)>),
}

/// An executable JSON document.
#[derive(Debug, PartialEq)]
pub enum JsonValue {
    Null,
    Bool(bool),
    Num(String),
    Str(String),
    Arr(Vec<JsonValue>),
    Obj(Vec<(String, JsonValue)>),
}

impl JsonValue {
    /// The mathematical value this document represents.
    pub open spec fn jv(self) -> Jv
        decreases self,
    {
        match self {
            JsonValue::Null => Jv::Null,
            JsonValue::Bool(b) => Jv::Bool(b),
            JsonValue::Num(n) => Jv::Num(n@),
            JsonValue::Str(s) => Jv::Str(s@),
            JsonValue::Arr(elems) => Jv::Arr(jv_of_elems(elems@)),
            JsonValue::Obj(members) => Jv::Obj(jv_of_members(members@)),
        }
    }
}

/// The mathematical values of a sequence of documents, in order.
pub open spec fn jv_of_elems(elems: Seq<JsonValue>) -> Seq<Jv>
    decreases elems,
{
    if elems.len() == 0 {
        Seq::empty()
    } else {
        seq![elems.first().jv()] + jv_of_elems(elems.drop_first())
    }
}

/// The mathematical values of a sequence of object members, in order.
pub open spec fn jv_of_members(members: Seq<(String, JsonValue)>) -> Seq<(Seq<char>, Jv)>
    decreases members,
{
    if members.len() == 0 {
        Seq::empty()
    } else {
        seq![(members.first().0@, members.first().1.jv())] + jv_of_members(members.drop_first())
    }
}

/// The last binding of `key` among `members`, if any: later bindings of a
/// duplicated key shadow earlier ones.
pub open spec fn obj_get(members: Seq<(Seq<char>, Jv)>, key: Seq<char>) -> Option<Jv>
    decreases members.len(),
{
    if members.len() == 0 {
        None
    } else if members.last().0 == key {
        Some(members.last().1)
    } else {
        obj_get(members.drop_last(), key)
    }
}

/// Nesting depth of a value: how many containers enclose its deepest leaf.
pub open spec fn jv_depth(j: Jv) -> nat
    decreases j,
{
    match j {
        Jv::Arr(elems) => 1 + jv_depth_elems(elems),
        Jv::Obj(members) => 1 + jv_depth_members(members),
        _ => 0,
    }
}

pub open spec fn jv_depth_elems(elems: Seq<Jv>) -> nat
    decreases elems,
{
    if elems.len() == 0 {
        0
    } else {
        let head = jv_depth(elems.first());
        let rest = jv_depth_elems(elems.drop_first());
        if head >= rest {
            head
        } else {
            rest
        }
    }
}

pub open spec fn jv_depth_members(members: Seq<(Seq<char>, Jv)>) -> nat
    decreases members,
{
    if members.len() == 0 {
        0
    } else {
        let head = jv_depth(members.first().1);
        let rest = jv_depth_members(members.drop_first());
        if head >= rest {
            head
        } else {
            rest
        }
    }
}

pub proof fn lemma_jv_of_elems_push(elems: Seq<JsonValue>, x: JsonValue)
    ensures
        jv_of_elems(elems.push(x)) == jv_of_elems(elems).push(x.jv()),
    decreases elems.len(),
{
    if elems.len() == 0 {
        reveal_with_fuel(jv_of_elems, 2);
        assert(elems.push(x).drop_first() =~= Seq::<JsonValue>::empty());
        assert(jv_of_elems(elems.push(x)) =~= jv_of_elems(elems).push(x.jv()));
    } else {
        assert(elems.push(x).drop_first() =~= elems.drop_first().push(x));
        lemma_jv_of_elems_push(elems.drop_first(), x);
        assert(jv_of_elems(elems.push(x)) =~= jv_of_elems(elems).push(x.jv()));
    }
}

pub proof fn lemma_jv_of_members_push(members: Seq<(String, JsonValue)>, k: String, x: JsonValue)
    ensures
        jv_of_members(members.push((k, x))) == jv_of_members(members).push((k@, x.jv())),
    decreases members.len(),
{
    if members.len() == 0 {
        reveal_with_fuel(jv_of_members, 2);
        assert(members.push((k, x)).drop_first() =~= Seq::<(String, JsonValue)>::empty());
        assert(jv_of_members(members.push((k, x))) =~= jv_of_members(members).push((k@, x.jv())));
    } else {
        assert(members.push((k, x)).drop_first() =~= members.drop_first().push((k, x)));
        lemma_jv_of_members_push(members.drop_first(), k, x);
        assert(jv_of_members(members.push((k, x))) =~= jv_of_members(members).push((k@, x.jv())));
    }
}

pub proof fn lemma_jv_of_elems_len(elems: Seq<JsonValue>)
    ensures
        jv_of_elems(elems).len() == elems.len(),
    decreases elems.len(),
{
    if elems.len() > 0 {
        lemma_jv_of_elems_len(elems.drop_first());
    }
}

pub proof fn lemma_jv_of_members_len(members: Seq<(String, JsonValue)>)
    ensures
        jv_of_members(members).len() == members.len(),
    decreases members.len(),
{
    if members.len() > 0 {
        lemma_jv_of_members_len(members.drop_first());
    }
}

// ---------------------------------------------------------------------------
// The canonical text of a value: what the serializer produces.
// ---------------------------------------------------------------------------

/// The decimal digit character for `d`, which must lie in `0 .. 10`.
pub open spec fn digit_char(d: int) -> char {
    (48 + d) as char
}

/// The lowercase hexadecimal digit character for `d`, which must lie in `0 .. 16`.
pub open spec fn hex_char(d: int) -> char {
    if d < 10 {
        (48 + d) as char
    } else {
        (87 + d) as char
    }
}

/// Decimal digits of a nonnegative integer, most significant first.
pub open spec fn ser_nat(n: int) -> Seq<char>
    decreases n,
{
    if n < 10 {
        seq![digit_char(n)]
    } else {
        ser_nat(n / 10) + seq![digit_char(n % 10)]
    }
}

/// Decimal text of an integer, with a leading minus sign when negative.
pub open spec fn ser_int(n: int) -> Seq<char> {
    if n < 0 {
        seq!['-'] + ser_nat(-n)
    } else {
        ser_nat(n)
    }
}

/// The escaped text of one string character: quotes, backslashes and
/// control characters are escaped exactly as the canonical JSON form does;
/// every other character stands for itself.
pub open spec fn esc_char(c: char) -> Seq<char> {
    if c == '"' {
        seq!['\\', '"']
    } else if c == '\\' {
        seq!['\\', '\\']
    } else if c == '\u{8}' {
        seq!['\\', 'b']
    } else if c == '\u{c}' {
        seq!['\\', 'f']
    } else if c == '\n' {
        seq!['\\', 'n']
    } else if c == '\r' {
        seq!['\\', 'r']
    } else if c == '\t' {
        seq!['\\', 't']
    } else if (c as int) < 32 {
        seq!['\\', 'u', '0', '0', hex_char(c as int / 16), hex_char(c as int % 16)]
    } else {
        seq![c]
    }
}

/// The escaped body of a string literal, without the surrounding quotes.
pub open spec fn ser_str_body(s: Seq<char>) -> Seq<char>
    decreases s.len(),
{
    if s.len() == 0 {
        Seq::empty()
    } else {
        esc_char(s.first()) + ser_str_body(s.drop_first())
    }
}

/// The canonical text of a value: no whitespace, strings escaped as above.
pub open spec fn ser_value(j: Jv) -> Seq<char>
    decreases j,
{
    match j {
        Jv::Null => seq!['n', 'u', 'l', 'l'],
        Jv::Bool(b) => if b {
            seq!['t', 'r', 'u', 'e']
        } else {
            seq!['f', 'a', 'l', 's', 'e']
        },
        Jv::Num(lexeme) => lexeme,
        Jv::Str(s) => seq!['"'] + ser_str_body(s) + seq!['"'],
        Jv::Arr(elems) => seq!['['] + ser_elems(elems) + seq![']'],
        Jv::Obj(members) => seq!['{'] + ser_members(members) + seq!['}'],
    }
}

/// Comma-separated canonical texts of array elements.
pub open spec fn ser_elems(elems: Seq<Jv>) -> Seq<char>
    decreases elems,
{
    if elems.len() == 0 {
        Seq::empty()
    } else if elems.len() == 1 {
        ser_value(elems.first())
    } else {
        ser_value(elems.first()) + seq![','] + ser_elems(elems.drop_first())
    }
}

/// Comma-separated canonical texts of object members.
pub open spec fn ser_members(members: Seq<(Seq<char>, Jv)>) -> Seq<char>
    decreases members,
{
    if members.len() == 0 {
        Seq::empty()
    } else {
        let head = seq!['"'] + ser_str_body(members.first().0) + seq!['"', ':'] + ser_value(
            members.first().1,
        );
        if members.len() == 1 {
            head
        } else {
            head + seq![','] + ser_members(members.drop_first())
        }
    }
}

/// A document's mathematical value has the same variant as the document.
pub proof fn lemma_jv_variants(v: JsonValue)
    ensures
        (v.jv() is Null) == (v is Null),
        (v.jv() is Bool) == (v is Bool),
        (v.jv() is Num) == (v is Num),
        (v.jv() is Str) == (v is Str),
        (v.jv() is Arr) == (v is Arr),
        (v.jv() is Obj) == (v is Obj),
{
    match v {
        JsonValue::Null => {},
        JsonValue::Bool(_) => {},
        JsonValue::Num(_) => {},
        JsonValue::Str(_) => {},
        JsonValue::Arr(_) => {},
        JsonValue::Obj(_) => {},
    }
}

// ---------------------------------------------------------------------------
// Executable access to documents.
// ---------------------------------------------------------------------------

impl JsonValue {
    /// The value bound to `key` when this document is an object holding
    /// that key, taking the last binding of a duplicated key.
    pub fn get<'a>(&'a self, key: &str) -> (r: Option<&'a JsonValue>)
        ensures
            match self.jv() {
                Jv::Obj(ms) => {
                    &&& (r is Some <==> obj_get(ms, key@) is Some)
                    &&& (r matches Some(v) ==> obj_get(ms, key@) == Some(v.jv()))
                },
                _ => r is None,
            },
    {
        match self {
            JsonValue::Obj(members) => get_member(members, key),
            _ => None,
        }
    }

    /// A copy of this document representing the same value.
    #[verifier::loop_isolation(false)]
    pub fn duplicate(&self) -> (r: JsonValue)
        ensures
            r.jv() == self.jv(),
        decreases self,
    {
        match self {
            JsonValue::Null => JsonValue::Null,
            JsonValue::Bool(b) => JsonValue::Bool(*b),
            JsonValue::Num(n) => JsonValue::Num(n.clone()),
            JsonValue::Str(s) => JsonValue::Str(s.clone()),
            JsonValue::Arr(elems) => {
                let mut out: Vec<JsonValue> = Vec::new();
                let mut i: usize = 0;
                while i < elems.len()
                    invariant
                        i <= elems.len(),
                        jv_of_elems(out@) == jv_of_elems(elems@.subrange(0, i as int)),
                    decreases elems.len() - i,
                {
                    proof {
                        assert(decreases_to!(*self => self->Arr_0));
                        vstd::std_specs::vec::axiom_vec_index_decreases(*elems, i as int);
                    }
                    let d = elems[i].duplicate();
                    proof {
                        let pre = elems@.subrange(0, i as int);
                        assert(elems@.subrange(0, i + 1 as int) =~= pre.push(elems@[i as int]));
                        lemma_jv_of_elems_push(pre, elems@[i as int]);
                        lemma_jv_of_elems_push(out@, d);
                    }
                    out.push(d);
                    i = i + 1;
                }
                proof {
                    assert(elems@.subrange(0, elems@.len() as int) =~= elems@);
                }
                JsonValue::Arr(out)
            },
            JsonValue::Obj(members) => {
                let mut out: Vec<(String, JsonValue)> = Vec::new();
                let mut i: usize = 0;
                while i < members.len()
                    invariant
                        i <= members.len(),
                        jv_of_members(out@) == jv_of_members(members@.subrange(0, i as int)),
                    decreases members.len() - i,
                {
                    proof {
                        assert(decreases_to!(*self => self->Obj_0));
                        vstd::std_specs::vec::axiom_vec_index_decreases(*members, i as int);
                    }
                    let k = members[i].0.clone();
                    let d = members[i].1.duplicate();
                    proof {
                        let pre = members@.subrange(0, i as int);
                        assert(members@.subrange(0, i + 1 as int) =~= pre.push(members@[i as int]));
                        lemma_jv_of_members_push(pre, members@[i as int].0, members@[i as int].1);
                        lemma_jv_of_members_push(out@, k, d);
                        assert(jv_of_members(out@.push((k, d))) =~= jv_of_members(
                            members@.subrange(0, i + 1 as int),
                        ));
                    }
                    out.push((k, d));
                    i = i + 1;
                }
                proof {
                    assert(members@.subrange(0, members@.len() as int) =~= members@);
                }
                JsonValue::Obj(out)
            },
        }
    }
}

/// The value bound to `key` among `members`, taking the last binding of a
/// duplicated key.
pub fn get_member<'a>(members: &'a Vec<(String, JsonValue)>, key: &str) -> (r: Option<
    &'a JsonValue,
>)
    ensures
        r is Some <==> obj_get(jv_of_members(members@), key@) is Some,
        r matches Some(v) ==> obj_get(jv_of_members(members@), key@) == Some(v.jv()),
{
    let mut i = members.len();
    proof {
        assert(members@.subrange(0, members@.len() as int) =~= members@);
    }
    while i > 0
        invariant
            i <= members.len(),
            obj_get(jv_of_members(members@), key@) == obj_get(
                jv_of_members(members@.subrange(0, i as int)),
                key@,
            ),
        decreases i,
    {
        i = i - 1;
        if crate::text::str_eq(members[i].0.as_str(), key) {
            proof {
                let pre = members@.subrange(0, i as int);
                assert(members@.subrange(0, i + 1 as int) =~= pre.push(members@[i as int]));
                lemma_jv_of_members_push(pre, members@[i as int].0, members@[i as int].1);
                lemma_jv_of_members_len(members@.subrange(0, i + 1 as int));
                assert(jv_of_members(members@.subrange(0, i + 1 as int)).last() == (
                    members@[i as int].0@,
                    members@[i as int].1.jv(),
                ));
            }
            return Some(&members[i].1);
        }
        proof {
            let pre = members@.subrange(0, i as int);
            assert(members@.subrange(0, i + 1 as int) =~= pre.push(members@[i as int]));
            lemma_jv_of_members_push(pre, members@[i as int].0, members@[i as int].1);
            lemma_jv_of_members_len(members@.subrange(0, i + 1 as int));
            assert(jv_of_members(members@.subrange(0, i + 1 as int)).drop_last() =~= jv_of_members(
                pre,
            ));
        }
    }
    proof {
        assert(members@.subrange(0, 0) =~= Seq::<(String, JsonValue)>::empty());
    }
    None
}

} // verus!
