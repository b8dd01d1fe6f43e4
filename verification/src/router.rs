//! The egress router's decisions: to which output element a
//! `(name, value)` pair goes, and in what order each element's publisher
//! sees the values.
//!
//! The real router forwards values over per-element channels; those
//! channels are single-writer, so the order decided here is the order
//! each publisher observes. `route_batch` states that order: every
//! element receives exactly the values addressed to it, in the order
//! they entered the logic channel.

use crate::json::{jv_of_elems, JsonValue, Jv};
use crate::text::str_eq;
use vstd::prelude::*;

verus! {

/// The first position of `name` among `names`, if any.
pub open spec fn find_name(names: Seq<Seq<char>>, name: Seq<char>) -> Option<int>
    decreases names.len(),
{
    if names.len() == 0 {
        None
    } else if names.first() == name {
        Some(0)
    } else {
        match find_name(names.drop_first(), name) {
            Some(i) => Some(i + 1),
            None => None,
        }
    }
}

/// The names of a vector of strings.
pub open spec fn names_view(names: Seq<String>) -> Seq<Seq<char>> {
    Seq::new(names.len(), |i: int| names[i]@)
}

/// The values routed to position `j`, in arrival order.
pub open spec fn routed_to(
    names: Seq<Seq<char>>,
    inputs: Seq<(Seq<char>, Jv)>,
    j: int,
) -> Seq<Jv>
    decreases inputs.len(),
{
    if inputs.len() == 0 {
        Seq::empty()
    } else {
        let rest = routed_to(names, inputs.drop_last(), j);
        if find_name(names, inputs.last().0) == Some(j) {
            rest.push(inputs.last().1)
        } else {
            rest
        }
    }
}

/// The router's dispatch table: the registered output element names, in
/// registration order.
#[derive(Debug)]
pub struct RouterCore {
    pub names: Vec<String>,
}

impl RouterCore {
    pub fn new(names: Vec<String>) -> (r: RouterCore)
        ensures
            r.names@ == names@,
    {
        RouterCore { names }
    }

    /// Where a value addressed to `name` goes: the position of the first
    /// element of that name, or nowhere — the value is dropped — when no
    /// element carries the name.
    pub fn route(&self, name: &str) -> (r: Option<usize>)
        ensures
            ({
                let found = find_name(names_view(self.names@), name@);
                &&& (r is Some <==> found is Some)
                &&& (r matches Some(i) ==> found == Some(i as int) && i < self.names.len())
            }),
    {
        let mut i: usize = 0;
        while i < self.names.len()
            invariant
                i <= self.names.len(),
                forall|k: int| 0 <= k < i ==> names_view(self.names@)[k] != name@,
            decreases self.names.len() - i,
        {
            if str_eq(self.names[i].as_str(), name) {
                proof {
                    lemma_find_name_first(names_view(self.names@), name@, i as int);
                }
                return Some(i);
            }
            i = i + 1;
        }
        proof {
            lemma_find_name_none(names_view(self.names@), name@);
        }
        None
    }
}

proof fn lemma_find_name_first(names: Seq<Seq<char>>, name: Seq<char>, i: int)
    requires
        0 <= i < names.len(),
        names[i] == name,
        forall|k: int| 0 <= k < i ==> names[k] != name,
    ensures
        find_name(names, name) == Some(i),
    decreases names.len(),
{
    if i > 0 {
        lemma_find_name_first(names.drop_first(), name, i - 1);
    }
}

proof fn lemma_find_name_none(names: Seq<Seq<char>>, name: Seq<char>)
    requires
        forall|k: int| 0 <= k < names.len() ==> names[k] != name,
    ensures
        find_name(names, name) is None,
    decreases names.len(),
{
    if names.len() > 0 {
        lemma_find_name_none(names.drop_first(), name);
    }
}

/// The pairs' mathematical values.
pub open spec fn pairs_view(inputs: Seq<(String, JsonValue)>) -> Seq<(Seq<char>, Jv)> {
    Seq::new(inputs.len(), |i: int| (inputs[i].0@, inputs[i].1.jv()))
}

/// Routes a whole sequence of `(name, value)` pairs: each element's
/// publisher observes exactly the values addressed to it, in the order
/// they were sent.
pub fn route_batch(core: &RouterCore, inputs: &Vec<(String, JsonValue)>) -> (r: Vec<
    Vec<JsonValue>,
>)
    ensures
        r.len() == core.names.len(),
        forall|j: int|
            0 <= j < r.len() ==> jv_of_elems(#[trigger] r[j]@) == routed_to(
                names_view(core.names@),
                pairs_view(inputs@),
                j,
            ),
{
    let mut out: Vec<Vec<JsonValue>> = Vec::new();
    let mut j: usize = 0;
    while j < core.names.len()
        invariant
            j <= core.names.len(),
            out.len() == j,
            forall|k: int|
                0 <= k < j ==> jv_of_elems(#[trigger] out[k]@) == routed_to(
                    names_view(core.names@),
                    pairs_view(inputs@),
                    k,
                ),
        decreases core.names.len() - j,
    {
        let bucket = route_one(core, inputs, j);
        out.push(bucket);
        j = j + 1;
    }
    out
}

/// The values addressed to the element at position `j`, in order.
#[verifier::loop_isolation(false)]
fn route_one(core: &RouterCore, inputs: &Vec<(String, JsonValue)>, j: usize) -> (r: Vec<JsonValue>)
    requires
        j < core.names.len(),
    ensures
        jv_of_elems(r@) == routed_to(names_view(core.names@), pairs_view(inputs@), j as int),
{
    let mut bucket: Vec<JsonValue> = Vec::new();
    let mut i: usize = 0;
    proof {
        assert(pairs_view(inputs@).subrange(0, 0) =~= Seq::<(Seq<char>, Jv)>::empty());
        assert(jv_of_elems(bucket@) =~= Seq::<Jv>::empty());
    }
    while i < inputs.len()
        invariant
            i <= inputs.len(),
            jv_of_elems(bucket@) == routed_to(
                names_view(core.names@),
                pairs_view(inputs@).subrange(0, i as int),
                j as int,
            ),
        decreases inputs.len() - i,
    {
        let target = core.route(inputs[i].0.as_str());
        proof {
            let pre = pairs_view(inputs@).subrange(0, i as int);
            let full = pairs_view(inputs@).subrange(0, i + 1 as int);
            assert(full =~= pre.push((inputs@[i as int].0@, inputs@[i as int].1.jv())));
            assert(full.drop_last() =~= pre);
        }
        match target {
            Some(t) => {
                if t == j {
                    let v = inputs[i].1.duplicate();
                    proof {
                        crate::json::lemma_jv_of_elems_push(bucket@, v);
                    }
                    bucket.push(v);
                }
            },
            None => {},
        }
        i = i + 1;
    }
    proof {
        assert(pairs_view(inputs@).subrange(0, inputs@.len() as int) =~= pairs_view(inputs@));
    }
    bucket
}

} // verus!
