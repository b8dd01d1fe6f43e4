//! An authenticated principal: the verified claim map of a token and the
//! permission strings derived from it.
//!
//! Permissions come from the `permissions` claim, which must be an array
//! of strings. When that array is empty, the `permission` claim (singular)
//! is used as a fallback and must itself be an array of strings.

use crate::error::{Error, ErrorKind};
use crate::json::{jv_of_members, obj_get, JsonValue, Jv};
use crate::text::str_eq;
use vstd::prelude::*;
use vstd::string::StringExecFns;

verus! {

/// The views of a vector of strings.
pub open spec fn strings_view(v: Seq<String>) -> Seq<Seq<char>> {
    Seq::new(v.len(), |i: int| v[i]@)
}

/// Whether every element is a string.
pub open spec fn all_strings(elems: Seq<Jv>) -> bool {
    forall|k: int| 0 <= k < elems.len() ==> (#[trigger] elems[k]) is Str
}

/// The characters of a sequence of string values.
pub open spec fn strings_of(elems: Seq<Jv>) -> Seq<Seq<char>> {
    Seq::new(elems.len(), |i: int| elems[i]->Str_0)
}

/// The string list a claim yields: present exactly when the claim is
/// bound to an array of strings.
pub open spec fn permissions_of_claim(claims: Seq<(Seq<char>, Jv)>, claim: Seq<char>) -> Option<
    Seq<Seq<char>>,
> {
    match obj_get(claims, claim) {
        Some(Jv::Arr(elems)) => if all_strings(elems) {
            Some(strings_of(elems))
        } else {
            None
        },
        _ => None,
    }
}

/// The permission list a claim map yields: the `permissions` claim, or the
/// `permission` claim when the former is a valid but empty list. `None`
/// exactly when token construction fails.
pub open spec fn token_permissions(claims: Seq<(Seq<char>, Jv)>) -> Option<Seq<Seq<char>>> {
    match permissions_of_claim(claims, "permissions"@) {
        Some(p) => if p.len() > 0 {
            Some(p)
        } else {
            permissions_of_claim(claims, "permission"@)
        },
        None => None,
    }
}

/// Token construction fails exactly when the claim map yields no
/// permission list: the `permissions` claim must be an array of strings,
/// and when that array is empty the `permission` claim must be one too.
pub proof fn law_token_construction(claims: Seq<(Seq<char>, Jv)>)
    ensures
        token_permissions(claims) is None <==> !(permissions_of_claim(claims, "permissions"@)
            matches Some(p) && (p.len() > 0 || permissions_of_claim(claims, "permission"@)
            is Some)),
{
}

/// Whether `p` occurs in `perms`.
pub open spec fn has_perm(perms: Seq<Seq<char>>, p: Seq<char>) -> bool {
    exists|k: int| 0 <= k < perms.len() && perms[k] == p
}

#[derive(Debug)]
pub struct Token {
    pub claims: Vec<(String, JsonValue)>,
    pub permissions: Vec<String>,
}

impl Token {
    /// The claim map as a mathematical object.
    pub open spec fn claims_view(self) -> Seq<(Seq<char>, Jv)> {
        jv_of_members(self.claims@)
    }

    /// The permission list as a mathematical object.
    pub open spec fn perms_view(self) -> Seq<Seq<char>> {
        strings_view(self.permissions@)
    }

    /// Builds a token from a verified claim map, deriving its permission
    /// list; fails with `MalformedToken` exactly when the claims yield no
    /// permission list.
    pub fn try_new(claims: Vec<(String, JsonValue)>) -> (r: Result<Token, Error>)
        ensures
            r is Ok <==> token_permissions(jv_of_members(claims@)) is Some,
            r matches Ok(t) ==> t.claims_view() == jv_of_members(claims@) && Some(t.perms_view())
                == token_permissions(jv_of_members(claims@)),
            r matches Err(e) ==> e.kind == ErrorKind::MalformedToken,
    {
        let mut permissions = match claim_string_list(&claims, "permissions") {
            Some(p) => p,
            None => {
                return Err(
                    Error::new(
                        ErrorKind::MalformedToken,
                        String::from_str("claim 'permissions' is missing or is not a string list"),
                    ),
                );
            },
        };
        if permissions.len() == 0 {
            permissions = match claim_string_list(&claims, "permission") {
                Some(p) => p,
                None => {
                    return Err(
                        Error::new(
                            ErrorKind::MalformedToken,
                            String::from_str(
                                "claim 'permission' is missing or is not a string list",
                            ),
                        ),
                    );
                },
            };
        }
        Ok(Token { claims, permissions })
    }

    /// Succeeds exactly when the token carries the given permission;
    /// otherwise fails with `PermissionNotFound`.
    pub fn has_permission(&self, permission: &String) -> (r: Result<(), Error>)
        ensures
            r is Ok <==> has_perm(self.perms_view(), permission@),
            r matches Err(e) ==> e.kind == ErrorKind::PermissionNotFound,
    {
        let mut i: usize = 0;
        while i < self.permissions.len()
            invariant
                i <= self.permissions.len(),
                forall|k: int| 0 <= k < i ==> self.perms_view()[k] != permission@,
            decreases self.permissions.len() - i,
        {
            if str_eq(self.permissions[i].as_str(), permission.as_str()) {
                proof {
                    assert(self.perms_view()[i as int] == permission@);
                }
                return Ok(());
            }
            i = i + 1;
        }
        let mut message = String::from_str("permission '");
        message.append(permission.as_str());
        message.append("' could not be found");
        Err(Error::new(ErrorKind::PermissionNotFound, message))
    }

    /// The claim bound to `key`, if any.
    pub fn get<'a>(&'a self, key: &str) -> (r: Option<&'a JsonValue>)
        ensures
            r is Some <==> obj_get(self.claims_view(), key@) is Some,
            r matches Some(v) ==> obj_get(self.claims_view(), key@) == Some(v.jv()),
    {
        crate::json::get_member(&self.claims, key)
    }
}

/// The string list bound to `claim`, when it is an array of strings.
#[verifier::loop_isolation(false)]
fn claim_string_list(claims: &Vec<(String, JsonValue)>, claim: &str) -> (r: Option<Vec<String>>)
    ensures
        r is Some <==> permissions_of_claim(jv_of_members(claims@), claim@) is Some,
        r matches Some(p) ==> permissions_of_claim(jv_of_members(claims@), claim@) == Some(
            strings_view(p@),
        ),
{
    let elems = match crate::json::get_member(claims, claim) {
        Some(v) => {
            proof {
                crate::json::lemma_jv_variants(*v);
            }
            match v {
                JsonValue::Arr(elems) => elems,
                _ => {
                    return None;
                },
            }
        },
        None => {
            return None;
        },
    };
    let ghost spec_elems = (match obj_get(jv_of_members(claims@), claim@) {
        Some(Jv::Arr(e)) => e,
        _ => Seq::empty(),
    });
    proof {
        crate::json::lemma_jv_of_elems_len(elems@);
        assert(jv_of_elems_eq(elems@, spec_elems));
    }
    let mut out: Vec<String> = Vec::new();
    let mut i: usize = 0;
    while i < elems.len()
        invariant
            i <= elems.len(),
            jv_of_elems_eq(elems@, spec_elems),
            spec_elems.len() == elems@.len(),
            out@.len() == i,
            forall|k: int| 0 <= k < i ==> (#[trigger] spec_elems[k]) is Str,
            forall|k: int| 0 <= k < i ==> (#[trigger] out@[k])@ == spec_elems[k]->Str_0,
        decreases elems.len() - i,
    {
        match &elems[i] {
            JsonValue::Str(s) => {
                proof {
                    lemma_jv_of_elems_index(elems@, i as int);
                }
                out.push(s.clone());
            },
            _ => {
                proof {
                    lemma_jv_of_elems_index(elems@, i as int);
                    assert(!(spec_elems[i as int] is Str));
                }
                return None;
            },
        }
        i = i + 1;
    }
    proof {
        assert(all_strings(spec_elems));
        assert(strings_view(out@) =~= strings_of(spec_elems));
    }
    Some(out)
}

/// Whether the elements' values are the given sequence.
pub open spec fn jv_of_elems_eq(elems: Seq<JsonValue>, vs: Seq<Jv>) -> bool {
    crate::json::jv_of_elems(elems) == vs
}

pub proof fn lemma_jv_of_elems_index(elems: Seq<JsonValue>, i: int)
    requires
        0 <= i < elems.len(),
    ensures
        crate::json::jv_of_elems(elems).len() == elems.len(),
        crate::json::jv_of_elems(elems)[i] == elems[i].jv(),
    decreases elems.len(),
{
    crate::json::lemma_jv_of_elems_len(elems);
    if i > 0 {
        lemma_jv_of_elems_index(elems.drop_first(), i - 1);
    } else {
        crate::json::lemma_jv_of_elems_len(elems.drop_first());
    }
}

} // verus!
