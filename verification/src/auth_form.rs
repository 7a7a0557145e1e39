//! The layout of the auth form: the kinds offered, the two fields each kind
//! has (their slot, placeholder and label), whether the API key's location is
//! asked, and the key under which an input box is kept.

use vstd::prelude::*;
use crate::text::text_eq;

verus! {

/// The auth kinds the form offers, in order.
pub open spec fn auth_kinds_of() -> Seq<Seq<char>> {
    seq!["none"@, "bearer"@, "basic"@, "apikey"@]
}

/// The auth kinds the form offers (see [`auth_kinds_of`]).
pub fn auth_kinds() -> (r: Vec<&'static str>)
    ensures
        r@.map_values(|k: &'static str| k@) == auth_kinds_of(),
{
    let r = vec!["none", "bearer", "basic", "apikey"];
    proof {
        assert(r@.map_values(|k: &'static str| k@) =~= auth_kinds_of());
    }
    r
}

/// One field of the form: its slot (`a` or `b`), placeholder and label key.
pub open spec fn auth_fields_of(kind: Seq<char>) -> Seq<(Seq<char>, Seq<char>, Seq<char>)> {
    if kind == "bearer"@ {
        seq![("a"@, "{{ token }}"@, "auth.token"@), ("b"@, "Bearer"@, "auth.prefix"@)]
    } else if kind == "basic"@ {
        seq![("a"@, "user"@, "auth.username"@), ("b"@, "password"@, "auth.password"@)]
    } else if kind == "apikey"@ {
        seq![("a"@, "X-Api-Key"@, "auth.keyname"@), ("b"@, "{{ api_key }}"@, "auth.keyvalue"@)]
    } else {
        seq![]
    }
}

/// Fields as plain values.
pub open spec fn fields_view(v: Seq<(&'static str, &'static str, &'static str)>) -> Seq<(Seq<char>, Seq<char>, Seq<char>)> {
    v.map_values(|f: (&'static str, &'static str, &'static str)| (f.0@, f.1@, f.2@))
}

/// The fields of the form for an auth kind (see [`auth_fields_of`]): a token
/// and its prefix, a user name and password, or a key's name and value; none
/// without auth.
pub fn auth_fields(kind: &str) -> (r: Vec<(&'static str, &'static str, &'static str)>)
    ensures
        fields_view(r@) == auth_fields_of(kind@),
{
    let r = if text_eq(kind, "bearer") {
        vec![("a", "{{ token }}", "auth.token"), ("b", "Bearer", "auth.prefix")]
    } else if text_eq(kind, "basic") {
        vec![("a", "user", "auth.username"), ("b", "password", "auth.password")]
    } else if text_eq(kind, "apikey") {
        vec![("a", "X-Api-Key", "auth.keyname"), ("b", "{{ api_key }}", "auth.keyvalue")]
    } else {
        Vec::new()
    };
    proof {
        assert(fields_view(r@) =~= auth_fields_of(kind@));
    }
    r
}

/// Only an API key asks where it goes (header or query).
pub fn asks_key_location(kind: &str) -> (r: bool)
    ensures
        r == (kind@ == "apikey"@),
{
    text_eq(kind, "apikey")
}

/// The key under which the input box of a slot is kept: `{kind}:{slot}`, so
/// that switching the kind makes new boxes.
pub fn auth_field_key(kind: &str, slot: &str) -> (r: String)
    ensures
        r@ == kind@ + seq![':'] + slot@,
{
    let mut key = String::from_str(kind);
    key.append(":");
    key.append(slot);
    proof {
        reveal_strlit(":");
    }
    key
}

} // verus!
