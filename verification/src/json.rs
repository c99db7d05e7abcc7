//! The library's own JSON tree.
//!
//! A specification document is a JSON document (RFC 8259).  The document
//! model is encoded into and decoded from this tree; reading the tree from
//! text and writing it back is delegated to an outside JSON library at a
//! trusted boundary (see [`crate::text`]).

use vstd::prelude::*;

verus! {

/// Mathematical model of a JSON value: strings as character sequences.
#[verifier::ext_equal]
pub enum JsonV {
    Null,
    Bool(bool),
    Number(Seq<char>),
    Str(Seq<char>),
    Array(Seq<JsonV>),
    Object(Seq<(Seq<char>, JsonV)>),
}

/// A JSON value.
///
/// Object members are kept in source order; numbers are carried as their
/// decimal text (the specification format itself uses none, but a document
/// may hold numbers in fields the model ignores).
pub enum Json {
    Null,
    Bool(bool),
    Number(String),
    Str(String),
    Array(Vec<Json>),
    Object(Vec<(String, Json)>),
}

/// The mathematical value of a JSON tree.
pub open spec fn json_view(j: Json) -> JsonV
    decreases j,
{
    match j {
        Json::Null => JsonV::Null,
        Json::Bool(b) => JsonV::Bool(b),
        Json::Number(n) => JsonV::Number(n@),
        Json::Str(s) => JsonV::Str(s@),
        Json::Array(a) => JsonV::Array(
            Seq::new(
                a@.len(),
                |i: int|
                    if 0 <= i < a@.len() {
                        json_view(a@[i])
                    } else {
                        JsonV::Null
                    },
            ),
        ),
        Json::Object(o) => JsonV::Object(
            Seq::new(
                o@.len(),
                |i: int|
                    if 0 <= i < o@.len() {
                        (o@[i].0@, json_view(o@[i].1))
                    } else {
                        (Seq::<char>::empty(), JsonV::Null)
                    },
            ),
        ),
    }
}

impl View for Json {
    type V = JsonV;

    open spec fn view(&self) -> JsonV {
        json_view(*self)
    }
}

impl DeepView for Json {
    type V = JsonV;

    open spec fn deep_view(&self) -> JsonV {
        json_view(*self)
    }
}

/// The value of the first member of `entries` named `key`, if any.
///
/// JSON objects built by this library never repeat a key, so "first" is
/// only a tie-breaker for hand-built trees.
pub open spec fn lookup(entries: Seq<(Seq<char>, JsonV)>, key: Seq<char>) -> Option<JsonV>
    decreases entries.len(),
{
    if entries.len() == 0 {
        None
    } else if entries[0].0 == key {
        Some(entries[0].1)
    } else {
        lookup(entries.drop_first(), key)
    }
}

/// A member found by [`lookup`] is structurally below the member list.
pub proof fn lemma_lookup_is_entry(entries: Seq<(Seq<char>, JsonV)>, key: Seq<char>)
    ensures
        lookup(entries, key) matches Some(v) ==> (decreases_to!(entries => v)),
    decreases entries.len(),
{
    if entries.len() > 0 {
        if entries[0].0 == key {
            assert(decreases_to!(entries => entries[0]));
            assert(decreases_to!(entries => entries[0].1));
        } else {
            lemma_lookup_is_entry(entries.drop_first(), key);
            assert(entries.drop_first() =~= entries.subrange(1, entries.len() as int));
            assert(decreases_to!(entries => entries.drop_first()));
        }
    }
}

/// [`lookup`] finds the member at `k` when no earlier member shares its
/// name.
pub proof fn lemma_lookup_at(entries: Seq<(Seq<char>, JsonV)>, k: int)
    requires
        0 <= k < entries.len(),
        forall|i: int| 0 <= i < k ==> (#[trigger] entries[i].0) != entries[k].0,
    ensures
        lookup(entries, entries[k].0) == Some(entries[k].1),
    decreases k,
{
    if k > 0 {
        let rest = entries.drop_first();
        assert forall|i: int| 0 <= i < k - 1 implies (#[trigger] rest[i].0) != rest[k - 1].0 by {
            assert(rest[i] == entries[i + 1]);
            assert(rest[k - 1] == entries[k]);
        }
        lemma_lookup_at(rest, k - 1);
        assert(rest[k - 1] == entries[k]);
    }
}

/// [`lookup`] finds nothing when no member bears the name.
pub proof fn lemma_lookup_none(entries: Seq<(Seq<char>, JsonV)>, key: Seq<char>)
    requires
        forall|i: int| 0 <= i < entries.len() ==> (#[trigger] entries[i].0) != key,
    ensures
        lookup(entries, key) is None,
    decreases entries.len(),
{
    if entries.len() > 0 {
        let rest = entries.drop_first();
        assert(forall|i: int| 0 <= i < rest.len() ==> #[trigger] rest[i] == entries[i + 1]);
        lemma_lookup_none(rest, key);
    }
}

/// No two members of `entries` share a name.
pub open spec fn distinct_keys(entries: Seq<(Seq<char>, JsonV)>) -> bool {
    forall|i: int, k: int| 0 <= i < k < entries.len() ==> entries[i].0 != entries[k].0
}

/// A JSON value that the outside JSON library carries through text and
/// back unchanged: no numbers, and no repeated key in any object.
pub open spec fn wf_json(j: JsonV) -> bool
    decreases j,
{
    match j {
        JsonV::Null => true,
        JsonV::Bool(_) => true,
        JsonV::Number(_) => false,
        JsonV::Str(_) => true,
        JsonV::Array(a) => forall|i: int| 0 <= i < a.len() ==> wf_json(#[trigger] a[i]),
        JsonV::Object(o) => distinct_keys(o) && forall|i: int|
            0 <= i < o.len() ==> wf_json(#[trigger] o[i].1),
    }
}

/// Whether two string slices hold the same characters.
pub fn str_eq(a: &str, b: &str) -> (r: bool)
    ensures
        r == (a@ == b@),
{
    let sa = String::from_str(a);
    let sb = String::from_str(b);
    sa == sb
}

/// Finds the first member of `entries` named `key`.
pub fn obj_get<'a>(entries: &'a Vec<(String, Json)>, key: &str) -> (r: Option<&'a Json>)
    ensures
        match r {
            Some(v) => lookup(entries.deep_view(), key@) == Some(v@) && exists|i: int|
                0 <= i < entries@.len() && entries@[i].1 == *v,
            None => lookup(entries.deep_view(), key@) is None,
        },
{
    let ghost entsv = entries.deep_view();
    proof {
        assert(entsv.skip(0) =~= entsv);
    }
    let mut i: usize = 0;
    while i < entries.len()
        invariant
            0 <= i <= entries@.len(),
            entsv == entries.deep_view(),
            lookup(entsv, key@) == lookup(entsv.skip(i as int), key@),
        decreases entries@.len() - i,
    {
        proof {
            assert(entries.deep_view()[i as int] == entries@[i as int].deep_view());
            assert(entsv.skip(i as int)[0] == entsv[i as int]);
        }
        if str_eq(entries[i].0.as_str(), key) {
            return Some(&entries[i].1);
        }
        proof {
            assert(entsv.skip(i as int).drop_first() =~= entsv.skip(i as int + 1));
        }
        i = i + 1;
    }
    proof {
        assert(entsv.skip(entries@.len() as int) =~= Seq::<(Seq<char>, JsonV)>::empty());
    }
    None
}

} // verus!
