//! Dereferencing [`Reference`] paths against a [`Document`].
//!
//! A reference path such as `#/components/commands/foo` is split on `/`;
//! the first segment denotes the document root and is discarded; the
//! remaining segments index step by step into the document's JSON form.
//! An absent or `null` step fails with `MissingReferenceTarget`; a final
//! value of the wrong shape fails with `ReferenceTypeMismatch`.

use vstd::prelude::*;

use crate::codec::{decode_argument, decode_cli_option, decode_command, encode_components, encode_document};
use crate::error::{Error, ErrorV};
use crate::json::{json_view, lookup, obj_get, Json, JsonV};
use crate::model::{Argument, CliOption, Command, Document, DocumentV, Reference};

verus! {

/// `s` split on every occurrence of `sep`, empty pieces kept: the split
/// of the empty sequence is one empty piece.
pub open spec fn split_on(s: Seq<char>, sep: char) -> Seq<Seq<char>>
    decreases s.len(),
{
    if s.len() == 0 {
        seq![Seq::<char>::empty()]
    } else {
        let rest = split_on(s.drop_first(), sep);
        if s[0] == sep {
            seq![Seq::<char>::empty()] + rest
        } else {
            seq![seq![s[0]] + rest[0]] + rest.drop_first()
        }
    }
}

/// A split has at least one piece.
pub proof fn lemma_split_on_nonempty(s: Seq<char>, sep: char)
    ensures
        split_on(s, sep).len() >= 1,
    decreases s.len(),
{
    if s.len() > 0 {
        lemma_split_on_nonempty(s.drop_first(), sep);
    }
}

/// How a split unfolds at its first character.
proof fn lemma_split_on_cons(s: Seq<char>, sep: char)
    requires
        s.len() > 0,
    ensures
        s[0] == sep ==> split_on(s, sep) == seq![Seq::<char>::empty()] + split_on(
            s.drop_first(),
            sep,
        ),
        s[0] != sep ==> split_on(s, sep) == seq![seq![s[0]] + split_on(s.drop_first(), sep)[0]]
            + split_on(s.drop_first(), sep).drop_first(),
{
}

/// The pieces of `ss` with `p` prepended to the first piece.
pub open spec fn prepend_first(p: Seq<char>, ss: Seq<Seq<char>>) -> Seq<Seq<char>> {
    seq![p + ss[0]] + ss.drop_first()
}

impl<T> Reference<T> {
    /// The `/`-separated segments of the path, after the root segment.
    #[verifier::loop_isolation(false)]
    pub fn parts(&self) -> (r: Vec<String>)
        ensures
            r.deep_view() == split_on(self.ref_path@, '/').skip(1),
    {
        let s = self.ref_path.as_str();
        let n = s.unicode_len();
        let ghost sv = self.ref_path@;
        let mut finished: Vec<String> = Vec::new();
        let mut start: usize = 0;
        let mut i: usize = 0;
        proof {
            lemma_split_on_nonempty(sv, '/');
            assert(sv.skip(0) =~= sv);
            assert(sv.subrange(0, 0) =~= Seq::<char>::empty());
            assert(Seq::<char>::empty() + split_on(sv, '/')[0] =~= split_on(sv, '/')[0]);
            assert(finished.deep_view() + prepend_first(sv.subrange(0, 0), split_on(sv, '/'))
                =~= split_on(sv, '/'));
        }
        while i < n
            invariant
                0 <= start <= i <= sv.len(),
                n == sv.len(),
                s@ == sv,
                split_on(sv, '/') == finished.deep_view() + prepend_first(
                    sv.subrange(start as int, i as int),
                    split_on(sv.skip(i as int), '/'),
                ),
            decreases sv.len() - i,
        {
            let c = s.get_char(i);
            proof {
                lemma_split_on_nonempty(sv.skip(i as int + 1), '/');
                assert(sv.skip(i as int).len() > 0);
                assert(sv.skip(i as int)[0] == sv[i as int]);
                assert(sv.skip(i as int).drop_first() =~= sv.skip(i as int + 1));
                lemma_split_on_cons(sv.skip(i as int), '/');
            }
            if c == '/' {
                finished.push(String::from_str(s.substring_char(start, i)));
                proof {
                    let rest = split_on(sv.skip(i as int + 1), '/');
                    assert(split_on(sv.skip(i as int), '/') =~= seq![Seq::<char>::empty()]
                        + rest);
                    assert(Seq::<char>::empty() + rest[0] =~= rest[0]);
                    assert(prepend_first(Seq::<char>::empty(), rest) =~= rest);
                    assert(sv.subrange(i as int + 1, i as int + 1) =~= Seq::<char>::empty());
                    assert(finished.deep_view() + prepend_first(
                        sv.subrange(i as int + 1, i as int + 1),
                        rest,
                    ) =~= split_on(sv, '/'));
                }
                start = i + 1;
            } else {
                proof {
                    let rest = split_on(sv.skip(i as int + 1), '/');
                    let stepped = split_on(sv.skip(i as int), '/');
                    assert(stepped == seq![seq![sv[i as int]] + rest[0]] + rest.drop_first());
                    assert(sv.subrange(start as int, i as int) + seq![sv[i as int]]
                        =~= sv.subrange(start as int, i as int + 1));
                    assert(stepped[0] == seq![sv[i as int]] + rest[0]);
                    assert(sv.subrange(start as int, i as int) + stepped[0] =~= sv.subrange(
                        start as int,
                        i as int + 1,
                    ) + rest[0]);
                    assert(stepped.drop_first() =~= rest.drop_first());
                    assert(prepend_first(sv.subrange(start as int, i as int), stepped)
                        =~= prepend_first(sv.subrange(start as int, i as int + 1), rest));
                    assert(finished.deep_view() + prepend_first(
                        sv.subrange(start as int, i as int + 1),
                        rest,
                    ) =~= split_on(sv, '/'));
                }
            }
            i = i + 1;
        }
        proof {
            assert(sv.skip(sv.len() as int) =~= Seq::<char>::empty());
            assert(sv.subrange(start as int, sv.len() as int) + Seq::<char>::empty()
                =~= sv.subrange(start as int, sv.len() as int));
            assert(prepend_first(sv.subrange(start as int, sv.len() as int), split_on(
                Seq::<char>::empty(),
                '/',
            )) =~= seq![sv.subrange(start as int, sv.len() as int)]);
        }
        finished.push(String::from_str(s.substring_char(start, n)));
        let ghost all = finished.deep_view();
        proof {
            assert(all =~= split_on(sv, '/'));
        }
        let mut r: Vec<String> = Vec::new();
        let mut k: usize = 1;
        while k < finished.len()
            invariant
                1 <= k <= finished@.len(),
                r.deep_view() =~= all.subrange(1, k as int),
                all == finished.deep_view(),
            decreases finished@.len() - k,
        {
            r.push(finished[k].clone());
            proof {
                assert(r.deep_view() =~= all.subrange(1, k as int + 1));
            }
            k = k + 1;
        }
        proof {
            assert(r.deep_view() =~= split_on(sv, '/').skip(1));
        }
        r
    }
}

/// One indexing step: the named member of an object, `null` anywhere
/// else, as indexing a JSON tree by a string behaves.
pub open spec fn json_index(j: JsonV, key: Seq<char>) -> JsonV {
    match j {
        JsonV::Object(entries) => match lookup(entries, key) {
            Option::Some(v) => v,
            Option::None => JsonV::Null,
        },
        _ => JsonV::Null,
    }
}

/// The value reached from `j` by indexing with each segment in turn.
pub open spec fn nav(j: JsonV, segs: Seq<Seq<char>>) -> JsonV
    decreases segs.len(),
{
    if segs.len() == 0 {
        j
    } else {
        nav(json_index(j, segs[0]), segs.drop_first())
    }
}

/// Navigation one segment at a time, from the back.
proof fn lemma_nav_snoc(j: JsonV, segs: Seq<Seq<char>>, x: Seq<char>)
    ensures
        nav(j, segs.push(x)) == json_index(nav(j, segs), x),
    decreases segs.len(),
{
    if segs.len() == 0 {
        assert(segs.push(x)[0] == x);
        assert(segs.push(x).drop_first() =~= Seq::<Seq<char>>::empty());
        assert(nav(j, segs.push(x)) == nav(json_index(j, x), segs.push(x).drop_first()));
        assert(nav(json_index(j, x), Seq::<Seq<char>>::empty()) == json_index(j, x));
        assert(nav(j, segs) == j);
    } else {
        assert(segs.push(x)[0] == segs[0]);
        assert(segs.push(x).drop_first() =~= segs.drop_first().push(x));
        assert(nav(j, segs.push(x)) == nav(json_index(j, segs[0]), segs.drop_first().push(x)));
        lemma_nav_snoc(json_index(j, segs[0]), segs.drop_first(), x);
        assert(nav(j, segs) == nav(json_index(j, segs[0]), segs.drop_first()));
    }
}

/// The value a reference path reaches in the JSON form of a document.
pub open spec fn resolved_value(d: DocumentV, path: Seq<char>) -> JsonV {
    nav(encode_document(d), split_on(path, '/').skip(1))
}

/// Walks the segments down the JSON tree; `None` means a step found no
/// member to follow.
#[verifier::loop_isolation(false)]
fn navigate<'a>(root: &'a Json, segs: &Vec<String>) -> (r: Option<&'a Json>)
    ensures
        match r {
            Option::Some(v) => json_view(*v) == nav(json_view(*root), segs.deep_view()),
            Option::None => nav(json_view(*root), segs.deep_view()) == JsonV::Null,
        },
{
    let ghost sv = segs.deep_view();
    let mut cur: Option<&'a Json> = Option::Some(root);
    let mut i: usize = 0;
    while i < segs.len()
        invariant
            0 <= i <= sv.len(),
            sv == segs.deep_view(),
            match cur {
                Option::Some(c) => json_view(*c) == nav(json_view(*root), sv.take(i as int)),
                Option::None => nav(json_view(*root), sv.take(i as int)) == JsonV::Null,
            },
        decreases sv.len() - i,
    {
        proof {
            assert(sv.take(i as int + 1) =~= sv.take(i as int).push(sv[i as int]));
            lemma_nav_snoc(json_view(*root), sv.take(i as int), sv[i as int]);
        }
        let next: Option<&'a Json> = match cur {
            Option::Some(c) => match c {
                Json::Object(ents) => {
                    proof {
                        assert(ents.deep_view() =~= json_view(*c)->Object_0);
                    }
                    obj_get(ents, segs[i].as_str())
                },
                _ => Option::None,
            },
            Option::None => Option::None,
        };
        proof {
            let before = nav(json_view(*root), sv.take(i as int));
            let after = nav(json_view(*root), sv.take(i as int + 1));
            assert(after == json_index(before, sv[i as int]));
        }
        cur = next;
        i = i + 1;
    }
    proof {
        assert(sv.take(sv.len() as int) =~= sv);
    }
    cur
}

impl Reference<Argument> {
    /// Resolves the reference relative to `document`, expecting an
    /// argument definition at the end of the path.
    pub fn resolve(&self, document: &Document) -> (r: Result<Argument, Error>)
        ensures
            ({
                let target = resolved_value(document@, self.ref_path@);
                match r {
                    Result::Ok(a) => target != JsonV::Null && decode_argument(target)
                        == Option::Some(a@),
                    Result::Err(e) => if target == JsonV::Null {
                        e@ == (ErrorV::MissingReferenceTarget { reference: self.ref_path@ })
                    } else {
                        decode_argument(target) is None && e@ == (ErrorV::ReferenceTypeMismatch {
                            reference: self.ref_path@,
                            expected: "Argument"@,
                        })
                    },
                }
            }),
    {
        let parts = self.parts();
        let root = document.to_json();
        match navigate(&root, &parts) {
            Option::None => Result::Err(
                Error::MissingReferenceTarget { reference: self.ref_path.clone() },
            ),
            Option::Some(v) => match v {
                Json::Null => Result::Err(
                    Error::MissingReferenceTarget { reference: self.ref_path.clone() },
                ),
                other => match Argument::from_json(other) {
                    Option::Some(a) => Result::Ok(a),
                    Option::None => Result::Err(
                        Error::ReferenceTypeMismatch {
                            reference: self.ref_path.clone(),
                            expected: String::from_str("Argument"),
                        },
                    ),
                },
            },
        }
    }
}

impl Reference<CliOption> {
    /// Resolves the reference relative to `document`, expecting an option
    /// definition at the end of the path.
    pub fn resolve(&self, document: &Document) -> (r: Result<CliOption, Error>)
        ensures
            ({
                let target = resolved_value(document@, self.ref_path@);
                match r {
                    Result::Ok(o) => target != JsonV::Null && decode_cli_option(target)
                        == Option::Some(o@),
                    Result::Err(e) => if target == JsonV::Null {
                        e@ == (ErrorV::MissingReferenceTarget { reference: self.ref_path@ })
                    } else {
                        decode_cli_option(target) is None && e@ == (
                        ErrorV::ReferenceTypeMismatch {
                            reference: self.ref_path@,
                            expected: "Option"@,
                        })
                    },
                }
            }),
    {
        let parts = self.parts();
        let root = document.to_json();
        match navigate(&root, &parts) {
            Option::None => Result::Err(
                Error::MissingReferenceTarget { reference: self.ref_path.clone() },
            ),
            Option::Some(v) => match v {
                Json::Null => Result::Err(
                    Error::MissingReferenceTarget { reference: self.ref_path.clone() },
                ),
                other => match CliOption::from_json(other) {
                    Option::Some(o) => Result::Ok(o),
                    Option::None => Result::Err(
                        Error::ReferenceTypeMismatch {
                            reference: self.ref_path.clone(),
                            expected: String::from_str("Option"),
                        },
                    ),
                },
            },
        }
    }
}

impl Reference<Command> {
    /// Resolves the reference relative to `document`, expecting a
    /// subcommand definition at the end of the path.
    pub fn resolve(&self, document: &Document) -> (r: Result<Command, Error>)
        ensures
            ({
                let target = resolved_value(document@, self.ref_path@);
                match r {
                    Result::Ok(c) => target != JsonV::Null && decode_command(target)
                        == Option::Some(c@),
                    Result::Err(e) => if target == JsonV::Null {
                        e@ == (ErrorV::MissingReferenceTarget { reference: self.ref_path@ })
                    } else {
                        decode_command(target) is None && e@ == (ErrorV::ReferenceTypeMismatch {
                            reference: self.ref_path@,
                            expected: "Command"@,
                        })
                    },
                }
            }),
    {
        let parts = self.parts();
        let root = document.to_json();
        match navigate(&root, &parts) {
            Option::None => Result::Err(
                Error::MissingReferenceTarget { reference: self.ref_path.clone() },
            ),
            Option::Some(v) => match v {
                Json::Null => Result::Err(
                    Error::MissingReferenceTarget { reference: self.ref_path.clone() },
                ),
                other => match Command::from_json(other) {
                    Option::Some(c) => Result::Ok(c),
                    Option::None => Result::Err(
                        Error::ReferenceTypeMismatch {
                            reference: self.ref_path.clone(),
                            expected: String::from_str("Command"),
                        },
                    ),
                },
            },
        }
    }
}

/// Navigation down a three-segment component path, spelled out.
proof fn lemma_nav_three(j: JsonV, s0: Seq<char>, s1: Seq<char>, s2: Seq<char>)
    ensures
        nav(j, seq![s0, s1, s2]) == json_index(json_index(json_index(j, s0), s1), s2),
{
    reveal_with_fuel(nav, 5);
    let segs = seq![s0, s1, s2];
    assert(segs.drop_first() =~= seq![s1, s2]);
    assert(seq![s1, s2].drop_first() =~= seq![s2]);
    assert(seq![s2].drop_first() =~= Seq::<Seq<char>>::empty());
}

/// Resolution correctness for arguments: a path that addresses an
/// existing entry of the `arguments` mapping, not shadowed by an earlier
/// entry of the same name, reaches exactly that entry's encoded form,
/// which decodes to the entry itself.
pub proof fn lemma_resolve_argument_found(d: DocumentV, path: Seq<char>, i: int)
    requires
        d.components.arguments is Some,
        0 <= i < d.components.arguments->Some_0.len(),
        forall|k: int|
            0 <= k < i ==> (#[trigger] d.components.arguments->Some_0[k].0)
                != d.components.arguments->Some_0[i].0,
        split_on(path, '/').skip(1) =~= seq![
            "components"@,
            "arguments"@,
            d.components.arguments->Some_0[i].0,
        ],
    ensures
        resolved_value(d, path) != JsonV::Null,
        crate::codec::decode_argument(resolved_value(d, path)) == Option::Some(
            d.components.arguments->Some_0[i].1,
        ),
{
    let m = d.components.arguments->Some_0;
    let name = m[i].0;
    lemma_nav_three(encode_document(d), "components"@, "arguments"@, name);
    reveal_strlit("openautocompletion");
    reveal_strlit("components");
    reveal_strlit("cli");
    reveal_strlit("arguments");
    reveal_strlit("options");
    reveal_strlit("commands");
    reveal_with_fuel(lookup, 8);
    let de = encode_document(d)->Object_0;
    assert("openautocompletion"@.len() == 18 && "components"@.len() == 10 && "cli"@.len() == 3);
    assert(de[1].0 == "components"@);
    crate::json::lemma_lookup_at(de, 1);
    assert(json_index(encode_document(d), "components"@) == encode_components(d.components));
    let ce = encode_components(d.components)->Object_0;
    assert("arguments"@.len() == 9 && "options"@.len() == 7 && "commands"@.len() == 8);
    assert(ce[0].0 == "arguments"@);
    crate::json::lemma_lookup_at(ce, 0);
    let menc = crate::codec::encode_component_map(
        d.components.arguments,
        |a: crate::model::ArgumentV| crate::codec::encode_argument(a),
    );
    assert(json_index(encode_components(d.components), "arguments"@) == menc);
    let ev = menc->Object_0;
    assert(forall|k: int| 0 <= k < ev.len() ==> #[trigger] ev[k] == (
        m[k].0,
        crate::codec::encode_argument(m[k].1),
    ));
    crate::json::lemma_lookup_at(ev, i);
    assert(json_index(menc, name) == crate::codec::encode_argument(m[i].1));
    assert(resolved_value(d, path) == crate::codec::encode_argument(m[i].1));
    crate::codec::lemma_rt_argument(m[i].1);
}

/// Resolution correctness for subcommands, as for arguments.
pub proof fn lemma_resolve_command_found(d: DocumentV, path: Seq<char>, i: int)
    requires
        d.components.commands is Some,
        0 <= i < d.components.commands->Some_0.len(),
        forall|k: int|
            0 <= k < i ==> (#[trigger] d.components.commands->Some_0[k].0)
                != d.components.commands->Some_0[i].0,
        split_on(path, '/').skip(1) =~= seq![
            "components"@,
            "commands"@,
            d.components.commands->Some_0[i].0,
        ],
    ensures
        resolved_value(d, path) != JsonV::Null,
        crate::codec::decode_command(resolved_value(d, path)) == Option::Some(
            d.components.commands->Some_0[i].1,
        ),
{
    let m = d.components.commands->Some_0;
    let name = m[i].0;
    lemma_nav_three(encode_document(d), "components"@, "commands"@, name);
    reveal_strlit("openautocompletion");
    reveal_strlit("components");
    reveal_strlit("cli");
    reveal_strlit("arguments");
    reveal_strlit("options");
    reveal_strlit("commands");
    reveal_with_fuel(lookup, 8);
    let de = encode_document(d)->Object_0;
    assert("openautocompletion"@.len() == 18 && "components"@.len() == 10 && "cli"@.len() == 3);
    assert(de[1].0 == "components"@);
    crate::json::lemma_lookup_at(de, 1);
    assert(json_index(encode_document(d), "components"@) == encode_components(d.components));
    let ce = encode_components(d.components)->Object_0;
    assert("arguments"@.len() == 9 && "options"@.len() == 7 && "commands"@.len() == 8);
    assert(ce[2].0 == "commands"@);
    crate::json::lemma_lookup_at(ce, 2);
    let menc = crate::codec::encode_component_map(
        d.components.commands,
        |c: crate::model::CommandV| crate::codec::encode_command(c),
    );
    assert(json_index(encode_components(d.components), "commands"@) == menc);
    let ev = menc->Object_0;
    assert(forall|k: int| 0 <= k < ev.len() ==> #[trigger] ev[k] == (
        m[k].0,
        crate::codec::encode_command(m[k].1),
    ));
    crate::json::lemma_lookup_at(ev, i);
    assert(json_index(menc, name) == crate::codec::encode_command(m[i].1));
    assert(resolved_value(d, path) == crate::codec::encode_command(m[i].1));
    crate::codec::lemma_rt_command(m[i].1);
}

/// Resolution correctness for options, as for arguments.
pub proof fn lemma_resolve_option_found(d: DocumentV, path: Seq<char>, i: int)
    requires
        d.components.options is Some,
        0 <= i < d.components.options->Some_0.len(),
        forall|k: int|
            0 <= k < i ==> (#[trigger] d.components.options->Some_0[k].0)
                != d.components.options->Some_0[i].0,
        split_on(path, '/').skip(1) =~= seq![
            "components"@,
            "options"@,
            d.components.options->Some_0[i].0,
        ],
    ensures
        resolved_value(d, path) != JsonV::Null,
        crate::codec::decode_cli_option(resolved_value(d, path)) == Option::Some(
            d.components.options->Some_0[i].1,
        ),
{
    let m = d.components.options->Some_0;
    let name = m[i].0;
    lemma_nav_three(encode_document(d), "components"@, "options"@, name);
    reveal_strlit("openautocompletion");
    reveal_strlit("components");
    reveal_strlit("cli");
    reveal_strlit("arguments");
    reveal_strlit("options");
    reveal_strlit("commands");
    reveal_with_fuel(lookup, 8);
    let de = encode_document(d)->Object_0;
    assert("openautocompletion"@.len() == 18 && "components"@.len() == 10 && "cli"@.len() == 3);
    assert(de[1].0 == "components"@);
    crate::json::lemma_lookup_at(de, 1);
    assert(json_index(encode_document(d), "components"@) == encode_components(d.components));
    let ce = encode_components(d.components)->Object_0;
    assert("arguments"@.len() == 9 && "options"@.len() == 7 && "commands"@.len() == 8);
    assert(ce[1].0 == "options"@);
    crate::json::lemma_lookup_at(ce, 1);
    let menc = crate::codec::encode_component_map(
        d.components.options,
        |o: crate::model::CliOptionV| crate::codec::encode_cli_option(o),
    );
    assert(json_index(encode_components(d.components), "options"@) == menc);
    let ev = menc->Object_0;
    assert(forall|k: int| 0 <= k < ev.len() ==> #[trigger] ev[k] == (
        m[k].0,
        crate::codec::encode_cli_option(m[k].1),
    ));
    crate::json::lemma_lookup_at(ev, i);
    assert(json_index(menc, name) == crate::codec::encode_cli_option(m[i].1));
    assert(resolved_value(d, path) == crate::codec::encode_cli_option(m[i].1));
    crate::codec::lemma_rt_cli_option(m[i].1);
}

/// A dangling reference into the `commands` mapping, as for arguments.
pub proof fn lemma_resolve_command_dangling(d: DocumentV, path: Seq<char>, name: Seq<char>)
    requires
        split_on(path, '/').skip(1) =~= seq!["components"@, "commands"@, name],
        match d.components.commands {
            Option::Some(m) => forall|k: int| 0 <= k < m.len() ==> (#[trigger] m[k].0) != name,
            Option::None => true,
        },
    ensures
        resolved_value(d, path) == JsonV::Null,
{
    lemma_nav_three(encode_document(d), "components"@, "commands"@, name);
    reveal_strlit("openautocompletion");
    reveal_strlit("components");
    reveal_strlit("cli");
    reveal_strlit("arguments");
    reveal_strlit("options");
    reveal_strlit("commands");
    reveal_with_fuel(lookup, 8);
    let de = encode_document(d)->Object_0;
    assert("openautocompletion"@.len() == 18 && "components"@.len() == 10 && "cli"@.len() == 3);
    assert(de[1].0 == "components"@);
    crate::json::lemma_lookup_at(de, 1);
    let ce = encode_components(d.components)->Object_0;
    assert("arguments"@.len() == 9 && "options"@.len() == 7 && "commands"@.len() == 8);
    assert(ce[2].0 == "commands"@);
    crate::json::lemma_lookup_at(ce, 2);
    match d.components.commands {
        Option::None => {},
        Option::Some(m) => {
            let menc = crate::codec::encode_component_map(
                d.components.commands,
                |c: crate::model::CommandV| crate::codec::encode_command(c),
            );
            let ev = menc->Object_0;
            assert(forall|k: int| 0 <= k < ev.len() ==> (#[trigger] ev[k].0) == m[k].0);
            crate::json::lemma_lookup_none(ev, name);
        },
    }
}

/// A dangling reference: a path into the `arguments` mapping whose last
/// segment names no entry, or whose mapping is absent, reaches `null`,
/// so resolution fails with `MissingReferenceTarget` carrying the path
/// verbatim.
pub proof fn lemma_resolve_argument_dangling(d: DocumentV, path: Seq<char>, name: Seq<char>)
    requires
        split_on(path, '/').skip(1) =~= seq!["components"@, "arguments"@, name],
        match d.components.arguments {
            Option::Some(m) => forall|k: int| 0 <= k < m.len() ==> (#[trigger] m[k].0) != name,
            Option::None => true,
        },
    ensures
        resolved_value(d, path) == JsonV::Null,
{
    lemma_nav_three(encode_document(d), "components"@, "arguments"@, name);
    reveal_strlit("openautocompletion");
    reveal_strlit("components");
    reveal_strlit("cli");
    reveal_strlit("arguments");
    reveal_strlit("options");
    reveal_strlit("commands");
    reveal_with_fuel(lookup, 8);
    let de = encode_document(d)->Object_0;
    assert("openautocompletion"@.len() == 18 && "components"@.len() == 10 && "cli"@.len() == 3);
    assert(de[1].0 == "components"@);
    crate::json::lemma_lookup_at(de, 1);
    let ce = encode_components(d.components)->Object_0;
    assert("arguments"@.len() == 9 && "options"@.len() == 7 && "commands"@.len() == 8);
    assert(ce[0].0 == "arguments"@);
    crate::json::lemma_lookup_at(ce, 0);
    match d.components.arguments {
        Option::None => {},
        Option::Some(m) => {
            let menc = crate::codec::encode_component_map(
                d.components.arguments,
                |a: crate::model::ArgumentV| crate::codec::encode_argument(a),
            );
            let ev = menc->Object_0;
            assert(forall|k: int| 0 <= k < ev.len() ==> (#[trigger] ev[k].0) == m[k].0);
            crate::json::lemma_lookup_none(ev, name);
        },
    }
}

/// A type mismatch: an argument definition does not have the shape of a
/// subcommand definition (it has no `names` member), so resolving a
/// command reference at its path fails with `ReferenceTypeMismatch`
/// rather than aborting.
pub proof fn lemma_command_from_argument_mismatch(a: crate::model::ArgumentV)
    ensures
        crate::codec::decode_command(crate::codec::encode_argument(a)) is None,
{
    reveal_strlit("name");
    reveal_strlit("names");
    reveal_strlit("description");
    reveal_with_fuel(lookup, 8);
    let entries = crate::codec::encode_argument(a)->Object_0;
    assert("name"@.len() == 4 && "names"@.len() == 5 && "description"@.len() == 11);
    assert(forall|k: int| 0 <= k < entries.len() ==> (#[trigger] entries[k].0) != "names"@);
    crate::json::lemma_lookup_none(entries, "names"@);
}

/// The converse mismatch: a subcommand definition has no `name` member,
/// so resolving an argument reference at its path fails with
/// `ReferenceTypeMismatch`.
pub proof fn lemma_argument_from_command_mismatch(c: crate::model::CommandV)
    ensures
        crate::codec::decode_argument(crate::codec::encode_command(c)) is None,
{
    reveal_strlit("name");
    reveal_strlit("names");
    reveal_strlit("description");
    reveal_with_fuel(lookup, 8);
    let entries = crate::codec::encode_command(c)->Object_0;
    assert("name"@.len() == 4 && "names"@.len() == 5 && "description"@.len() == 11);
    assert(forall|k: int| 0 <= k < entries.len() ==> (#[trigger] entries[k].0) != "name"@);
    crate::json::lemma_lookup_none(entries, "name"@);
}

} // verus!
