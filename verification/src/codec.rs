//! Encoding and decoding between the document model and the JSON tree.
//!
//! Decoding is lookup-based: it reads the object members it knows and
//! ignores the rest, required members must be present, optional members
//! may be absent or `null`, and the pattern union is dispatched on its
//! `"type"` member.  Encoding writes every field, absent optional data as
//! `null`.  Decoding an encoded document gives the document back; see the
//! round-trip lemmas at the end of this module.

use vstd::prelude::*;

use crate::json::{distinct_keys, json_view, lemma_lookup_at, lookup, obj_get, str_eq, wf_json, Json, JsonV};
use crate::model::{
    Argument, ArgumentV, Cli, CliOption, CliOptionV, CliV, Command, CommandV, Components,
    ComponentsV, Document, DocumentV, OpenAutoCompletion, OpenAutoCompletionV, Pattern,
    PatternCommon, PatternCommonV, PatternV, Reference,
};
use crate::model::pattern_view;

verus! {

/// An optional string, written as the string or `null`.
pub open spec fn encode_opt_str(o: Option<Seq<char>>) -> JsonV {
    match o {
        Option::None => JsonV::Null,
        Option::Some(s) => JsonV::Str(s),
    }
}

/// A list of strings, written as an array.
pub open spec fn encode_str_seq(ss: Seq<Seq<char>>) -> JsonV {
    JsonV::Array(Seq::new(ss.len(), |i: int| JsonV::Str(ss[i])))
}

/// An optional list of strings, written as the array or `null`.
pub open spec fn encode_opt_str_seq(o: Option<Seq<Seq<char>>>) -> JsonV {
    match o {
        Option::None => JsonV::Null,
        Option::Some(ss) => encode_str_seq(ss),
    }
}

/// How an [`Argument`] is written.
pub open spec fn encode_argument(a: ArgumentV) -> JsonV {
    JsonV::Object(
        seq![("name"@, JsonV::Str(a.name)), ("description"@, encode_opt_str(a.description))],
    )
}

/// How a [`CliOption`] is written.
pub open spec fn encode_cli_option(o: CliOptionV) -> JsonV {
    JsonV::Object(
        seq![
            ("names_short"@, encode_opt_str_seq(o.names_short)),
            ("names_long"@, encode_opt_str_seq(o.names_long)),
            ("description"@, encode_opt_str(o.description)),
        ],
    )
}

/// How a [`Command`] is written.
pub open spec fn encode_command(c: CommandV) -> JsonV {
    JsonV::Object(
        seq![("names"@, encode_str_seq(c.names)), ("description"@, encode_opt_str(c.description))],
    )
}

/// How a [`Reference`] is written: an object with a single `$ref` member.
pub open spec fn encode_reference(path: Seq<char>) -> JsonV {
    JsonV::Object(seq![("$ref"@, JsonV::Str(path))])
}

/// How a [`Pattern`] node is written: its variant fields, tagged by a
/// `"type"` member, with the common flags alongside.
pub open spec fn encode_pattern(p: PatternV) -> JsonV
    decreases p,
{
    match p {
        PatternV::Command { command, common } => JsonV::Object(
            seq![
                ("type"@, JsonV::Str("command"@)),
                ("command"@, encode_reference(command)),
                ("repeated"@, JsonV::Bool(common.repeated)),
                ("optional"@, JsonV::Bool(common.optional)),
            ],
        ),
        PatternV::Argument { argument, common } => JsonV::Object(
            seq![
                ("type"@, JsonV::Str("argument"@)),
                ("argument"@, encode_reference(argument)),
                ("repeated"@, JsonV::Bool(common.repeated)),
                ("optional"@, JsonV::Bool(common.optional)),
            ],
        ),
        PatternV::Option { option, argument, common } => JsonV::Object(
            seq![
                ("type"@, JsonV::Str("option"@)),
                ("option"@, encode_reference(option)),
                (
                    "argument"@,
                    match argument {
                        Option::None => JsonV::Null,
                        Option::Some(b) => encode_pattern(*b),
                    },
                ),
                ("repeated"@, JsonV::Bool(common.repeated)),
                ("optional"@, JsonV::Bool(common.optional)),
            ],
        ),
        PatternV::Group { exclusive, patterns, common } => JsonV::Object(
            seq![
                ("type"@, JsonV::Str("group"@)),
                ("exclusive"@, JsonV::Bool(exclusive)),
                (
                    "patterns"@,
                    JsonV::Array(
                        Seq::new(
                            patterns.len(),
                            |i: int|
                                if 0 <= i < patterns.len() {
                                    encode_pattern(patterns[i])
                                } else {
                                    JsonV::Null
                                },
                        ),
                    ),
                ),
                ("repeated"@, JsonV::Bool(common.repeated)),
                ("optional"@, JsonV::Bool(common.optional)),
            ],
        ),
    }
}

/// How one mapping of the component registry is written: an object with
/// one member per component, or `null` for an absent mapping.
pub open spec fn encode_component_map<TV>(
    m: Option<Seq<(Seq<char>, TV)>>,
    f: spec_fn(TV) -> JsonV,
) -> JsonV {
    match m {
        Option::None => JsonV::Null,
        Option::Some(entries) => JsonV::Object(
            Seq::new(entries.len(), |i: int| (entries[i].0, f(entries[i].1))),
        ),
    }
}

/// How the [`Components`] registry is written.
pub open spec fn encode_components(c: ComponentsV) -> JsonV {
    JsonV::Object(
        seq![
            ("arguments"@, encode_component_map(c.arguments, |a: ArgumentV| encode_argument(a))),
            ("options"@, encode_component_map(c.options, |o: CliOptionV| encode_cli_option(o))),
            ("commands"@, encode_component_map(c.commands, |k: CommandV| encode_command(k))),
        ],
    )
}

/// How the [`OpenAutoCompletion`] metadata is written.
pub open spec fn encode_oac(o: OpenAutoCompletionV) -> JsonV {
    JsonV::Object(seq![("version"@, JsonV::Str(o.version))])
}

/// How the [`Cli`] usage description is written.
pub open spec fn encode_cli(c: CliV) -> JsonV {
    JsonV::Object(
        seq![
            ("name"@, JsonV::Str(c.name)),
            ("option_separators_long"@, encode_str_seq(c.option_separators_long)),
            ("option_separators_short"@, encode_str_seq(c.option_separators_short)),
            ("option_prefix_long"@, JsonV::Str(c.option_prefix_long)),
            ("option_prefix_short"@, JsonV::Str(c.option_prefix_short)),
            (
                "pattern_groups"@,
                JsonV::Array(
                    Seq::new(
                        c.pattern_groups.len(),
                        |i: int|
                            if 0 <= i < c.pattern_groups.len() {
                                encode_pattern(c.pattern_groups[i])
                            } else {
                                JsonV::Null
                            },
                    ),
                ),
            ),
        ],
    )
}

/// How a whole [`Document`] is written.
pub open spec fn encode_document(d: DocumentV) -> JsonV {
    JsonV::Object(
        seq![
            ("openautocompletion"@, encode_oac(d.openautocompletion)),
            ("components"@, encode_components(d.components)),
            ("cli"@, encode_cli(d.cli)),
        ],
    )
}

/// A required string member: present and a string, or the decode fails.
pub open spec fn decode_req_str(field: Option<JsonV>) -> Option<Seq<char>> {
    match field {
        Option::Some(JsonV::Str(s)) => Option::Some(s),
        _ => Option::None,
    }
}

/// An optional string member: absent and `null` both mean "no value".
pub open spec fn decode_opt_str(field: Option<JsonV>) -> Option<Option<Seq<char>>> {
    match field {
        Option::None => Option::Some(Option::None),
        Option::Some(JsonV::Null) => Option::Some(Option::None),
        Option::Some(JsonV::Str(s)) => Option::Some(Option::Some(s)),
        Option::Some(_) => Option::None,
    }
}

/// An array whose members must all be strings.
pub open spec fn decode_str_seq(j: JsonV) -> Option<Seq<Seq<char>>> {
    match j {
        JsonV::Array(a) => if forall|i: int| 0 <= i < a.len() ==> (#[trigger] a[i]) is Str {
            Option::Some(Seq::new(a.len(), |i: int| a[i]->Str_0))
        } else {
            Option::None
        },
        _ => Option::None,
    }
}

/// An optional array of strings: absent and `null` both mean "no value".
pub open spec fn decode_opt_str_seq(field: Option<JsonV>) -> Option<Option<Seq<Seq<char>>>> {
    match field {
        Option::None => Option::Some(Option::None),
        Option::Some(JsonV::Null) => Option::Some(Option::None),
        Option::Some(j) => match decode_str_seq(j) {
            Option::Some(ss) => Option::Some(Option::Some(ss)),
            Option::None => Option::None,
        },
    }
}

/// A string member with a documented default for when it is absent.
pub open spec fn decode_str_default(field: Option<JsonV>, default: Seq<char>) -> Option<Seq<char>> {
    match field {
        Option::None => Option::Some(default),
        Option::Some(JsonV::Str(s)) => Option::Some(s),
        Option::Some(_) => Option::None,
    }
}

/// An array-of-strings member with a documented default for when it is
/// absent.
pub open spec fn decode_str_seq_default(field: Option<JsonV>, default: Seq<Seq<char>>) -> Option<
    Seq<Seq<char>>,
> {
    match field {
        Option::None => Option::Some(default),
        Option::Some(j) => decode_str_seq(j),
    }
}

/// A boolean member that defaults to `false` when absent.
pub open spec fn decode_bool_default(field: Option<JsonV>) -> Option<bool> {
    match field {
        Option::None => Option::Some(false),
        Option::Some(JsonV::Bool(b)) => Option::Some(b),
        Option::Some(_) => Option::None,
    }
}

/// How an [`Argument`] is read back.
pub open spec fn decode_argument(j: JsonV) -> Option<ArgumentV> {
    match j {
        JsonV::Object(entries) => match (
            decode_req_str(lookup(entries, "name"@)),
            decode_opt_str(lookup(entries, "description"@)),
        ) {
            (Option::Some(n), Option::Some(d)) => Option::Some(
                ArgumentV { name: n, description: d },
            ),
            _ => Option::None,
        },
        _ => Option::None,
    }
}

/// How a [`CliOption`] is read back.
pub open spec fn decode_cli_option(j: JsonV) -> Option<CliOptionV> {
    match j {
        JsonV::Object(entries) => match (
            decode_opt_str_seq(lookup(entries, "names_short"@)),
            decode_opt_str_seq(lookup(entries, "names_long"@)),
            decode_opt_str(lookup(entries, "description"@)),
        ) {
            (Option::Some(ns), Option::Some(nl), Option::Some(d)) => Option::Some(
                CliOptionV { names_short: ns, names_long: nl, description: d },
            ),
            _ => Option::None,
        },
        _ => Option::None,
    }
}

/// How a [`Command`] is read back.
pub open spec fn decode_command(j: JsonV) -> Option<CommandV> {
    match j {
        JsonV::Object(entries) => match (
            match lookup(entries, "names"@) {
                Option::Some(jn) => decode_str_seq(jn),
                Option::None => Option::None,
            },
            decode_opt_str(lookup(entries, "description"@)),
        ) {
            (Option::Some(ns), Option::Some(d)) => Option::Some(
                CommandV { names: ns, description: d },
            ),
            _ => Option::None,
        },
        _ => Option::None,
    }
}

/// How a [`Reference`] is read back: the `$ref` member, a string.
pub open spec fn decode_reference(j: JsonV) -> Option<Seq<char>> {
    match j {
        JsonV::Object(entries) => decode_req_str(lookup(entries, "$ref"@)),
        _ => Option::None,
    }
}

/// The two flags common to every pattern node; both default to `false`.
pub open spec fn decode_common(entries: Seq<(Seq<char>, JsonV)>) -> Option<PatternCommonV> {
    match (
        decode_bool_default(lookup(entries, "repeated"@)),
        decode_bool_default(lookup(entries, "optional"@)),
    ) {
        (Option::Some(r), Option::Some(o)) => Option::Some(
            PatternCommonV { repeated: r, optional: o },
        ),
        _ => Option::None,
    }
}

/// How a [`Pattern`] node is read back, dispatching on its `"type"` tag.
pub open spec fn decode_pattern(j: JsonV) -> Option<PatternV>
    decreases j,
    via decode_pattern_via
{
    match j {
        JsonV::Object(entries) => match lookup(entries, "type"@) {
            Option::Some(JsonV::Str(t)) => if t == "command"@ {
                match (
                    match lookup(entries, "command"@) {
                        Option::Some(jc) => decode_reference(jc),
                        Option::None => Option::None,
                    },
                    decode_common(entries),
                ) {
                    (Option::Some(r), Option::Some(c)) => Option::Some(
                        PatternV::Command { command: r, common: c },
                    ),
                    _ => Option::None,
                }
            } else if t == "argument"@ {
                match (
                    match lookup(entries, "argument"@) {
                        Option::Some(ja) => decode_reference(ja),
                        Option::None => Option::None,
                    },
                    decode_common(entries),
                ) {
                    (Option::Some(r), Option::Some(c)) => Option::Some(
                        PatternV::Argument { argument: r, common: c },
                    ),
                    _ => Option::None,
                }
            } else if t == "option"@ {
                let oref = match lookup(entries, "option"@) {
                    Option::Some(jo) => decode_reference(jo),
                    Option::None => Option::None,
                };
                let arg = match lookup(entries, "argument"@) {
                    Option::None => Option::Some(Option::None),
                    Option::Some(JsonV::Null) => Option::Some(Option::None),
                    Option::Some(ja) => match decode_pattern(ja) {
                        Option::Some(p) => Option::Some(Option::Some(Box::new(p))),
                        Option::None => Option::None,
                    },
                };
                match (oref, arg, decode_common(entries)) {
                    (Option::Some(r), Option::Some(a), Option::Some(c)) => Option::Some(
                        PatternV::Option { option: r, argument: a, common: c },
                    ),
                    _ => Option::None,
                }
            } else if t == "group"@ {
                let pats = match lookup(entries, "patterns"@) {
                    Option::Some(JsonV::Array(a)) => if forall|i: int|
                        0 <= i < a.len() ==> decode_pattern(#[trigger] a[i]) is Some {
                        Option::Some(
                            Seq::new(
                                a.len(),
                                |i: int|
                                    if 0 <= i < a.len() {
                                        decode_pattern(a[i])->Some_0
                                    } else {
                                        PatternV::Group {
                                            exclusive: false,
                                            patterns: Seq::empty(),
                                            common: PatternCommonV {
                                                repeated: false,
                                                optional: false,
                                            },
                                        }
                                    },
                            ),
                        )
                    } else {
                        Option::None
                    },
                    _ => Option::None,
                };
                match (decode_bool_default(lookup(entries, "exclusive"@)), pats, decode_common(
                    entries,
                )) {
                    (Option::Some(x), Option::Some(ps), Option::Some(c)) => Option::Some(
                        PatternV::Group { exclusive: x, patterns: ps, common: c },
                    ),
                    _ => Option::None,
                }
            } else {
                Option::None
            },
            _ => Option::None,
        },
        _ => Option::None,
    }
}

#[via_fn]
proof fn decode_pattern_via(j: JsonV) {
    match j {
        JsonV::Object(entries) => {
            assert(decreases_to!(j => entries));
            crate::json::lemma_lookup_is_entry(entries, "argument"@);
            crate::json::lemma_lookup_is_entry(entries, "patterns"@);
            match lookup(entries, "patterns"@) {
                Option::Some(JsonV::Array(a)) => {
                    assert(decreases_to!(entries => JsonV::Array(a)));
                    assert forall|i: int| 0 <= i < a.len() implies (decreases_to!(
                        j =>
                        #[trigger] a[i])) by {
                        assert(decreases_to!(JsonV::Array(a) => a));
                        assert(decreases_to!(a => a[i]));
                    }
                },
                _ => {},
            }
        },
        _ => {},
    }
}

/// One mapping of the component registry, read back with the given
/// per-component decoder; absent and `null` both mean "no mapping".
pub open spec fn decode_component_map<TV>(
    field: Option<JsonV>,
    f: spec_fn(JsonV) -> Option<TV>,
    default: TV,
) -> Option<Option<Seq<(Seq<char>, TV)>>> {
    match field {
        Option::None => Option::Some(Option::None),
        Option::Some(JsonV::Null) => Option::Some(Option::None),
        Option::Some(JsonV::Object(entries)) => if forall|i: int|
            0 <= i < entries.len() ==> f(#[trigger] entries[i].1) is Some {
            Option::Some(
                Option::Some(
                    Seq::new(
                        entries.len(),
                        |i: int|
                            if 0 <= i < entries.len() {
                                (entries[i].0, f(entries[i].1)->Some_0)
                            } else {
                                (Seq::<char>::empty(), default)
                            },
                    ),
                ),
            )
        } else {
            Option::None
        },
        Option::Some(_) => Option::None,
    }
}

/// The default [`ArgumentV`] filler for out-of-range indices.
pub open spec fn arbitrary_argument() -> ArgumentV {
    ArgumentV { name: Seq::empty(), description: Option::None }
}

/// The default [`CliOptionV`] filler for out-of-range indices.
pub open spec fn arbitrary_cli_option() -> CliOptionV {
    CliOptionV { names_short: Option::None, names_long: Option::None, description: Option::None }
}

/// The default [`CommandV`] filler for out-of-range indices.
pub open spec fn arbitrary_command() -> CommandV {
    CommandV { names: Seq::empty(), description: Option::None }
}

/// How the [`Components`] registry is read back.
pub open spec fn decode_components(j: JsonV) -> Option<ComponentsV> {
    match j {
        JsonV::Object(entries) => match (
            decode_component_map(
                lookup(entries, "arguments"@),
                |x: JsonV| decode_argument(x),
                arbitrary_argument(),
            ),
            decode_component_map(
                lookup(entries, "options"@),
                |x: JsonV| decode_cli_option(x),
                arbitrary_cli_option(),
            ),
            decode_component_map(
                lookup(entries, "commands"@),
                |x: JsonV| decode_command(x),
                arbitrary_command(),
            ),
        ) {
            (Option::Some(a), Option::Some(o), Option::Some(c)) => Option::Some(
                ComponentsV { arguments: a, options: o, commands: c },
            ),
            _ => Option::None,
        },
        _ => Option::None,
    }
}

/// How the [`OpenAutoCompletion`] metadata is read back.
pub open spec fn decode_oac(j: JsonV) -> Option<OpenAutoCompletionV> {
    match j {
        JsonV::Object(entries) => match decode_req_str(lookup(entries, "version"@)) {
            Option::Some(v) => Option::Some(OpenAutoCompletionV { version: v }),
            Option::None => Option::None,
        },
        _ => Option::None,
    }
}

/// A required array-of-patterns member.
pub open spec fn decode_patterns_field(field: Option<JsonV>) -> Option<Seq<PatternV>> {
    match field {
        Option::Some(JsonV::Array(a)) => if forall|i: int|
            0 <= i < a.len() ==> decode_pattern(#[trigger] a[i]) is Some {
            Option::Some(
                Seq::new(
                    a.len(),
                    |i: int|
                        if 0 <= i < a.len() {
                            decode_pattern(a[i])->Some_0
                        } else {
                            PatternV::Group {
                                exclusive: false,
                                patterns: Seq::empty(),
                                common: PatternCommonV { repeated: false, optional: false },
                            }
                        },
                ),
            )
        } else {
            Option::None
        },
        _ => Option::None,
    }
}

/// How the [`Cli`] usage description is read back, with the documented
/// defaults for absent separators and prefixes.
pub open spec fn decode_cli(j: JsonV) -> Option<CliV> {
    match j {
        JsonV::Object(entries) => match (
            decode_req_str(lookup(entries, "name"@)),
            decode_str_seq_default(lookup(entries, "option_separators_long"@), seq!["="@, " "@]),
            decode_str_seq_default(lookup(entries, "option_separators_short"@), seq![" "@, ""@]),
            decode_str_default(lookup(entries, "option_prefix_long"@), "--"@),
            decode_str_default(lookup(entries, "option_prefix_short"@), "-"@),
            decode_patterns_field(lookup(entries, "pattern_groups"@)),
        ) {
            (
                Option::Some(n),
                Option::Some(sl),
                Option::Some(ss),
                Option::Some(pl),
                Option::Some(ps),
                Option::Some(pg),
            ) => Option::Some(
                CliV {
                    name: n,
                    option_separators_long: sl,
                    option_separators_short: ss,
                    option_prefix_long: pl,
                    option_prefix_short: ps,
                    pattern_groups: pg,
                },
            ),
            _ => Option::None,
        },
        _ => Option::None,
    }
}

/// How a whole [`Document`] is read back; all three members are required.
pub open spec fn decode_document(j: JsonV) -> Option<DocumentV> {
    match j {
        JsonV::Object(entries) => match (
            match lookup(entries, "openautocompletion"@) {
                Option::Some(jo) => decode_oac(jo),
                Option::None => Option::None,
            },
            match lookup(entries, "components"@) {
                Option::Some(jc) => decode_components(jc),
                Option::None => Option::None,
            },
            match lookup(entries, "cli"@) {
                Option::Some(jc) => decode_cli(jc),
                Option::None => Option::None,
            },
        ) {
            (Option::Some(o), Option::Some(c), Option::Some(l)) => Option::Some(
                DocumentV { openautocompletion: o, components: c, cli: l },
            ),
            _ => Option::None,
        },
        _ => Option::None,
    }
}

/// A decoded required-string member.
fn req_str_field(entries: &Vec<(String, Json)>, key: &str) -> (r: Option<String>)
    ensures
        r.deep_view() == decode_req_str(lookup(entries.deep_view(), key@)),
{
    match obj_get(entries, key) {
        Option::Some(v) => match v {
            Json::Str(s) => Option::Some(s.clone()),
            _ => Option::None,
        },
        Option::None => Option::None,
    }
}

/// A decoded optional-string member.
fn opt_str_field(entries: &Vec<(String, Json)>, key: &str) -> (r: Option<Option<String>>)
    ensures
        r.deep_view() == decode_opt_str(lookup(entries.deep_view(), key@)),
{
    match obj_get(entries, key) {
        Option::None => Option::Some(Option::None),
        Option::Some(v) => match v {
            Json::Null => Option::Some(Option::None),
            Json::Str(s) => Option::Some(Option::Some(s.clone())),
            _ => Option::None,
        },
    }
}

/// A decoded boolean member that defaults to `false`.
fn bool_field_default(entries: &Vec<(String, Json)>, key: &str) -> (r: Option<bool>)
    ensures
        r == decode_bool_default(lookup(entries.deep_view(), key@)),
{
    match obj_get(entries, key) {
        Option::None => Option::Some(false),
        Option::Some(v) => match v {
            Json::Bool(b) => Option::Some(*b),
            _ => Option::None,
        },
    }
}

/// A decoded array of strings.
#[verifier::loop_isolation(false)]
fn str_array(j: &Json) -> (r: Option<Vec<String>>)
    ensures
        r.deep_view() == decode_str_seq(j@),
{
    match j {
        Json::Array(items) => {
            let mut out: Vec<String> = Vec::new();
            let mut i: usize = 0;
            while i < items.len()
                invariant
                    0 <= i <= items@.len(),
                    forall|k: int| 0 <= k < i ==> (#[trigger] json_view(items@[k])) is Str,
                    out@.len() == i,
                    forall|k: int|
                        0 <= k < i ==> (#[trigger] out@[k])@ == json_view(items@[k])->Str_0,
                decreases items@.len() - i,
            {
                match &items[i] {
                    Json::Str(s) => out.push(s.clone()),
                    _ => {
                        proof {
                            assert(!(json_view(items@[i as int]) is Str));
                            assert((j@)->Array_0[i as int] == json_view(items@[i as int]));
                            assert(!(forall|k: int|
                                0 <= k < (j@)->Array_0.len() ==> (#[trigger] (j@)->Array_0[k])
                                    is Str));
                        }
                        return Option::None;
                    },
                }
                i = i + 1;
            }
            proof {
                let a = (j@)->Array_0;
                assert(a.len() == items@.len());
                assert(forall|k: int| 0 <= k < a.len() ==> (#[trigger] a[k]) is Str) by {
                    assert(forall|k: int|
                        0 <= k < a.len() ==> a[k] == json_view(#[trigger] items@[k]));
                };
                assert(out.deep_view() =~= Seq::new(a.len(), |k: int| a[k]->Str_0));
            }
            Option::Some(out)
        },
        _ => Option::None,
    }
}

/// A decoded optional array-of-strings member.
fn opt_str_array_field(entries: &Vec<(String, Json)>, key: &str) -> (r: Option<
    Option<Vec<String>>,
>)
    ensures
        r.deep_view() == decode_opt_str_seq(lookup(entries.deep_view(), key@)),
{
    match obj_get(entries, key) {
        Option::None => Option::Some(Option::None),
        Option::Some(v) => match v {
            Json::Null => Option::Some(Option::None),
            other => match str_array(other) {
                Option::Some(ss) => Option::Some(Option::Some(ss)),
                Option::None => Option::None,
            },
        },
    }
}

/// An encoded optional string.
fn opt_str_to_json(o: &Option<String>) -> (r: Json)
    ensures
        r@ == encode_opt_str(o.deep_view()),
{
    match o {
        Option::None => Json::Null,
        Option::Some(s) => Json::Str(s.clone()),
    }
}

/// An encoded array of strings.
#[verifier::loop_isolation(false)]
fn str_vec_to_json(ss: &Vec<String>) -> (r: Json)
    ensures
        r@ == encode_str_seq(ss.deep_view()),
{
    let mut out: Vec<Json> = Vec::new();
    let mut i: usize = 0;
    while i < ss.len()
        invariant
            0 <= i <= ss@.len(),
            out@.len() == i,
            forall|k: int| 0 <= k < i ==> #[trigger] json_view(out@[k]) == JsonV::Str(ss@[k]@),
        decreases ss@.len() - i,
    {
        out.push(Json::Str(ss[i].clone()));
        i = i + 1;
    }
    let r = Json::Array(out);
    proof {
        assert forall|k: int| 0 <= k < out@.len() implies (r@)->Array_0[k] == json_view(
            out@[k],
        ) by {}
        assert((r@)->Array_0 =~= encode_str_seq(ss.deep_view())->Array_0);
    }
    r
}

impl Argument {
    /// Reads an argument definition back from its JSON form.
    pub fn from_json(j: &Json) -> (r: Option<Argument>)
        ensures
            r.deep_view() == decode_argument(j@),
    {
        match j {
            Json::Object(entries) => {
                proof {
                    assert(entries.deep_view() =~= (j@)->Object_0);
                }
                let name = req_str_field(entries, "name");
                let description = opt_str_field(entries, "description");
                match (name, description) {
                    (Option::Some(n), Option::Some(d)) => Option::Some(
                        Argument { name: n, description: d },
                    ),
                    _ => Option::None,
                }
            },
            _ => Option::None,
        }
    }

    /// Writes this argument definition in its JSON form.
    pub fn to_json(&self) -> (r: Json)
        ensures
            r@ == encode_argument(self@),
    {
        let mut entries: Vec<(String, Json)> = Vec::new();
        entries.push((String::from_str("name"), Json::Str(self.name.clone())));
        entries.push((String::from_str("description"), opt_str_to_json(&self.description)));
        let r = Json::Object(entries);
        proof {
            assert((r@)->Object_0[0] == (entries@[0].0@, json_view(entries@[0].1)));
            assert((r@)->Object_0[1] == (entries@[1].0@, json_view(entries@[1].1)));
            assert((r@)->Object_0 =~= encode_argument(self@)->Object_0);
        }
        r
    }
}

impl CliOption {
    /// Reads an option definition back from its JSON form.
    pub fn from_json(j: &Json) -> (r: Option<CliOption>)
        ensures
            r.deep_view() == decode_cli_option(j@),
    {
        match j {
            Json::Object(entries) => {
                proof {
                    assert(entries.deep_view() =~= (j@)->Object_0);
                }
                let names_short = opt_str_array_field(entries, "names_short");
                let names_long = opt_str_array_field(entries, "names_long");
                let description = opt_str_field(entries, "description");
                match (names_short, names_long, description) {
                    (Option::Some(ns), Option::Some(nl), Option::Some(d)) => Option::Some(
                        CliOption { names_short: ns, names_long: nl, description: d },
                    ),
                    _ => Option::None,
                }
            },
            _ => Option::None,
        }
    }

    /// Writes this option definition in its JSON form.
    pub fn to_json(&self) -> (r: Json)
        ensures
            r@ == encode_cli_option(self@),
    {
        let mut entries: Vec<(String, Json)> = Vec::new();
        let names_short = match &self.names_short {
            Option::None => Json::Null,
            Option::Some(ss) => str_vec_to_json(ss),
        };
        let names_long = match &self.names_long {
            Option::None => Json::Null,
            Option::Some(ss) => str_vec_to_json(ss),
        };
        entries.push((String::from_str("names_short"), names_short));
        entries.push((String::from_str("names_long"), names_long));
        entries.push((String::from_str("description"), opt_str_to_json(&self.description)));
        let r = Json::Object(entries);
        proof {
            assert((r@)->Object_0[0] == (entries@[0].0@, json_view(entries@[0].1)));
            assert((r@)->Object_0[1] == (entries@[1].0@, json_view(entries@[1].1)));
            assert((r@)->Object_0[2] == (entries@[2].0@, json_view(entries@[2].1)));
            assert((r@)->Object_0 =~= encode_cli_option(self@)->Object_0);
        }
        r
    }
}

impl Command {
    /// Reads a subcommand definition back from its JSON form.
    pub fn from_json(j: &Json) -> (r: Option<Command>)
        ensures
            r.deep_view() == decode_command(j@),
    {
        match j {
            Json::Object(entries) => {
                proof {
                    assert(entries.deep_view() =~= (j@)->Object_0);
                }
                let names = match obj_get(entries, "names") {
                    Option::Some(v) => str_array(v),
                    Option::None => Option::None,
                };
                let description = opt_str_field(entries, "description");
                match (names, description) {
                    (Option::Some(ns), Option::Some(d)) => Option::Some(
                        Command { names: ns, description: d },
                    ),
                    _ => Option::None,
                }
            },
            _ => Option::None,
        }
    }

    /// Writes this subcommand definition in its JSON form.
    pub fn to_json(&self) -> (r: Json)
        ensures
            r@ == encode_command(self@),
    {
        let mut entries: Vec<(String, Json)> = Vec::new();
        entries.push((String::from_str("names"), str_vec_to_json(&self.names)));
        entries.push((String::from_str("description"), opt_str_to_json(&self.description)));
        let r = Json::Object(entries);
        proof {
            assert((r@)->Object_0[0] == (entries@[0].0@, json_view(entries@[0].1)));
            assert((r@)->Object_0[1] == (entries@[1].0@, json_view(entries@[1].1)));
            assert((r@)->Object_0 =~= encode_command(self@)->Object_0);
        }
        r
    }
}

impl<T> Reference<T> {
    /// Reads a reference back from its JSON form, an object with a `$ref`
    /// member.
    pub fn from_json(j: &Json) -> (r: Option<Reference<T>>)
        ensures
            match r {
                Option::Some(v) => decode_reference(j@) == Option::Some(v@),
                Option::None => decode_reference(j@) is None,
            },
    {
        match j {
            Json::Object(entries) => {
                proof {
                    assert(entries.deep_view() =~= (j@)->Object_0);
                }
                match req_str_field(entries, "$ref") {
                    Option::Some(p) => Option::Some(
                        Reference { ref_path: p, phantom: core::marker::PhantomData },
                    ),
                    Option::None => Option::None,
                }
            },
            _ => Option::None,
        }
    }

    /// Writes this reference in its JSON form.
    pub fn to_json(&self) -> (r: Json)
        ensures
            r@ == encode_reference(self@),
    {
        let mut entries: Vec<(String, Json)> = Vec::new();
        entries.push((String::from_str("$ref"), Json::Str(self.ref_path.clone())));
        let r = Json::Object(entries);
        proof {
            assert((r@)->Object_0[0] == (entries@[0].0@, json_view(entries@[0].1)));
            assert((r@)->Object_0 =~= encode_reference(self@)->Object_0);
        }
        r
    }
}

/// The decoded common flags of a pattern object.
fn common_from_json(entries: &Vec<(String, Json)>) -> (r: Option<PatternCommon>)
    ensures
        r.deep_view() == decode_common(entries.deep_view()),
{
    let repeated = bool_field_default(entries, "repeated");
    let optional = bool_field_default(entries, "optional");
    match (repeated, optional) {
        (Option::Some(rp), Option::Some(op)) => Option::Some(
            PatternCommon { repeated: rp, optional: op },
        ),
        _ => Option::None,
    }
}

impl Pattern {
    /// Reads a pattern node back from its JSON form, dispatching on the
    /// `"type"` tag.
    #[verifier::loop_isolation(false)]
    #[verifier::rlimit(50)]
    pub fn from_json(j: &Json) -> (r: Option<Pattern>)
        ensures
            r.deep_view() == decode_pattern(j@),
        decreases *j,
    {
        match j {
            Json::Object(entries) => {
                proof {
                    assert(entries.deep_view() =~= (j@)->Object_0);
                }
                let ty = match obj_get(entries, "type") {
                    Option::Some(v) => match v {
                        Json::Str(s) => s.clone(),
                        _ => {
                            return Option::None;
                        },
                    },
                    Option::None => {
                        return Option::None;
                    },
                };
                if str_eq(ty.as_str(), "command") {
                    let reference = match obj_get(entries, "command") {
                        Option::Some(jc) => Reference::<Command>::from_json(jc),
                        Option::None => Option::None,
                    };
                    let common = common_from_json(entries);
                    match (reference, common) {
                        (Option::Some(c), Option::Some(cm)) => Option::Some(
                            Pattern::Command { command: c, common: cm },
                        ),
                        _ => Option::None,
                    }
                } else if str_eq(ty.as_str(), "argument") {
                    let reference = match obj_get(entries, "argument") {
                        Option::Some(ja) => Reference::<Argument>::from_json(ja),
                        Option::None => Option::None,
                    };
                    let common = common_from_json(entries);
                    match (reference, common) {
                        (Option::Some(a), Option::Some(cm)) => Option::Some(
                            Pattern::Argument { argument: a, common: cm },
                        ),
                        _ => Option::None,
                    }
                } else if str_eq(ty.as_str(), "option") {
                    let reference = match obj_get(entries, "option") {
                        Option::Some(jo) => Reference::<CliOption>::from_json(jo),
                        Option::None => Option::None,
                    };
                    let arg: Option<Option<Box<Pattern>>> = match obj_get(entries, "argument") {
                        Option::None => Option::Some(Option::None),
                        Option::Some(ja) => match ja {
                            Json::Null => Option::Some(Option::None),
                            _ => {
                                proof {
                                    let wi = choose|wi: int|
                                        0 <= wi < entries@.len() && entries@[wi].1 == *ja;
                                    assert(decreases_to!(*j => *entries));
                                    assert(decreases_to!(*entries => entries@));
                                    assert(decreases_to!(entries@ => entries@[wi]));
                                    assert(decreases_to!(entries@[wi] => entries@[wi].1));
                                }
                                match Pattern::from_json(ja) {
                                    Option::Some(p) => Option::Some(Option::Some(Box::new(p))),
                                    Option::None => Option::None,
                                }
                            },
                        },
                    };
                    let common = common_from_json(entries);
                    match (reference, arg, common) {
                        (Option::Some(o), Option::Some(a), Option::Some(cm)) => Option::Some(
                            Pattern::Option { option: o, argument: a, common: cm },
                        ),
                        _ => Option::None,
                    }
                } else if str_eq(ty.as_str(), "group") {
                    let exclusive = bool_field_default(entries, "exclusive");
                    let pats: Option<Vec<Pattern>> = match obj_get(entries, "patterns") {
                        Option::Some(v) => match v {
                            Json::Array(items) => {
                                proof {
                                    let wi = choose|wi: int|
                                        0 <= wi < entries@.len() && entries@[wi].1 == *v;
                                    assert(decreases_to!(*j => *entries));
                                    assert(decreases_to!(*entries => entries@));
                                    assert(decreases_to!(entries@ => entries@[wi]));
                                    assert(decreases_to!(entries@[wi] => entries@[wi].1));
                                    assert(decreases_to!(*v => *items));
                                    assert(decreases_to!(*items => items@));
                                }
                                let ghost a = (v@)->Array_0;
                                proof {
                                    assert(a.len() == items@.len());
                                }
                                let mut out: Vec<Pattern> = Vec::new();
                                let mut i: usize = 0;
                                while i < items.len()
                                    invariant
                                        0 <= i <= items@.len(),
                                        out@.len() == i,
                                        forall|k: int|
                                            0 <= k < i ==> decode_pattern(
                                                #[trigger] json_view(items@[k]),
                                            ) == Option::Some(pattern_view(out@[k])),
                                    decreases items@.len() - i,
                                {
                                    proof {
                                        assert(decreases_to!(items@ => items@[i as int]));
                                    }
                                    match Pattern::from_json(&items[i]) {
                                        Option::Some(p) => out.push(p),
                                        Option::None => {
                                            proof {
                                                assert(a[i as int] == json_view(
                                                    items@[i as int],
                                                ));
                                                assert(!(forall|k: int|
                                                    0 <= k < a.len() ==> decode_pattern(
                                                        #[trigger] a[k],
                                                    ) is Some));
                                            }
                                            return Option::None;
                                        },
                                    }
                                    i = i + 1;
                                }
                                proof {
                                    assert(forall|k: int|
                                        0 <= k < a.len() ==> a[k] == json_view(
                                            #[trigger] items@[k],
                                        ));
                                    assert(forall|k: int|
                                        0 <= k < a.len() ==> decode_pattern(#[trigger] a[k])
                                            is Some);
                                    assert(out.deep_view() =~= Seq::new(
                                        a.len(),
                                        |k: int|
                                            if 0 <= k < a.len() {
                                                decode_pattern(a[k])->Some_0
                                            } else {
                                                PatternV::Group {
                                                    exclusive: false,
                                                    patterns: Seq::empty(),
                                                    common: PatternCommonV {
                                                        repeated: false,
                                                        optional: false,
                                                    },
                                                }
                                            },
                                    ));
                                }
                                Option::Some(out)
                            },
                            _ => Option::None,
                        },
                        Option::None => Option::None,
                    };
                    let common = common_from_json(entries);
                    match (exclusive, pats, common) {
                        (Option::Some(x), Option::Some(ps), Option::Some(cm)) => {
                            let res = Pattern::Group { exclusive: x, patterns: ps, common: cm };
                            proof {
                                let rp = res.deep_view()->Group_patterns;
                                let dp = decode_pattern(j@)->Some_0->Group_patterns;
                                assert(forall|k: int|
                                    0 <= k < rp.len() ==> #[trigger] rp[k] == pattern_view(
                                        ps@[k],
                                    ));
                                assert(forall|k: int|
                                    0 <= k < ps@.len() ==> ps.deep_view()[k] == pattern_view(
                                        #[trigger] ps@[k],
                                    ));
                                assert(rp =~= ps.deep_view());
                                assert(dp == ps.deep_view());
                                assert(res.deep_view() =~~= decode_pattern(j@)->Some_0);
                            }
                            Option::Some(res)
                        },
                        _ => Option::None,
                    }
                } else {
                    Option::None
                }
            },
            _ => Option::None,
        }
    }

    /// Writes this pattern node in its JSON form.
    #[verifier::loop_isolation(false)]
    #[verifier::rlimit(50)]
    pub fn to_json(&self) -> (r: Json)
        ensures
            r@ == encode_pattern(self@),
        decreases *self,
    {
        match self {
            Pattern::Command { command, common } => {
                let mut entries: Vec<(String, Json)> = Vec::new();
                entries.push((String::from_str("type"), Json::Str(String::from_str("command"))));
                entries.push((String::from_str("command"), command.to_json()));
                entries.push((String::from_str("repeated"), Json::Bool(common.repeated)));
                entries.push((String::from_str("optional"), Json::Bool(common.optional)));
                let r = Json::Object(entries);
                proof {
                    assert((r@)->Object_0[0] == (entries@[0].0@, json_view(entries@[0].1)));
                    assert((r@)->Object_0[1] == (entries@[1].0@, json_view(entries@[1].1)));
                    assert((r@)->Object_0[2] == (entries@[2].0@, json_view(entries@[2].1)));
                    assert((r@)->Object_0[3] == (entries@[3].0@, json_view(entries@[3].1)));
                    assert((r@)->Object_0 =~= encode_pattern(self@)->Object_0);
                }
                r
            },
            Pattern::Argument { argument, common } => {
                let mut entries: Vec<(String, Json)> = Vec::new();
                entries.push((String::from_str("type"), Json::Str(String::from_str("argument"))));
                entries.push((String::from_str("argument"), argument.to_json()));
                entries.push((String::from_str("repeated"), Json::Bool(common.repeated)));
                entries.push((String::from_str("optional"), Json::Bool(common.optional)));
                let r = Json::Object(entries);
                proof {
                    assert((r@)->Object_0[0] == (entries@[0].0@, json_view(entries@[0].1)));
                    assert((r@)->Object_0[1] == (entries@[1].0@, json_view(entries@[1].1)));
                    assert((r@)->Object_0[2] == (entries@[2].0@, json_view(entries@[2].1)));
                    assert((r@)->Object_0[3] == (entries@[3].0@, json_view(entries@[3].1)));
                    assert((r@)->Object_0 =~= encode_pattern(self@)->Object_0);
                }
                r
            },
            Pattern::Option { option, argument, common } => {
                let arg_json = match argument {
                    Option::None => Json::Null,
                    Option::Some(b) => {
                        proof {
                            assert(decreases_to!(*self => **b));
                        }
                        (&**b).to_json()
                    },
                };
                let mut entries: Vec<(String, Json)> = Vec::new();
                entries.push((String::from_str("type"), Json::Str(String::from_str("option"))));
                entries.push((String::from_str("option"), option.to_json()));
                entries.push((String::from_str("argument"), arg_json));
                entries.push((String::from_str("repeated"), Json::Bool(common.repeated)));
                entries.push((String::from_str("optional"), Json::Bool(common.optional)));
                let r = Json::Object(entries);
                proof {
                    assert((r@)->Object_0[0] == (entries@[0].0@, json_view(entries@[0].1)));
                    assert((r@)->Object_0[1] == (entries@[1].0@, json_view(entries@[1].1)));
                    assert((r@)->Object_0[2] == (entries@[2].0@, json_view(entries@[2].1)));
                    assert((r@)->Object_0[3] == (entries@[3].0@, json_view(entries@[3].1)));
                    assert((r@)->Object_0[4] == (entries@[4].0@, json_view(entries@[4].1)));
                    assert((r@)->Object_0 =~= encode_pattern(self@)->Object_0);
                }
                r
            },
            Pattern::Group { exclusive, patterns, common } => {
                let mut items: Vec<Json> = Vec::new();
                let mut i: usize = 0;
                while i < patterns.len()
                    invariant
                        0 <= i <= patterns@.len(),
                        items@.len() == i,
                        forall|k: int|
                            0 <= k < i ==> json_view(#[trigger] items@[k]) == encode_pattern(
                                pattern_view(patterns@[k]),
                            ),
                    decreases patterns@.len() - i,
                {
                    proof {
                        assert(decreases_to!(*self => *patterns));
                        assert(decreases_to!(*patterns => patterns@));
                        assert(decreases_to!(patterns@ => patterns@[i as int]));
                    }
                    items.push(patterns[i].to_json());
                    i = i + 1;
                }
                let mut entries: Vec<(String, Json)> = Vec::new();
                entries.push((String::from_str("type"), Json::Str(String::from_str("group"))));
                entries.push((String::from_str("exclusive"), Json::Bool(*exclusive)));
                entries.push((String::from_str("patterns"), Json::Array(items)));
                entries.push((String::from_str("repeated"), Json::Bool(common.repeated)));
                entries.push((String::from_str("optional"), Json::Bool(common.optional)));
                let r = Json::Object(entries);
                proof {
                    let pv = self@->Group_patterns;
                    assert(forall|k: int| 0 <= k < pv.len() ==> #[trigger] pv[k] == pattern_view(
                        patterns@[k],
                    ));
                    assert(entries@[2].1 is Array);
                    let larr = json_view(entries@[2].1)->Array_0;
                    let rarr = encode_pattern(self@)->Object_0[2].1->Array_0;
                    assert(larr.len() == items@.len());
                    assert(rarr.len() == pv.len());
                    assert(forall|k: int| 0 <= k < larr.len() ==> #[trigger] larr[k] == json_view(
                        items@[k],
                    ));
                    assert(forall|k: int| 0 <= k < rarr.len() ==> #[trigger] rarr[k]
                        == encode_pattern(pv[k]));
                    assert(larr =~= rarr);
                    assert(json_view(entries@[2].1) =~~= encode_pattern(self@)->Object_0[2].1);
                    assert((r@)->Object_0[0] == (entries@[0].0@, json_view(entries@[0].1)));
                    assert((r@)->Object_0[1] == (entries@[1].0@, json_view(entries@[1].1)));
                    assert((r@)->Object_0[2] == (entries@[2].0@, json_view(entries@[2].1)));
                    assert((r@)->Object_0[3] == (entries@[3].0@, json_view(entries@[3].1)));
                    assert((r@)->Object_0[4] == (entries@[4].0@, json_view(entries@[4].1)));
                    assert((r@)->Object_0 =~= encode_pattern(self@)->Object_0);
                }
                r
            },
        }
    }
}

/// The decoded `arguments` mapping of the registry.
#[verifier::loop_isolation(false)]
fn argument_map_field(entries: &Vec<(String, Json)>, key: &str) -> (r: Option<
    Option<Vec<(String, Argument)>>,
>)
    ensures
        r.deep_view() == decode_component_map(
            lookup(entries.deep_view(), key@),
            (|x: JsonV| decode_argument(x)),
            arbitrary_argument(),
        ),
{
    match obj_get(entries, key) {
        Option::None => Option::Some(Option::None),
        Option::Some(v) => match v {
            Json::Null => Option::Some(Option::None),
            Json::Object(ents) => {
                proof {
                    assert(ents.deep_view() =~= (v@)->Object_0);
                }
                let ghost ev = (v@)->Object_0;
                let mut out: Vec<(String, Argument)> = Vec::new();
                let mut i: usize = 0;
                while i < ents.len()
                    invariant
                        0 <= i <= ents@.len(),
                        out@.len() == i,
                        forall|k: int|
                            0 <= k < i ==> decode_argument(
                                #[trigger] json_view(ents@[k].1),
                            ) == Option::Some(out@[k].1.deep_view()),
                        forall|k: int| 0 <= k < i ==> (#[trigger] out@[k].0)@ == ents@[k].0@,
                    decreases ents@.len() - i,
                {
                    match Argument::from_json(&ents[i].1) {
                        Option::Some(a) => out.push((ents[i].0.clone(), a)),
                        Option::None => {
                            proof {
                                assert(ev[i as int].1 == json_view(ents@[i as int].1));
                                assert(!(forall|k: int|
                                    0 <= k < ev.len() ==> (|x: JsonV| decode_argument(x))(
                                        #[trigger] ev[k].1,
                                    ) is Some));
                            }
                            return Option::None;
                        },
                    }
                    i = i + 1;
                }
                proof {
                    assert(forall|k: int|
                        0 <= k < ev.len() ==> ev[k] == (ents@[k].0@, json_view(
                            #[trigger] ents@[k].1,
                        )));
                    assert(forall|k: int|
                        0 <= k < ev.len() ==> (|x: JsonV| decode_argument(x))(#[trigger] ev[k].1)
                            is Some);
                    assert(forall|k: int|
                        0 <= k < out@.len() ==> #[trigger] out.deep_view()[k] == (
                            out@[k].0@,
                            out@[k].1.deep_view(),
                        ));
                    assert(out.deep_view() =~= Seq::new(
                        ev.len(),
                        |k: int|
                            if 0 <= k < ev.len() {
                                (ev[k].0, (|x: JsonV| decode_argument(x))(ev[k].1)->Some_0)
                            } else {
                                (Seq::<char>::empty(), arbitrary_argument())
                            },
                    ));
                }
                Option::Some(Option::Some(out))
            },
            _ => Option::None,
        },
    }
}

/// The decoded `options` mapping of the registry.
#[verifier::loop_isolation(false)]
fn option_map_field(entries: &Vec<(String, Json)>, key: &str) -> (r: Option<
    Option<Vec<(String, CliOption)>>,
>)
    ensures
        r.deep_view() == decode_component_map(
            lookup(entries.deep_view(), key@),
            (|x: JsonV| decode_cli_option(x)),
            arbitrary_cli_option(),
        ),
{
    match obj_get(entries, key) {
        Option::None => Option::Some(Option::None),
        Option::Some(v) => match v {
            Json::Null => Option::Some(Option::None),
            Json::Object(ents) => {
                proof {
                    assert(ents.deep_view() =~= (v@)->Object_0);
                }
                let ghost ev = (v@)->Object_0;
                let mut out: Vec<(String, CliOption)> = Vec::new();
                let mut i: usize = 0;
                while i < ents.len()
                    invariant
                        0 <= i <= ents@.len(),
                        out@.len() == i,
                        forall|k: int|
                            0 <= k < i ==> decode_cli_option(
                                #[trigger] json_view(ents@[k].1),
                            ) == Option::Some(out@[k].1.deep_view()),
                        forall|k: int| 0 <= k < i ==> (#[trigger] out@[k].0)@ == ents@[k].0@,
                    decreases ents@.len() - i,
                {
                    match CliOption::from_json(&ents[i].1) {
                        Option::Some(a) => out.push((ents[i].0.clone(), a)),
                        Option::None => {
                            proof {
                                assert(ev[i as int].1 == json_view(ents@[i as int].1));
                                assert(!(forall|k: int|
                                    0 <= k < ev.len() ==> (|x: JsonV| decode_cli_option(x))(
                                        #[trigger] ev[k].1,
                                    ) is Some));
                            }
                            return Option::None;
                        },
                    }
                    i = i + 1;
                }
                proof {
                    assert(forall|k: int|
                        0 <= k < ev.len() ==> ev[k] == (ents@[k].0@, json_view(
                            #[trigger] ents@[k].1,
                        )));
                    assert(forall|k: int|
                        0 <= k < ev.len() ==> (|x: JsonV| decode_cli_option(x))(
                            #[trigger] ev[k].1,
                        ) is Some);
                    assert(forall|k: int|
                        0 <= k < out@.len() ==> #[trigger] out.deep_view()[k] == (
                            out@[k].0@,
                            out@[k].1.deep_view(),
                        ));
                    assert(out.deep_view() =~= Seq::new(
                        ev.len(),
                        |k: int|
                            if 0 <= k < ev.len() {
                                (ev[k].0, (|x: JsonV| decode_cli_option(x))(ev[k].1)->Some_0)
                            } else {
                                (Seq::<char>::empty(), arbitrary_cli_option())
                            },
                    ));
                }
                Option::Some(Option::Some(out))
            },
            _ => Option::None,
        },
    }
}

/// The decoded `commands` mapping of the registry.
#[verifier::loop_isolation(false)]
fn command_map_field(entries: &Vec<(String, Json)>, key: &str) -> (r: Option<
    Option<Vec<(String, Command)>>,
>)
    ensures
        r.deep_view() == decode_component_map(
            lookup(entries.deep_view(), key@),
            (|x: JsonV| decode_command(x)),
            arbitrary_command(),
        ),
{
    match obj_get(entries, key) {
        Option::None => Option::Some(Option::None),
        Option::Some(v) => match v {
            Json::Null => Option::Some(Option::None),
            Json::Object(ents) => {
                proof {
                    assert(ents.deep_view() =~= (v@)->Object_0);
                }
                let ghost ev = (v@)->Object_0;
                let mut out: Vec<(String, Command)> = Vec::new();
                let mut i: usize = 0;
                while i < ents.len()
                    invariant
                        0 <= i <= ents@.len(),
                        out@.len() == i,
                        forall|k: int|
                            0 <= k < i ==> decode_command(
                                #[trigger] json_view(ents@[k].1),
                            ) == Option::Some(out@[k].1.deep_view()),
                        forall|k: int| 0 <= k < i ==> (#[trigger] out@[k].0)@ == ents@[k].0@,
                    decreases ents@.len() - i,
                {
                    match Command::from_json(&ents[i].1) {
                        Option::Some(a) => out.push((ents[i].0.clone(), a)),
                        Option::None => {
                            proof {
                                assert(ev[i as int].1 == json_view(ents@[i as int].1));
                                assert(!(forall|k: int|
                                    0 <= k < ev.len() ==> (|x: JsonV| decode_command(x))(
                                        #[trigger] ev[k].1,
                                    ) is Some));
                            }
                            return Option::None;
                        },
                    }
                    i = i + 1;
                }
                proof {
                    assert(forall|k: int|
                        0 <= k < ev.len() ==> ev[k] == (ents@[k].0@, json_view(
                            #[trigger] ents@[k].1,
                        )));
                    assert(forall|k: int|
                        0 <= k < ev.len() ==> (|x: JsonV| decode_command(x))(#[trigger] ev[k].1)
                            is Some);
                    assert(forall|k: int|
                        0 <= k < out@.len() ==> #[trigger] out.deep_view()[k] == (
                            out@[k].0@,
                            out@[k].1.deep_view(),
                        ));
                    assert(out.deep_view() =~= Seq::new(
                        ev.len(),
                        |k: int|
                            if 0 <= k < ev.len() {
                                (ev[k].0, (|x: JsonV| decode_command(x))(ev[k].1)->Some_0)
                            } else {
                                (Seq::<char>::empty(), arbitrary_command())
                            },
                    ));
                }
                Option::Some(Option::Some(out))
            },
            _ => Option::None,
        },
    }
}

/// An encoded `arguments` mapping.
#[verifier::loop_isolation(false)]
#[verifier::spinoff_prover]
#[verifier::rlimit(50)]
fn argument_map_to_json(m: &Option<Vec<(String, Argument)>>) -> (r: Json)
    ensures
        r@ == encode_component_map(m.deep_view(), (|a: ArgumentV| encode_argument(a))),
{
    match m {
        Option::None => Json::Null,
        Option::Some(entries) => {
            let mut out: Vec<(String, Json)> = Vec::new();
            let mut i: usize = 0;
            while i < entries.len()
                invariant
                    0 <= i <= entries@.len(),
                    out@.len() == i,
                    forall|k: int|
                        0 <= k < i ==> #[trigger] json_view(out@[k].1) == encode_argument(
                            entries@[k].1.deep_view(),
                        ),
                    forall|k: int| 0 <= k < i ==> (#[trigger] out@[k].0)@ == entries@[k].0@,
                decreases entries@.len() - i,
            {
                let key = entries[i].0.clone();
                let val = entries[i].1.to_json();
                out.push((key, val));
                proof {
                    assert(out@[i as int].1 == val);
                }
                i = i + 1;
            }
            let r = Json::Object(out);
            proof {
                let mv = m.deep_view()->Some_0;
                assert(forall|k: int|
                    0 <= k < out@.len() ==> #[trigger] (r@)->Object_0[k] == (
                        out@[k].0@,
                        json_view(out@[k].1),
                    ));
                assert(forall|k: int|
                    0 <= k < mv.len() ==> #[trigger] mv[k] == (
                        entries@[k].0@,
                        entries@[k].1.deep_view(),
                    ));
                assert((r@)->Object_0 =~= Seq::new(
                    mv.len(),
                    |k: int| (mv[k].0, (|a: ArgumentV| encode_argument(a))(mv[k].1)),
                ));
            }
            r
        },
    }
}

/// An encoded `options` mapping.
#[verifier::loop_isolation(false)]
#[verifier::spinoff_prover]
#[verifier::rlimit(50)]
fn option_map_to_json(m: &Option<Vec<(String, CliOption)>>) -> (r: Json)
    ensures
        r@ == encode_component_map(m.deep_view(), (|o: CliOptionV| encode_cli_option(o))),
{
    match m {
        Option::None => Json::Null,
        Option::Some(entries) => {
            let mut out: Vec<(String, Json)> = Vec::new();
            let mut i: usize = 0;
            while i < entries.len()
                invariant
                    0 <= i <= entries@.len(),
                    out@.len() == i,
                    forall|k: int|
                        0 <= k < i ==> #[trigger] json_view(out@[k].1) == encode_cli_option(
                            entries@[k].1.deep_view(),
                        ),
                    forall|k: int| 0 <= k < i ==> (#[trigger] out@[k].0)@ == entries@[k].0@,
                decreases entries@.len() - i,
            {
                let key = entries[i].0.clone();
                let val = entries[i].1.to_json();
                out.push((key, val));
                proof {
                    assert(out@[i as int].1 == val);
                }
                i = i + 1;
            }
            let r = Json::Object(out);
            proof {
                let mv = m.deep_view()->Some_0;
                assert(forall|k: int|
                    0 <= k < out@.len() ==> #[trigger] (r@)->Object_0[k] == (
                        out@[k].0@,
                        json_view(out@[k].1),
                    ));
                assert(forall|k: int|
                    0 <= k < mv.len() ==> #[trigger] mv[k] == (
                        entries@[k].0@,
                        entries@[k].1.deep_view(),
                    ));
                assert((r@)->Object_0 =~= Seq::new(
                    mv.len(),
                    |k: int| (mv[k].0, (|o: CliOptionV| encode_cli_option(o))(mv[k].1)),
                ));
            }
            r
        },
    }
}

/// An encoded `commands` mapping.
#[verifier::loop_isolation(false)]
#[verifier::spinoff_prover]
#[verifier::rlimit(50)]
fn command_map_to_json(m: &Option<Vec<(String, Command)>>) -> (r: Json)
    ensures
        r@ == encode_component_map(m.deep_view(), (|c: CommandV| encode_command(c))),
{
    match m {
        Option::None => Json::Null,
        Option::Some(entries) => {
            let mut out: Vec<(String, Json)> = Vec::new();
            let mut i: usize = 0;
            while i < entries.len()
                invariant
                    0 <= i <= entries@.len(),
                    out@.len() == i,
                    forall|k: int|
                        0 <= k < i ==> #[trigger] json_view(out@[k].1) == encode_command(
                            entries@[k].1.deep_view(),
                        ),
                    forall|k: int| 0 <= k < i ==> (#[trigger] out@[k].0)@ == entries@[k].0@,
                decreases entries@.len() - i,
            {
                let key = entries[i].0.clone();
                let val = entries[i].1.to_json();
                out.push((key, val));
                proof {
                    assert(out@[i as int].1 == val);
                }
                i = i + 1;
            }
            let r = Json::Object(out);
            proof {
                let mv = m.deep_view()->Some_0;
                assert(forall|k: int|
                    0 <= k < out@.len() ==> #[trigger] (r@)->Object_0[k] == (
                        out@[k].0@,
                        json_view(out@[k].1),
                    ));
                assert(forall|k: int|
                    0 <= k < mv.len() ==> #[trigger] mv[k] == (
                        entries@[k].0@,
                        entries@[k].1.deep_view(),
                    ));
                assert((r@)->Object_0 =~= Seq::new(
                    mv.len(),
                    |k: int| (mv[k].0, (|c: CommandV| encode_command(c))(mv[k].1)),
                ));
            }
            r
        },
    }
}

impl Components {
    /// Reads the component registry back from its JSON form.
    pub fn from_json(j: &Json) -> (r: Option<Components>)
        ensures
            r.deep_view() == decode_components(j@),
    {
        match j {
            Json::Object(entries) => {
                proof {
                    assert(entries.deep_view() =~= (j@)->Object_0);
                }
                let arguments = argument_map_field(entries, "arguments");
                let options = option_map_field(entries, "options");
                let commands = command_map_field(entries, "commands");
                match (arguments, options, commands) {
                    (Option::Some(a), Option::Some(o), Option::Some(c)) => Option::Some(
                        Components { arguments: a, options: o, commands: c },
                    ),
                    _ => Option::None,
                }
            },
            _ => Option::None,
        }
    }

    /// Writes the component registry in its JSON form.
    pub fn to_json(&self) -> (r: Json)
        ensures
            r@ == encode_components(self@),
    {
        let mut entries: Vec<(String, Json)> = Vec::new();
        entries.push((String::from_str("arguments"), argument_map_to_json(&self.arguments)));
        entries.push((String::from_str("options"), option_map_to_json(&self.options)));
        entries.push((String::from_str("commands"), command_map_to_json(&self.commands)));
        let r = Json::Object(entries);
        proof {
            assert((r@)->Object_0[0] == (entries@[0].0@, json_view(entries@[0].1)));
            assert((r@)->Object_0[1] == (entries@[1].0@, json_view(entries@[1].1)));
            assert((r@)->Object_0[2] == (entries@[2].0@, json_view(entries@[2].1)));
            assert((r@)->Object_0 =~= encode_components(self@)->Object_0);
        }
        r
    }
}

impl OpenAutoCompletion {
    /// Reads the version metadata back from its JSON form.
    pub fn from_json(j: &Json) -> (r: Option<OpenAutoCompletion>)
        ensures
            r.deep_view() == decode_oac(j@),
    {
        match j {
            Json::Object(entries) => {
                proof {
                    assert(entries.deep_view() =~= (j@)->Object_0);
                }
                match req_str_field(entries, "version") {
                    Option::Some(v) => Option::Some(OpenAutoCompletion { version: v }),
                    Option::None => Option::None,
                }
            },
            _ => Option::None,
        }
    }

    /// Writes the version metadata in its JSON form.
    pub fn to_json(&self) -> (r: Json)
        ensures
            r@ == encode_oac(self@),
    {
        let mut entries: Vec<(String, Json)> = Vec::new();
        entries.push((String::from_str("version"), Json::Str(self.version.clone())));
        let r = Json::Object(entries);
        proof {
            assert((r@)->Object_0[0] == (entries@[0].0@, json_view(entries@[0].1)));
            assert((r@)->Object_0 =~= encode_oac(self@)->Object_0);
        }
        r
    }
}

/// The decoded `pattern_groups` member.
#[verifier::loop_isolation(false)]
fn patterns_field(entries: &Vec<(String, Json)>, key: &str) -> (r: Option<Vec<Pattern>>)
    ensures
        r.deep_view() == decode_patterns_field(lookup(entries.deep_view(), key@)),
{
    match obj_get(entries, key) {
        Option::Some(v) => match v {
            Json::Array(items) => {
                let ghost a = (v@)->Array_0;
                let mut out: Vec<Pattern> = Vec::new();
                let mut i: usize = 0;
                while i < items.len()
                    invariant
                        0 <= i <= items@.len(),
                        out@.len() == i,
                        forall|k: int|
                            0 <= k < i ==> decode_pattern(
                                #[trigger] json_view(items@[k]),
                            ) == Option::Some(pattern_view(out@[k])),
                    decreases items@.len() - i,
                {
                    match Pattern::from_json(&items[i]) {
                        Option::Some(p) => out.push(p),
                        Option::None => {
                            proof {
                                assert(a[i as int] == json_view(items@[i as int]));
                                assert(!(forall|k: int|
                                    0 <= k < a.len() ==> decode_pattern(#[trigger] a[k])
                                        is Some));
                            }
                            return Option::None;
                        },
                    }
                    i = i + 1;
                }
                proof {
                    assert(forall|k: int|
                        0 <= k < a.len() ==> a[k] == json_view(#[trigger] items@[k]));
                    assert(forall|k: int|
                        0 <= k < a.len() ==> decode_pattern(#[trigger] a[k]) is Some);
                    assert(out.deep_view() =~= Seq::new(
                        a.len(),
                        |k: int|
                            if 0 <= k < a.len() {
                                decode_pattern(a[k])->Some_0
                            } else {
                                PatternV::Group {
                                    exclusive: false,
                                    patterns: Seq::empty(),
                                    common: PatternCommonV { repeated: false, optional: false },
                                }
                            },
                    ));
                }
                Option::Some(out)
            },
            _ => Option::None,
        },
        Option::None => Option::None,
    }
}

/// An encoded list of patterns.
#[verifier::loop_isolation(false)]
fn patterns_to_json(ps: &Vec<Pattern>) -> (r: Json)
    ensures
        r@ == (JsonV::Array(
            Seq::new(
                ps.deep_view().len(),
                |i: int|
                    if 0 <= i < ps.deep_view().len() {
                        encode_pattern(ps.deep_view()[i])
                    } else {
                        JsonV::Null
                    },
            ),
        )),
{
    let mut items: Vec<Json> = Vec::new();
    let mut i: usize = 0;
    while i < ps.len()
        invariant
            0 <= i <= ps@.len(),
            items@.len() == i,
            forall|k: int|
                0 <= k < i ==> json_view(#[trigger] items@[k]) == encode_pattern(
                    pattern_view(ps@[k]),
                ),
        decreases ps@.len() - i,
    {
        items.push(ps[i].to_json());
        i = i + 1;
    }
    let r = Json::Array(items);
    proof {
        assert(forall|k: int|
            0 <= k < ps@.len() ==> #[trigger] ps.deep_view()[k] == pattern_view(ps@[k]));
        assert((r@)->Array_0 =~= Seq::new(
            ps.deep_view().len(),
            |i: int|
                if 0 <= i < ps.deep_view().len() {
                    encode_pattern(ps.deep_view()[i])
                } else {
                    JsonV::Null
                },
        ));
    }
    r
}

impl Cli {
    /// Reads the usage description back from its JSON form, filling in the
    /// documented defaults for absent separators and prefixes.
    pub fn from_json(j: &Json) -> (r: Option<Cli>)
        ensures
            r.deep_view() == decode_cli(j@),
    {
        match j {
            Json::Object(entries) => {
                proof {
                    assert(entries.deep_view() =~= (j@)->Object_0);
                }
                let name = req_str_field(entries, "name");
                let seps_long = match obj_get(entries, "option_separators_long") {
                    Option::None => Option::Some(
                        crate::model::default_option_separators_long(),
                    ),
                    Option::Some(v) => str_array(v),
                };
                let seps_short = match obj_get(entries, "option_separators_short") {
                    Option::None => Option::Some(
                        crate::model::default_option_separators_short(),
                    ),
                    Option::Some(v) => str_array(v),
                };
                let prefix_long = match obj_get(entries, "option_prefix_long") {
                    Option::None => Option::Some(crate::model::default_option_prefix_long()),
                    Option::Some(v) => match v {
                        Json::Str(s) => Option::Some(s.clone()),
                        _ => Option::None,
                    },
                };
                let prefix_short = match obj_get(entries, "option_prefix_short") {
                    Option::None => Option::Some(crate::model::default_option_prefix_short()),
                    Option::Some(v) => match v {
                        Json::Str(s) => Option::Some(s.clone()),
                        _ => Option::None,
                    },
                };
                let groups = patterns_field(entries, "pattern_groups");
                match (name, seps_long, seps_short, prefix_long, prefix_short, groups) {
                    (
                        Option::Some(n),
                        Option::Some(sl),
                        Option::Some(ss),
                        Option::Some(pl),
                        Option::Some(pf),
                        Option::Some(pg),
                    ) => Option::Some(
                        Cli {
                            name: n,
                            option_separators_long: sl,
                            option_separators_short: ss,
                            option_prefix_long: pl,
                            option_prefix_short: pf,
                            pattern_groups: pg,
                        },
                    ),
                    _ => Option::None,
                }
            },
            _ => Option::None,
        }
    }

    /// Writes the usage description in its JSON form.
    pub fn to_json(&self) -> (r: Json)
        ensures
            r@ == encode_cli(self@),
    {
        let mut entries: Vec<(String, Json)> = Vec::new();
        entries.push((String::from_str("name"), Json::Str(self.name.clone())));
        entries.push(
            (
                String::from_str("option_separators_long"),
                str_vec_to_json(&self.option_separators_long),
            ),
        );
        entries.push(
            (
                String::from_str("option_separators_short"),
                str_vec_to_json(&self.option_separators_short),
            ),
        );
        entries.push(
            (String::from_str("option_prefix_long"), Json::Str(self.option_prefix_long.clone())),
        );
        entries.push(
            (String::from_str("option_prefix_short"), Json::Str(self.option_prefix_short.clone())),
        );
        entries.push((String::from_str("pattern_groups"), patterns_to_json(&self.pattern_groups)));
        let r = Json::Object(entries);
        proof {
            assert((r@)->Object_0[0] == (entries@[0].0@, json_view(entries@[0].1)));
            assert((r@)->Object_0[1] == (entries@[1].0@, json_view(entries@[1].1)));
            assert((r@)->Object_0[2] == (entries@[2].0@, json_view(entries@[2].1)));
            assert((r@)->Object_0[3] == (entries@[3].0@, json_view(entries@[3].1)));
            assert((r@)->Object_0[4] == (entries@[4].0@, json_view(entries@[4].1)));
            assert((r@)->Object_0[5] == (entries@[5].0@, json_view(entries@[5].1)));
            assert((r@)->Object_0 =~= encode_cli(self@)->Object_0);
        }
        r
    }
}

impl Document {
    /// Reads a whole document back from its JSON form.
    pub fn from_json(j: &Json) -> (r: Option<Document>)
        ensures
            r.deep_view() == decode_document(j@),
    {
        match j {
            Json::Object(entries) => {
                proof {
                    assert(entries.deep_view() =~= (j@)->Object_0);
                }
                let oac = match obj_get(entries, "openautocompletion") {
                    Option::Some(v) => OpenAutoCompletion::from_json(v),
                    Option::None => Option::None,
                };
                let components = match obj_get(entries, "components") {
                    Option::Some(v) => Components::from_json(v),
                    Option::None => Option::None,
                };
                let cli = match obj_get(entries, "cli") {
                    Option::Some(v) => Cli::from_json(v),
                    Option::None => Option::None,
                };
                match (oac, components, cli) {
                    (Option::Some(o), Option::Some(c), Option::Some(l)) => Option::Some(
                        Document { openautocompletion: o, components: c, cli: l },
                    ),
                    _ => Option::None,
                }
            },
            _ => Option::None,
        }
    }

    /// Writes this document in its JSON form.
    pub fn to_json(&self) -> (r: Json)
        ensures
            r@ == encode_document(self@),
    {
        let mut entries: Vec<(String, Json)> = Vec::new();
        entries.push(
            (String::from_str("openautocompletion"), self.openautocompletion.to_json()),
        );
        entries.push((String::from_str("components"), self.components.to_json()));
        entries.push((String::from_str("cli"), self.cli.to_json()));
        let r = Json::Object(entries);
        proof {
            assert((r@)->Object_0[0] == (entries@[0].0@, json_view(entries@[0].1)));
            assert((r@)->Object_0[1] == (entries@[1].0@, json_view(entries@[1].1)));
            assert((r@)->Object_0[2] == (entries@[2].0@, json_view(entries@[2].1)));
            assert((r@)->Object_0 =~= encode_document(self@)->Object_0);
        }
        r
    }
}

/// No two components of a mapping share a name.
pub open spec fn distinct_names<TV>(m: Seq<(Seq<char>, TV)>) -> bool {
    forall|i: int, k: int| 0 <= i < k < m.len() ==> m[i].0 != m[k].0
}

/// A document whose component names are unique within each mapping, as
/// the data model requires.
pub open spec fn wf_doc(d: DocumentV) -> bool {
    &&& match d.components.arguments {
        Option::Some(m) => distinct_names(m),
        Option::None => true,
    }
    &&& match d.components.options {
        Option::Some(m) => distinct_names(m),
        Option::None => true,
    }
    &&& match d.components.commands {
        Option::Some(m) => distinct_names(m),
        Option::None => true,
    }
}

/// Decoding an encoded optional string gives it back.
proof fn lemma_rt_opt_str(o: Option<Seq<char>>)
    ensures
        decode_opt_str(Option::Some(encode_opt_str(o))) == Option::Some(o),
{
}

/// Decoding an encoded array of strings gives it back.
proof fn lemma_rt_str_seq(ss: Seq<Seq<char>>)
    ensures
        decode_str_seq(encode_str_seq(ss)) == Option::Some(ss),
{
    let a = encode_str_seq(ss)->Array_0;
    assert(forall|i: int| 0 <= i < a.len() ==> (#[trigger] a[i]) is Str);
    assert(Seq::new(a.len(), |i: int| a[i]->Str_0) =~= ss);
}

/// Decoding an encoded argument definition gives it back.
pub proof fn lemma_rt_argument(a: ArgumentV)
    ensures
        decode_argument(encode_argument(a)) == Option::Some(a),
{
    reveal_with_fuel(lookup, 8);
    reveal_strlit("name");
    reveal_strlit("description");
    let entries = encode_argument(a)->Object_0;
    assert(entries.len() == 2);
    assert(entries[1].0 == "description"@);
    assert(entries.drop_first().len() == 1);
    assert(lookup(entries, "name"@) == Option::Some(JsonV::Str(a.name)));
    assert(entries.drop_first()[0] == entries[1]);
    assert(lookup(entries, "description"@) == Option::Some(encode_opt_str(a.description)));
    lemma_rt_opt_str(a.description);
    assert(decode_argument(encode_argument(a))->Some_0 =~~= a);
}

/// Decoding an encoded option definition gives it back.
pub proof fn lemma_rt_cli_option(o: CliOptionV)
    ensures
        decode_cli_option(encode_cli_option(o)) == Option::Some(o),
{
    reveal_with_fuel(lookup, 8);
    reveal_strlit("names_short");
    reveal_strlit("names_long");
    reveal_strlit("description");
    let entries = encode_cli_option(o)->Object_0;
    assert(entries.len() == 3);
    assert(entries[0].0 == "names_short"@);
    assert(entries[1].0 == "names_long"@);
    assert(entries[2].0 == "description"@);
    assert("names_short"@ != "names_long"@);
    assert("names_short"@ != "description"@) by {
                assert("names_short"@[0] != "description"@[0]);
            }
    assert("names_long"@ != "description"@);
    lemma_lookup_at(entries, 0);
    lemma_lookup_at(entries, 1);
    lemma_lookup_at(entries, 2);
    assert(lookup(entries, "names_short"@) == Option::Some(encode_opt_str_seq(o.names_short)));
    assert(lookup(entries, "names_long"@) == Option::Some(encode_opt_str_seq(o.names_long)));
    assert(lookup(entries, "description"@) == Option::Some(encode_opt_str(o.description)));
    if o.names_short is Some {
        lemma_rt_str_seq(o.names_short->Some_0);
    }
    if o.names_long is Some {
        lemma_rt_str_seq(o.names_long->Some_0);
    }
    lemma_rt_opt_str(o.description);
    assert(decode_cli_option(encode_cli_option(o))->Some_0 =~~= o);
}

/// Decoding an encoded subcommand definition gives it back.
pub proof fn lemma_rt_command(c: CommandV)
    ensures
        decode_command(encode_command(c)) == Option::Some(c),
{
    reveal_with_fuel(lookup, 8);
    reveal_strlit("names");
    reveal_strlit("description");
    let entries = encode_command(c)->Object_0;
    assert(entries.len() == 2);
    assert(entries[0].0 == "names"@);
    assert(entries[1].0 == "description"@);
    assert("names"@ != "description"@);
    lemma_lookup_at(entries, 0);
    lemma_lookup_at(entries, 1);
    assert(lookup(entries, "names"@) == Option::Some(encode_str_seq(c.names)));
    assert(lookup(entries, "description"@) == Option::Some(encode_opt_str(c.description)));
    lemma_rt_str_seq(c.names);
    lemma_rt_opt_str(c.description);
    assert(decode_command(encode_command(c))->Some_0 =~~= c);
}

/// Decoding an encoded reference gives its path back.
pub proof fn lemma_rt_reference(path: Seq<char>)
    ensures
        decode_reference(encode_reference(path)) == Option::Some(path),
{
    reveal_with_fuel(lookup, 8);
    let entries = encode_reference(path)->Object_0;
    assert(lookup(entries, "$ref"@) == Option::Some(JsonV::Str(path)));
}

/// The common flags of every encoded pattern object decode to the flags
/// that were written.
proof fn lemma_rt_common(entries: Seq<(Seq<char>, JsonV)>, common: PatternCommonV)
    requires
        lookup(entries, "repeated"@) == Option::Some(JsonV::Bool(common.repeated)),
        lookup(entries, "optional"@) == Option::Some(JsonV::Bool(common.optional)),
    ensures
        decode_common(entries) == Option::Some(common),
{
    assert(decode_common(entries)->Some_0 =~~= common);
}

/// Decoding an encoded pattern node gives it back.
pub proof fn lemma_rt_pattern(p: PatternV)
    ensures
        decode_pattern(encode_pattern(p)) == Option::Some(p),
    decreases p,
{
    reveal_with_fuel(lookup, 8);
    reveal_strlit("type");
    reveal_strlit("command");
    reveal_strlit("argument");
    reveal_strlit("option");
    reveal_strlit("group");
    reveal_strlit("exclusive");
    reveal_strlit("patterns");
    reveal_strlit("repeated");
    reveal_strlit("optional");
    let entries = encode_pattern(p)->Object_0;
    match p {
        PatternV::Command { command, common } => {
            assert(entries.len() == 4);
            assert(entries[0].0 == "type"@);
            assert(entries[1].0 == "command"@);
            assert(entries[2].0 == "repeated"@);
            assert(entries[3].0 == "optional"@);
            assert("type"@ != "command"@);
            assert("type"@ != "repeated"@);
            assert("type"@ != "optional"@);
            assert("command"@ != "repeated"@);
            assert("command"@ != "optional"@);
            assert("repeated"@ != "optional"@) by {
                assert("repeated"@[0] != "optional"@[0]);
            }
            lemma_lookup_at(entries, 0);
            lemma_lookup_at(entries, 1);
            lemma_lookup_at(entries, 2);
            lemma_lookup_at(entries, 3);
            assert(lookup(entries, "type"@) == Option::Some(JsonV::Str("command"@)));
            assert(lookup(entries, "command"@) == Option::Some(encode_reference(command)));
            assert(lookup(entries, "repeated"@) == Option::Some(JsonV::Bool(common.repeated)));
            assert(lookup(entries, "optional"@) == Option::Some(JsonV::Bool(common.optional)));
            lemma_rt_reference(command);
            lemma_rt_common(entries, common);
            assert(decode_pattern(encode_pattern(p))->Some_0 =~~= p);
        },
        PatternV::Argument { argument, common } => {
            assert(entries.len() == 4);
            assert(entries[0].0 == "type"@);
            assert(entries[1].0 == "argument"@);
            assert(entries[2].0 == "repeated"@);
            assert(entries[3].0 == "optional"@);
            assert("type"@ != "argument"@);
            assert("type"@ != "repeated"@);
            assert("type"@ != "optional"@);
            assert("argument"@ != "repeated"@) by {
                assert("argument"@[0] != "repeated"@[0]);
            }
            assert("argument"@ != "optional"@) by {
                assert("argument"@[0] != "optional"@[0]);
            }
            assert("repeated"@ != "optional"@) by {
                assert("repeated"@[0] != "optional"@[0]);
            }
            lemma_lookup_at(entries, 0);
            lemma_lookup_at(entries, 1);
            lemma_lookup_at(entries, 2);
            lemma_lookup_at(entries, 3);
            assert(lookup(entries, "type"@) == Option::Some(JsonV::Str("argument"@)));
            assert("argument"@ != "command"@);
            assert(lookup(entries, "argument"@) == Option::Some(encode_reference(argument)));
            assert(lookup(entries, "repeated"@) == Option::Some(JsonV::Bool(common.repeated)));
            assert(lookup(entries, "optional"@) == Option::Some(JsonV::Bool(common.optional)));
            lemma_rt_reference(argument);
            lemma_rt_common(entries, common);
            assert(decode_pattern(encode_pattern(p))->Some_0 =~~= p);
        },
        PatternV::Option { option, argument, common } => {
            assert(entries.len() == 5);
            assert(entries[0].0 == "type"@);
            assert(entries[1].0 == "option"@);
            assert(entries[2].0 == "argument"@);
            assert(entries[3].0 == "repeated"@);
            assert(entries[4].0 == "optional"@);
            assert("type"@ != "option"@);
            assert("type"@ != "argument"@);
            assert("type"@ != "repeated"@);
            assert("type"@ != "optional"@);
            assert("option"@ != "argument"@);
            assert("option"@ != "repeated"@);
            assert("option"@ != "optional"@);
            assert("argument"@ != "repeated"@) by {
                assert("argument"@[0] != "repeated"@[0]);
            }
            assert("argument"@ != "optional"@) by {
                assert("argument"@[0] != "optional"@[0]);
            }
            assert("repeated"@ != "optional"@) by {
                assert("repeated"@[0] != "optional"@[0]);
            }
            lemma_lookup_at(entries, 0);
            lemma_lookup_at(entries, 1);
            lemma_lookup_at(entries, 2);
            lemma_lookup_at(entries, 3);
            lemma_lookup_at(entries, 4);
            assert(lookup(entries, "type"@) == Option::Some(JsonV::Str("option"@)));
            assert("option"@.len() == 6 && "command"@.len() == 7 && "argument"@.len() == 8);
            assert("option"@ != "command"@);
            assert("option"@ != "argument"@);
            assert(lookup(entries, "option"@) == Option::Some(encode_reference(option)));
            let aenc = match argument {
                Option::None => JsonV::Null,
                Option::Some(b) => encode_pattern(*b),
            };
            assert(lookup(entries, "argument"@) == Option::Some(aenc));
            assert(lookup(entries, "repeated"@) == Option::Some(JsonV::Bool(common.repeated)));
            assert(lookup(entries, "optional"@) == Option::Some(JsonV::Bool(common.optional)));
            lemma_rt_reference(option);
            lemma_rt_common(entries, common);
            match argument {
                Option::None => {
                    assert(decode_pattern(encode_pattern(p))->Some_0 =~~= p);
                },
                Option::Some(b) => {
                    lemma_rt_pattern(*b);
                    assert(encode_pattern(*b) != JsonV::Null);
                    assert(decode_pattern(encode_pattern(p))->Some_0 =~~= p);
                },
            }
        },
        PatternV::Group { exclusive, patterns, common } => {
            assert(entries.len() == 5);
            assert(entries[0].0 == "type"@);
            assert(entries[1].0 == "exclusive"@);
            assert(entries[2].0 == "patterns"@);
            assert(entries[3].0 == "repeated"@);
            assert(entries[4].0 == "optional"@);
            assert("type"@ != "exclusive"@);
            assert("type"@ != "patterns"@);
            assert("type"@ != "repeated"@);
            assert("type"@ != "optional"@);
            assert("exclusive"@ != "patterns"@);
            assert("exclusive"@ != "repeated"@);
            assert("exclusive"@ != "optional"@);
            assert("patterns"@ != "repeated"@) by {
                assert("patterns"@[0] != "repeated"@[0]);
            }
            assert("patterns"@ != "optional"@) by {
                assert("patterns"@[0] != "optional"@[0]);
            }
            assert("repeated"@ != "optional"@) by {
                assert("repeated"@[0] != "optional"@[0]);
            }
            lemma_lookup_at(entries, 0);
            lemma_lookup_at(entries, 1);
            lemma_lookup_at(entries, 2);
            lemma_lookup_at(entries, 3);
            lemma_lookup_at(entries, 4);
            assert(lookup(entries, "type"@) == Option::Some(JsonV::Str("group"@)));
            assert("group"@.len() == 5 && "command"@.len() == 7 && "argument"@.len() == 8
                && "option"@.len() == 6);
            assert("group"@ != "command"@);
            assert("group"@ != "argument"@);
            assert("group"@ != "option"@);
            assert(lookup(entries, "exclusive"@) == Option::Some(JsonV::Bool(exclusive)));
            let aenc = entries[2].1;
            assert(lookup(entries, "patterns"@) == Option::Some(aenc));
            assert(aenc is Array && aenc->Array_0.len() == patterns.len());
            assert(lookup(entries, "repeated"@) == Option::Some(JsonV::Bool(common.repeated)));
            assert(lookup(entries, "optional"@) == Option::Some(JsonV::Bool(common.optional)));
            lemma_rt_common(entries, common);
            let a = aenc->Array_0;
            assert forall|i: int| 0 <= i < a.len() implies decode_pattern(#[trigger] a[i])
                == Option::Some(patterns[i]) by {
                assert(a[i] == encode_pattern(patterns[i]));
                lemma_rt_pattern(patterns[i]);
            }
            assert(forall|i: int| 0 <= i < a.len() ==> decode_pattern(#[trigger] a[i]) is Some);
            assert(decode_bool_default(lookup(entries, "exclusive"@)) == Option::Some(
                exclusive,
            ));
            assert(decode_pattern(encode_pattern(p)) is Some);
            let dp = decode_pattern(encode_pattern(p))->Some_0;
            assert(dp is Group);
            assert(dp->Group_patterns.len() == patterns.len());
            assert(forall|i: int|
                0 <= i < patterns.len() ==> #[trigger] dp->Group_patterns[i] == patterns[i]);
            assert(dp->Group_patterns =~= patterns);
            assert(dp =~~= p);
        },
    }
}

/// Decoding an encoded component registry gives it back.
pub proof fn lemma_rt_components(c: ComponentsV)
    ensures
        decode_components(encode_components(c)) == Option::Some(c),
{
    reveal_with_fuel(lookup, 8);
    reveal_strlit("arguments");
    reveal_strlit("options");
    reveal_strlit("commands");
    let entries = encode_components(c)->Object_0;
    assert(entries.len() == 3);
    assert(entries[0].0 == "arguments"@);
    assert(entries[1].0 == "options"@);
    assert(entries[2].0 == "commands"@);
    assert("arguments"@ != "options"@);
    assert("arguments"@ != "commands"@);
    assert("options"@ != "commands"@);
    lemma_lookup_at(entries, 0);
    lemma_lookup_at(entries, 1);
    lemma_lookup_at(entries, 2);
    assert(lookup(entries, "arguments"@) == Option::Some(
        encode_component_map(c.arguments, |a: ArgumentV| encode_argument(a)),
    ));
    assert(lookup(entries, "options"@) == Option::Some(
        encode_component_map(c.options, |o: CliOptionV| encode_cli_option(o)),
    ));
    assert(lookup(entries, "commands"@) == Option::Some(
        encode_component_map(c.commands, |k: CommandV| encode_command(k)),
    ));
    match c.arguments {
        Option::None => {},
        Option::Some(m) => {
            let enc = encode_component_map(c.arguments, |a: ArgumentV| encode_argument(a));
            let ev = enc->Object_0;
            assert forall|i: int| 0 <= i < ev.len() implies (|x: JsonV| decode_argument(x))(
                #[trigger] ev[i].1,
            ) == Option::Some(m[i].1) by {
                assert(ev[i] == (m[i].0, encode_argument(m[i].1)));
                lemma_rt_argument(m[i].1);
            }
            assert(forall|i: int|
                0 <= i < ev.len() ==> (|x: JsonV| decode_argument(x))(#[trigger] ev[i].1) is Some);
            assert(Seq::new(
                ev.len(),
                |i: int|
                    if 0 <= i < ev.len() {
                        (ev[i].0, (|x: JsonV| decode_argument(x))(ev[i].1)->Some_0)
                    } else {
                        (Seq::<char>::empty(), arbitrary_argument())
                    },
            ) =~= m);
        },
    }
    match c.options {
        Option::None => {},
        Option::Some(m) => {
            let enc = encode_component_map(c.options, |o: CliOptionV| encode_cli_option(o));
            let ev = enc->Object_0;
            assert forall|i: int| 0 <= i < ev.len() implies (|x: JsonV| decode_cli_option(x))(
                #[trigger] ev[i].1,
            ) == Option::Some(m[i].1) by {
                assert(ev[i] == (m[i].0, encode_cli_option(m[i].1)));
                lemma_rt_cli_option(m[i].1);
            }
            assert(forall|i: int|
                0 <= i < ev.len() ==> (|x: JsonV| decode_cli_option(x))(#[trigger] ev[i].1) is Some);
            assert(Seq::new(
                ev.len(),
                |i: int|
                    if 0 <= i < ev.len() {
                        (ev[i].0, (|x: JsonV| decode_cli_option(x))(ev[i].1)->Some_0)
                    } else {
                        (Seq::<char>::empty(), arbitrary_cli_option())
                    },
            ) =~= m);
        },
    }
    match c.commands {
        Option::None => {},
        Option::Some(m) => {
            let enc = encode_component_map(c.commands, |k: CommandV| encode_command(k));
            let ev = enc->Object_0;
            assert forall|i: int| 0 <= i < ev.len() implies (|x: JsonV| decode_command(x))(
                #[trigger] ev[i].1,
            ) == Option::Some(m[i].1) by {
                assert(ev[i] == (m[i].0, encode_command(m[i].1)));
                lemma_rt_command(m[i].1);
            }
            assert(forall|i: int|
                0 <= i < ev.len() ==> (|x: JsonV| decode_command(x))(#[trigger] ev[i].1) is Some);
            assert(Seq::new(
                ev.len(),
                |i: int|
                    if 0 <= i < ev.len() {
                        (ev[i].0, (|x: JsonV| decode_command(x))(ev[i].1)->Some_0)
                    } else {
                        (Seq::<char>::empty(), arbitrary_command())
                    },
            ) =~= m);
        },
    }
    assert(decode_components(encode_components(c))->Some_0 =~~= c);
}

/// Decoding the encoded version metadata gives it back.
pub proof fn lemma_rt_oac(o: OpenAutoCompletionV)
    ensures
        decode_oac(encode_oac(o)) == Option::Some(o),
{
    reveal_with_fuel(lookup, 8);
    let entries = encode_oac(o)->Object_0;
    assert(lookup(entries, "version"@) == Option::Some(JsonV::Str(o.version)));
    assert(decode_oac(encode_oac(o))->Some_0 =~~= o);
}

/// Decoding an encoded usage description gives it back.
pub proof fn lemma_rt_cli(c: CliV)
    ensures
        decode_cli(encode_cli(c)) == Option::Some(c),
{
    reveal_strlit("name");
    reveal_with_fuel(lookup, 8);
    reveal_strlit("option_separators_long");
    reveal_strlit("option_separators_short");
    reveal_strlit("option_prefix_long");
    reveal_strlit("option_prefix_short");
    reveal_strlit("pattern_groups");
    let entries = encode_cli(c)->Object_0;
    assert(entries.len() == 6);
    assert(entries[0].0 == "name"@);
    assert(entries[1].0 == "option_separators_long"@);
    assert(entries[2].0 == "option_separators_short"@);
    assert(entries[3].0 == "option_prefix_long"@);
    assert(entries[4].0 == "option_prefix_short"@);
    assert(entries[5].0 == "pattern_groups"@);
    assert("name"@ != "option_separators_long"@);
    assert("name"@ != "option_separators_short"@);
    assert("name"@ != "option_prefix_long"@);
    assert("name"@ != "option_prefix_short"@);
    assert("name"@ != "pattern_groups"@);
    assert("option_separators_long"@ != "option_separators_short"@);
    assert("option_separators_long"@ != "option_prefix_long"@);
    assert("option_separators_long"@ != "option_prefix_short"@);
    assert("option_separators_long"@ != "pattern_groups"@);
    assert("option_separators_short"@ != "option_prefix_long"@);
    assert("option_separators_short"@ != "option_prefix_short"@);
    assert("option_separators_short"@ != "pattern_groups"@);
    assert("option_prefix_long"@ != "option_prefix_short"@);
    assert("option_prefix_long"@ != "pattern_groups"@);
    assert("option_prefix_short"@ != "pattern_groups"@);
    lemma_lookup_at(entries, 0);
    lemma_lookup_at(entries, 1);
    lemma_lookup_at(entries, 2);
    lemma_lookup_at(entries, 3);
    lemma_lookup_at(entries, 4);
    lemma_lookup_at(entries, 5);
    assert(lookup(entries, "name"@) == Option::Some(JsonV::Str(c.name)));
    assert(lookup(entries, "option_separators_long"@) == Option::Some(
        encode_str_seq(c.option_separators_long),
    ));
    assert(lookup(entries, "option_separators_short"@) == Option::Some(
        encode_str_seq(c.option_separators_short),
    ));
    assert(lookup(entries, "option_prefix_long"@) == Option::Some(
        JsonV::Str(c.option_prefix_long),
    ));
    assert(lookup(entries, "option_prefix_short"@) == Option::Some(
        JsonV::Str(c.option_prefix_short),
    ));
    let aenc = entries[5].1;
    assert(lookup(entries, "pattern_groups"@) == Option::Some(aenc));
    assert(aenc is Array && aenc->Array_0.len() == c.pattern_groups.len());
    lemma_rt_str_seq(c.option_separators_long);
    lemma_rt_str_seq(c.option_separators_short);
    let a = aenc->Array_0;
    assert forall|i: int| 0 <= i < a.len() implies decode_pattern(#[trigger] a[i])
        == Option::Some(c.pattern_groups[i]) by {
        assert(a[i] == encode_pattern(c.pattern_groups[i]));
        lemma_rt_pattern(c.pattern_groups[i]);
    }
    assert(forall|i: int| 0 <= i < a.len() ==> decode_pattern(#[trigger] a[i]) is Some);
    assert(Seq::new(
        a.len(),
        |i: int|
            if 0 <= i < a.len() {
                decode_pattern(a[i])->Some_0
            } else {
                PatternV::Group {
                    exclusive: false,
                    patterns: Seq::empty(),
                    common: PatternCommonV { repeated: false, optional: false },
                }
            },
    ) =~= c.pattern_groups);
    assert(decode_cli(encode_cli(c))->Some_0 =~~= c);
}

/// Decoding an encoded document gives it back: the codec round trip, for
/// every document.
pub proof fn lemma_rt_document(d: DocumentV)
    ensures
        decode_document(encode_document(d)) == Option::Some(d),
{
    reveal_with_fuel(lookup, 8);
    reveal_strlit("openautocompletion");
    reveal_strlit("components");
    reveal_strlit("cli");
    let entries = encode_document(d)->Object_0;
    assert(entries.len() == 3);
    assert(entries[0].0 == "openautocompletion"@);
    assert(entries[1].0 == "components"@);
    assert(entries[2].0 == "cli"@);
    assert("openautocompletion"@ != "components"@);
    assert("openautocompletion"@ != "cli"@);
    assert("components"@ != "cli"@);
    lemma_lookup_at(entries, 0);
    lemma_lookup_at(entries, 1);
    lemma_lookup_at(entries, 2);
    assert(lookup(entries, "openautocompletion"@) == Option::Some(
        encode_oac(d.openautocompletion),
    ));
    assert(lookup(entries, "components"@) == Option::Some(encode_components(d.components)));
    assert(lookup(entries, "cli"@) == Option::Some(encode_cli(d.cli)));
    lemma_rt_oac(d.openautocompletion);
    lemma_rt_components(d.components);
    lemma_rt_cli(d.cli);
    assert(decode_document(encode_document(d))->Some_0 =~~= d);
}

/// An encoded optional string is a well-formed JSON value.
proof fn lemma_wf_opt_str(o: Option<Seq<char>>)
    ensures
        wf_json(encode_opt_str(o)),
{
}

/// An encoded array of strings is a well-formed JSON value.
proof fn lemma_wf_str_seq(ss: Seq<Seq<char>>)
    ensures
        wf_json(encode_str_seq(ss)),
{
    let a = encode_str_seq(ss)->Array_0;
    assert(forall|i: int| 0 <= i < a.len() ==> wf_json(#[trigger] a[i]));
}

/// An encoded argument definition is a well-formed JSON value.
proof fn lemma_wf_argument(a: ArgumentV)
    ensures
        wf_json(encode_argument(a)),
{
    reveal_strlit("name");
    reveal_strlit("description");
    let entries = encode_argument(a)->Object_0;
    assert("name"@.len() == 4 && "description"@.len() == 11);
    assert("name"@ != "description"@);
    assert(distinct_keys(entries));
    lemma_wf_opt_str(a.description);
    assert(forall|i: int| 0 <= i < entries.len() ==> wf_json(#[trigger] entries[i].1));
}

/// An encoded option definition is a well-formed JSON value.
proof fn lemma_wf_cli_option(o: CliOptionV)
    ensures
        wf_json(encode_cli_option(o)),
{
    reveal_strlit("names_short");
    reveal_strlit("names_long");
    reveal_strlit("description");
    let entries = encode_cli_option(o)->Object_0;
    assert("names_short"@.len() == 11 && "names_long"@.len() == 10 && "description"@.len()
        == 11);
    assert("names_short"@ != "names_long"@);
    assert("names_short"@ != "description"@) by {
        assert("names_short"@[0] != "description"@[0]);
    }
    assert("names_long"@ != "description"@);
    assert(distinct_keys(entries));
    if o.names_short is Some {
        lemma_wf_str_seq(o.names_short->Some_0);
    }
    if o.names_long is Some {
        lemma_wf_str_seq(o.names_long->Some_0);
    }
    lemma_wf_opt_str(o.description);
    assert(forall|i: int| 0 <= i < entries.len() ==> wf_json(#[trigger] entries[i].1));
}

/// An encoded subcommand definition is a well-formed JSON value.
proof fn lemma_wf_command(c: CommandV)
    ensures
        wf_json(encode_command(c)),
{
    reveal_strlit("names");
    reveal_strlit("description");
    let entries = encode_command(c)->Object_0;
    assert("names"@.len() == 5 && "description"@.len() == 11);
    assert("names"@ != "description"@);
    assert(distinct_keys(entries));
    lemma_wf_str_seq(c.names);
    lemma_wf_opt_str(c.description);
    assert(forall|i: int| 0 <= i < entries.len() ==> wf_json(#[trigger] entries[i].1));
}

/// An encoded reference is a well-formed JSON value.
proof fn lemma_wf_reference(path: Seq<char>)
    ensures
        wf_json(encode_reference(path)),
{
    let entries = encode_reference(path)->Object_0;
    assert(distinct_keys(entries));
    assert(forall|i: int| 0 <= i < entries.len() ==> wf_json(#[trigger] entries[i].1));
}

/// An encoded pattern node is a well-formed JSON value.
proof fn lemma_wf_pattern(p: PatternV)
    ensures
        wf_json(encode_pattern(p)),
    decreases p,
{
    reveal_strlit("type");
    reveal_strlit("command");
    reveal_strlit("argument");
    reveal_strlit("option");
    reveal_strlit("group");
    reveal_strlit("exclusive");
    reveal_strlit("patterns");
    reveal_strlit("repeated");
    reveal_strlit("optional");
    assert("type"@.len() == 4 && "command"@.len() == 7 && "argument"@.len() == 8
        && "option"@.len() == 6 && "group"@.len() == 5 && "exclusive"@.len() == 9
        && "patterns"@.len() == 8 && "repeated"@.len() == 8 && "optional"@.len() == 8);
    assert("argument"@ != "repeated"@) by {
        assert("argument"@[0] != "repeated"@[0]);
    }
    assert("argument"@ != "optional"@) by {
        assert("argument"@[0] != "optional"@[0]);
    }
    assert("repeated"@ != "optional"@) by {
        assert("repeated"@[0] != "optional"@[0]);
    }
    assert("patterns"@ != "repeated"@) by {
        assert("patterns"@[0] != "repeated"@[0]);
    }
    assert("patterns"@ != "optional"@) by {
        assert("patterns"@[0] != "optional"@[0]);
    }
    let entries = encode_pattern(p)->Object_0;
    match p {
        PatternV::Command { command, common } => {
            assert(distinct_keys(entries));
            lemma_wf_reference(command);
            assert(forall|i: int| 0 <= i < entries.len() ==> wf_json(#[trigger] entries[i].1));
        },
        PatternV::Argument { argument, common } => {
            assert(distinct_keys(entries));
            lemma_wf_reference(argument);
            assert(forall|i: int| 0 <= i < entries.len() ==> wf_json(#[trigger] entries[i].1));
        },
        PatternV::Option { option, argument, common } => {
            assert(distinct_keys(entries));
            lemma_wf_reference(option);
            match argument {
                Option::None => {},
                Option::Some(b) => {
                    lemma_wf_pattern(*b);
                },
            }
            assert(forall|i: int| 0 <= i < entries.len() ==> wf_json(#[trigger] entries[i].1));
        },
        PatternV::Group { exclusive, patterns, common } => {
            assert(distinct_keys(entries));
            let a = entries[2].1->Array_0;
            assert forall|i: int| 0 <= i < a.len() implies wf_json(#[trigger] a[i]) by {
                assert(a[i] == encode_pattern(patterns[i]));
                lemma_wf_pattern(patterns[i]);
            }
            assert(forall|i: int| 0 <= i < entries.len() ==> wf_json(#[trigger] entries[i].1));
        },
    }
}

/// An encoded component registry with unique names in each mapping is a
/// well-formed JSON value.
proof fn lemma_wf_components(c: ComponentsV)
    requires
        c.arguments matches Option::Some(m) ==> distinct_names(m),
        c.options matches Option::Some(m) ==> distinct_names(m),
        c.commands matches Option::Some(m) ==> distinct_names(m),
    ensures
        wf_json(encode_components(c)),
{
    reveal_strlit("arguments");
    reveal_strlit("options");
    reveal_strlit("commands");
    let entries = encode_components(c)->Object_0;
    assert("arguments"@.len() == 9 && "options"@.len() == 7 && "commands"@.len() == 8);
    assert("arguments"@ != "options"@);
    assert("arguments"@ != "commands"@);
    assert("options"@ != "commands"@);
    assert(distinct_keys(entries));
    match c.arguments {
        Option::None => {},
        Option::Some(m) => {
            let ev = encode_component_map(c.arguments, |a: ArgumentV| encode_argument(a))
                ->Object_0;
            assert forall|i: int| 0 <= i < ev.len() implies wf_json(#[trigger] ev[i].1) by {
                assert(ev[i] == (m[i].0, encode_argument(m[i].1)));
                lemma_wf_argument(m[i].1);
            }
            assert(forall|i: int, k: int|
                0 <= i < k < ev.len() ==> ev[i].0 == m[i].0 && ev[k].0 == m[k].0);
            assert(distinct_keys(ev));
        },
    }
    match c.options {
        Option::None => {},
        Option::Some(m) => {
            let ev = encode_component_map(c.options, |o: CliOptionV| encode_cli_option(o))
                ->Object_0;
            assert forall|i: int| 0 <= i < ev.len() implies wf_json(#[trigger] ev[i].1) by {
                assert(ev[i] == (m[i].0, encode_cli_option(m[i].1)));
                lemma_wf_cli_option(m[i].1);
            }
            assert(forall|i: int, k: int|
                0 <= i < k < ev.len() ==> ev[i].0 == m[i].0 && ev[k].0 == m[k].0);
            assert(distinct_keys(ev));
        },
    }
    match c.commands {
        Option::None => {},
        Option::Some(m) => {
            let ev = encode_component_map(c.commands, |k: CommandV| encode_command(k))->Object_0;
            assert forall|i: int| 0 <= i < ev.len() implies wf_json(#[trigger] ev[i].1) by {
                assert(ev[i] == (m[i].0, encode_command(m[i].1)));
                lemma_wf_command(m[i].1);
            }
            assert(forall|i: int, k: int|
                0 <= i < k < ev.len() ==> ev[i].0 == m[i].0 && ev[k].0 == m[k].0);
            assert(distinct_keys(ev));
        },
    }
    assert(forall|i: int| 0 <= i < entries.len() ==> wf_json(#[trigger] entries[i].1));
}

/// An encoded usage description is a well-formed JSON value.
proof fn lemma_wf_cli(c: CliV)
    ensures
        wf_json(encode_cli(c)),
{
    reveal_strlit("name");
    reveal_strlit("option_separators_long");
    reveal_strlit("option_separators_short");
    reveal_strlit("option_prefix_long");
    reveal_strlit("option_prefix_short");
    reveal_strlit("pattern_groups");
    let entries = encode_cli(c)->Object_0;
    assert("name"@.len() == 4 && "option_separators_long"@.len() == 22
        && "option_separators_short"@.len() == 23 && "option_prefix_long"@.len() == 18
        && "option_prefix_short"@.len() == 19 && "pattern_groups"@.len() == 14);
    assert(distinct_keys(entries));
    lemma_wf_str_seq(c.option_separators_long);
    lemma_wf_str_seq(c.option_separators_short);
    let a = entries[5].1->Array_0;
    assert forall|i: int| 0 <= i < a.len() implies wf_json(#[trigger] a[i]) by {
        assert(a[i] == encode_pattern(c.pattern_groups[i]));
        lemma_wf_pattern(c.pattern_groups[i]);
    }
    assert(forall|i: int| 0 <= i < entries.len() ==> wf_json(#[trigger] entries[i].1));
}

/// The encoded JSON form of a document with unique component names is
/// well formed: the outside JSON library carries it through text and back
/// unchanged.
pub proof fn lemma_wf_document(d: DocumentV)
    requires
        wf_doc(d),
    ensures
        wf_json(encode_document(d)),
{
    reveal_strlit("openautocompletion");
    reveal_strlit("components");
    reveal_strlit("cli");
    reveal_strlit("version");
    let entries = encode_document(d)->Object_0;
    assert("openautocompletion"@.len() == 18 && "components"@.len() == 10 && "cli"@.len() == 3);
    assert(distinct_keys(entries));
    let oe = encode_oac(d.openautocompletion)->Object_0;
    assert(distinct_keys(oe));
    assert(forall|i: int| 0 <= i < oe.len() ==> wf_json(#[trigger] oe[i].1));
    lemma_wf_components(d.components);
    lemma_wf_cli(d.cli);
    assert(forall|i: int| 0 <= i < entries.len() ==> wf_json(#[trigger] entries[i].1));
}

/// A usage description that names no separators and no prefixes is read
/// as if the documented defaults had been written out.
pub proof fn lemma_cli_defaults(j: JsonV)
    requires
        j is Object,
        lookup(j->Object_0, "option_separators_long"@) is None,
        lookup(j->Object_0, "option_separators_short"@) is None,
        lookup(j->Object_0, "option_prefix_long"@) is None,
        lookup(j->Object_0, "option_prefix_short"@) is None,
        decode_cli(j) is Some,
    ensures
        decode_cli(j)->Some_0.option_separators_long == seq!["="@, " "@],
        decode_cli(j)->Some_0.option_separators_short == seq![" "@, ""@],
        decode_cli(j)->Some_0.option_prefix_long == "--"@,
        decode_cli(j)->Some_0.option_prefix_short == "-"@,
{
}

} // verus!
