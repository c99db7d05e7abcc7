use core::marker::PhantomData;
use oac_parser::conform::selection_conforms;
use oac_parser::model::{
    default_option_prefix_long, default_option_prefix_short, default_option_separators_long,
    default_option_separators_short, Argument, CliOption, Command, Document, Pattern,
    PatternCommon, Reference, VERSION,
};
use oac_parser::Error;

const DOC: &str = "{\n\
  \"openautocompletion\": { \"version\": \"1.0\" },\n\
  \"components\": {\n\
    \"arguments\": { \"x\": { \"name\": \"<x>\" } },\n\
    \"options\": { \"verbose\": { \"names_long\": [\"verbose\"] } },\n\
    \"commands\": { \"go\": { \"names\": [\"go\", \"run\"] } }\n\
  },\n\
  \"cli\": { \"name\": \"prog\", \"pattern_groups\": [] }\n\
}";

fn reference<T>(path: &str) -> Reference<T> {
    Reference { ref_path: path.to_string(), phantom: PhantomData }
}

#[test]
fn resolve_returns_the_addressed_entry() {
    let document = Document::parse(DOC).unwrap();
    let argument: Reference<Argument> = reference("#/components/arguments/x");
    assert_eq!("<x>", &argument.resolve(&document).unwrap().name);
    let option: Reference<CliOption> = reference("#/components/options/verbose");
    let resolved = option.resolve(&document).unwrap();
    assert_eq!(vec!["verbose".to_string()], resolved.names_long.unwrap());
    assert!(resolved.names_short.is_none());
    let command: Reference<Command> = reference("#/components/commands/go");
    let resolved = command.resolve(&document).unwrap();
    assert_eq!(vec!["go".to_string(), "run".to_string()], resolved.names);
}

#[test]
fn dangling_reference_reports_the_path_verbatim() {
    let document = Document::parse(DOC).unwrap();
    let missing: Reference<Command> = reference("#/components/commands/stop");
    match missing.resolve(&document) {
        Err(Error::MissingReferenceTarget { reference }) => {
            assert_eq!("#/components/commands/stop", &reference);
        }
        _ => unreachable!("a dangling reference must be reported as missing"),
    }
    let no_such_kind: Reference<Argument> = reference("#/components/things/x");
    match no_such_kind.resolve(&document) {
        Err(Error::MissingReferenceTarget { reference }) => {
            assert_eq!("#/components/things/x", &reference);
        }
        _ => unreachable!("a path through an absent mapping must be reported as missing"),
    }
}

#[test]
fn wrong_shape_reports_a_type_mismatch() {
    let document = Document::parse(DOC).unwrap();
    let command_at_argument: Reference<Command> = reference("#/components/arguments/x");
    match command_at_argument.resolve(&document) {
        Err(Error::ReferenceTypeMismatch { reference, expected }) => {
            assert_eq!("#/components/arguments/x", &reference);
            assert_eq!("Command", &expected);
        }
        _ => unreachable!("an argument entry does not have a command's shape"),
    }
    let argument_at_command: Reference<Argument> = reference("#/components/commands/go");
    match argument_at_command.resolve(&document) {
        Err(Error::ReferenceTypeMismatch { reference, expected }) => {
            assert_eq!("#/components/commands/go", &reference);
            assert_eq!("Argument", &expected);
        }
        _ => unreachable!("a command entry does not have an argument's shape"),
    }
}

#[test]
fn parts_drops_the_root_segment() {
    let r: Reference<Command> = reference("#/components/commands/foo");
    assert_eq!(
        vec!["components".to_string(), "commands".to_string(), "foo".to_string()],
        r.parts()
    );
    let short: Reference<Command> = reference("#");
    assert!(short.parts().is_empty());
}

#[test]
fn documented_defaults() {
    assert_eq!("--", &default_option_prefix_long());
    assert_eq!("-", &default_option_prefix_short());
    assert_eq!(vec!["=".to_string(), " ".to_string()], default_option_separators_long());
    assert_eq!(vec![" ".to_string(), "".to_string()], default_option_separators_short());
    assert_eq!("0.2.1", VERSION);
}

fn node(optional: bool) -> Pattern {
    Pattern::Command {
        command: reference("#/components/commands/go"),
        common: PatternCommon { repeated: false, optional },
    }
}

#[test]
fn exclusive_group_admits_exactly_one_member() {
    let members = vec![node(false), node(false), node(false)];
    assert!(selection_conforms(true, &members, &vec![false, true, false]));
    assert!(!selection_conforms(true, &members, &vec![false, false, false]));
    assert!(!selection_conforms(true, &members, &vec![true, true, false]));
    assert!(!selection_conforms(true, &members, &vec![true, true]));
}

#[test]
fn inclusive_group_requires_every_non_optional_member() {
    let members = vec![node(false), node(true), node(false)];
    assert!(selection_conforms(false, &members, &vec![true, false, true]));
    assert!(selection_conforms(false, &members, &vec![true, true, true]));
    assert!(!selection_conforms(false, &members, &vec![true, false, false]));
}
