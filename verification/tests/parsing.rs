use oac_parser::model::{Document, Pattern};

const NAVAL_FATE: &str = "{\n\
  \"openautocompletion\": { \"version\": \"1.0\" },\n\
  \"components\": {\n\
    \"arguments\": {\n\
      \"name\":  { \"name\": \"<name>\" },\n\
      \"x\":     { \"name\": \"<x>\" },\n\
      \"y\":     { \"name\": \"<y>\" },\n\
      \"speed\": { \"name\": \"<speed>\", \"description\": \"Speed in knots\" }\n\
    },\n\
    \"options\": {\n\
      \"help\": { \"names_short\": [\"h\"], \"names_long\": [\"help\"] }\n\
    },\n\
    \"commands\": {\n\
      \"ship\": { \"names\": [\"ship\"], \"description\": \"Ship commands\" },\n\
      \"mine\": { \"names\": [\"mine\"] }\n\
    }\n\
  },\n\
  \"cli\": {\n\
    \"name\": \"naval_fate\",\n\
    \"pattern_groups\": [\n\
      {\n\
        \"type\": \"group\",\n\
        \"exclusive\": true,\n\
        \"patterns\": [\n\
          { \"type\": \"command\",\n\
            \"command\": { \"$ref\": \"#/components/commands/ship\" } },\n\
          { \"type\": \"command\",\n\
            \"command\": { \"$ref\": \"#/components/commands/mine\" } }\n\
        ]\n\
      }\n\
    ]\n\
  }\n\
}\n";

#[test]
fn parse_naval_fate() -> Result<(), oac_parser::Error> {
    let document: Document = match Document::parse(NAVAL_FATE) {
        Ok(document) => document,
        Err(error) => return Err(error),
    };
    assert_eq!("1.0", &document.openautocompletion.version);
    assert_eq!("naval_fate", &document.cli.name);
    match &document.cli.pattern_groups[0] {
        Pattern::Group { patterns, .. } => match &patterns[0] {
            Pattern::Command { command, .. } => match command.resolve(&document) {
                Ok(command) => assert_eq!("ship", &command.names[0]),
                Err(error) => return Err(error),
            },
            _ => unreachable!("patterns[0] is not of type \"command\""),
        },
        _ => unreachable!("pattern_groups[0] is not of type \"group\""),
    }
    let arguments = &document.components.arguments.unwrap();
    assert_eq!(4, arguments.len());
    Ok(())
}

#[test]
fn defaults_fill_in_absent_cli_fields() {
    let text = "{ \"openautocompletion\": { \"version\": \"1.0\" },\n\
  \"components\": {},\n\
  \"cli\": { \"name\": \"prog\", \"pattern_groups\": [] } }";
    let document = Document::parse(text).unwrap();
    assert_eq!("--", &document.cli.option_prefix_long);
    assert_eq!("-", &document.cli.option_prefix_short);
    assert_eq!(vec!["=".to_string(), " ".to_string()], document.cli.option_separators_long);
    assert_eq!(vec![" ".to_string(), "".to_string()], document.cli.option_separators_short);
    assert!(document.components.arguments.is_none());
    assert!(document.components.options.is_none());
    assert!(document.components.commands.is_none());
}

#[test]
fn explicit_cli_fields_are_kept() {
    let text = "{ \"openautocompletion\": { \"version\": \"1.0\" },\n\
  \"components\": {},\n\
  \"cli\": {\n\
    \"name\": \"prog\",\n\
    \"option_separators_long\": [\":\"],\n\
    \"option_separators_short\": [\"\"],\n\
    \"option_prefix_long\": \"++\",\n\
    \"option_prefix_short\": \"+\",\n\
    \"pattern_groups\": []\n\
  } }";
    let document = Document::parse(text).unwrap();
    assert_eq!("++", &document.cli.option_prefix_long);
    assert_eq!("+", &document.cli.option_prefix_short);
    assert_eq!(vec![":".to_string()], document.cli.option_separators_long);
    assert_eq!(vec!["".to_string()], document.cli.option_separators_short);
}

#[test]
fn malformed_text_is_reported() {
    match Document::parse("this is not json") {
        Err(oac_parser::Error::MalformedDocument { .. }) => {}
        _ => unreachable!("malformed text must be rejected"),
    }
}

#[test]
fn wrong_shape_is_reported() {
    match Document::parse("{\"cli\": 3}") {
        Err(oac_parser::Error::MalformedDocument { .. }) => {}
        _ => unreachable!("a document without its required members must be rejected"),
    }
}

#[test]
fn missing_required_cli_name_is_reported() {
    let text = "{ \"openautocompletion\": { \"version\": \"1.0\" },\n\
  \"components\": {},\n\
  \"cli\": { \"pattern_groups\": [] } }";
    assert!(Document::parse(text).is_err());
}

#[test]
fn unknown_members_are_ignored() {
    let text = "{ \"openautocompletion\": { \"version\": \"1.0\", \"extra\": 7 },\n\
  \"components\": { \"other\": true },\n\
  \"cli\": { \"name\": \"prog\", \"pattern_groups\": [], \"note\": null } }";
    let document = Document::parse(text).unwrap();
    assert_eq!("prog", &document.cli.name);
}

#[test]
fn option_pattern_with_nested_argument() {
    let text = "{ \"openautocompletion\": { \"version\": \"1.0\" },\n\
  \"components\": {\n\
    \"arguments\": { \"file\": { \"name\": \"<file>\" } },\n\
    \"options\": { \"output\": { \"names_long\": [\"output\"] } }\n\
  },\n\
  \"cli\": {\n\
    \"name\": \"prog\",\n\
    \"pattern_groups\": [\n\
      {\n\
        \"type\": \"option\",\n\
        \"option\": { \"$ref\": \"#/components/options/output\" },\n\
        \"argument\": {\n\
          \"type\": \"argument\",\n\
          \"argument\": { \"$ref\": \"#/components/arguments/file\" },\n\
          \"optional\": false\n\
        },\n\
        \"repeated\": true\n\
      }\n\
    ]\n\
  } }";
    let document = Document::parse(text).unwrap();
    match &document.cli.pattern_groups[0] {
        Pattern::Option { option, argument, common } => {
            assert!(common.repeated);
            assert!(!common.optional);
            let resolved = option.resolve(&document).unwrap();
            assert_eq!(vec!["output".to_string()], resolved.names_long.unwrap());
            match argument.as_deref() {
                Some(Pattern::Argument { argument, .. }) => {
                    let inner = argument.resolve(&document).unwrap();
                    assert_eq!("<file>", &inner.name);
                }
                _ => unreachable!("the nested pattern must be an argument"),
            }
        }
        _ => unreachable!("pattern_groups[0] is not of type \"option\""),
    }
}

#[test]
fn round_trip_preserves_the_document() {
    let first = Document::parse(NAVAL_FATE).unwrap();
    let text = first.serialize();
    let second = Document::parse(&text).unwrap();
    assert_eq!(first.openautocompletion.version, second.openautocompletion.version);
    assert_eq!(first.cli.name, second.cli.name);
    assert_eq!(first.cli.option_prefix_long, second.cli.option_prefix_long);
    assert_eq!(first.cli.option_separators_short, second.cli.option_separators_short);
    let first_args = first.components.arguments.unwrap();
    let second_args = second.components.arguments.unwrap();
    assert_eq!(first_args.len(), second_args.len());
    for (a, b) in first_args.iter().zip(second_args.iter()) {
        assert_eq!(a.0, b.0);
        assert_eq!(a.1.name, b.1.name);
        assert_eq!(a.1.description, b.1.description);
    }
    match (&first.cli.pattern_groups[0], &second.cli.pattern_groups[0]) {
        (
            Pattern::Group { exclusive: x1, patterns: p1, .. },
            Pattern::Group { exclusive: x2, patterns: p2, .. },
        ) => {
            assert_eq!(x1, x2);
            assert_eq!(p1.len(), p2.len());
            match (&p1[0], &p2[0]) {
                (Pattern::Command { command: c1, .. }, Pattern::Command { command: c2, .. }) => {
                    assert_eq!(c1.ref_path, c2.ref_path);
                }
                _ => unreachable!("the first member must stay a command pattern"),
            }
        }
        _ => unreachable!("the first pattern group must stay a group"),
    }
}

#[test]
fn serialized_text_spells_out_defaults() {
    let text = "{ \"openautocompletion\": { \"version\": \"1.0\" },\n\
  \"components\": {},\n\
  \"cli\": { \"name\": \"prog\", \"pattern_groups\": [] } }";
    let document = Document::parse(text).unwrap();
    let printed = document.serialize();
    assert!(printed.contains("\"option_prefix_long\":\"--\""));
    assert!(printed.contains("\"option_separators_long\":[\"=\",\" \"]"));
    let again = Document::parse(&printed).unwrap();
    assert_eq!("--", &again.cli.option_prefix_long);
}
