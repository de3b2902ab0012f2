use robusto::representation::{
    Field, FieldAttribute, FieldType, MaxLengthFieldAttribute, Message, Protocol, RegexFieldType,
};
use robusto::validation::{validate_protocol, MessageFieldLintResult};

fn lint_field(name: &str, max_length: Option<usize>) -> Field {
    let mut attributes = Vec::new();
    if let Some(value) = max_length {
        attributes.push(FieldAttribute::MaxLength(MaxLengthFieldAttribute { value }));
    }
    Field {
        name: String::from(name),
        field_type: FieldType::Regex(RegexFieldType { regex: String::from("\\xfe") }),
        attributes,
    }
}

fn lint_protocol(fields: Vec<Field>) -> Protocol {
    Protocol {
        messages: vec![Message {
            name: String::from("TestMessage"),
            fields,
            attributes: vec![],
        }],
        attributes: vec![],
    }
}

#[test]
fn missing_max_length_yields_exactly_one_warning() {
    let protocol = lint_protocol(vec![lint_field("preamble", None)]);
    let report = validate_protocol(&protocol);

    assert_eq!(report.message_lint_results.len(), 2);
    assert_eq!(report.message_lint_results[0], MessageFieldLintResult::Passed);
    match &report.message_lint_results[1] {
        MessageFieldLintResult::Warning(text) => {
            assert_eq!(text, "in message TestMessage field preamble does not have MaxLength attribute");
        },
        other => panic!("expected a warning, got {:?}", other),
    }
}

#[test]
fn present_max_length_yields_no_warning() {
    let protocol = lint_protocol(vec![lint_field("preamble", Some(64))]);
    let report = validate_protocol(&protocol);

    assert_eq!(report.message_lint_results.len(), 2);
    for result in &report.message_lint_results {
        assert_eq!(*result, MessageFieldLintResult::Passed);
    }
}

#[test]
fn one_warning_per_unbounded_field() {
    let protocol = Protocol {
        messages: vec![
            Message {
                name: String::from("Alpha"),
                fields: vec![lint_field("sync", None), lint_field("payload", Some(4))],
                attributes: vec![],
            },
            Message {
                name: String::from("Beta"),
                fields: vec![lint_field("checksum", None)],
                attributes: vec![],
            },
        ],
        attributes: vec![],
    };
    let report = validate_protocol(&protocol);

    assert_eq!(report.message_lint_results.len(), 6);
    let warnings: Vec<&MessageFieldLintResult> = report
        .message_lint_results
        .iter()
        .filter(|r| matches!(r, MessageFieldLintResult::Warning(_)))
        .collect();
    assert_eq!(warnings.len(), 2);
    match warnings[0] {
        MessageFieldLintResult::Warning(text) => {
            assert_eq!(text, "in message Alpha field sync does not have MaxLength attribute");
        },
        _ => unreachable!(),
    }
    match warnings[1] {
        MessageFieldLintResult::Warning(text) => {
            assert_eq!(text, "in message Beta field checksum does not have MaxLength attribute");
        },
        _ => unreachable!(),
    }
}

#[test]
fn empty_protocol_yields_empty_report() {
    let protocol = Protocol { messages: vec![], attributes: vec![] };
    let report = validate_protocol(&protocol);
    assert!(report.message_lint_results.is_empty());
}
