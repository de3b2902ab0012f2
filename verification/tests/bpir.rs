use robusto::representation::{
    Field, FieldAttribute, FieldType, MaxLengthFieldAttribute, Message, MessageAttribute,
    Protocol, RegexFieldType,
};

fn bpir_field(name: &str, pattern: &str, max_length: Option<usize>) -> Field {
    let mut attributes = Vec::new();
    if let Some(value) = max_length {
        attributes.push(FieldAttribute::MaxLength(MaxLengthFieldAttribute { value }));
    }
    Field {
        name: String::from(name),
        field_type: FieldType::Regex(RegexFieldType { regex: String::from(pattern) }),
        attributes,
    }
}

fn bpir_message(name: &str, root: bool) -> Message {
    Message {
        name: String::from(name),
        fields: vec![bpir_field("preamble", "\\xfe", None)],
        attributes: if root { vec![MessageAttribute::Root] } else { vec![] },
    }
}

#[test]
fn root_message_prefers_tagged_message() {
    let protocol = Protocol {
        messages: vec![bpir_message("First", false), bpir_message("Second", true)],
        attributes: vec![],
    };
    assert_eq!(protocol.root_message().name, "Second");
}

#[test]
fn root_message_defaults_to_first_declared() {
    let protocol = Protocol {
        messages: vec![bpir_message("First", false), bpir_message("Second", false)],
        attributes: vec![],
    };
    assert_eq!(protocol.root_message().name, "First");
}

#[test]
fn root_message_picks_first_of_several_tagged() {
    let protocol = Protocol {
        messages: vec![
            bpir_message("First", false),
            bpir_message("Second", true),
            bpir_message("Third", true),
        ],
        attributes: vec![],
    };
    assert_eq!(protocol.root_message().name, "Second");
}

#[test]
fn default_max_length_is_sixty_four() {
    assert_eq!(MaxLengthFieldAttribute::get_default_value(), 64);
}

#[test]
fn try_root_message_is_none_on_empty_protocol() {
    let protocol = Protocol { messages: vec![], attributes: vec![] };
    assert!(protocol.try_root_message().is_none());
}

#[test]
fn try_root_message_agrees_with_root_message() {
    let protocol = Protocol {
        messages: vec![bpir_message("First", false), bpir_message("Second", true)],
        attributes: vec![],
    };
    let root = protocol.try_root_message().unwrap();
    assert_eq!(root.name, "Second");
}
