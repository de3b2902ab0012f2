use robusto::common_ast::{AstNode, AstNodeType, FieldBaseType};
use robusto::representation::{
    Field, FieldAttribute, FieldType, MaxLengthFieldAttribute, Message, Protocol, RegexFieldType,
};

fn tree_field(name: &str, pattern: &str, bounds: Vec<usize>) -> Field {
    Field {
        name: String::from(name),
        field_type: FieldType::Regex(RegexFieldType { regex: String::from(pattern) }),
        attributes: bounds
            .into_iter()
            .map(|value| FieldAttribute::MaxLength(MaxLengthFieldAttribute { value }))
            .collect(),
    }
}

fn tree_protocol(messages: Vec<Message>) -> Protocol {
    Protocol { messages, attributes: vec![] }
}

fn test_message(bounds: Vec<usize>) -> Message {
    Message {
        name: String::from("TestMessage"),
        fields: vec![tree_field("preamble", "\\xfe", bounds)],
        attributes: vec![],
    }
}

#[test]
fn message_lowers_to_four_subtrees_in_order() {
    let protocol = tree_protocol(vec![test_message(vec![])]);
    let tree = AstNode::new_from_protocol(&protocol);

    assert_eq!(tree.ast_node_type, AstNodeType::Root);
    assert_eq!(tree.children.len(), 4);
    match &tree.children[0].ast_node_type {
        AstNodeType::MachineHeader(header) => assert_eq!(header.machine_name, "TestMessage"),
        other => panic!("expected a machine header, got {:?}", other),
    }
    assert!(tree.children[0].children.is_empty());
    match &tree.children[1].ast_node_type {
        AstNodeType::MessageStruct(node) => assert_eq!(node.message_name, "TestMessage"),
        other => panic!("expected a message struct, got {:?}", other),
    }
    match &tree.children[2].ast_node_type {
        AstNodeType::MachineDefinition(node) => {
            assert_eq!(node.machine_name, "TestMessage");
            assert_eq!(node.fields, vec![String::from("preamble")]);
        },
        other => panic!("expected a machine definition, got {:?}", other),
    }
    match &tree.children[3].ast_node_type {
        AstNodeType::ParsingFunction(node) => assert_eq!(node.message_name, "TestMessage"),
        other => panic!("expected a parsing function, got {:?}", other),
    }
}

#[test]
fn struct_members_match_fields_with_default_bound() {
    let message = Message {
        name: String::from("TestMessage"),
        fields: vec![
            tree_field("preamble", "\\xfe", vec![]),
            tree_field("payload", "\\x00", vec![16]),
        ],
        attributes: vec![],
    };
    let protocol = tree_protocol(vec![message]);
    let tree = AstNode::new_from_protocol(&protocol);

    let struct_node = &tree.children[1];
    assert_eq!(struct_node.children.len(), 2);
    match &struct_node.children[0].ast_node_type {
        AstNodeType::MessageStructMember(member) => {
            assert_eq!(member.name, "preamble");
            assert_eq!(member.field_base_type, FieldBaseType::I8);
            assert_eq!(member.array_length, 64);
            assert!(member.is_array());
        },
        other => panic!("expected a struct member, got {:?}", other),
    }
    match &struct_node.children[1].ast_node_type {
        AstNodeType::MessageStructMember(member) => {
            assert_eq!(member.name, "payload");
            assert_eq!(member.array_length, 16);
        },
        other => panic!("expected a struct member, got {:?}", other),
    }
}

#[test]
fn explicit_default_bound_matches_implicit_one() {
    let implicit = AstNode::new_from_protocol(&tree_protocol(vec![test_message(vec![])]));
    let explicit = AstNode::new_from_protocol(&tree_protocol(vec![test_message(vec![64])]));
    assert_eq!(implicit.children[1], explicit.children[1]);
}

#[test]
fn last_bound_occurrence_wins() {
    let protocol = tree_protocol(vec![test_message(vec![10, 20])]);
    let tree = AstNode::new_from_protocol(&protocol);
    match &tree.children[1].children[0].ast_node_type {
        AstNodeType::MessageStructMember(member) => assert_eq!(member.array_length, 20),
        other => panic!("expected a struct member, got {:?}", other),
    }
}

#[test]
fn zero_bound_falls_back_to_default() {
    let protocol = tree_protocol(vec![test_message(vec![0])]);
    let tree = AstNode::new_from_protocol(&protocol);
    match &tree.children[1].children[0].ast_node_type {
        AstNodeType::MessageStructMember(member) => assert_eq!(member.array_length, 64),
        other => panic!("expected a struct member, got {:?}", other),
    }
}

#[test]
fn machine_definition_holds_hook_then_matcher_per_field() {
    let protocol = tree_protocol(vec![test_message(vec![])]);
    let tree = AstNode::new_from_protocol(&protocol);

    let definition = &tree.children[2];
    assert_eq!(definition.children.len(), 2);
    match &definition.children[0].ast_node_type {
        AstNodeType::MachineActionHook(hook) => assert_eq!(hook.name, "preamble"),
        other => panic!("expected an action hook, got {:?}", other),
    }
    match &definition.children[1].ast_node_type {
        AstNodeType::RegexMachineField(matcher) => {
            assert_eq!(matcher.name, "preamble");
            assert_eq!(matcher.string_sequence, "\\xfe");
        },
        other => panic!("expected a field matcher, got {:?}", other),
    }
}

#[test]
fn second_message_doubles_subtrees_and_keeps_first() {
    let first = test_message(vec![64]);
    let single = tree_protocol(vec![test_message(vec![64])]);
    let double = tree_protocol(vec![
        first,
        Message {
            name: String::from("OtherMessage"),
            fields: vec![tree_field("sync", "\\x55", vec![8])],
            attributes: vec![],
        },
    ]);

    let small_tree = AstNode::new_from_protocol(&single);
    let large_tree = AstNode::new_from_protocol(&double);

    assert_eq!(small_tree.children.len(), 4);
    assert_eq!(large_tree.children.len(), 8);
    for i in 0..4 {
        assert_eq!(small_tree.children[i], large_tree.children[i]);
    }
    match &large_tree.children[4].ast_node_type {
        AstNodeType::MachineHeader(header) => assert_eq!(header.machine_name, "OtherMessage"),
        other => panic!("expected a machine header, got {:?}", other),
    }
}

fn erase_payload(_node: AstNodeType) -> AstNodeType {
    AstNodeType::Root
}

#[test]
fn replacement_visitor_keeps_shape_and_rewrites_payloads() {
    let protocol = tree_protocol(vec![test_message(vec![64])]);
    let tree = AstNode::new_from_protocol(&protocol);
    let rewritten = tree.apply_replacement_recursive(erase_payload);

    assert_eq!(rewritten.ast_node_type, AstNodeType::Root);
    assert_eq!(rewritten.children.len(), 4);
    for child in &rewritten.children {
        assert_eq!(child.ast_node_type, AstNodeType::Root);
    }
    assert_eq!(rewritten.children[1].children.len(), 1);
    assert_eq!(rewritten.children[2].children.len(), 2);
}
