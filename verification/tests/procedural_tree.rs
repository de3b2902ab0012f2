use robusto::c_procedural::CAst;
use robusto::procedural::Ast;
use robusto::representation::{
    Field, FieldType, Message, MessageAttribute, Protocol, RegexFieldType,
};

fn coarse_message(name: &str, root: bool) -> Message {
    Message {
        name: String::from(name),
        fields: vec![Field {
            name: String::from("preamble"),
            field_type: FieldType::Regex(RegexFieldType { regex: String::from("\\xfe") }),
            attributes: vec![],
        }],
        attributes: if root { vec![MessageAttribute::Root] } else { vec![] },
    }
}

#[test]
fn coarse_tree_holds_header_then_parsing_function() {
    let protocol = Protocol { messages: vec![coarse_message("TestMessage", false)], attributes: vec![] };
    let tree = Ast::new_from_protocol(&protocol);
    match tree {
        Ast::Sequence { blocks } => {
            assert_eq!(blocks.len(), 2);
            match &blocks[0] {
                Ast::MachineHeader { machine_name } => assert_eq!(machine_name, "TestMessage"),
                other => panic!("expected a machine header, got {:?}", other),
            }
            assert!(matches!(blocks[1], Ast::ParsingFunction));
        },
        other => panic!("expected a sequence, got {:?}", other),
    }
}

#[test]
fn coarse_tree_names_the_tagged_root() {
    let protocol = Protocol {
        messages: vec![coarse_message("First", false), coarse_message("Second", true)],
        attributes: vec![],
    };
    let tree = Ast::new_from_protocol(&protocol);
    match tree {
        Ast::Sequence { blocks } => match &blocks[0] {
            Ast::MachineHeader { machine_name } => assert_eq!(machine_name, "Second"),
            other => panic!("expected a machine header, got {:?}", other),
        },
        other => panic!("expected a sequence, got {:?}", other),
    }
}

#[test]
fn coarse_rendering_matches_templates() {
    let protocol = Protocol { messages: vec![coarse_message("TestMessage", false)], attributes: vec![] };
    let c_ast = CAst::new_from_protocol(&protocol);
    let text = c_ast.generate_to_string();
    assert_eq!(
        text,
        "%%{\n    machine TestMessage;\n    write data;\n%%}\n\nvoid parse(char *string, char *length)\n{\n}"
    );
}
