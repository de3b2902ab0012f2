use robusto::codegen::{CodeChunk, CodeGenerationState, GenerationError, MockCodeGenerator, RawCode};
use robusto::common_ast::AstNode;
use robusto::c_backend::MessageStruct;
use robusto::representation::{
    Field, FieldAttribute, FieldType, MaxLengthFieldAttribute, Message, Protocol, RegexFieldType,
};

fn stream_protocol() -> Protocol {
    Protocol {
        messages: vec![Message {
            name: String::from("TestMessage"),
            fields: vec![Field {
                name: String::from("preamble"),
                field_type: FieldType::Regex(RegexFieldType { regex: String::from("\\xfe") }),
                attributes: vec![FieldAttribute::MaxLength(MaxLengthFieldAttribute { value: 64 })],
            }],
            attributes: vec![],
        }],
        attributes: vec![],
    }
}

#[test]
fn code_chunk_new_keeps_fields() {
    let chunk = CodeChunk::new(String::from("write data;"), 2, 1);
    assert_eq!(chunk.code, "write data;");
    assert_eq!(chunk.indent, 2);
    assert_eq!(chunk.newlines, 1);
}

#[test]
fn indent_increment_saturates_at_zero() {
    let mut state = CodeGenerationState::new();
    assert_eq!(state.indent, 0);
    state.increment_indent(2);
    assert_eq!(state.indent, 2);
    state.increment_indent(-1);
    assert_eq!(state.indent, 1);
    state.increment_indent(-5);
    assert_eq!(state.indent, 0);
}

#[test]
fn mock_generator_contributes_nothing() {
    let mock = MockCodeGenerator {};
    let mut state = CodeGenerationState::new();
    state.increment_indent(3);
    assert!(mock.generate_code_pre_traverse(&mut state).is_empty());
    assert!(mock.generate_code_post_traverse(&mut state).is_empty());
    assert_eq!(state.indent, 3);
}

#[test]
fn unrewritten_struct_node_is_a_fatal_condition() {
    // The generic structural kinds carry no rendering: a tree that reaches
    // the engine without the backend adapter pass stops with an error.
    let protocol = stream_protocol();
    let tree = AstNode::new_from_protocol(&protocol);
    let mut state = CodeGenerationState::new();
    assert_eq!(tree.generate_code(&mut state), Err(GenerationError::UnhandledNode));
}

#[test]
fn raw_code_replay_matches_direct_rendering() {
    // Record a message struct's two hooks once at base depth, then replay
    // the recording at another ambient indent: chunk for chunk the replay
    // matches rendering the node directly there, and the indent round
    // trips identically.
    let node = MessageStruct { message_name: String::from("Sample") };

    let mut capture_state = CodeGenerationState::new();
    let recorded_pre = node.generate_code_pre_traverse(&mut capture_state);
    let traverse_indent = capture_state.indent;
    let recorded_post = node.generate_code_post_traverse(&mut capture_state);
    let raw = RawCode {
        code_chunk_pre_traverse: recorded_pre,
        code_chunk_post_traverse: recorded_post,
        indent_increment: (traverse_indent - capture_state.indent) as isize,
    };

    let mut direct_state = CodeGenerationState::new();
    direct_state.increment_indent(2);
    let direct_pre = node.generate_code_pre_traverse(&mut direct_state);
    let direct_mid = direct_state.indent;
    let direct_post = node.generate_code_post_traverse(&mut direct_state);

    let mut replay_state = CodeGenerationState::new();
    replay_state.increment_indent(2);
    let replay_pre = raw.generate_code_pre_traverse(&mut replay_state);
    assert_eq!(replay_state.indent, direct_mid);
    let replay_post = raw.generate_code_post_traverse(&mut replay_state);

    assert_eq!(direct_pre, replay_pre);
    assert_eq!(direct_post, replay_post);
    assert_eq!(direct_state.indent, 2);
    assert_eq!(replay_state.indent, 2);
}
