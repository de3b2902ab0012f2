use robusto::c_backend::{HeaderAstNode, SourceAstNode};
use robusto::codegen::{CodeChunk, CodeGenerationState};
use robusto::representation::{
    Field, FieldAttribute, FieldType, MaxLengthFieldAttribute, Message, Protocol, RegexFieldType,
};
use robusto::strings::append_with_indent_or_panic;

fn c_protocol(max_length: Option<usize>) -> Protocol {
    let mut attributes = Vec::new();
    if let Some(value) = max_length {
        attributes.push(FieldAttribute::MaxLength(MaxLengthFieldAttribute { value }));
    }
    Protocol {
        messages: vec![Message {
            name: String::from("TestMessage"),
            fields: vec![Field {
                name: String::from("preamble"),
                field_type: FieldType::Regex(RegexFieldType { regex: String::from("\\xfe") }),
                attributes,
            }],
            attributes: vec![],
        }],
        attributes: vec![],
    }
}

fn chunk_triples(chunks: &[CodeChunk]) -> Vec<(String, usize, usize)> {
    chunks.iter().map(|c| (c.code.clone(), c.indent, c.newlines)).collect()
}

fn render(chunks: &[CodeChunk]) -> String {
    let mut out = String::new();
    for chunk in chunks {
        append_with_indent_or_panic(&mut out, chunk.indent, &chunk.code);
        for _ in 0..chunk.newlines {
            out.push('\n');
        }
    }
    out
}

#[test]
fn source_tree_renders_expected_chunks() {
    let source = SourceAstNode::new_from_protocol(&c_protocol(Some(64)));
    let mut state = CodeGenerationState::new();
    let chunks = source.generate_code(&mut state);
    assert_eq!(state.indent, 0);

    let expected: Vec<(String, usize, usize)> = vec![
        (String::from("%%{"), 0, 1),
        (String::from("machine TestMessage;"), 1, 1),
        (String::from("write data;"), 1, 1),
        (String::from("}%%"), 0, 1),
        (String::from("struct TestMessageMessage {"), 0, 1),
        (String::from("uint8_t preamble[64];"), 1, 1),
        (String::from("};"), 0, 1),
        (String::from("%%{"), 0, 1),
        (String::from("machine TestMessage"), 1, 1),
        (String::from("write data;"), 1, 1),
        (String::from("action preamble {"), 1, 1),
        (String::from("}"), 1, 1),
        (String::from("preamble = '\\xfe' @preamble; "), 1, 1),
        (String::from("}%%"), 0, 1),
        (
            String::from("void parseTestMessage(struct TestMessageParserState *aParserState, const char *aInputBuffer, int aInputBufferLength, struct TestMessage *aTestMessage)"),
            0,
            1,
        ),
        (String::from("{"), 0, 1),
        (
            String::from("const char *p = aInputBuffer;  // Iterator \"begin\" pointer -- Ragel-specific variable for C code generation"),
            1,
            1,
        ),
        (
            String::from("const char *pe = aInputBuffer + aInputBufferLength;  // Iterator \"end\" pointer -- Ragel-specific variable for C code generation"),
            1,
            1,
        ),
        (String::from("// Parse starting from the state defined in `aParserState`"), 1, 1),
        (String::from("%% write exec;"), 1, 1),
        (String::from("}"), 0, 1),
    ];
    assert_eq!(chunk_triples(&chunks), expected);
}

#[test]
fn missing_bound_defaults_in_source_struct() {
    let source = SourceAstNode::new_from_protocol(&c_protocol(None));
    let mut state = CodeGenerationState::new();
    let chunks = source.generate_code(&mut state);
    let member = chunks.iter().find(|c| c.code.starts_with("uint8_t")).unwrap();
    assert_eq!(member.code, "uint8_t preamble[64];");
    assert_eq!(member.indent, 1);
}

#[test]
fn source_generation_round_trips_ambient_indent() {
    let source = SourceAstNode::new_from_protocol(&c_protocol(Some(64)));
    let mut state = CodeGenerationState::new();
    state.increment_indent(3);
    let _ = source.generate_code(&mut state);
    assert_eq!(state.indent, 3);
}

#[test]
fn source_text_renders_with_indentation() {
    let source = SourceAstNode::new_from_protocol(&c_protocol(Some(64)));
    let mut state = CodeGenerationState::new();
    let chunks = source.generate_code(&mut state);
    let text = render(&chunks);
    assert!(text.starts_with("%%{\n    machine TestMessage;\n    write data;\n}%%\n"));
    assert!(text.contains("struct TestMessageMessage {\n    uint8_t preamble[64];\n};\n"));
    assert!(text.contains("    preamble = '\\xfe' @preamble; \n"));
}

#[test]
fn header_tree_renders_structs_and_parser_state() {
    let header = HeaderAstNode::new_from_protocol(&c_protocol(Some(64)));
    let mut state = CodeGenerationState::new();
    let chunks = header.generate_code(&mut state);
    assert_eq!(state.indent, 0);

    let expected: Vec<(String, usize, usize)> = vec![
        (String::from("struct TestMessageMessage {"), 0, 1),
        (String::from("uint8_t preamble[64];"), 1, 1),
        (String::from("};"), 0, 1),
        (String::from("struct TestMessageParserState {"), 0, 1),
        (String::from("int machineInitRequired;"), 1, 1),
        (String::from("int cs;"), 1, 1),
        (String::from("};"), 0, 1),
    ];
    assert_eq!(chunk_triples(&chunks), expected);
}

#[test]
fn header_member_defaults_to_length_sixty_four_without_bound() {
    let header = HeaderAstNode::new_from_protocol(&c_protocol(None));
    let mut state = CodeGenerationState::new();
    let chunks = header.generate_code(&mut state);
    assert_eq!(chunks[1].code, "uint8_t preamble[64];");
}
