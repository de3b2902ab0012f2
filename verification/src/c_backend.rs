//! The C-language backend: target-specific payloads for the common AST,
//! the adapter pass that rewrites recognized common nodes into cached raw
//! code, and the two top-level trees a protocol renders to — the source
//! tree (machine blocks and functions) and the header tree (structs).

use vstd::prelude::*;
use vstd::string::StringExecFns;
use crate::codegen::{
    ChunkModel, CodeChunk, CodeGenerationState, GenerationError, RawCode, RawCodeModel,
    raw_code_post_chunks, raw_code_pre_chunks, raw_code_wf, view_chunks,
};
use crate::common_ast::{
    self, FieldBaseType, NodeKind, NodeModel, all_handled, chunk_line, generated_chunks,
    node_height, tree_raw_wf,
};
use crate::representation::{DEFAULT_MAX_LENGTH, Field, FieldAttribute, FieldType, Message, Protocol};
use crate::strings::{decimal_text, usize_to_string};

verus! {

/// The entry point of the generated parser for one message.
#[derive(Debug, PartialEq)]
pub struct ParsingFunction {
    pub message_name: String,
}

/// A per-message structure declaration in C.
#[derive(Debug, PartialEq)]
pub struct MessageStruct {
    pub message_name: String,
}

/// One member of a C message struct.
#[derive(Clone, Debug, PartialEq)]
pub struct MessageStructMember {
    pub name: String,
    pub field_base_type: FieldBaseType,

    /// If 0, it is considered just a field rather than an array.
    pub array_length: usize,
}

impl MessageStructMember {
    pub fn is_array(&self) -> (r: bool)
        ensures
            r == (self.array_length > 0),
    {
        self.array_length > 0
    }
}

/// The struct holding the parser's resumable machine state.
#[derive(Clone, Debug, PartialEq)]
pub struct ParserStateStruct {
    pub machine_name: String,
}

/// The function initializing the parser's machine state.
#[derive(Debug, PartialEq)]
pub struct ParserStateInitFunction {
    pub machine_name: String,
}

/// The C text of a member's base type.
pub open spec fn base_type_text(t: FieldBaseType) -> Seq<char> {
    match t {
        FieldBaseType::I8 => "uint8_t"@,
    }
}

/// The single line a struct member renders to.
pub open spec fn member_line_text(name: Seq<char>, t: FieldBaseType, array_length: int) -> Seq<char> {
    base_type_text(t) + " "@ + name
        + (if array_length == 0 { Seq::<char>::empty() } else { "["@ + decimal_text(array_length as nat) + "]"@ })
        + ";"@
}

/// The chunks a C message struct contributes before its members.
pub open spec fn c_message_struct_pre_chunks(name: Seq<char>, ambient: nat) -> Seq<ChunkModel> {
    seq![chunk_line("struct "@ + name + "Message {"@, ambient)]
}

/// The chunk closing a C message struct, after its members.
pub open spec fn c_message_struct_post_chunks(raised: nat) -> Seq<ChunkModel> {
    seq![chunk_line("};"@, (raised - 1) as nat)]
}

/// The single chunk a struct member contributes.
pub open spec fn c_member_chunks(name: Seq<char>, t: FieldBaseType, array_length: int, ambient: nat) -> Seq<ChunkModel> {
    seq![chunk_line(member_line_text(name, t, array_length), ambient)]
}

/// The chunks of the parser-state struct declaration.
pub open spec fn c_parser_state_struct_chunks(name: Seq<char>, ambient: nat) -> Seq<ChunkModel> {
    seq![
        chunk_line("struct "@ + name + "ParserState {"@, ambient),
        chunk_line("int machineInitRequired;"@, ambient + 1),
        chunk_line("int cs;"@, ambient + 1),
        chunk_line("};"@, ambient),
    ]
}

/// The chunks opening the parser-state initialization function.
pub open spec fn c_parser_state_init_pre_chunks(name: Seq<char>, ambient: nat) -> Seq<ChunkModel> {
    seq![
        chunk_line("void machine"@ + name + "ParserStateInit(struct "@ + name + "ParserState *aParserState)"@, ambient),
        chunk_line("{"@, ambient),
        chunk_line("aParserState->machineInitRequired = 0;"@, ambient + 1),
        chunk_line("aParserState->cs = 0;"@, ambient + 1),
    ]
}

/// The chunk closing the parser-state initialization function.
pub open spec fn c_parser_state_init_post_chunks(raised: nat) -> Seq<ChunkModel> {
    seq![chunk_line("}"@, (raised - 1) as nat)]
}

/// The chunks of one message's parsing function.
pub open spec fn c_parsing_function_chunks(name: Seq<char>, ambient: nat) -> Seq<ChunkModel> {
    seq![
        chunk_line(
            "void parse"@ + name + "(struct "@ + name
                + "ParserState *aParserState, const char *aInputBuffer, int aInputBufferLength, struct "@
                + name + " *a"@ + name + ")"@,
            ambient,
        ),
        chunk_line("{"@, ambient),
        chunk_line("const char *p = aInputBuffer;  // Iterator \"begin\" pointer -- Ragel-specific variable for C code generation"@, ambient + 1),
        chunk_line("const char *pe = aInputBuffer + aInputBufferLength;  // Iterator \"end\" pointer -- Ragel-specific variable for C code generation"@, ambient + 1),
        chunk_line("// Parse starting from the state defined in `aParserState`"@, ambient + 1),
        chunk_line("%% write exec;"@, ambient + 1),
        chunk_line("}"@, ambient),
    ]
}

impl MessageStruct {
    /// Emits the struct header and raises the indent for the members.
    pub fn generate_code_pre_traverse(&self, code_generation_state: &mut CodeGenerationState) -> (r: Vec<CodeChunk>)
        requires
            old(code_generation_state).indent + 2 <= usize::MAX,
        ensures
            final(code_generation_state).indent == old(code_generation_state).indent + 1,
            view_chunks(r@) == c_message_struct_pre_chunks(self.message_name@, old(code_generation_state).indent as nat),
    {
        let mut ret: Vec<CodeChunk> = Vec::new();
        let mut header_line = String::from_str("struct ");
        header_line.append(self.message_name.as_str());
        header_line.append("Message {");
        ret.push(CodeChunk::new(header_line, code_generation_state.indent, 1));

        code_generation_state.indent = code_generation_state.indent + 1;

        proof {
            assert(view_chunks(ret@) =~~= c_message_struct_pre_chunks(
                self.message_name@,
                old(code_generation_state).indent as nat,
            ));
        }
        ret
    }

    /// Lowers the indent back and closes the bracket.
    pub fn generate_code_post_traverse(&self, code_generation_state: &mut CodeGenerationState) -> (r: Vec<CodeChunk>)
        requires
            old(code_generation_state).indent >= 1,
        ensures
            final(code_generation_state).indent == old(code_generation_state).indent - 1,
            view_chunks(r@) == c_message_struct_post_chunks(old(code_generation_state).indent as nat),
    {
        code_generation_state.indent = code_generation_state.indent - 1;
        let mut ret: Vec<CodeChunk> = Vec::new();
        ret.push(CodeChunk::new(String::from_str("};"), code_generation_state.indent, 1));
        proof {
            assert(view_chunks(ret@) =~~= c_message_struct_post_chunks(old(code_generation_state).indent as nat));
        }
        ret
    }
}

impl MessageStructMember {
    /// Emits the member's formatted C representation.
    pub fn generate_code_pre_traverse(&self, code_generation_state: &mut CodeGenerationState) -> (r: Vec<CodeChunk>)
        ensures
            final(code_generation_state).indent == old(code_generation_state).indent,
            view_chunks(r@) == c_member_chunks(
                self.name@,
                self.field_base_type,
                self.array_length as int,
                old(code_generation_state).indent as nat,
            ),
    {
        let mut formatted = match self.field_base_type {
            FieldBaseType::I8 => String::from_str("uint8_t"),
        };
        proof {
            reveal_strlit("uint8_t");
        }
        formatted.append(" ");
        formatted.append(self.name.as_str());
        if self.array_length != 0 {
            formatted.append("[");
            let rendered_length = usize_to_string(self.array_length);
            formatted.append(rendered_length.as_str());
            formatted.append("]");
        }
        formatted.append(";");
        proof {
            assert(formatted@ =~= member_line_text(self.name@, self.field_base_type, self.array_length as int));
        }
        let mut ret: Vec<CodeChunk> = Vec::new();
        ret.push(CodeChunk::new(formatted, code_generation_state.indent, 1));
        proof {
            assert(view_chunks(ret@) =~~= c_member_chunks(
                self.name@,
                self.field_base_type,
                self.array_length as int,
                old(code_generation_state).indent as nat,
            ));
        }
        ret
    }
}

impl ParserStateStruct {
    fn generate_code_pre_traverse(&self, code_generation_state: &mut CodeGenerationState) -> (r: Vec<CodeChunk>)
        requires
            old(code_generation_state).indent + 2 <= usize::MAX,
        ensures
            final(code_generation_state).indent == old(code_generation_state).indent,
            view_chunks(r@) == c_parser_state_struct_chunks(self.machine_name@, old(code_generation_state).indent as nat),
    {
        let mut ret: Vec<CodeChunk> = Vec::new();
        let mut header_line = String::from_str("struct ");
        header_line.append(self.machine_name.as_str());
        header_line.append("ParserState {");
        ret.push(CodeChunk::new(header_line, code_generation_state.indent, 1));
        ret.push(CodeChunk::new(String::from_str("int machineInitRequired;"), code_generation_state.indent + 1, 1));
        ret.push(CodeChunk::new(String::from_str("int cs;"), code_generation_state.indent + 1, 1));
        ret.push(CodeChunk::new(String::from_str("};"), code_generation_state.indent, 1));
        proof {
            assert(view_chunks(ret@) =~~= c_parser_state_struct_chunks(
                self.machine_name@,
                old(code_generation_state).indent as nat,
            ));
        }
        ret
    }
}

impl ParserStateInitFunction {
    /// Emits the function header and opening bracket and raises the indent
    /// for the nested statements.
    pub fn generate_code_pre_traverse(&self, code_generation_state: &mut CodeGenerationState) -> (r: Vec<CodeChunk>)
        requires
            old(code_generation_state).indent + 2 <= usize::MAX,
        ensures
            final(code_generation_state).indent == old(code_generation_state).indent + 1,
            view_chunks(r@) == c_parser_state_init_pre_chunks(self.machine_name@, old(code_generation_state).indent as nat),
    {
        let mut ret: Vec<CodeChunk> = Vec::new();
        let mut header_line = String::from_str("void machine");
        header_line.append(self.machine_name.as_str());
        header_line.append("ParserStateInit(struct ");
        header_line.append(self.machine_name.as_str());
        header_line.append("ParserState *aParserState)");
        ret.push(CodeChunk::new(header_line, code_generation_state.indent, 1));
        ret.push(CodeChunk::new(String::from_str("{"), code_generation_state.indent, 1));
        code_generation_state.indent = code_generation_state.indent + 1;
        ret.push(CodeChunk::new(
            String::from_str("aParserState->machineInitRequired = 0;"),
            code_generation_state.indent,
            1,
        ));
        ret.push(CodeChunk::new(String::from_str("aParserState->cs = 0;"), code_generation_state.indent, 1));
        proof {
            assert(view_chunks(ret@) =~~= c_parser_state_init_pre_chunks(
                self.machine_name@,
                old(code_generation_state).indent as nat,
            ));
        }
        ret
    }

    /// Lowers the indent back and closes the bracket.
    pub fn generate_code_post_traverse(&self, code_generation_state: &mut CodeGenerationState) -> (r: Vec<CodeChunk>)
        requires
            old(code_generation_state).indent >= 1,
        ensures
            final(code_generation_state).indent == old(code_generation_state).indent - 1,
            view_chunks(r@) == c_parser_state_init_post_chunks(old(code_generation_state).indent as nat),
    {
        code_generation_state.indent = code_generation_state.indent - 1;
        let mut ret: Vec<CodeChunk> = Vec::new();
        ret.push(CodeChunk::new(String::from_str("}"), code_generation_state.indent, 1));
        proof {
            assert(view_chunks(ret@) =~~= c_parser_state_init_post_chunks(old(code_generation_state).indent as nat));
        }
        ret
    }
}

impl ParsingFunction {
    fn generate_code_pre_traverse(&self, code_generation_state: &mut CodeGenerationState) -> (r: Vec<CodeChunk>)
        requires
            old(code_generation_state).indent + 2 <= usize::MAX,
        ensures
            final(code_generation_state).indent == old(code_generation_state).indent,
            view_chunks(r@) == c_parsing_function_chunks(self.message_name@, old(code_generation_state).indent as nat),
    {
        let mut ret: Vec<CodeChunk> = Vec::new();
        let mut header_line = String::from_str("void parse");
        header_line.append(self.message_name.as_str());
        header_line.append("(struct ");
        header_line.append(self.message_name.as_str());
        header_line.append("ParserState *aParserState, const char *aInputBuffer, int aInputBufferLength, struct ");
        header_line.append(self.message_name.as_str());
        header_line.append(" *a");
        header_line.append(self.message_name.as_str());
        header_line.append(")");
        ret.push(CodeChunk::new(header_line, code_generation_state.indent, 1));
        ret.push(CodeChunk::new(String::from_str("{"), code_generation_state.indent, 1));
        code_generation_state.indent = code_generation_state.indent + 1;
        ret.push(CodeChunk::new(
            String::from_str("const char *p = aInputBuffer;  // Iterator \"begin\" pointer -- Ragel-specific variable for C code generation"),
            code_generation_state.indent,
            1,
        ));
        ret.push(CodeChunk::new(
            String::from_str("const char *pe = aInputBuffer + aInputBufferLength;  // Iterator \"end\" pointer -- Ragel-specific variable for C code generation"),
            code_generation_state.indent,
            1,
        ));
        ret.push(CodeChunk::new(
            String::from_str("// Parse starting from the state defined in `aParserState`"),
            code_generation_state.indent,
            1,
        ));
        ret.push(CodeChunk::new(String::from_str("%% write exec;"), code_generation_state.indent, 1));
        code_generation_state.indent = code_generation_state.indent - 1;
        ret.push(CodeChunk::new(String::from_str("}"), code_generation_state.indent, 1));
        proof {
            assert(view_chunks(ret@) =~~= c_parsing_function_chunks(
                self.message_name@,
                old(code_generation_state).indent as nat,
            ));
        }
        ret
    }
}


/// The cached raw-code form of a parsing function, recorded at base depth.
pub open spec fn raw_of_parsing_function(name: Seq<char>) -> RawCodeModel {
    RawCodeModel {
        pre: c_parsing_function_chunks(name, 0),
        post: Seq::<ChunkModel>::empty(),
        indent_increment: 0,
    }
}

/// The cached raw-code form of a C message struct, recorded at base depth.
pub open spec fn raw_of_message_struct(name: Seq<char>) -> RawCodeModel {
    RawCodeModel {
        pre: c_message_struct_pre_chunks(name, 0),
        post: c_message_struct_post_chunks(1),
        indent_increment: 1,
    }
}

/// The cached raw-code form of a struct member, recorded at base depth.
pub open spec fn raw_of_member(name: Seq<char>, t: FieldBaseType, array_length: int) -> RawCodeModel {
    RawCodeModel {
        pre: c_member_chunks(name, t, array_length, 0),
        post: Seq::<ChunkModel>::empty(),
        indent_increment: 0,
    }
}

/// The cached raw-code form of the parser-state initialization function,
/// recorded at base depth.
pub open spec fn raw_of_parser_state_init(name: Seq<char>) -> RawCodeModel {
    RawCodeModel {
        pre: c_parser_state_init_pre_chunks(name, 0),
        post: c_parser_state_init_post_chunks(1),
        indent_increment: 1,
    }
}

pub proof fn lemma_raw_templates_wf(name: Seq<char>, t: FieldBaseType, array_length: int)
    ensures
        raw_code_wf(raw_of_parsing_function(name)),
        raw_code_wf(raw_of_message_struct(name)),
        raw_code_wf(raw_of_member(name, t, array_length)),
        raw_code_wf(raw_of_parser_state_init(name)),
{
}

impl ParsingFunction {
    /// Pre-renders this node once, recording its chunk lists and the net
    /// indent change for later replay.
    fn to_raw_code(&self) -> (r: RawCode)
        ensures
            r@ == raw_of_parsing_function(self.message_name@),
    {
        let mut code_generation_state = CodeGenerationState::new();
        let code_chunk_pre_traverse = self.generate_code_pre_traverse(&mut code_generation_state);
        let traverse_indent = code_generation_state.indent;
        let indent_increment: isize = (traverse_indent - code_generation_state.indent) as isize;
        let r = RawCode {
            code_chunk_pre_traverse,
            code_chunk_post_traverse: Vec::new(),
            indent_increment,
        };
        proof {
            assert(r@ =~~= raw_of_parsing_function(self.message_name@));
        }
        r
    }
}

impl MessageStruct {
    /// Pre-renders this node once, recording both hook chunk lists and the
    /// net indent change for later replay.
    fn to_raw_code(&self) -> (r: RawCode)
        ensures
            r@ == raw_of_message_struct(self.message_name@),
    {
        let mut code_generation_state = CodeGenerationState::new();
        let code_chunk_pre_traverse = self.generate_code_pre_traverse(&mut code_generation_state);
        let traverse_indent = code_generation_state.indent;
        let code_chunk_post_traverse = self.generate_code_post_traverse(&mut code_generation_state);
        let indent_increment: isize = (traverse_indent - code_generation_state.indent) as isize;
        let r = RawCode {
            code_chunk_pre_traverse,
            code_chunk_post_traverse,
            indent_increment,
        };
        proof {
            assert(r@ =~~= raw_of_message_struct(self.message_name@));
        }
        r
    }
}

impl MessageStructMember {
    /// Pre-renders this node once, recording its chunk list for later
    /// replay.
    fn to_raw_code(&self) -> (r: RawCode)
        ensures
            r@ == raw_of_member(self.name@, self.field_base_type, self.array_length as int),
    {
        let mut code_generation_state = CodeGenerationState::new();
        let code_chunk_pre_traverse = self.generate_code_pre_traverse(&mut code_generation_state);
        let traverse_indent = code_generation_state.indent;
        let indent_increment: isize = (traverse_indent - code_generation_state.indent) as isize;
        let r = RawCode {
            code_chunk_pre_traverse,
            code_chunk_post_traverse: Vec::new(),
            indent_increment,
        };
        proof {
            assert(r@ =~~= raw_of_member(self.name@, self.field_base_type, self.array_length as int));
        }
        r
    }
}

/// The adapter rewrite of one payload: the three generic structural kinds
/// become cached raw code carrying the C templates; every other kind is
/// left untouched.
pub open spec fn preprocess_kind(k: NodeKind) -> NodeKind {
    match k {
        NodeKind::ParsingFunction { message_name } =>
            NodeKind::RawCode(raw_of_parsing_function(message_name)),
        NodeKind::MessageStruct { message_name } =>
            NodeKind::RawCode(raw_of_message_struct(message_name)),
        NodeKind::MessageStructMember { name, field_base_type, array_length } =>
            NodeKind::RawCode(raw_of_member(name, field_base_type, array_length)),
        _ => k,
    }
}

/// The adapter rewrite of a whole tree: payloads replaced, shape kept.
pub open spec fn preprocess_tree(m: NodeModel) -> NodeModel
    decreases m,
{
    NodeModel { kind: preprocess_kind(m.kind), children: preprocess_children(m.children) }
}

/// The adapter rewrite of a sequence of subtrees, in order.
pub open spec fn preprocess_children(s: Seq<NodeModel>) -> Seq<NodeModel>
    decreases s,
{
    if s.len() == 0 {
        Seq::<NodeModel>::empty()
    } else {
        preprocess_children(s.drop_last()).push(preprocess_tree(s.last()))
    }
}

pub proof fn lemma_preprocess_children(s: Seq<NodeModel>)
    ensures
        preprocess_children(s).len() == s.len(),
        forall|i: int| 0 <= i < s.len() ==> preprocess_children(s)[i] == preprocess_tree(s[i]),
    decreases s.len(),
{
    if s.len() > 0 {
        lemma_preprocess_children(s.drop_last());
    }
}

/// After the adapter rewrite, every node of the tree has a rendering: the
/// rewritten tree always generates successfully.
pub proof fn lemma_preprocess_all_handled(m: NodeModel)
    ensures
        all_handled(preprocess_tree(m)),
    decreases m,
{
    lemma_preprocess_children(m.children);
    assert forall|i: int| 0 <= i < preprocess_tree(m).children.len()
        implies all_handled(#[trigger] preprocess_tree(m).children[i]) by {
        lemma_preprocess_all_handled(m.children[i]);
    }
}

/// The adapter rewrite only introduces raw code that respects the recorded
/// indent bounds.
pub proof fn lemma_preprocess_raw_wf(m: NodeModel)
    requires
        tree_raw_wf(m),
    ensures
        tree_raw_wf(preprocess_tree(m)),
    decreases m,
{
    lemma_preprocess_children(m.children);
    match m.kind {
        NodeKind::ParsingFunction { message_name } => {
            lemma_raw_templates_wf(message_name, FieldBaseType::I8, 0);
        },
        NodeKind::MessageStruct { message_name } => {
            lemma_raw_templates_wf(message_name, FieldBaseType::I8, 0);
        },
        NodeKind::MessageStructMember { name, field_base_type, array_length } => {
            lemma_raw_templates_wf(name, field_base_type, array_length);
        },
        _ => {},
    }
    assert forall|i: int| 0 <= i < preprocess_tree(m).children.len()
        implies tree_raw_wf(#[trigger] preprocess_tree(m).children[i]) by {
        lemma_preprocess_raw_wf(m.children[i]);
    }
}

/// The adapter rewrite keeps the tree's shape, and so its height.
pub proof fn lemma_preprocess_height(m: NodeModel)
    ensures
        node_height(preprocess_tree(m)) == node_height(m),
    decreases m, 0int,
{
    lemma_preprocess_children_height(m.children);
}

proof fn lemma_preprocess_children_height(s: Seq<NodeModel>)
    ensures
        common_ast::children_height(preprocess_children(s)) == common_ast::children_height(s),
    decreases s, 1int,
{
    if s.len() > 0 {
        lemma_preprocess_children_height(s.drop_last());
        lemma_preprocess_height(s.last());
        assert(preprocess_children(s).drop_last() =~= preprocess_children(s.drop_last()));
        assert(preprocess_children(s).last() == preprocess_tree(s.last()));
        assert(preprocess_children(s).len() == s.len()) by {
            lemma_preprocess_children(s);
        }
    }
}


/// The tagged union of C-backend node kinds.
#[derive(Debug)]
pub enum AstNodeType {
    Root,
    ParsingFunction(ParsingFunction),
    ParserStateStruct(ParserStateStruct),
    ParserStateInitFunction(ParserStateInitFunction),
    MessageStruct(MessageStruct),
    MessageStructMember(MessageStructMember),
    /// A whole common-AST subtree, rendered by delegation to the common
    /// generation engine.
    Common(common_ast::AstNode),
}

/// One node of the C tree.
pub struct AstNode {
    pub ast_node_type: AstNodeType,
    pub children: Vec<AstNode>,
}

/// Mathematical model of a C-backend node payload.
#[verifier::ext_equal]
pub enum CNodeKind {
    Root,
    ParsingFunction { message_name: Seq<char> },
    ParserStateStruct { machine_name: Seq<char> },
    ParserStateInitFunction { machine_name: Seq<char> },
    MessageStruct { message_name: Seq<char> },
    MessageStructMember { name: Seq<char>, field_base_type: FieldBaseType, array_length: int },
    Common(NodeModel),
}

/// Mathematical model of a C-backend subtree.
#[verifier::ext_equal]
pub struct CNodeModel {
    pub kind: CNodeKind,
    pub children: Seq<CNodeModel>,
}

impl View for AstNodeType {
    type V = CNodeKind;

    open spec fn view(&self) -> CNodeKind {
        match self {
            AstNodeType::Root => CNodeKind::Root,
            AstNodeType::ParsingFunction(f) => CNodeKind::ParsingFunction { message_name: f.message_name@ },
            AstNodeType::ParserStateStruct(s) => CNodeKind::ParserStateStruct { machine_name: s.machine_name@ },
            AstNodeType::ParserStateInitFunction(f) => CNodeKind::ParserStateInitFunction { machine_name: f.machine_name@ },
            AstNodeType::MessageStruct(m) => CNodeKind::MessageStruct { message_name: m.message_name@ },
            AstNodeType::MessageStructMember(m) => CNodeKind::MessageStructMember {
                name: m.name@,
                field_base_type: m.field_base_type,
                array_length: m.array_length as int,
            },
            AstNodeType::Common(n) => CNodeKind::Common(common_ast::node_model(*n)),
        }
    }
}

/// The model of a whole C tree.
pub open spec fn c_node_model(n: AstNode) -> CNodeModel
    decreases n,
{
    CNodeModel { kind: n.ast_node_type@, children: c_children_models(n.children@) }
}

/// The models of a sequence of C subtrees, in order.
pub open spec fn c_children_models(s: Seq<AstNode>) -> Seq<CNodeModel>
    decreases s,
{
    if s.len() == 0 {
        Seq::<CNodeModel>::empty()
    } else {
        c_children_models(s.drop_last()).push(c_node_model(s.last()))
    }
}

pub proof fn lemma_c_children_models(s: Seq<AstNode>)
    ensures
        c_children_models(s).len() == s.len(),
        forall|i: int| 0 <= i < s.len() ==> c_children_models(s)[i] == c_node_model(s[i]),
    decreases s.len(),
{
    if s.len() > 0 {
        lemma_c_children_models(s.drop_last());
    }
}

pub proof fn lemma_c_children_models_push(s: Seq<AstNode>, x: AstNode)
    ensures
        c_children_models(s.push(x)) == c_children_models(s).push(c_node_model(x)),
{
    assert(s.push(x).drop_last() =~= s);
    assert(s.push(x).last() == x);
}

/// Whether the C engine has a rendering for the node kind: it has one for
/// every C-specific kind, and for an embedded common subtree exactly when
/// the common engine has one for all of it.
pub open spec fn c_kind_handled(k: CNodeKind) -> bool {
    match k {
        CNodeKind::Common(t) => all_handled(t),
        _ => true,
    }
}

/// Whether every node of the C subtree has a rendering.
pub open spec fn c_all_handled(m: CNodeModel) -> bool
    decreases m,
{
    c_kind_handled(m.kind) && forall|i: int| 0 <= i < m.children.len() ==> c_all_handled(#[trigger] m.children[i])
}

/// Whether every raw-code payload embedded in the C subtree respects the
/// recorded indent bounds.
pub open spec fn c_kind_raw_wf(k: CNodeKind) -> bool {
    match k {
        CNodeKind::Common(t) => tree_raw_wf(t),
        _ => true,
    }
}

pub open spec fn c_tree_raw_wf(m: CNodeModel) -> bool
    decreases m,
{
    c_kind_raw_wf(m.kind) && forall|i: int| 0 <= i < m.children.len() ==> c_tree_raw_wf(#[trigger] m.children[i])
}

/// The depth an embedded common subtree adds below the node itself.
pub open spec fn c_kind_height(k: CNodeKind) -> nat {
    match k {
        CNodeKind::Common(t) => node_height(t),
        _ => 0,
    }
}

/// The height of a C subtree, counting embedded common subtrees.
pub open spec fn c_node_height(m: CNodeModel) -> nat
    decreases m, 0int,
{
    if c_kind_height(m.kind) >= c_children_height(m.children) {
        1 + c_kind_height(m.kind)
    } else {
        1 + c_children_height(m.children)
    }
}

/// The tallest height among the C subtrees.
pub open spec fn c_children_height(s: Seq<CNodeModel>) -> nat
    decreases s, 1int,
{
    if s.len() == 0 {
        0
    } else if c_node_height(s.last()) >= c_children_height(s.drop_last()) {
        c_node_height(s.last())
    } else {
        c_children_height(s.drop_last())
    }
}

pub proof fn lemma_c_children_height(s: Seq<CNodeModel>)
    ensures
        forall|i: int| 0 <= i < s.len() ==> c_node_height(#[trigger] s[i]) <= c_children_height(s),
    decreases s.len(),
{
    if s.len() > 0 {
        lemma_c_children_height(s.drop_last());
        assert forall|i: int| 0 <= i < s.len() implies c_node_height(#[trigger] s[i]) <= c_children_height(s) by {
            if i < s.len() - 1 {
                assert(s.drop_last()[i] == s[i]);
            }
        }
    }
}

/// How much the C node kind raises the ambient indent while its children
/// render.
pub open spec fn c_kind_indent_increment(k: CNodeKind) -> int {
    match k {
        CNodeKind::MessageStruct { .. } => 1,
        CNodeKind::ParserStateInitFunction { .. } => 1,
        _ => 0,
    }
}

/// The chunks the C node kind contributes before its children.
pub open spec fn c_pre_chunks(k: CNodeKind, ambient: nat) -> Seq<ChunkModel> {
    match k {
        CNodeKind::Root => Seq::<ChunkModel>::empty(),
        CNodeKind::ParsingFunction { message_name } => c_parsing_function_chunks(message_name, ambient),
        CNodeKind::ParserStateStruct { machine_name } => c_parser_state_struct_chunks(machine_name, ambient),
        CNodeKind::ParserStateInitFunction { machine_name } => c_parser_state_init_pre_chunks(machine_name, ambient),
        CNodeKind::MessageStruct { message_name } => c_message_struct_pre_chunks(message_name, ambient),
        CNodeKind::MessageStructMember { name, field_base_type, array_length } =>
            c_member_chunks(name, field_base_type, array_length, ambient),
        CNodeKind::Common(t) => generated_chunks(t, ambient),
    }
}

/// The chunks the C node kind contributes after its children, given the
/// ambient indent as the children left it.
pub open spec fn c_post_chunks(k: CNodeKind, raised: nat) -> Seq<ChunkModel> {
    match k {
        CNodeKind::MessageStruct { .. } => c_message_struct_post_chunks(raised),
        CNodeKind::ParserStateInitFunction { .. } => c_parser_state_init_post_chunks(raised),
        _ => Seq::<ChunkModel>::empty(),
    }
}

/// The chunks an entire C subtree contributes, children in order between
/// the two hooks, with the net-zero indent round trip.
pub open spec fn c_generated_chunks(m: CNodeModel, ambient: nat) -> Seq<ChunkModel>
    decreases m, 0int,
{
    let raised = (ambient + c_kind_indent_increment(m.kind)) as nat;
    c_pre_chunks(m.kind, ambient) + c_sibling_chunks_from(m.children, raised, 0) + c_post_chunks(m.kind, raised)
}

/// The chunks the C subtrees from position `k` on contribute, in order.
pub open spec fn c_sibling_chunks_from(s: Seq<CNodeModel>, ambient: nat, k: int) -> Seq<ChunkModel>
    decreases s, s.len() - k,
{
    if k < 0 || k >= s.len() {
        Seq::<ChunkModel>::empty()
    } else {
        c_generated_chunks(s[k], ambient) + c_sibling_chunks_from(s, ambient, k + 1)
    }
}

impl AstNodeType {
    /// The pre-traversal hook of whichever payload the node carries; an
    /// embedded common subtree is rendered whole by the common engine.
    pub fn generate_code_pre_traverse(&self, code_generation_state: &mut CodeGenerationState) -> (r: Result<Vec<CodeChunk>, GenerationError>)
        requires
            c_kind_raw_wf(self@),
            old(code_generation_state).indent + c_kind_height(self@) + 2 <= usize::MAX,
        ensures
            r is Ok <==> c_kind_handled(self@),
            r matches Ok(chunks) ==> {
                &&& final(code_generation_state).indent == old(code_generation_state).indent + c_kind_indent_increment(self@)
                &&& view_chunks(chunks@) == c_pre_chunks(self@, old(code_generation_state).indent as nat)
            },
    {
        match self {
            AstNodeType::ParsingFunction(node) => Ok(node.generate_code_pre_traverse(code_generation_state)),
            AstNodeType::ParserStateStruct(node) => Ok(node.generate_code_pre_traverse(code_generation_state)),
            AstNodeType::ParserStateInitFunction(node) => Ok(node.generate_code_pre_traverse(code_generation_state)),
            AstNodeType::MessageStruct(node) => Ok(node.generate_code_pre_traverse(code_generation_state)),
            AstNodeType::MessageStructMember(node) => Ok(node.generate_code_pre_traverse(code_generation_state)),
            AstNodeType::Common(node) => node.generate_code(code_generation_state),
            AstNodeType::Root => {
                let empty_chunks: Vec<CodeChunk> = Vec::new();
                proof {
                    assert(view_chunks(empty_chunks@) =~~= c_pre_chunks(self@, code_generation_state.indent as nat));
                }
                Ok(empty_chunks)
            },
        }
    }

    /// The post-traversal hook of whichever payload the node carries.
    pub fn generate_code_post_traverse(&self, code_generation_state: &mut CodeGenerationState) -> (r: Vec<CodeChunk>)
        requires
            old(code_generation_state).indent >= c_kind_indent_increment(self@),
        ensures
            final(code_generation_state).indent == old(code_generation_state).indent - c_kind_indent_increment(self@),
            view_chunks(r@) == c_post_chunks(self@, old(code_generation_state).indent as nat),
    {
        match self {
            AstNodeType::MessageStruct(node) => node.generate_code_post_traverse(code_generation_state),
            AstNodeType::ParserStateInitFunction(node) => node.generate_code_post_traverse(code_generation_state),
            _ => {
                let empty_chunks: Vec<CodeChunk> = Vec::new();
                proof {
                    assert(view_chunks(empty_chunks@) =~~= c_post_chunks(self@, code_generation_state.indent as nat));
                }
                empty_chunks
            },
        }
    }
}

impl AstNode {
    /// An empty root node.
    pub fn new() -> (r: AstNode)
        ensures
            c_node_model(r) == (CNodeModel { kind: CNodeKind::Root, children: Seq::<CNodeModel>::empty() }),
    {
        AstNode { ast_node_type: AstNodeType::Root, children: Vec::new() }
    }

    /// Adds a new childless node under this one.
    pub fn add_child(&mut self, ast_node_type: AstNodeType)
        ensures
            final(self).ast_node_type == old(self).ast_node_type,
            c_node_model(*final(self)).children
                == c_node_model(*old(self)).children.push(CNodeModel { kind: ast_node_type@, children: Seq::<CNodeModel>::empty() }),
    {
        let ghost kind_model: CNodeKind = ast_node_type@;
        let child = AstNode { ast_node_type, children: Vec::new() };
        proof {
            assert(c_node_model(child) =~~= (CNodeModel { kind: kind_model, children: Seq::<CNodeModel>::empty() }));
            lemma_c_children_models_push(self.children@, child);
        }
        self.children.push(child);
    }

    /// Renders the whole C subtree depth-first, children strictly between
    /// the two hooks, with the net-zero indent round trip.
    pub fn generate_code(&self, code_generation_state: &mut CodeGenerationState) -> (r: Result<Vec<CodeChunk>, GenerationError>)
        requires
            c_tree_raw_wf(c_node_model(*self)),
            old(code_generation_state).indent + c_node_height(c_node_model(*self)) + 1 <= usize::MAX,
        ensures
            r is Ok <==> c_all_handled(c_node_model(*self)),
            r matches Ok(chunks) ==> {
                &&& final(code_generation_state).indent == old(code_generation_state).indent
                &&& view_chunks(chunks@) == c_generated_chunks(c_node_model(*self), old(code_generation_state).indent as nat)
            },
        decreases *self,
    {
        let ghost m: CNodeModel = c_node_model(*self);
        let ghost a0: nat = code_generation_state.indent as nat;
        proof {
            lemma_c_children_models(self.children@);
            lemma_c_children_height(m.children);
        }

        let mut ret: Vec<CodeChunk> = match self.ast_node_type.generate_code_pre_traverse(code_generation_state) {
            Ok(chunks) => chunks,
            Err(e) => {
                return Err(e);
            },
        };
        let ghost raised: nat = (a0 + c_kind_indent_increment(m.kind)) as nat;
        proof {
            assert(view_chunks(ret@) + c_sibling_chunks_from(m.children, raised, 0)
                =~~= c_pre_chunks(m.kind, a0) + c_sibling_chunks_from(m.children, raised, 0));
        }

        let mut i: usize = 0;
        while i < self.children.len()
            invariant
                0 <= i <= self.children@.len(),
                m == c_node_model(*self),
                a0 == old(code_generation_state).indent as nat,
                raised == a0 + c_kind_indent_increment(m.kind),
                c_kind_handled(m.kind),
                c_tree_raw_wf(m),
                a0 + c_node_height(m) + 1 <= usize::MAX,
                code_generation_state.indent as int == a0 + c_kind_indent_increment(m.kind),
                view_chunks(ret@) + c_sibling_chunks_from(m.children, raised, i as int)
                    == c_pre_chunks(m.kind, a0) + c_sibling_chunks_from(m.children, raised, 0),
                forall|j: int| 0 <= j < i ==> c_all_handled(#[trigger] m.children[j]),
            decreases self.children@.len() - i,
        {
            proof {
                lemma_c_children_models(self.children@);
                lemma_c_children_height(m.children);
                assert(c_node_model(self.children@[i as int]) == m.children[i as int]);
                assert(c_tree_raw_wf(m.children[i as int]));
                assert(c_node_height(m.children[i as int]) <= c_children_height(m.children));
                assert(c_kind_indent_increment(m.kind) <= 1);
            }
            let child_result = self.children[i].generate_code(code_generation_state);
            match child_result {
                Ok(mut child_chunks) => {
                    proof {
                        assert(c_sibling_chunks_from(m.children, raised, i as int)
                            == c_generated_chunks(m.children[i as int], raised)
                                + c_sibling_chunks_from(m.children, raised, i + 1));
                    }
                    let ghost before: Seq<CodeChunk> = ret@;
                    let ghost incoming: Seq<CodeChunk> = child_chunks@;
                    ret.append(&mut child_chunks);
                    proof {
                        assert(view_chunks(before + incoming) =~~= view_chunks(before) + view_chunks(incoming));
                        assert(view_chunks(ret@) + c_sibling_chunks_from(m.children, raised, i + 1)
                            =~~= c_pre_chunks(m.kind, a0) + c_sibling_chunks_from(m.children, raised, 0));
                    }
                },
                Err(e) => {
                    proof {
                        assert(!c_all_handled(m.children[i as int]));
                        assert(!c_all_handled(m));
                    }
                    return Err(e);
                },
            }
            i = i + 1;
        }

        proof {
            lemma_c_children_models(self.children@);
            assert(c_sibling_chunks_from(m.children, raised, i as int) =~~= Seq::<ChunkModel>::empty());
        }
        let mut post_chunks_vec = self.ast_node_type.generate_code_post_traverse(code_generation_state);
        let ghost before: Seq<CodeChunk> = ret@;
        let ghost incoming: Seq<CodeChunk> = post_chunks_vec@;
        ret.append(&mut post_chunks_vec);
        proof {
            assert(c_all_handled(m));
            assert(view_chunks(before + incoming) =~~= view_chunks(before) + view_chunks(incoming));
            assert(view_chunks(before) =~~= c_pre_chunks(m.kind, a0) + c_sibling_chunks_from(m.children, raised, 0));
            assert(view_chunks(ret@) =~~= c_generated_chunks(m, a0));
        }
        Ok(ret)
    }
}


proof fn lemma_preprocess_models<F: Fn(common_ast::AstNodeType) -> common_ast::AstNodeType>(
    f: F,
    a: common_ast::AstNode,
    b: common_ast::AstNode,
)
    requires
        common_ast::replacement_applied(f, a, b),
        forall|t: common_ast::AstNodeType, r: common_ast::AstNodeType|
            call_ensures(f, (t,), r) ==> r@ == preprocess_kind(t@),
    ensures
        common_ast::node_model(b) == preprocess_tree(common_ast::node_model(a)),
    decreases a,
{
    common_ast::lemma_children_models(a.children@);
    common_ast::lemma_children_models(b.children@);
    lemma_preprocess_children(common_ast::node_model(a).children);
    assert forall|i: int| 0 <= i < a.children@.len()
        implies common_ast::node_model(b.children@[i])
            == preprocess_tree(common_ast::node_model(#[trigger] a.children@[i])) by {
        lemma_preprocess_models(f, a.children@[i], b.children@[i]);
    }
    assert(common_ast::node_model(b).children
        =~~= preprocess_tree(common_ast::node_model(a)).children);
    assert(common_ast::node_model(b) =~~= preprocess_tree(common_ast::node_model(a)));
}

/// The common tree a protocol lowers to contains no raw code yet.
proof fn lemma_protocol_tree_raw_wf(p: Protocol)
    ensures
        tree_raw_wf(common_ast::protocol_tree_model(p)),
{
    let subtrees = common_ast::protocol_tree_model(p).children;
    lemma_protocol_subtrees_raw_wf(p, p.messages@.len() as int);
}

proof fn lemma_message_nodes_raw_wf(m: Message)
    ensures
        forall|t: int| 0 <= t < common_ast::message_nodes_model(m).len()
            ==> tree_raw_wf(#[trigger] common_ast::message_nodes_model(m)[t]),
{
    let nodes = common_ast::message_nodes_model(m);
    assert forall|t: int| 0 <= t < nodes.len() implies tree_raw_wf(#[trigger] nodes[t]) by {
        if t == 1 {
            let children = common_ast::message_struct_node_model(m).children;
            assert forall|i: int| 0 <= i < children.len() implies tree_raw_wf(#[trigger] children[i]) by {
                assert(children[i] == common_ast::member_node_model(m.fields@[i]));
            }
        } else if t == 2 {
            let children = common_ast::machine_definition_node_model(m).children;
            let nf = m.fields@.len() as int;
            assert forall|i: int| 0 <= i < children.len() implies tree_raw_wf(#[trigger] children[i]) by {
                if i < nf {
                    assert(children[i] == common_ast::action_hook_node_model(m.fields@[i]));
                } else {
                    assert(children[i] == common_ast::field_matcher_node_model(m.fields@[i - nf]));
                }
            }
        }
    }
}

proof fn lemma_protocol_subtrees_raw_wf(p: Protocol, k: int)
    ensures
        forall|t: int| 0 <= t < common_ast::protocol_subtrees_upto(p, k).len()
            ==> tree_raw_wf(#[trigger] common_ast::protocol_subtrees_upto(p, k)[t]),
    decreases k,
{
    if k > 0 {
        lemma_protocol_subtrees_raw_wf(p, k - 1);
        lemma_message_nodes_raw_wf(p.messages@[k - 1]);
        let prefix = common_ast::protocol_subtrees_upto(p, k - 1);
        let last = common_ast::message_nodes_model(p.messages@[k - 1]);
        assert forall|t: int| 0 <= t < (prefix + last).len()
            implies tree_raw_wf(#[trigger] (prefix + last)[t]) by {
            if t < prefix.len() {
                assert((prefix + last)[t] == prefix[t]);
            } else {
                assert((prefix + last)[t] == last[t - prefix.len()]);
            }
        }
    }
}

proof fn lemma_message_nodes_height(m: Message)
    ensures
        forall|t: int| 0 <= t < common_ast::message_nodes_model(m).len()
            ==> node_height(#[trigger] common_ast::message_nodes_model(m)[t]) <= 2,
{
    let nodes = common_ast::message_nodes_model(m);
    assert forall|t: int| 0 <= t < nodes.len() implies node_height(#[trigger] nodes[t]) <= 2 by {
        if t == 1 {
            let children = common_ast::message_struct_node_model(m).children;
            assert forall|i: int| 0 <= i < children.len()
                implies node_height(#[trigger] children[i]) <= 1 by {
                assert(children[i] == common_ast::member_node_model(m.fields@[i]));
            }
            common_ast::lemma_children_height_le(children, 1);
        } else if t == 2 {
            let children = common_ast::machine_definition_node_model(m).children;
            let nf = m.fields@.len() as int;
            assert forall|i: int| 0 <= i < children.len()
                implies node_height(#[trigger] children[i]) <= 1 by {
                if i < nf {
                    assert(children[i] == common_ast::action_hook_node_model(m.fields@[i]));
                } else {
                    assert(children[i] == common_ast::field_matcher_node_model(m.fields@[i - nf]));
                }
            }
            common_ast::lemma_children_height_le(children, 1);
        }
    }
}

proof fn lemma_protocol_subtrees_height(p: Protocol, k: int)
    ensures
        forall|t: int| 0 <= t < common_ast::protocol_subtrees_upto(p, k).len()
            ==> node_height(#[trigger] common_ast::protocol_subtrees_upto(p, k)[t]) <= 2,
    decreases k,
{
    if k > 0 {
        lemma_protocol_subtrees_height(p, k - 1);
        lemma_message_nodes_height(p.messages@[k - 1]);
        let prefix = common_ast::protocol_subtrees_upto(p, k - 1);
        let last = common_ast::message_nodes_model(p.messages@[k - 1]);
        assert forall|t: int| 0 <= t < (prefix + last).len()
            implies node_height(#[trigger] (prefix + last)[t]) <= 2 by {
            if t < prefix.len() {
                assert((prefix + last)[t] == prefix[t]);
            } else {
                assert((prefix + last)[t] == last[t - prefix.len()]);
            }
        }
    }
}

/// The common tree a protocol lowers to is at most three levels deep.
proof fn lemma_protocol_tree_height(p: Protocol)
    ensures
        node_height(common_ast::protocol_tree_model(p)) <= 3,
{
    lemma_protocol_subtrees_height(p, p.messages@.len() as int);
    common_ast::lemma_children_height_le(common_ast::protocol_tree_model(p).children, 2);
}

/// The source tree a protocol renders to: an empty root above one node
/// embedding the adapter-rewritten common tree.
pub open spec fn source_tree_model(p: Protocol) -> CNodeModel {
    CNodeModel {
        kind: CNodeKind::Root,
        children: seq![
            CNodeModel {
                kind: CNodeKind::Common(preprocess_tree(common_ast::protocol_tree_model(p))),
                children: Seq::<CNodeModel>::empty(),
            },
        ],
    }
}

/// The tree for generating the C source file: the common tree of the
/// protocol with every recognized node rewritten into its C raw-code form.
pub struct SourceAstNode {
    ast_node: AstNode,
}

impl SourceAstNode {
    /// The model of the held tree.
    pub closed spec fn model(&self) -> CNodeModel {
        c_node_model(self.ast_node)
    }

    /// A tree ready for generation: bounded raw code, a rendering for
    /// every node, and the fixed shallow shape.
    pub open spec fn wf(&self) -> bool {
        &&& c_tree_raw_wf(self.model())
        &&& c_all_handled(self.model())
        &&& c_node_height(self.model()) <= 5
    }

    /// Replaces the platform-independent payloads that have a C rendering
    /// by their cached raw-code forms.
    fn preprocess_common(common: common_ast::AstNodeType) -> (r: common_ast::AstNodeType)
        ensures
            r@ == preprocess_kind(common@),
    {
        match common {
            common_ast::AstNodeType::ParsingFunction(node) => {
                let replacement = ParsingFunction { message_name: node.message_name };
                common_ast::AstNodeType::RawCode(replacement.to_raw_code())
            },
            common_ast::AstNodeType::MessageStruct(node) => {
                let replacement = MessageStruct { message_name: node.message_name };
                common_ast::AstNodeType::RawCode(replacement.to_raw_code())
            },
            common_ast::AstNodeType::MessageStructMember(node) => {
                let replacement = MessageStructMember {
                    name: node.name,
                    field_base_type: node.field_base_type,
                    array_length: node.array_length,
                };
                common_ast::AstNodeType::RawCode(replacement.to_raw_code())
            },
            other => other,
        }
    }

    /// Lowers the protocol to the common tree, rewrites every recognized
    /// node into its C raw-code form, and wraps the result for generation.
    pub fn new_from_protocol(protocol: &Protocol) -> (r: SourceAstNode)
        ensures
            r.model() == source_tree_model(*protocol),
            r.wf(),
    {
        let common_tree = common_ast::AstNode::new_from_protocol(protocol);
        let ghost common_value: common_ast::AstNode = common_tree;
        let ghost common_model: NodeModel = common_ast::node_model(common_tree);

        let preprocessed = common_tree.apply_replacement_recursive(SourceAstNode::preprocess_common);
        proof {
            lemma_preprocess_models(SourceAstNode::preprocess_common, common_value, preprocessed);
            lemma_preprocess_all_handled(common_model);
            lemma_protocol_tree_raw_wf(*protocol);
            lemma_preprocess_raw_wf(common_model);
            lemma_preprocess_height(common_model);
            lemma_protocol_tree_height(*protocol);
        }

        let mut ret = AstNode::new();
        ret.add_child(AstNodeType::Common(preprocessed));
        let result = SourceAstNode { ast_node: ret };
        proof {
            let t = preprocess_tree(common_ast::protocol_tree_model(*protocol));
            let embedded = CNodeModel { kind: CNodeKind::Common(t), children: Seq::<CNodeModel>::empty() };
            assert(result.model() =~~= source_tree_model(*protocol));
            assert(c_children_height(seq![embedded]) == c_node_height(embedded)) by {
                assert(seq![embedded].last() == embedded);
                assert(seq![embedded].drop_last() =~= Seq::<CNodeModel>::empty());
            }
            assert(c_node_height(result.model()) <= 5);
            assert forall|i: int| 0 <= i < result.model().children.len()
                implies c_all_handled(#[trigger] result.model().children[i])
                    && c_tree_raw_wf(result.model().children[i]) by {
                assert(result.model().children[i] == embedded);
            }
        }
        result
    }

    /// Renders the source tree as the ordered chunk sequence, leaving the
    /// shared indent where it started.
    pub fn generate_code(&self, code_generation_state: &mut CodeGenerationState) -> (r: Vec<CodeChunk>)
        requires
            self.wf(),
            old(code_generation_state).indent + 6 <= usize::MAX,
        ensures
            final(code_generation_state).indent == old(code_generation_state).indent,
            view_chunks(r@) == c_generated_chunks(self.model(), old(code_generation_state).indent as nat),
    {
        match self.ast_node.generate_code(code_generation_state) {
            Ok(chunks) => chunks,
            Err(_) => {
                proof {
                    assert(false);
                }
                vstd::pervasive::unreached()
            },
        }
    }
}


/// The array length a field resolves to in the header tree: the last
/// explicit `MaxLength` bound among the first `k` attributes, else the
/// default bound.
pub open spec fn header_array_length_upto(attrs: Seq<FieldAttribute>, k: int) -> int
    decreases k,
{
    if k <= 0 {
        DEFAULT_MAX_LENGTH as int
    } else if attrs[k - 1] is MaxLength {
        (attrs[k - 1]->0).value as int
    } else {
        header_array_length_upto(attrs, k - 1)
    }
}

/// The header-tree member a field lowers to.
pub open spec fn header_member_model(f: Field) -> CNodeModel {
    CNodeModel {
        kind: CNodeKind::MessageStructMember {
            name: f.name@,
            field_base_type: common_ast::base_type_of(f.field_type),
            array_length: header_array_length_upto(f.attributes@, f.attributes@.len() as int),
        },
        children: Seq::<CNodeModel>::empty(),
    }
}

/// The header-tree struct a message lowers to: one member per field.
pub open spec fn header_struct_model(m: Message) -> CNodeModel {
    CNodeModel {
        kind: CNodeKind::MessageStruct { message_name: m.name@ },
        children: Seq::new(m.fields@.len(), |i: int| header_member_model(m.fields@[i])),
    }
}

/// The two header subtrees a message lowers to: its struct and its
/// parser-state struct.
pub open spec fn header_nodes_model(m: Message) -> Seq<CNodeModel> {
    seq![
        header_struct_model(m),
        CNodeModel {
            kind: CNodeKind::ParserStateStruct { machine_name: m.name@ },
            children: Seq::<CNodeModel>::empty(),
        },
    ]
}

/// The header subtrees of the first `k` messages, in declaration order.
pub open spec fn header_subtrees_upto(p: Protocol, k: int) -> Seq<CNodeModel>
    decreases k,
{
    if k <= 0 {
        Seq::<CNodeModel>::empty()
    } else {
        header_subtrees_upto(p, k - 1) + header_nodes_model(p.messages@[k - 1])
    }
}

/// The tree for generating the C header file.
pub open spec fn header_tree_model(p: Protocol) -> CNodeModel {
    CNodeModel { kind: CNodeKind::Root, children: header_subtrees_upto(p, p.messages@.len() as int) }
}

proof fn lemma_c_children_height_le(s: Seq<CNodeModel>, b: nat)
    requires
        forall|i: int| 0 <= i < s.len() ==> c_node_height(#[trigger] s[i]) <= b,
    ensures
        c_children_height(s) <= b,
    decreases s.len(),
{
    if s.len() > 0 {
        assert forall|i: int| 0 <= i < s.drop_last().len()
            implies c_node_height(#[trigger] s.drop_last()[i]) <= b by {
            assert(s.drop_last()[i] == s[i]);
        }
        lemma_c_children_height_le(s.drop_last(), b);
        assert(c_node_height(s.last()) <= b);
    }
}

proof fn lemma_header_subtrees_wf(p: Protocol, k: int)
    ensures
        forall|t: int| 0 <= t < header_subtrees_upto(p, k).len() ==> {
            &&& c_tree_raw_wf(#[trigger] header_subtrees_upto(p, k)[t])
            &&& c_all_handled(header_subtrees_upto(p, k)[t])
            &&& c_node_height(header_subtrees_upto(p, k)[t]) <= 2
        },
    decreases k,
{
    if k > 0 {
        lemma_header_subtrees_wf(p, k - 1);
        let prefix = header_subtrees_upto(p, k - 1);
        let last = header_nodes_model(p.messages@[k - 1]);
        assert forall|t: int| 0 <= t < last.len() implies {
            &&& c_tree_raw_wf(#[trigger] last[t])
            &&& c_all_handled(last[t])
            &&& c_node_height(last[t]) <= 2
        } by {
            if t == 0 {
                let children = header_struct_model(p.messages@[k - 1]).children;
                assert forall|i: int| 0 <= i < children.len() implies {
                    &&& c_tree_raw_wf(#[trigger] children[i])
                    &&& c_all_handled(children[i])
                    &&& c_node_height(children[i]) <= 1
                } by {
                    assert(children[i] == header_member_model(p.messages@[k - 1].fields@[i]));
                }
                lemma_c_children_height_le(children, 1);
            }
        }
        assert forall|t: int| 0 <= t < (prefix + last).len() implies {
            &&& c_tree_raw_wf(#[trigger] (prefix + last)[t])
            &&& c_all_handled((prefix + last)[t])
            &&& c_node_height((prefix + last)[t]) <= 2
        } by {
            if t < prefix.len() {
                assert((prefix + last)[t] == prefix[t]);
            } else {
                assert((prefix + last)[t] == last[t - prefix.len()]);
            }
        }
    }
}

/// The tree for generating C header files: message structs and
/// parser-state structs, one pair per message.
pub struct HeaderAstNode {
    ast_node: AstNode,
}

impl HeaderAstNode {
    /// The model of the held tree.
    pub closed spec fn model(&self) -> CNodeModel {
        c_node_model(self.ast_node)
    }

    /// A tree ready for generation.
    pub open spec fn wf(&self) -> bool {
        &&& c_tree_raw_wf(self.model())
        &&& c_all_handled(self.model())
        &&& c_node_height(self.model()) <= 3
    }

    /// Lowers the protocol straight into the header tree: per message, its
    /// struct (one member per field, the array length taken from the last
    /// `MaxLength` attribute, else the default bound) and its parser-state
    /// struct.
    pub fn new_from_protocol(protocol: &Protocol) -> (r: HeaderAstNode)
        ensures
            r.model() == header_tree_model(*protocol),
            r.wf(),
    {
        let mut ret = AstNode::new();

        let mut mi: usize = 0;
        while mi < protocol.messages.len()
            invariant
                0 <= mi <= protocol.messages@.len(),
                ret.ast_node_type@ == CNodeKind::Root,
                c_node_model(ret).children == header_subtrees_upto(*protocol, mi as int),
            decreases protocol.messages@.len() - mi,
        {
            let message = &protocol.messages[mi];

            let mut message_struct = AstNode {
                ast_node_type: AstNodeType::MessageStruct(MessageStruct {
                    message_name: message.name.clone(),
                }),
                children: Vec::new(),
            };
            let ghost struct_kind: CNodeKind = message_struct.ast_node_type@;
            let mut fi: usize = 0;
            while fi < message.fields.len()
                invariant
                    0 <= fi <= message.fields@.len(),
                    *message == protocol.messages@[mi as int],
                    mi < protocol.messages@.len(),
                    message_struct.ast_node_type@ == struct_kind,
                    c_node_model(message_struct).children
                        == Seq::new(fi as nat, |j: int| header_member_model(message.fields@[j])),
                decreases message.fields@.len() - fi,
            {
                let field = &message.fields[fi];

                let mut length: usize = DEFAULT_MAX_LENGTH;
                let mut a: usize = 0;
                while a < field.attributes.len()
                    invariant
                        0 <= a <= field.attributes@.len(),
                        *field == message.fields@[fi as int],
                        fi < message.fields@.len(),
                        length as int == header_array_length_upto(field.attributes@, a as int),
                    decreases field.attributes@.len() - a,
                {
                    let attribute = &field.attributes[a];
                    match attribute {
                        FieldAttribute::MaxLength(max_length) => {
                            length = max_length.value;
                        },
                    }
                    a = a + 1;
                }

                let field_base_type = match field.field_type {
                    FieldType::Regex(_) => FieldBaseType::I8,
                };

                message_struct.add_child(AstNodeType::MessageStructMember(MessageStructMember {
                    name: field.name.clone(),
                    field_base_type,
                    array_length: length,
                }));
                proof {
                    assert(c_node_model(message_struct).children
                        =~~= Seq::new((fi + 1) as nat, |j: int| header_member_model(message.fields@[j])));
                }
                fi = fi + 1;
            }
            proof {
                assert(c_node_model(message_struct) =~~= header_struct_model(*message));
                lemma_c_children_models_push(ret.children@, message_struct);
            }
            ret.children.push(message_struct);

            ret.add_child(AstNodeType::ParserStateStruct(ParserStateStruct {
                machine_name: message.name.clone(),
            }));

            proof {
                assert(c_node_model(ret).children
                    =~~= header_subtrees_upto(*protocol, mi + 1));
            }
            mi = mi + 1;
        }

        let result = HeaderAstNode { ast_node: ret };
        proof {
            assert(result.model() =~~= header_tree_model(*protocol));
            lemma_header_subtrees_wf(*protocol, protocol.messages@.len() as int);
            lemma_c_children_height_le(result.model().children, 2);
        }
        result
    }

    /// Renders the header tree as the ordered chunk sequence, leaving the
    /// shared indent where it started.
    pub fn generate_code(&self, code_generation_state: &mut CodeGenerationState) -> (r: Vec<CodeChunk>)
        requires
            self.wf(),
            old(code_generation_state).indent + 4 <= usize::MAX,
        ensures
            final(code_generation_state).indent == old(code_generation_state).indent,
            view_chunks(r@) == c_generated_chunks(self.model(), old(code_generation_state).indent as nat),
    {
        match self.ast_node.generate_code(code_generation_state) {
            Ok(chunks) => chunks,
            Err(_) => {
                proof {
                    assert(false);
                }
                vstd::pervasive::unreached()
            },
        }
    }
}

/// Law (raw-code replay idempotence): replaying the cached raw-code form
/// of a parsing function at any ambient indent yields exactly the chunks
/// the node's own hook yields at that indent, with no indent effect.
pub proof fn lemma_raw_replay_parsing_function(name: Seq<char>, ambient: nat)
    ensures
        raw_code_pre_chunks(raw_of_parsing_function(name), ambient) == c_parsing_function_chunks(name, ambient),
        raw_code_post_chunks(raw_of_parsing_function(name), ambient) == Seq::<ChunkModel>::empty(),
        raw_of_parsing_function(name).indent_increment == 0,
{
    assert(raw_code_pre_chunks(raw_of_parsing_function(name), ambient)
        =~~= c_parsing_function_chunks(name, ambient));
    assert(raw_code_post_chunks(raw_of_parsing_function(name), ambient) =~~= Seq::<ChunkModel>::empty());
}

/// Law (raw-code replay idempotence): replaying the cached raw-code form
/// of a message struct at any ambient indent yields exactly the chunks the
/// node's own hooks yield at that indent, with the same indent round trip.
pub proof fn lemma_raw_replay_message_struct(name: Seq<char>, ambient: nat)
    ensures
        raw_code_pre_chunks(raw_of_message_struct(name), ambient) == c_message_struct_pre_chunks(name, ambient),
        raw_code_post_chunks(raw_of_message_struct(name), (ambient + 1) as nat) == c_message_struct_post_chunks((ambient + 1) as nat),
        raw_of_message_struct(name).indent_increment == 1,
{
    assert(raw_code_pre_chunks(raw_of_message_struct(name), ambient)
        =~~= c_message_struct_pre_chunks(name, ambient));
    assert(raw_code_post_chunks(raw_of_message_struct(name), (ambient + 1) as nat)
        =~~= c_message_struct_post_chunks((ambient + 1) as nat));
}

/// Law (raw-code replay idempotence): replaying the cached raw-code form
/// of a struct member at any ambient indent yields exactly the chunk the
/// node's own hook yields at that indent, with no indent effect.
pub proof fn lemma_raw_replay_member(name: Seq<char>, t: FieldBaseType, array_length: int, ambient: nat)
    ensures
        raw_code_pre_chunks(raw_of_member(name, t, array_length), ambient)
            == c_member_chunks(name, t, array_length, ambient),
        raw_code_post_chunks(raw_of_member(name, t, array_length), ambient) == Seq::<ChunkModel>::empty(),
        raw_of_member(name, t, array_length).indent_increment == 0,
{
    assert(raw_code_pre_chunks(raw_of_member(name, t, array_length), ambient)
        =~~= c_member_chunks(name, t, array_length, ambient));
    assert(raw_code_post_chunks(raw_of_member(name, t, array_length), ambient)
        =~~= Seq::<ChunkModel>::empty());
}

/// Law (raw-code replay idempotence): replaying the cached raw-code form
/// of the parser-state initialization function at any ambient indent
/// yields exactly the chunks the node's own hooks yield at that indent,
/// with the same indent round trip.
pub proof fn lemma_raw_replay_parser_state_init(name: Seq<char>, ambient: nat)
    ensures
        raw_code_pre_chunks(raw_of_parser_state_init(name), ambient) == c_parser_state_init_pre_chunks(name, ambient),
        raw_code_post_chunks(raw_of_parser_state_init(name), (ambient + 1) as nat)
            == c_parser_state_init_post_chunks((ambient + 1) as nat),
        raw_of_parser_state_init(name).indent_increment == 1,
{
    assert(raw_code_pre_chunks(raw_of_parser_state_init(name), ambient)
        =~~= c_parser_state_init_pre_chunks(name, ambient));
    assert(raw_code_post_chunks(raw_of_parser_state_init(name), (ambient + 1) as nat)
        =~~= c_parser_state_init_post_chunks((ambient + 1) as nat));
}

} // verus!
