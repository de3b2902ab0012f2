//! The language-agnostic intermediate AST: a tree of recurring procedural
//! constructs (machine header, message struct, struct member, machine
//! definition, parsing function, field matcher, action hook) lowered from a
//! BPIR protocol, one subtree per message, in declaration order.  The tree
//! is rendered by a depth-first traversal: every node contributes chunks
//! before and after its children and must leave the shared indent exactly
//! where it found it.

use vstd::prelude::*;
use vstd::string::StringExecFns;
use crate::codegen::{
    ChunkModel, CodeChunk, CodeGenerationState, GenerationError, RawCode, RawCodeModel,
    raw_code_post_chunks, raw_code_pre_chunks, raw_code_wf, view_chunks,
};
use crate::representation::{DEFAULT_MAX_LENGTH, Field, FieldAttribute, FieldType, MaxLengthFieldAttribute, Message, Protocol, RegexFieldType};

verus! {

/// Each parsing function is associated with a particular message.
#[derive(Debug, PartialEq)]
pub struct ParsingFunction {
    pub message_name: String,
}

/// A machine field-matching rule: the pattern text and the field name used
/// both as the match identifier and as the action-hook identifier.
#[derive(Debug, PartialEq)]
pub struct RegexMachineField {
    /// Machine string sequence (definition).
    pub string_sequence: String,
    pub name: String,
}

/// The state-machine header block carrying the generated machine's name.
#[derive(Debug, PartialEq)]
pub struct MachineHeader {
    pub machine_name: String,
}

/// The state-machine definition block; its children hold one action hook
/// and one field matcher per field.
#[derive(Debug, PartialEq)]
pub struct MachineDefinition {
    pub machine_name: String,
    pub fields: Vec<String>,
}

/// A per-message structure declaration; its children are the members.
#[derive(Debug, PartialEq)]
pub struct MessageStruct {
    pub message_name: String,
}

/// The base type a struct member is derived from.
#[derive(Clone, Copy, Debug, PartialEq, Eq, Structural)]
pub enum FieldBaseType {
    I8,
}

/// One member of a message struct.
#[derive(Clone, Debug, PartialEq)]
pub struct MessageStructMember {
    pub name: String,
    pub field_base_type: FieldBaseType,

    /// If 0, it is considered just a field rather than an array.
    pub array_length: usize,
}

impl MessageStructMember {
    pub fn is_array(&self) -> (r: bool)
        ensures
            r == (self.array_length > 0),
    {
        self.array_length > 0
    }
}

/// An action hook; its name coincides with the field's name.
#[derive(Clone, Debug, PartialEq)]
pub struct MachineActionHook {
    /// Coincides with the field's name.
    pub name: String,
}

/// The tagged union of node kinds.
#[derive(Debug, PartialEq)]
pub enum AstNodeType {
    /// An empty placeholder for a subtree.
    Root,
    MessageStructMember(MessageStructMember),
    MessageStruct(MessageStruct),
    ParsingFunction(ParsingFunction),
    MachineHeader(MachineHeader),
    MachineActionHook(MachineActionHook),
    MachineDefinition(MachineDefinition),
    RegexMachineField(RegexMachineField),
    RawCode(RawCode),
}

/// One node of the tree: a kind-specific payload plus the ordered list of
/// owned children.
#[derive(Debug, PartialEq)]
pub struct AstNode {
    pub ast_node_type: AstNodeType,
    pub children: Vec<AstNode>,
}

/// Mathematical model of a node payload.
#[verifier::ext_equal]
pub enum NodeKind {
    Root,
    MessageStructMember { name: Seq<char>, field_base_type: FieldBaseType, array_length: int },
    MessageStruct { message_name: Seq<char> },
    ParsingFunction { message_name: Seq<char> },
    MachineHeader { machine_name: Seq<char> },
    MachineActionHook { name: Seq<char> },
    MachineDefinition { machine_name: Seq<char>, fields: Seq<Seq<char>> },
    RegexMachineField { string_sequence: Seq<char>, name: Seq<char> },
    RawCode(RawCodeModel),
}

/// Mathematical model of a whole subtree.
#[verifier::ext_equal]
pub struct NodeModel {
    pub kind: NodeKind,
    pub children: Seq<NodeModel>,
}

impl View for AstNodeType {
    type V = NodeKind;

    open spec fn view(&self) -> NodeKind {
        match self {
            AstNodeType::Root => NodeKind::Root,
            AstNodeType::MessageStructMember(m) => NodeKind::MessageStructMember {
                name: m.name@,
                field_base_type: m.field_base_type,
                array_length: m.array_length as int,
            },
            AstNodeType::MessageStruct(m) => NodeKind::MessageStruct { message_name: m.message_name@ },
            AstNodeType::ParsingFunction(f) => NodeKind::ParsingFunction { message_name: f.message_name@ },
            AstNodeType::MachineHeader(h) => NodeKind::MachineHeader { machine_name: h.machine_name@ },
            AstNodeType::MachineActionHook(h) => NodeKind::MachineActionHook { name: h.name@ },
            AstNodeType::MachineDefinition(d) => NodeKind::MachineDefinition {
                machine_name: d.machine_name@,
                fields: d.fields@.map_values(|s: String| s@),
            },
            AstNodeType::RegexMachineField(f) => NodeKind::RegexMachineField {
                string_sequence: f.string_sequence@,
                name: f.name@,
            },
            AstNodeType::RawCode(r) => NodeKind::RawCode(r@),
        }
    }
}

/// The model of a whole tree.
pub open spec fn node_model(n: AstNode) -> NodeModel
    decreases n,
{
    NodeModel { kind: n.ast_node_type@, children: children_models(n.children@) }
}

/// The models of a sequence of subtrees, in order.
pub open spec fn children_models(s: Seq<AstNode>) -> Seq<NodeModel>
    decreases s,
{
    if s.len() == 0 {
        Seq::<NodeModel>::empty()
    } else {
        children_models(s.drop_last()).push(node_model(s.last()))
    }
}

pub proof fn lemma_children_models(s: Seq<AstNode>)
    ensures
        children_models(s).len() == s.len(),
        forall|i: int| 0 <= i < s.len() ==> children_models(s)[i] == node_model(s[i]),
    decreases s.len(),
{
    if s.len() > 0 {
        lemma_children_models(s.drop_last());
    }
}

/// A chunk holding one line of code at the given depth.
pub open spec fn chunk_line(code: Seq<char>, indent: nat) -> ChunkModel {
    ChunkModel { code, indent, newlines: 1 }
}

/// Whether the generation engine has a rendering for the node kind.  The
/// generic structural kinds have none: a backend adapter must rewrite them
/// into raw code before the tree reaches the engine.
pub open spec fn kind_handled(k: NodeKind) -> bool {
    match k {
        NodeKind::Root => true,
        NodeKind::MachineHeader { .. } => true,
        NodeKind::MachineActionHook { .. } => true,
        NodeKind::MachineDefinition { .. } => true,
        NodeKind::RegexMachineField { .. } => true,
        NodeKind::RawCode(_) => true,
        NodeKind::MessageStructMember { .. } => false,
        NodeKind::MessageStruct { .. } => false,
        NodeKind::ParsingFunction { .. } => false,
    }
}

/// Whether every node of the subtree has a rendering.
pub open spec fn all_handled(m: NodeModel) -> bool
    decreases m,
{
    kind_handled(m.kind) && forall|i: int| 0 <= i < m.children.len() ==> all_handled(#[trigger] m.children[i])
}

/// Whether every raw-code payload in the subtree respects the recorded
/// indent bounds.
pub open spec fn tree_raw_wf(m: NodeModel) -> bool
    decreases m,
{
    &&& (m.kind matches NodeKind::RawCode(rc) ==> raw_code_wf(rc))
    &&& forall|i: int| 0 <= i < m.children.len() ==> tree_raw_wf(#[trigger] m.children[i])
}

/// The height of a subtree: one more than its tallest child.
pub open spec fn node_height(m: NodeModel) -> nat
    decreases m, 0int,
{
    1 + children_height(m.children)
}

/// The tallest height among the subtrees.
pub open spec fn children_height(s: Seq<NodeModel>) -> nat
    decreases s, 1int,
{
    if s.len() == 0 {
        0
    } else if node_height(s.last()) >= children_height(s.drop_last()) {
        node_height(s.last())
    } else {
        children_height(s.drop_last())
    }
}

pub proof fn lemma_children_height(s: Seq<NodeModel>)
    ensures
        forall|i: int| 0 <= i < s.len() ==> node_height(#[trigger] s[i]) <= children_height(s),
    decreases s.len(),
{
    if s.len() > 0 {
        lemma_children_height(s.drop_last());
        assert forall|i: int| 0 <= i < s.len() implies node_height(#[trigger] s[i]) <= children_height(s) by {
            if i < s.len() - 1 {
                assert(s.drop_last()[i] == s[i]);
            }
        }
    }
}

pub proof fn lemma_children_height_le(s: Seq<NodeModel>, b: nat)
    requires
        forall|i: int| 0 <= i < s.len() ==> node_height(#[trigger] s[i]) <= b,
    ensures
        children_height(s) <= b,
    decreases s.len(),
{
    if s.len() > 0 {
        assert forall|i: int| 0 <= i < s.drop_last().len()
            implies node_height(#[trigger] s.drop_last()[i]) <= b by {
            assert(s.drop_last()[i] == s[i]);
        }
        lemma_children_height_le(s.drop_last(), b);
        assert(node_height(s.last()) <= b);
    }
}

/// How much the node kind raises the ambient indent while its children
/// render.
pub open spec fn kind_indent_increment(k: NodeKind) -> int {
    match k {
        NodeKind::MachineDefinition { .. } => 1,
        NodeKind::RawCode(rc) => rc.indent_increment,
        _ => 0,
    }
}

/// The chunks the node kind contributes before its children, at the given
/// ambient indent.
pub open spec fn pre_chunks(k: NodeKind, ambient: nat) -> Seq<ChunkModel> {
    match k {
        NodeKind::MachineHeader { machine_name } => seq![
            chunk_line("%%{"@, ambient),
            chunk_line("machine "@ + machine_name + ";"@, ambient + 1),
            chunk_line("write data;"@, ambient + 1),
            chunk_line("}%%"@, ambient),
        ],
        NodeKind::MachineActionHook { name } => seq![
            chunk_line("action "@ + name + " {"@, ambient),
            chunk_line("}"@, ambient),
        ],
        NodeKind::MachineDefinition { machine_name, .. } => seq![
            chunk_line("%%{"@, ambient),
            chunk_line("machine "@ + machine_name, ambient + 1),
            chunk_line("write data;"@, ambient + 1),
        ],
        NodeKind::RegexMachineField { string_sequence, name } => seq![
            chunk_line(name + " = '"@ + string_sequence + "' @"@ + name + "; "@, ambient),
        ],
        NodeKind::RawCode(rc) => raw_code_pre_chunks(rc, ambient),
        _ => Seq::<ChunkModel>::empty(),
    }
}

/// The chunks the node kind contributes after its children, given the
/// ambient indent as the children left it (the raised indent).
pub open spec fn post_chunks(k: NodeKind, raised: nat) -> Seq<ChunkModel> {
    match k {
        NodeKind::MachineDefinition { .. } => seq![
            chunk_line("}%%"@, (raised - 1) as nat),
        ],
        NodeKind::RawCode(rc) => raw_code_post_chunks(rc, raised),
        _ => Seq::<ChunkModel>::empty(),
    }
}

/// The chunks an entire subtree contributes: the node's pre-traversal
/// chunks, the chunks of every child in order at the raised indent, then
/// the node's post-traversal chunks.  By construction every subtree has a
/// net-zero effect on the ambient indent, so siblings always render at the
/// same, predictable depth.
pub open spec fn generated_chunks(m: NodeModel, ambient: nat) -> Seq<ChunkModel>
    decreases m, 0int,
{
    let raised = (ambient + kind_indent_increment(m.kind)) as nat;
    pre_chunks(m.kind, ambient) + sibling_chunks_from(m.children, raised, 0) + post_chunks(m.kind, raised)
}

/// The chunks the subtrees from position `k` on contribute, in order, all
/// at the same ambient indent.
pub open spec fn sibling_chunks_from(s: Seq<NodeModel>, ambient: nat, k: int) -> Seq<ChunkModel>
    decreases s, s.len() - k,
{
    if k < 0 || k >= s.len() {
        Seq::<ChunkModel>::empty()
    } else {
        generated_chunks(s[k], ambient) + sibling_chunks_from(s, ambient, k + 1)
    }
}

impl MachineHeader {
    pub fn generate_code_pre_traverse(&self, generation_state: &mut CodeGenerationState) -> (r: Vec<CodeChunk>)
        requires
            old(generation_state).indent + 2 <= usize::MAX,
        ensures
            final(generation_state).indent == old(generation_state).indent,
            view_chunks(r@) == pre_chunks(
                NodeKind::MachineHeader { machine_name: self.machine_name@ },
                old(generation_state).indent as nat,
            ),
    {
        let mut ret: Vec<CodeChunk> = Vec::new();
        ret.push(CodeChunk::new(String::from_str("%%{"), generation_state.indent, 1));
        let mut machine_line = String::from_str("machine ");
        machine_line.append(self.machine_name.as_str());
        machine_line.append(";");
        ret.push(CodeChunk::new(machine_line, generation_state.indent + 1, 1));
        ret.push(CodeChunk::new(String::from_str("write data;"), generation_state.indent + 1, 1));
        ret.push(CodeChunk::new(String::from_str("}%%"), generation_state.indent, 1));
        proof {
            assert(view_chunks(ret@) =~~= pre_chunks(
                NodeKind::MachineHeader { machine_name: self.machine_name@ },
                generation_state.indent as nat,
            ));
        }
        ret
    }
}

impl MachineActionHook {
    pub fn generate_code_pre_traverse(&self, code_generation_state: &mut CodeGenerationState) -> (r: Vec<CodeChunk>)
        requires
            old(code_generation_state).indent + 2 <= usize::MAX,
        ensures
            final(code_generation_state).indent == old(code_generation_state).indent,
            view_chunks(r@) == pre_chunks(
                NodeKind::MachineActionHook { name: self.name@ },
                old(code_generation_state).indent as nat,
            ),
    {
        let mut ret: Vec<CodeChunk> = Vec::new();
        let mut action_line = String::from_str("action ");
        action_line.append(self.name.as_str());
        action_line.append(" {");
        ret.push(CodeChunk::new(action_line, code_generation_state.indent, 1));
        ret.push(CodeChunk::new(String::from_str("}"), code_generation_state.indent, 1));
        proof {
            assert(view_chunks(ret@) =~~= pre_chunks(
                NodeKind::MachineActionHook { name: self.name@ },
                code_generation_state.indent as nat,
            ));
        }
        ret
    }
}

impl MachineDefinition {
    /// Emits the definition header and raises the indent for the children.
    pub fn generate_code_pre_traverse(&self, code_generation_state: &mut CodeGenerationState) -> (r: Vec<CodeChunk>)
        requires
            old(code_generation_state).indent + 2 <= usize::MAX,
        ensures
            final(code_generation_state).indent == old(code_generation_state).indent + 1,
            view_chunks(r@) == pre_chunks(
                NodeKind::MachineDefinition {
                    machine_name: self.machine_name@,
                    fields: self.fields@.map_values(|s: String| s@),
                },
                old(code_generation_state).indent as nat,
            ),
    {
        let mut ret: Vec<CodeChunk> = Vec::new();
        ret.push(CodeChunk::new(String::from_str("%%{"), code_generation_state.indent, 1));
        let mut machine_line = String::from_str("machine ");
        machine_line.append(self.machine_name.as_str());
        ret.push(CodeChunk::new(machine_line, code_generation_state.indent + 1, 1));
        ret.push(CodeChunk::new(String::from_str("write data;"), code_generation_state.indent + 1, 1));

        code_generation_state.indent = code_generation_state.indent + 1;

        proof {
            assert(view_chunks(ret@) =~~= pre_chunks(
                NodeKind::MachineDefinition {
                    machine_name: self.machine_name@,
                    fields: self.fields@.map_values(|s: String| s@),
                },
                old(code_generation_state).indent as nat,
            ));
        }
        ret
    }

    /// Lowers the indent back and closes the definition block.
    pub fn generate_code_post_traverse(&self, code_generation_state: &mut CodeGenerationState) -> (r: Vec<CodeChunk>)
        requires
            old(code_generation_state).indent >= 1,
        ensures
            final(code_generation_state).indent == old(code_generation_state).indent - 1,
            view_chunks(r@) == post_chunks(
                NodeKind::MachineDefinition {
                    machine_name: self.machine_name@,
                    fields: self.fields@.map_values(|s: String| s@),
                },
                old(code_generation_state).indent as nat,
            ),
    {
        code_generation_state.indent = code_generation_state.indent - 1;

        let mut ret: Vec<CodeChunk> = Vec::new();
        ret.push(CodeChunk::new(String::from_str("}%%"), code_generation_state.indent, 1));
        proof {
            assert(view_chunks(ret@) =~~= post_chunks(
                NodeKind::MachineDefinition {
                    machine_name: self.machine_name@,
                    fields: self.fields@.map_values(|s: String| s@),
                },
                old(code_generation_state).indent as nat,
            ));
        }
        ret
    }
}

impl RegexMachineField {
    pub fn generate_code_pre_traverse(&self, code_generation_state: &mut CodeGenerationState) -> (r: Vec<CodeChunk>)
        requires
            old(code_generation_state).indent + 2 <= usize::MAX,
        ensures
            final(code_generation_state).indent == old(code_generation_state).indent,
            view_chunks(r@) == pre_chunks(
                NodeKind::RegexMachineField { string_sequence: self.string_sequence@, name: self.name@ },
                old(code_generation_state).indent as nat,
            ),
    {
        let mut ret: Vec<CodeChunk> = Vec::new();
        let mut rule_line = self.name.clone();
        rule_line.append(" = '");
        rule_line.append(self.string_sequence.as_str());
        rule_line.append("' @");
        rule_line.append(self.name.as_str());
        rule_line.append("; ");
        ret.push(CodeChunk::new(rule_line, code_generation_state.indent, 1));
        proof {
            assert(view_chunks(ret@) =~~= pre_chunks(
                NodeKind::RegexMachineField { string_sequence: self.string_sequence@, name: self.name@ },
                code_generation_state.indent as nat,
            ));
        }
        ret
    }
}

impl AstNodeType {
    /// The pre-traversal hook of whichever payload the node carries.  A
    /// kind with no rendering is a fatal condition: it is reported, never
    /// silently skipped, since it usually means an incomplete backend
    /// adapter rewrite.
    pub fn generate_code_pre_traverse(&self, code_generation_state: &mut CodeGenerationState) -> (r: Result<Vec<CodeChunk>, GenerationError>)
        requires
            self@ matches NodeKind::RawCode(rc) ==> raw_code_wf(rc),
            old(code_generation_state).indent + 2 <= usize::MAX,
        ensures
            r is Ok <==> kind_handled(self@),
            r matches Ok(chunks) ==> {
                &&& final(code_generation_state).indent == old(code_generation_state).indent + kind_indent_increment(self@)
                &&& view_chunks(chunks@) == pre_chunks(self@, old(code_generation_state).indent as nat)
            },
            r is Err ==> final(code_generation_state).indent == old(code_generation_state).indent,
    {
        match self {
            AstNodeType::MachineHeader(node) => Ok(node.generate_code_pre_traverse(code_generation_state)),
            AstNodeType::MachineActionHook(node) => Ok(node.generate_code_pre_traverse(code_generation_state)),
            AstNodeType::MachineDefinition(node) => Ok(node.generate_code_pre_traverse(code_generation_state)),
            AstNodeType::RegexMachineField(node) => Ok(node.generate_code_pre_traverse(code_generation_state)),
            AstNodeType::RawCode(node) => Ok(node.generate_code_pre_traverse(code_generation_state)),
            AstNodeType::Root => {
                let empty_chunks: Vec<CodeChunk> = Vec::new();
                proof {
                    assert(view_chunks(empty_chunks@) =~~= pre_chunks(self@, code_generation_state.indent as nat));
                }
                Ok(empty_chunks)
            },
            _ => Err(GenerationError::UnhandledNode),
        }
    }

    /// The post-traversal hook of whichever payload the node carries.
    pub fn generate_code_post_traverse(&self, code_generation_state: &mut CodeGenerationState) -> (r: Result<Vec<CodeChunk>, GenerationError>)
        requires
            self@ matches NodeKind::RawCode(rc) ==> raw_code_wf(rc),
            old(code_generation_state).indent >= kind_indent_increment(self@),
            old(code_generation_state).indent - kind_indent_increment(self@) + 2 <= usize::MAX,
        ensures
            r is Ok <==> kind_handled(self@),
            r matches Ok(chunks) ==> {
                &&& final(code_generation_state).indent == old(code_generation_state).indent - kind_indent_increment(self@)
                &&& view_chunks(chunks@) == post_chunks(self@, old(code_generation_state).indent as nat)
            },
            r is Err ==> final(code_generation_state).indent == old(code_generation_state).indent,
    {
        match self {
            AstNodeType::MachineDefinition(node) => Ok(node.generate_code_post_traverse(code_generation_state)),
            AstNodeType::RawCode(node) => Ok(node.generate_code_post_traverse(code_generation_state)),
            AstNodeType::MachineHeader(_) | AstNodeType::MachineActionHook(_)
                | AstNodeType::RegexMachineField(_) | AstNodeType::Root => {
                let empty_chunks: Vec<CodeChunk> = Vec::new();
                proof {
                    assert(view_chunks(empty_chunks@) =~~= post_chunks(self@, code_generation_state.indent as nat));
                }
                Ok(empty_chunks)
            },
            _ => Err(GenerationError::UnhandledNode),
        }
    }
}

impl AstNode {
    /// Renders the whole subtree: the node's pre-traversal chunks, every
    /// child in order, then the node's post-traversal chunks.  The shared
    /// indent comes back exactly to where it started — the round-trip law
    /// every node kind obeys, which keeps sibling output at predictable
    /// depth.  A node kind with no rendering anywhere in the subtree stops
    /// generation with an error.
    pub fn generate_code(&self, code_generation_state: &mut CodeGenerationState) -> (r: Result<Vec<CodeChunk>, GenerationError>)
        requires
            tree_raw_wf(node_model(*self)),
            old(code_generation_state).indent + node_height(node_model(*self)) + 1 <= usize::MAX,
        ensures
            r is Ok <==> all_handled(node_model(*self)),
            r matches Ok(chunks) ==> {
                &&& final(code_generation_state).indent == old(code_generation_state).indent
                &&& view_chunks(chunks@) == generated_chunks(node_model(*self), old(code_generation_state).indent as nat)
            },
        decreases *self,
    {
        let ghost m: NodeModel = node_model(*self);
        let ghost a0: nat = code_generation_state.indent as nat;
        proof {
            lemma_children_models(self.children@);
            lemma_children_height(m.children);
        }

        let mut ret: Vec<CodeChunk> = match self.ast_node_type.generate_code_pre_traverse(code_generation_state) {
            Ok(chunks) => chunks,
            Err(e) => {
                return Err(e);
            },
        };
        let ghost raised: nat = (a0 + kind_indent_increment(m.kind)) as nat;
        proof {
            assert(view_chunks(ret@) + sibling_chunks_from(m.children, raised, 0)
                =~~= pre_chunks(m.kind, a0) + sibling_chunks_from(m.children, raised, 0));
        }

        let mut i: usize = 0;
        while i < self.children.len()
            invariant
                0 <= i <= self.children@.len(),
                m == node_model(*self),
                a0 == old(code_generation_state).indent as nat,
                raised == a0 + kind_indent_increment(m.kind),
                kind_handled(m.kind),
                tree_raw_wf(m),
                a0 + node_height(m) + 1 <= usize::MAX,
                code_generation_state.indent as int == a0 + kind_indent_increment(m.kind),
                view_chunks(ret@) + sibling_chunks_from(m.children, raised, i as int)
                    == pre_chunks(m.kind, a0) + sibling_chunks_from(m.children, raised, 0),
                forall|j: int| 0 <= j < i ==> all_handled(#[trigger] m.children[j]),
            decreases self.children@.len() - i,
        {
            proof {
                lemma_children_models(self.children@);
                lemma_children_height(m.children);
                assert(node_model(self.children@[i as int]) == m.children[i as int]);
                assert(tree_raw_wf(m.children[i as int]));
                assert(node_height(m.children[i as int]) <= children_height(m.children));
                assert(kind_indent_increment(m.kind) <= 1);
            }
            let child_result = self.children[i].generate_code(code_generation_state);
            match child_result {
                Ok(mut child_chunks) => {
                    proof {
                        assert(sibling_chunks_from(m.children, raised, i as int)
                            == generated_chunks(m.children[i as int], raised)
                                + sibling_chunks_from(m.children, raised, i + 1));
                    }
                    let ghost before: Seq<CodeChunk> = ret@;
                    let ghost incoming: Seq<CodeChunk> = child_chunks@;
                    ret.append(&mut child_chunks);
                    proof {
                        assert(view_chunks(before + incoming) =~~= view_chunks(before) + view_chunks(incoming));
                        assert(view_chunks(ret@) + sibling_chunks_from(m.children, raised, i + 1)
                            =~~= pre_chunks(m.kind, a0) + sibling_chunks_from(m.children, raised, 0));
                    }
                },
                Err(e) => {
                    proof {
                        assert(!all_handled(m.children[i as int]));
                        assert(!all_handled(m));
                    }
                    return Err(e);
                },
            }
            i = i + 1;
        }

        proof {
            lemma_children_models(self.children@);
            assert(sibling_chunks_from(m.children, raised, i as int) =~~= Seq::<ChunkModel>::empty());
            match m.kind {
                NodeKind::RawCode(rc) => {
                    assert(raw_code_wf(rc));
                },
                _ => {},
            }
            assert(kind_indent_increment(m.kind) <= 1 && kind_indent_increment(m.kind) >= 0);
        }
        match self.ast_node_type.generate_code_post_traverse(code_generation_state) {
            Ok(mut post_chunks_vec) => {
                let ghost before: Seq<CodeChunk> = ret@;
                let ghost incoming: Seq<CodeChunk> = post_chunks_vec@;
                ret.append(&mut post_chunks_vec);
                proof {
                    assert(all_handled(m));
                    assert(view_chunks(before + incoming) =~~= view_chunks(before) + view_chunks(incoming));
                    assert(view_chunks(before) =~~= pre_chunks(m.kind, a0) + sibling_chunks_from(m.children, raised, 0));
                    assert(view_chunks(ret@) =~~= generated_chunks(m, a0));
                }
                Ok(ret)
            },
            Err(e) => {
                proof {
                    assert(false);
                }
                Err(e)
            },
        }
    }
}


/// The base type a member derives from the field's type.
pub open spec fn base_type_of(ft: FieldType) -> FieldBaseType {
    match ft {
        FieldType::Regex(_) => FieldBaseType::I8,
    }
}

/// The pattern text carried by the field's type.
pub open spec fn regex_text_of(ft: FieldType) -> Seq<char> {
    match ft {
        FieldType::Regex(r) => r.regex@,
    }
}

/// The bound given by the last `MaxLength` attribute among the first `k`,
/// or 0 when none carries one: with repeated attributes of the same kind
/// the last occurrence wins.
pub open spec fn last_max_length_upto(attrs: Seq<FieldAttribute>, k: int) -> int
    decreases k,
{
    if k <= 0 {
        0
    } else if attrs[k - 1] is MaxLength {
        (attrs[k - 1]->0).value as int
    } else {
        last_max_length_upto(attrs, k - 1)
    }
}

/// The member array length a field resolves to: the last explicit
/// `MaxLength` bound, or the default when no attribute supplies a nonzero
/// one.
pub open spec fn resolved_max_length(f: Field) -> int {
    let explicit = last_max_length_upto(f.attributes@, f.attributes@.len() as int);
    if explicit == 0 {
        DEFAULT_MAX_LENGTH as int
    } else {
        explicit
    }
}

/// A childless subtree.
pub open spec fn leaf_model(k: NodeKind) -> NodeModel {
    NodeModel { kind: k, children: Seq::<NodeModel>::empty() }
}

/// The struct member a field lowers to.
pub open spec fn member_node_model(f: Field) -> NodeModel {
    leaf_model(NodeKind::MessageStructMember {
        name: f.name@,
        field_base_type: base_type_of(f.field_type),
        array_length: resolved_max_length(f),
    })
}

/// The action hook a field lowers to; the hook shares the field's name.
pub open spec fn action_hook_node_model(f: Field) -> NodeModel {
    leaf_model(NodeKind::MachineActionHook { name: f.name@ })
}

/// The field-matching rule a field lowers to.
pub open spec fn field_matcher_node_model(f: Field) -> NodeModel {
    leaf_model(NodeKind::RegexMachineField {
        string_sequence: regex_text_of(f.field_type),
        name: f.name@,
    })
}

/// The struct subtree a message lowers to: one member per field, in field
/// order.
pub open spec fn message_struct_node_model(m: Message) -> NodeModel {
    NodeModel {
        kind: NodeKind::MessageStruct { message_name: m.name@ },
        children: Seq::new(m.fields@.len(), |i: int| member_node_model(m.fields@[i])),
    }
}

/// The machine-definition subtree a message lowers to: one action hook per
/// field, followed by one field matcher per field.
pub open spec fn machine_definition_node_model(m: Message) -> NodeModel {
    NodeModel {
        kind: NodeKind::MachineDefinition {
            machine_name: m.name@,
            fields: m.fields@.map_values(|f: Field| f.name@),
        },
        children: Seq::new(2 * m.fields@.len(), |i: int|
            if i < m.fields@.len() {
                action_hook_node_model(m.fields@[i])
            } else {
                field_matcher_node_model(m.fields@[i - m.fields@.len()])
            }),
    }
}

/// The four top-level subtrees a message lowers to, in the fixed order:
/// machine header, message struct, machine definition, parsing function.
pub open spec fn message_nodes_model(m: Message) -> Seq<NodeModel> {
    seq![
        leaf_model(NodeKind::MachineHeader { machine_name: m.name@ }),
        message_struct_node_model(m),
        machine_definition_node_model(m),
        leaf_model(NodeKind::ParsingFunction { message_name: m.name@ }),
    ]
}

/// The top-level subtrees of the first `k` messages, in declaration order.
pub open spec fn protocol_subtrees_upto(p: Protocol, k: int) -> Seq<NodeModel>
    decreases k,
{
    if k <= 0 {
        Seq::<NodeModel>::empty()
    } else {
        protocol_subtrees_upto(p, k - 1) + message_nodes_model(p.messages@[k - 1])
    }
}

/// The whole tree a protocol lowers to: an empty root above the per-message
/// subtrees.
pub open spec fn protocol_tree_model(p: Protocol) -> NodeModel {
    NodeModel { kind: NodeKind::Root, children: protocol_subtrees_upto(p, p.messages@.len() as int) }
}

pub proof fn lemma_children_models_push(s: Seq<AstNode>, x: AstNode)
    ensures
        children_models(s.push(x)) == children_models(s).push(node_model(x)),
{
    assert(s.push(x).drop_last() =~= s);
    assert(s.push(x).last() == x);
}

impl AstNode {
    /// Adds a new childless node under this one.
    fn add_child(&mut self, ast_node_type: AstNodeType)
        ensures
            final(self).ast_node_type == old(self).ast_node_type,
            node_model(*final(self)).children
                == node_model(*old(self)).children.push(leaf_model(ast_node_type@)),
    {
        let ghost kind_model: NodeKind = ast_node_type@;
        let child = AstNode { ast_node_type, children: Vec::new() };
        proof {
            assert(node_model(child) =~~= leaf_model(kind_model));
            lemma_children_models_push(self.children@, child);
        }
        self.children.push(child);
    }

    fn add_machine_action_hook(&mut self, field: &Field)
        ensures
            final(self).ast_node_type == old(self).ast_node_type,
            node_model(*final(self)).children
                == node_model(*old(self)).children.push(action_hook_node_model(*field)),
    {
        self.add_child(AstNodeType::MachineActionHook(MachineActionHook {
            name: field.name.clone(),
        }));
        proof {
            assert(leaf_model(NodeKind::MachineActionHook { name: field.name@ })
                =~~= action_hook_node_model(*field));
        }
    }

    fn add_machine_field_parser(&mut self, field: &Field)
        ensures
            final(self).ast_node_type == old(self).ast_node_type,
            node_model(*final(self)).children
                == node_model(*old(self)).children.push(field_matcher_node_model(*field)),
    {
        match &field.field_type {
            FieldType::Regex(node) => self.add_regex_machine_field_parser(field, node),
        }
    }

    fn add_regex_machine_field_parser(&mut self, field: &Field, regex: &RegexFieldType)
        requires
            field.field_type matches FieldType::Regex(r) && r == *regex,
        ensures
            final(self).ast_node_type == old(self).ast_node_type,
            node_model(*final(self)).children
                == node_model(*old(self)).children.push(field_matcher_node_model(*field)),
    {
        self.add_child(AstNodeType::RegexMachineField(RegexMachineField {
            string_sequence: regex.regex.clone(),
            name: field.name.clone(),
        }));
        proof {
            assert(leaf_model(NodeKind::RegexMachineField {
                string_sequence: regex.regex@,
                name: field.name@,
            }) =~~= field_matcher_node_model(*field));
        }
    }

    /// Lowers one message into its four top-level subtrees, appended in the
    /// fixed order under this node.  A resolved bound falls back to the
    /// default whenever no attribute supplies a nonzero one.
    fn add_message_parser(&mut self, message: &Message)
        ensures
            final(self).ast_node_type == old(self).ast_node_type,
            node_model(*final(self)).children
                == node_model(*old(self)).children + message_nodes_model(*message),
    {
        let ghost initial: Seq<NodeModel> = node_model(*self).children;

        self.add_child(AstNodeType::MachineHeader(MachineHeader {
            machine_name: message.name.clone(),
        }));

        let mut message_struct = AstNode {
            ast_node_type: AstNodeType::MessageStruct(MessageStruct {
                message_name: message.name.clone(),
            }),
            children: Vec::new(),
        };
        let ghost struct_kind: NodeKind = message_struct.ast_node_type@;
        let mut i: usize = 0;
        while i < message.fields.len()
            invariant
                0 <= i <= message.fields@.len(),
                message_struct.ast_node_type@ == struct_kind,
                node_model(message_struct).children
                    == Seq::new(i as nat, |j: int| member_node_model(message.fields@[j])),
            decreases message.fields@.len() - i,
        {
            let field = &message.fields[i];

            let mut value: usize = 0;
            let mut a: usize = 0;
            while a < field.attributes.len()
                invariant
                    0 <= a <= field.attributes@.len(),
                    *field == message.fields@[i as int],
                    value as int == last_max_length_upto(field.attributes@, a as int),
                decreases field.attributes@.len() - a,
            {
                let attribute = &field.attributes[a];
                match attribute {
                    FieldAttribute::MaxLength(max_length) => {
                        value = max_length.value;
                    },
                }
                a = a + 1;
            }

            let array_length: usize = if value == 0 {
                MaxLengthFieldAttribute::get_default_value()
            } else {
                value
            };

            let field_base_type = match field.field_type {
                FieldType::Regex(_) => FieldBaseType::I8,
            };

            message_struct.add_child(AstNodeType::MessageStructMember(MessageStructMember {
                name: field.name.clone(),
                field_base_type,
                array_length,
            }));
            proof {
                assert(array_length as int == resolved_max_length(*field));
                assert(node_model(message_struct).children
                    =~~= Seq::new((i + 1) as nat, |j: int| member_node_model(message.fields@[j])));
            }
            i = i + 1;
        }
        proof {
            assert(node_model(message_struct) =~~= message_struct_node_model(*message));
            lemma_children_models_push(self.children@, message_struct);
        }
        self.children.push(message_struct);

        let mut field_names: Vec<String> = Vec::new();
        let mut k: usize = 0;
        while k < message.fields.len()
            invariant
                0 <= k <= message.fields@.len(),
                field_names@.len() == k,
                forall|j: int| 0 <= j < k ==> (#[trigger] field_names@[j])@ == message.fields@[j].name@,
            decreases message.fields@.len() - k,
        {
            field_names.push(message.fields[k].name.clone());
            k = k + 1;
        }

        let mut machine_definition_node = AstNode {
            ast_node_type: AstNodeType::MachineDefinition(MachineDefinition {
                machine_name: message.name.clone(),
                fields: field_names,
            }),
            children: Vec::new(),
        };
        let ghost definition_kind: NodeKind = machine_definition_node.ast_node_type@;
        proof {
            assert(definition_kind =~~= machine_definition_node_model(*message).kind);
        }

        let mut h: usize = 0;
        while h < message.fields.len()
            invariant
                0 <= h <= message.fields@.len(),
                machine_definition_node.ast_node_type@ == definition_kind,
                node_model(machine_definition_node).children
                    == Seq::new(h as nat, |j: int| action_hook_node_model(message.fields@[j])),
            decreases message.fields@.len() - h,
        {
            machine_definition_node.add_machine_action_hook(&message.fields[h]);
            proof {
                assert(node_model(machine_definition_node).children
                    =~~= Seq::new((h + 1) as nat, |j: int| action_hook_node_model(message.fields@[j])));
            }
            h = h + 1;
        }

        let ghost nf: int = message.fields@.len() as int;
        let mut q: usize = 0;
        while q < message.fields.len()
            invariant
                0 <= q <= message.fields@.len(),
                nf == message.fields@.len() as int,
                machine_definition_node.ast_node_type@ == definition_kind,
                node_model(machine_definition_node).children
                    == Seq::new((nf + q) as nat, |j: int|
                        if j < nf {
                            action_hook_node_model(message.fields@[j])
                        } else {
                            field_matcher_node_model(message.fields@[j - nf])
                        }),
            decreases message.fields@.len() - q,
        {
            machine_definition_node.add_machine_field_parser(&message.fields[q]);
            proof {
                assert(node_model(machine_definition_node).children
                    =~~= Seq::new((nf + q + 1) as nat, |j: int|
                        if j < nf {
                            action_hook_node_model(message.fields@[j])
                        } else {
                            field_matcher_node_model(message.fields@[j - nf])
                        }));
            }
            q = q + 1;
        }
        proof {
            assert(node_model(machine_definition_node) =~~= machine_definition_node_model(*message));
            lemma_children_models_push(self.children@, machine_definition_node);
        }
        self.children.push(machine_definition_node);

        self.add_child(AstNodeType::ParsingFunction(ParsingFunction {
            message_name: message.name.clone(),
        }));

        proof {
            assert(leaf_model(NodeKind::ParsingFunction { message_name: message.name@ })
                =~~= message_nodes_model(*message)[3]);
            assert(node_model(*self).children =~~= initial + message_nodes_model(*message));
        }
    }

    /// Lowers a whole protocol: an empty root node above four subtrees per
    /// message, in message-declaration order.
    pub fn new_from_protocol(protocol: &Protocol) -> (r: AstNode)
        ensures
            node_model(r) == protocol_tree_model(*protocol),
    {
        let mut root = AstNode { ast_node_type: AstNodeType::Root, children: Vec::new() };

        let mut i: usize = 0;
        while i < protocol.messages.len()
            invariant
                0 <= i <= protocol.messages@.len(),
                root.ast_node_type@ == NodeKind::Root,
                node_model(root).children == protocol_subtrees_upto(*protocol, i as int),
            decreases protocol.messages@.len() - i,
        {
            root.add_message_parser(&protocol.messages[i]);
            i = i + 1;
        }

        proof {
            assert(node_model(root) =~~= protocol_tree_model(*protocol));
        }
        root
    }
}


pub proof fn lemma_protocol_subtree_count(p: Protocol, k: int)
    requires
        k >= 0,
    ensures
        protocol_subtrees_upto(p, k).len() == 4 * k,
    decreases k,
{
    if k > 0 {
        lemma_protocol_subtree_count(p, k - 1);
    }
}

proof fn lemma_protocol_subtrees_index(p: Protocol, k: int, mi: int, t: int)
    requires
        0 <= mi < k,
        0 <= t < 4,
    ensures
        protocol_subtrees_upto(p, k)[4 * mi + t] == message_nodes_model(p.messages@[mi])[t],
    decreases k,
{
    lemma_protocol_subtree_count(p, k - 1);
    let prefix = protocol_subtrees_upto(p, k - 1);
    let last = message_nodes_model(p.messages@[k - 1]);
    if mi < k - 1 {
        lemma_protocol_subtrees_index(p, k - 1, mi, t);
        assert((prefix + last)[4 * mi + t] == prefix[4 * mi + t]);
    } else {
        assert((prefix + last)[prefix.len() + t] == last[t]);
    }
}

/// Law: for every message, the lowered tree holds exactly four top-level
/// subtrees per message, and the message's struct subtree carries one
/// member per field, in field order — each a childless member node bearing
/// the field's name, the base type its field type derives to, and the
/// array length the field resolves to (the last explicit `MaxLength`
/// bound, else the default).
pub proof fn lemma_message_struct_members(p: Protocol, mi: int)
    requires
        0 <= mi < p.messages@.len(),
    ensures
        protocol_tree_model(p).children.len() == 4 * p.messages@.len(),
        protocol_tree_model(p).children[4 * mi + 1] == message_struct_node_model(p.messages@[mi]),
        protocol_tree_model(p).children[4 * mi + 1].children.len() == p.messages@[mi].fields@.len(),
        forall|fi: int| 0 <= fi < p.messages@[mi].fields@.len()
            ==> protocol_tree_model(p).children[4 * mi + 1].children[fi]
                == member_node_model(#[trigger] p.messages@[mi].fields@[fi]),
        forall|fi: int| 0 <= fi < p.messages@[mi].fields@.len() ==> {
            let member = protocol_tree_model(p).children[4 * mi + 1].children[fi];
            let field = #[trigger] p.messages@[mi].fields@[fi];
            &&& member.children.len() == 0
            &&& (member.kind matches NodeKind::MessageStructMember { name, field_base_type, array_length }
                && name == field.name@
                && field_base_type == base_type_of(field.field_type)
                && array_length == resolved_max_length(field))
        },
{
    let n = p.messages@.len() as int;
    lemma_protocol_subtree_count(p, n);
    lemma_protocol_subtrees_index(p, n, mi, 1);
}

proof fn lemma_protocol_subtrees_agree(p1: Protocol, p2: Protocol, k: int)
    requires
        0 <= k <= p1.messages@.len(),
        p1.messages@.len() <= p2.messages@.len(),
        forall|i: int| 0 <= i < p1.messages@.len() ==> p1.messages@[i] == p2.messages@[i],
    ensures
        protocol_subtrees_upto(p1, k) == protocol_subtrees_upto(p2, k),
    decreases k,
{
    if k > 0 {
        lemma_protocol_subtrees_agree(p1, p2, k - 1);
    }
}

/// Law: appending one more message to a protocol appends exactly that
/// message's four subtrees to the lowered tree and leaves every
/// already-generated subtree untouched — so a second message doubles the
/// number of top-level per-message subtrees without altering the first
/// message's subtree content.
pub proof fn lemma_appended_message_extends_tree(p1: Protocol, p2: Protocol)
    requires
        p1.messages@ == p2.messages@.drop_last(),
        p2.messages@.len() > 0,
    ensures
        protocol_tree_model(p2).children
            == protocol_tree_model(p1).children + message_nodes_model(p2.messages@.last()),
        protocol_tree_model(p2).children.len() == protocol_tree_model(p1).children.len() + 4,
        forall|t: int| 0 <= t < protocol_tree_model(p1).children.len()
            ==> protocol_tree_model(p2).children[t] == protocol_tree_model(p1).children[t],
{
    let n1 = p1.messages@.len() as int;
    let n2 = p2.messages@.len() as int;
    assert(n2 == n1 + 1);
    lemma_protocol_subtrees_agree(p1, p2, n1);
    assert(protocol_subtrees_upto(p2, n2)
        == protocol_subtrees_upto(p2, n1) + message_nodes_model(p2.messages@[n1]));
    lemma_protocol_subtree_count(p1, n1);
    assert(message_nodes_model(p2.messages@.last()).len() == 4);
}


/// Whether tree `b` is tree `a` with every payload replaced by what the
/// visitor returned for it, shape and child order untouched.
pub open spec fn replacement_applied<F: Fn(AstNodeType) -> AstNodeType>(f: F, a: AstNode, b: AstNode) -> bool
    decreases a,
{
    &&& call_ensures(f, (a.ast_node_type,), b.ast_node_type)
    &&& b.children@.len() == a.children@.len()
    &&& forall|i: int| 0 <= i < a.children@.len()
        ==> replacement_applied(f, #[trigger] a.children@[i], b.children@[i])
}

impl AstNode {
    /// Visitor: rebuilds the tree, replacing every node's payload by what
    /// `apply_replacement` returns for it, recursively, children kept in
    /// order.  The transform pass constructs a new tree rather than
    /// mutating nodes in place.
    #[verifier::loop_isolation(false)]
    pub fn apply_replacement_recursive<F: Fn(AstNodeType) -> AstNodeType + Copy>(self, apply_replacement: F) -> (r: AstNode)
        requires
            forall|t: AstNodeType| #[trigger] call_requires(apply_replacement, (t,)),
        ensures
            replacement_applied(apply_replacement, self, r),
        decreases self,
    {
        let ghost orig: AstNode = self;
        let AstNode { ast_node_type, children } = self;
        let new_type = apply_replacement(ast_node_type);
        let mut remaining = children;
        let mut new_children: Vec<AstNode> = Vec::new();
        let ghost total: int = orig.children@.len() as int;
        while remaining.len() > 0
            invariant
                forall|t: AstNodeType| #[trigger] call_requires(apply_replacement, (t,)),
                new_children@.len() + remaining@.len() == total,
                total == orig.children@.len(),
                remaining@ == orig.children@.subrange(new_children@.len() as int, total),
                forall|i: int| 0 <= i < new_children@.len()
                    ==> replacement_applied(apply_replacement, #[trigger] orig.children@[i], new_children@[i]),
            decreases remaining@.len(),
        {
            let ghost done: int = new_children@.len() as int;
            let child = remaining.remove(0);
            proof {
                assert(child == orig.children@[done]);
                assert(remaining@ =~= orig.children@.subrange(done + 1, total));
                assert(decreases_to!(orig => orig.children));
                assert(decreases_to!(orig.children => orig.children@));
                assert(decreases_to!(orig.children@ => orig.children@[done]));
                assert(decreases_to!(orig => child));
            }
            let transformed = child.apply_replacement_recursive(apply_replacement);
            new_children.push(transformed);
        }
        AstNode { ast_node_type: new_type, children: new_children }
    }
}

} // verus!
