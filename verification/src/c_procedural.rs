//! Renders the coarse procedural tree as C text with the machine notation
//! embedded.  The rendering is a pure function of the tree; a thin writer
//! sends the text wherever the caller wants it.

use vstd::prelude::*;
use vstd::string::StringExecFns;
use crate::procedural::Ast;
use crate::representation::{Protocol, spec_root_message};

verus! {

/// The text an AST block renders to.
pub open spec fn spec_render(ast: Ast) -> Seq<char>
    decreases ast, 0int,
{
    match ast {
        Ast::Sequence { blocks } => spec_render_blocks(blocks@, 0),
        Ast::MachineHeader { machine_name } =>
            "%%{\n    machine "@ + machine_name@ + ";\n    write data;\n%%}\n\n"@,
        Ast::ParsingFunction => "void parse(char *string, char *length)\n{\n}"@,
    }
}

/// The text the blocks from position `k` on render to, in order.
pub open spec fn spec_render_blocks(blocks: Seq<Ast>, k: int) -> Seq<char>
    decreases blocks, blocks.len() - k,
{
    if k < 0 || k >= blocks.len() {
        Seq::<char>::empty()
    } else {
        spec_render(blocks[k]) + spec_render_blocks(blocks, k + 1)
    }
}

fn render_ast(ast: &Ast) -> (r: String)
    ensures
        r@ == spec_render(*ast),
    decreases *ast,
{
    match ast {
        Ast::Sequence { blocks } => {
            let mut out = String::new();
            let mut i: usize = 0;
            proof {
                assert(out@ + spec_render_blocks(blocks@, 0) =~= spec_render_blocks(blocks@, 0));
            }
            while i < blocks.len()
                invariant
                    0 <= i <= blocks@.len(),
                    ast matches Ast::Sequence { blocks: b } && b == blocks,
                    out@ + spec_render_blocks(blocks@, i as int) == spec_render_blocks(blocks@, 0),
                decreases blocks@.len() - i,
            {
                proof {
                    assert(decreases_to!(*ast => *blocks));
                    assert(decreases_to!(*blocks => blocks@));
                    assert(decreases_to!(blocks@ => blocks@[i as int]));
                }
                let rendered = render_ast(&blocks[i]);
                out.append(rendered.as_str());
                proof {
                    assert(spec_render_blocks(blocks@, i as int)
                        == spec_render(blocks@[i as int]) + spec_render_blocks(blocks@, i + 1));
                    assert(out@ + spec_render_blocks(blocks@, i + 1) =~= spec_render_blocks(blocks@, 0));
                }
                i = i + 1;
            }
            out
        },
        Ast::MachineHeader { machine_name } => {
            let mut out = String::from_str("%%{\n    machine ");
            out.append(machine_name.as_str());
            out.append(";\n    write data;\n%%}\n\n");
            proof {
                assert(out@ =~= spec_render(*ast));
            }
            out
        },
        Ast::ParsingFunction => String::from_str("void parse(char *string, char *length)\n{\n}"),
    }
}

/// A C-specific holder of the coarse tree.
pub struct CAst {
    ast: Ast,
}

impl CAst {
    /// The held tree.
    pub closed spec fn model(&self) -> Ast {
        self.ast
    }

    /// Lowers a protocol into the coarse C tree.
    pub fn new_from_protocol(protocol: &Protocol) -> (r: CAst)
        requires
            protocol.messages@.len() > 0,
        ensures
            r.model() matches Ast::Sequence { blocks } && {
                &&& blocks@.len() == 2
                &&& (blocks@[0] matches Ast::MachineHeader { machine_name }
                    && machine_name@ == spec_root_message(*protocol).name@)
                &&& blocks@[1] is ParsingFunction
            },
    {
        CAst { ast: Ast::new_from_protocol(protocol) }
    }

    /// Renders the held tree as one C text.
    pub fn generate_to_string(&self) -> (r: String)
        ensures
            r@ == spec_render(self.model()),
    {
        render_ast(&self.ast)
    }
}

} // verus!
