//! A coarse tree of patterns common to languages supporting the
//! procedural paradigm.  Its leaves mostly consist of snippets rather than
//! atomic language constructs: it is a less detailed representation of the
//! generated code than the common AST.

use vstd::prelude::*;
use crate::representation::{Protocol, spec_root_message};

verus! {

/// A coarse abstract syntax tree for generated parser code.
#[derive(Debug)]
pub enum Ast {
    /// Generic sequence of AST nodes.
    Sequence { blocks: Vec<Ast> },

    /// Machine header block.
    MachineHeader { machine_name: String },

    /// Entry point to the parser.
    ParsingFunction,
}

impl Ast {
    /// Appends a machine header named after the protocol's root message.
    /// Only a sequence block can take one.
    fn add_machine_header(&mut self, protocol: &Protocol)
        requires
            *old(self) is Sequence,
            protocol.messages@.len() > 0,
        ensures
            *final(self) matches Ast::Sequence { blocks }
                && *old(self) matches Ast::Sequence { blocks: old_blocks }
                && blocks@.len() == old_blocks@.len() + 1
                && blocks@.drop_last() == old_blocks@
                && (blocks@.last() matches Ast::MachineHeader { machine_name }
                    && machine_name@ == spec_root_message(*protocol).name@),
    {
        match self {
            Ast::Sequence { blocks } => {
                let root_message = protocol.root_message();
                blocks.push(Ast::MachineHeader { machine_name: root_message.name.clone() });
                proof {
                    assert(blocks@.drop_last() =~= old(self)->Sequence_blocks@);
                }
                return;
            },
            _ => {
                proof {
                    assert(false);
                }
            },
        }
    }

    /// Appends the parsing function entry point.  Only a sequence block
    /// can take one.
    fn add_parsing_function(&mut self, protocol: &Protocol)
        requires
            *old(self) is Sequence,
            protocol.messages@.len() > 0,
        ensures
            *final(self) matches Ast::Sequence { blocks }
                && *old(self) matches Ast::Sequence { blocks: old_blocks }
                && blocks@.len() == old_blocks@.len() + 1
                && blocks@.drop_last() == old_blocks@
                && blocks@.last() is ParsingFunction,
    {
        match self {
            Ast::Sequence { blocks } => {
                blocks.push(Ast::ParsingFunction);
                proof {
                    assert(blocks@.drop_last() =~= old(self)->Sequence_blocks@);
                }
                return;
            },
            _ => {
                proof {
                    assert(false);
                }
            },
        }
    }

    /// Lowers a protocol into the coarse tree: a sequence of the machine
    /// header for the root message and the parsing function.
    pub fn new_from_protocol(protocol: &Protocol) -> (r: Ast)
        requires
            protocol.messages@.len() > 0,
        ensures
            r matches Ast::Sequence { blocks } && {
                &&& blocks@.len() == 2
                &&& (blocks@[0] matches Ast::MachineHeader { machine_name }
                    && machine_name@ == spec_root_message(*protocol).name@)
                &&& blocks@[1] is ParsingFunction
            },
    {
        let mut block = Ast::Sequence { blocks: Vec::new() };
        block.add_machine_header(protocol);
        block.add_parsing_function(protocol);
        block
    }
}

} // verus!
