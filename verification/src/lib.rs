//! Code generator for embedded binary-protocol parsers.
//!
//! A protocol is described as a language-agnostic intermediate
//! representation (the "Binary Protocol Intermediate Representation",
//! BPIR).  The library validates a BPIR instance, lowers it into a
//! language-agnostic intermediate AST of procedural constructs, lets a
//! target backend rewrite the tree node by node, and finally renders the
//! tree as an ordered sequence of indented code chunks.

pub mod c_backend;
pub mod c_procedural;
pub mod codegen;
pub mod common_ast;
pub mod procedural;
pub mod representation;
pub mod strings;
pub mod validation;
