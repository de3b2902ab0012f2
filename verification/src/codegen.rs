//! Generic tree-based code generation: code chunks, the shared indentation
//! state threaded through a traversal, and cached pre-rendered ("raw") code
//! that can be replayed at an arbitrary ambient indent.

use vstd::prelude::*;

verus! {

/// Mathematical model of one emittable unit of text: its characters, the
/// indent level it is rendered at, and the number of newlines that follow it.
#[verifier::ext_equal]
pub struct ChunkModel {
    pub code: Seq<char>,
    pub indent: nat,
    pub newlines: nat,
}

/// One emittable unit of text with an explicit indent level and a trailing
/// newline count.  Chunks are accumulated in traversal order and never
/// reordered.
#[derive(Clone, Debug, PartialEq)]
pub struct CodeChunk {
    pub code: String,

    /// Indent of the code chunk's lines.
    pub indent: usize,

    /// Number of new lines to add after the chunk.
    pub newlines: usize,
}

impl View for CodeChunk {
    type V = ChunkModel;

    open spec fn view(&self) -> ChunkModel {
        ChunkModel { code: self.code@, indent: self.indent as nat, newlines: self.newlines as nat }
    }
}

/// The models of a sequence of chunks, in order.
pub open spec fn view_chunks(s: Seq<CodeChunk>) -> Seq<ChunkModel> {
    s.map_values(|c: CodeChunk| c@)
}

/// The same chunks, each moved `d` indent levels to the right.
pub open spec fn shift_chunks(s: Seq<ChunkModel>, d: nat) -> Seq<ChunkModel> {
    s.map_values(|c: ChunkModel| ChunkModel { code: c.code, indent: (c.indent + d) as nat, newlines: c.newlines })
}

impl CodeChunk {
    pub fn new(code: String, indent: usize, newlines: usize) -> (r: CodeChunk)
        ensures
            r@ == (ChunkModel { code: code@, indent: indent as nat, newlines: newlines as nat }),
    {
        CodeChunk { code, indent, newlines }
    }
}

/// The single mutable resource of a traversal: the current indent depth.
pub struct CodeGenerationState {
    pub indent: usize,
}

impl CodeGenerationState {
    pub fn new() -> (r: CodeGenerationState)
        ensures
            r.indent == 0,
    {
        CodeGenerationState { indent: 0 }
    }

    /// Moves the current indent by `increment`.  A decrement that would go
    /// below zero saturates at zero rather than wrapping.
    pub fn increment_indent(&mut self, increment: isize)
        requires
            increment >= 0 ==> old(self).indent + increment <= usize::MAX,
        ensures
            increment >= 0 ==> final(self).indent == old(self).indent + increment,
            increment < 0 && old(self).indent < -(increment as int) ==> final(self).indent == 0,
            increment < 0 && old(self).indent >= -(increment as int) ==> final(self).indent
                == old(self).indent + increment,
    {
        if increment >= 0 {
            self.indent = self.indent + (increment as usize);
        } else {
            let magnitude: usize = ((-(increment + 1)) as usize) + 1;
            if self.indent < magnitude {
                self.indent = 0;
            } else {
                self.indent = self.indent - magnitude;
            }
        }
    }
}

/// A structurally invalid tree reaching a consumer that is not prepared for
/// it.  Such a condition is never retried and never silently skipped.
#[derive(Clone, Copy, Debug, PartialEq, Eq)]
pub enum GenerationError {
    /// A node kind with no rendering reached the generation engine, which
    /// usually indicates an incomplete backend adapter rewrite.
    UnhandledNode,
}

/// Mathematical model of cached raw code: the chunk lists recorded for the
/// two traversal hooks and the net indent change between them.
#[verifier::ext_equal]
pub struct RawCodeModel {
    pub pre: Seq<ChunkModel>,
    pub post: Seq<ChunkModel>,
    pub indent_increment: int,
}

/// Every chunk a node contributes sits at most one level to the right of the
/// ambient indent, and a node raises the indent by at most one level while
/// its children render; recorded raw code inherits those bounds.
pub open spec fn raw_code_wf(m: RawCodeModel) -> bool {
    &&& 0 <= m.indent_increment <= 1
    &&& forall|i: int| 0 <= i < m.pre.len() ==> (#[trigger] m.pre[i]).indent <= 1
    &&& forall|i: int| 0 <= i < m.post.len() ==> (#[trigger] m.post[i]).indent <= 1
}

/// Precompiled code: a recording of both traversal hooks of some node,
/// replayable later at any ambient indent.  The recorded indents are
/// relative: replaying adds the ambient depth to each stored chunk and
/// applies the recorded net indent change to the shared state.
#[derive(Clone, Debug, PartialEq)]
pub struct RawCode {
    pub code_chunk_pre_traverse: Vec<CodeChunk>,
    pub code_chunk_post_traverse: Vec<CodeChunk>,

    /// The net indent change the recorded pre-traversal hook produced, to be
    /// replayed before the children and undone after them.
    pub indent_increment: isize,
}

impl View for RawCode {
    type V = RawCodeModel;

    open spec fn view(&self) -> RawCodeModel {
        RawCodeModel {
            pre: view_chunks(self.code_chunk_pre_traverse@),
            post: view_chunks(self.code_chunk_post_traverse@),
            indent_increment: self.indent_increment as int,
        }
    }
}

/// The chunks a raw-code node contributes before its children: the recorded
/// pre-traversal chunks, shifted right by the ambient indent.
pub open spec fn raw_code_pre_chunks(m: RawCodeModel, ambient: nat) -> Seq<ChunkModel> {
    shift_chunks(m.pre, ambient)
}

/// The chunks a raw-code node contributes after its children: the recorded
/// post-traversal chunks, shifted right by the indent the node was entered
/// at (the ambient indent seen by its own post hook, minus the replayed
/// increment).
pub open spec fn raw_code_post_chunks(m: RawCodeModel, ambient_after_children: nat) -> Seq<ChunkModel> {
    shift_chunks(m.post, (ambient_after_children - m.indent_increment) as nat)
}

impl RawCode {
    /// Replays the recorded pre-traversal chunks at the current ambient
    /// indent and applies the recorded net indent change to the state.
    pub fn generate_code_pre_traverse(&self, code_generation_state: &mut CodeGenerationState) -> (r: Vec<CodeChunk>)
        requires
            raw_code_wf(self@),
            old(code_generation_state).indent + 2 <= usize::MAX,
        ensures
            final(code_generation_state).indent == old(code_generation_state).indent + self@.indent_increment,
            view_chunks(r@) == raw_code_pre_chunks(self@, old(code_generation_state).indent as nat),
    {
        let ghost ambient: nat = code_generation_state.indent as nat;
        let mut ret: Vec<CodeChunk> = Vec::new();
        let mut i: usize = 0;
        proof {
            assert(view_chunks(ret@) =~~= raw_code_pre_chunks(self@, ambient).take(0));
        }
        while i < self.code_chunk_pre_traverse.len()
            invariant
                0 <= i <= self.code_chunk_pre_traverse.len(),
                raw_code_wf(self@),
                code_generation_state.indent as nat == ambient,
                ambient + 2 <= usize::MAX,
                view_chunks(ret@) == raw_code_pre_chunks(self@, ambient).take(i as int),
            decreases self.code_chunk_pre_traverse.len() - i,
        {
            let chunk = &self.code_chunk_pre_traverse[i];
            assert(self@.pre[i as int].indent <= 1);
            let new_chunk = CodeChunk {
                code: chunk.code.clone(),
                indent: chunk.indent + code_generation_state.indent,
                newlines: chunk.newlines,
            };
            let ghost prev: Seq<CodeChunk> = ret@;
            ret.push(new_chunk);
            proof {
                let pres = raw_code_pre_chunks(self@, ambient);
                assert(view_chunks(prev.push(new_chunk)) =~~= view_chunks(prev).push(new_chunk@));
                assert(new_chunk@ =~~= pres[i as int]);
                assert(pres.take(i as int + 1) =~~= pres.take(i as int).push(pres[i as int]));
                assert(view_chunks(ret@) == pres.take(i as int + 1));
            }
            i = i + 1;
        }
        proof {
            assert(raw_code_pre_chunks(self@, ambient).take(i as int) =~~= raw_code_pre_chunks(self@, ambient));
        }
        code_generation_state.increment_indent(self.indent_increment);
        ret
    }

    /// Undoes the recorded net indent change, then replays the recorded
    /// post-traversal chunks at the restored ambient indent.
    pub fn generate_code_post_traverse(&self, code_generation_state: &mut CodeGenerationState) -> (r: Vec<CodeChunk>)
        requires
            raw_code_wf(self@),
            old(code_generation_state).indent >= self@.indent_increment,
            old(code_generation_state).indent - self@.indent_increment + 2 <= usize::MAX,
        ensures
            final(code_generation_state).indent == old(code_generation_state).indent - self@.indent_increment,
            view_chunks(r@) == raw_code_post_chunks(self@, old(code_generation_state).indent as nat),
    {
        let ghost entry: nat = old(code_generation_state).indent as nat;
        code_generation_state.increment_indent(-self.indent_increment);
        let ghost ambient: nat = code_generation_state.indent as nat;
        let mut ret: Vec<CodeChunk> = Vec::new();
        let mut i: usize = 0;
        proof {
            assert(view_chunks(ret@) =~~= raw_code_post_chunks(self@, entry).take(0));
        }
        while i < self.code_chunk_post_traverse.len()
            invariant
                0 <= i <= self.code_chunk_post_traverse.len(),
                raw_code_wf(self@),
                code_generation_state.indent as nat == ambient,
                ambient == entry - self@.indent_increment,
                ambient + 2 <= usize::MAX,
                view_chunks(ret@) == raw_code_post_chunks(self@, entry).take(i as int),
            decreases self.code_chunk_post_traverse.len() - i,
        {
            let chunk = &self.code_chunk_post_traverse[i];
            assert(self@.post[i as int].indent <= 1);
            let new_chunk = CodeChunk {
                code: chunk.code.clone(),
                indent: chunk.indent + code_generation_state.indent,
                newlines: chunk.newlines,
            };
            let ghost prev: Seq<CodeChunk> = ret@;
            ret.push(new_chunk);
            proof {
                let posts = raw_code_post_chunks(self@, entry);
                assert(view_chunks(prev.push(new_chunk)) =~~= view_chunks(prev).push(new_chunk@));
                assert(new_chunk@ =~~= posts[i as int]);
                assert(posts.take(i as int + 1) =~~= posts.take(i as int).push(posts[i as int]));
                assert(view_chunks(ret@) == posts.take(i as int + 1));
            }
            i = i + 1;
        }
        proof {
            assert(raw_code_post_chunks(self@, entry).take(i as int) =~~= raw_code_post_chunks(self@, entry));
        }
        ret
    }
}

/// A generator that contributes no chunks and leaves the indent untouched.
pub struct MockCodeGenerator {}

impl MockCodeGenerator {
    pub fn generate_code_pre_traverse(&self, code_generation_state: &mut CodeGenerationState) -> (r: Vec<CodeChunk>)
        ensures
            final(code_generation_state).indent == old(code_generation_state).indent,
            r@.len() == 0,
    {
        Vec::new()
    }

    pub fn generate_code_post_traverse(&self, code_generation_state: &mut CodeGenerationState) -> (r: Vec<CodeChunk>)
        ensures
            final(code_generation_state).indent == old(code_generation_state).indent,
            r@.len() == 0,
    {
        Vec::new()
    }
}


} // verus!
