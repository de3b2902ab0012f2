//! Core intermediate representation (BPIR) for binary protocols: a protocol
//! owns an ordered sequence of messages, a message an ordered sequence of
//! fields, and every level carries an extensible attribute set.  The
//! representation is pure data; it is constructed wholesale by the caller
//! and read-only through the rest of the pipeline.

use vstd::prelude::*;

verus! {

/// The bound used for a variable-length field whenever no explicit
/// `MaxLength` attribute is supplied.
pub const DEFAULT_MAX_LENGTH: usize = 64;

/// Bounds the matched length for variable-shaped field types.
#[derive(Debug, Clone)]
pub struct MaxLengthFieldAttribute {
    pub value: usize,
}

impl MaxLengthFieldAttribute {
    /// The default bound applied when a field carries no explicit one.
    pub fn get_default_value() -> (r: usize)
        ensures
            r == DEFAULT_MAX_LENGTH,
    {
        DEFAULT_MAX_LENGTH
    }
}

/// Every field is modified with a set of attributes, such as a bound on its
/// matched length.  Attributes of the same kind may repeat; consumers use
/// the last occurrence.
#[derive(Debug, Clone)]
pub enum FieldAttribute {
    MaxLength(MaxLengthFieldAttribute),
}

/// A field type matching a literal or pattern byte sequence.
#[derive(Debug, Clone)]
pub struct RegexFieldType {
    pub regex: String,
}

/// The open set of field type variants.
#[derive(Debug, Clone)]
pub enum FieldType {
    /// Expect a certain sequence of bytes.
    Regex(RegexFieldType),
}

#[derive(Debug)]
pub enum MessageAttribute {
    /// This message is the core of the protocol, which nests every other one.
    Root,
}

/// Protocol-level attributes are an extension point: no attribute is in use
/// yet, so the set holds a single reserved placeholder.
#[derive(Debug)]
pub enum ProtocolAttribute {
    Reserved,
}

/// Represents a protocol's message as a sequence of fields.
#[derive(Debug)]
pub struct Message {
    pub name: String,
    pub fields: Vec<Field>,
    pub attributes: Vec<MessageAttribute>,
}

/// A regular field, such as a byte sequence of fixed length.
#[derive(Debug, Clone)]
pub struct Field {
    pub name: String,
    pub field_type: FieldType,
    pub attributes: Vec<FieldAttribute>,
}

/// Represents the entire protocol as a sequence of messages, in declaration
/// order; the order is significant for code generation.
#[derive(Debug)]
pub struct Protocol {
    pub messages: Vec<Message>,
    pub attributes: Vec<ProtocolAttribute>,
}

/// Whether the message carries the `Root` attribute.
pub open spec fn is_root_message(m: Message) -> bool {
    exists|i: int| 0 <= i < m.attributes@.len() && m.attributes@[i] is Root
}

/// The index of the first `Root`-tagged message at or after position `k`,
/// or 0 when none is tagged.
pub open spec fn root_index_from(p: Protocol, k: int) -> int
    decreases p.messages@.len() - k,
{
    if k < 0 || k >= p.messages@.len() {
        0
    } else if is_root_message(p.messages@[k]) {
        k
    } else {
        root_index_from(p, k + 1)
    }
}

/// The message the protocol treats as its root.
pub open spec fn spec_root_message(p: Protocol) -> Message {
    p.messages@[root_index_from(p, 0)]
}

proof fn lemma_root_index_from_props(p: Protocol, k: int)
    requires
        0 <= k <= p.messages@.len(),
    ensures
        (exists|i: int| k <= i < p.messages@.len() && is_root_message(#[trigger] p.messages@[i]))
            ==> {
                let idx = root_index_from(p, k);
                &&& k <= idx < p.messages@.len()
                &&& is_root_message(p.messages@[idx])
                &&& forall|j: int| k <= j < idx ==> !is_root_message(#[trigger] p.messages@[j])
            },
        (forall|i: int| k <= i < p.messages@.len() ==> !is_root_message(#[trigger] p.messages@[i]))
            ==> root_index_from(p, k) == 0,
    decreases p.messages@.len() - k,
{
    if k < p.messages@.len() && !is_root_message(p.messages@[k]) {
        lemma_root_index_from_props(p, k + 1);
    }
}

/// Law: in a nonempty protocol the selected root is the first
/// `Root`-tagged message when one exists, and otherwise the first message
/// in declaration order.
pub proof fn lemma_root_message_selection(p: Protocol)
    requires
        p.messages@.len() > 0,
    ensures
        0 <= root_index_from(p, 0) < p.messages@.len(),
        (exists|i: int| 0 <= i < p.messages@.len() && is_root_message(#[trigger] p.messages@[i]))
            ==> {
                let idx = root_index_from(p, 0);
                &&& is_root_message(p.messages@[idx])
                &&& forall|j: int| 0 <= j < idx ==> !is_root_message(#[trigger] p.messages@[j])
            },
        (forall|i: int| 0 <= i < p.messages@.len() ==> !is_root_message(#[trigger] p.messages@[i]))
            ==> spec_root_message(p) == p.messages@[0],
{
    lemma_root_index_from_props(p, 0);
}

impl Protocol {
    /// Gets the root message: the first message tagged `Root`, or, if none
    /// is, the first message in declaration order.  A protocol with zero
    /// messages is structurally invalid and has no root message.
    pub fn root_message(&self) -> (r: &Message)
        requires
            self.messages@.len() > 0,
        ensures
            *r == spec_root_message(*self),
    {
        let mut index: usize = 0;
        while index < self.messages.len()
            invariant
                0 <= index <= self.messages@.len(),
                forall|j: int| 0 <= j < index ==> !is_root_message(#[trigger] self.messages@[j]),
            decreases self.messages@.len() - index,
        {
            let message = &self.messages[index];
            let mut a: usize = 0;
            while a < message.attributes.len()
                invariant
                    0 <= a <= message.attributes@.len(),
                    *message == self.messages@[index as int],
                    index < self.messages@.len(),
                    forall|j: int| 0 <= j < index ==> !is_root_message(#[trigger] self.messages@[j]),
                decreases message.attributes@.len() - a,
            {
                match message.attributes[a] {
                    MessageAttribute::Root => {
                        proof {
                            assert(message.attributes@[a as int] is Root);
                            assert(is_root_message(self.messages@[index as int]));
                            lemma_root_index_from_props(*self, 0);
                            let idx = root_index_from(*self, 0);
                            if idx < index as int {
                                assert(!is_root_message(self.messages@[idx]));
                            }
                            assert(idx == index as int);
                        }
                        return message;
                    },
                }
            }
            index = index + 1;
        }

        proof {
            lemma_root_index_from_props(*self, 0);
        }
        &self.messages[0]
    }

    /// The root message as an explicit outcome at the library boundary:
    /// `None` exactly when the protocol holds no messages — the
    /// structurally invalid, fail-fast case — and otherwise the same
    /// message `root_message` selects.
    pub fn try_root_message(&self) -> (r: Option<&Message>)
        ensures
            r is None <==> self.messages@.len() == 0,
            r matches Some(m) ==> *m == spec_root_message(*self),
    {
        if self.messages.len() == 0 {
            None
        } else {
            Some(self.root_message())
        }
    }
}

} // verus!
