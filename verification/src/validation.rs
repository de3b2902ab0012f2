//! Validates BPIR: an ordered set of independent per-field checks
//! ("linters") runs over every field of every message and aggregates a
//! report.  Validation never mutates the representation and never aborts
//! generation; it is advisory unless the caller chooses to treat `Error`
//! results as fatal.

use vstd::prelude::*;
use vstd::string::StringExecFns;
use crate::representation::{Field, FieldAttribute, FieldType, Message, Protocol};

verus! {

/// The outcome of one linter run on one field of one message.
#[derive(Debug, Clone, PartialEq)]
pub enum MessageFieldLintResult {
    /// The linter did not find errors in the field's structure.
    Passed,

    /// Something in the field presents a potential for errors.
    Warning(String),

    /// The message is invalid.
    Error(String),
}

/// Mathematical model of a lint outcome, with the diagnostic text as a
/// character sequence.
pub enum LintOutcome {
    Passed,
    Warning(Seq<char>),
    Error(Seq<char>),
}

impl View for MessageFieldLintResult {
    type V = LintOutcome;

    open spec fn view(&self) -> LintOutcome {
        match self {
            MessageFieldLintResult::Passed => LintOutcome::Passed,
            MessageFieldLintResult::Warning(s) => LintOutcome::Warning(s@),
            MessageFieldLintResult::Error(s) => LintOutcome::Error(s@),
        }
    }
}

/// The models of a sequence of lint results, in order.
pub open spec fn view_lints(s: Seq<MessageFieldLintResult>) -> Seq<LintOutcome> {
    s.map_values(|r: MessageFieldLintResult| r@)
}

/// Aggregates the results of linting for every (linter, field) invocation
/// over the whole protocol.  If at least one `Error` is present, the
/// protocol definition must be considered faulty.
#[derive(Clone)]
pub struct ProtocolLintResult {
    pub message_lint_results: Vec<MessageFieldLintResult>,
}

impl Default for ProtocolLintResult {
    fn default() -> (r: ProtocolLintResult)
        ensures
            r.message_lint_results@.len() == 0,
    {
        ProtocolLintResult { message_lint_results: Vec::new() }
    }
}

/// Whether the report contains at least one `Error` entry, which makes the
/// protocol definition invalid for generation purposes.
pub open spec fn report_has_error(s: Seq<LintOutcome>) -> bool {
    exists|i: int| 0 <= i < s.len() && s[i] is Error
}

/// Whether the field carries a `MaxLength` attribute.
pub open spec fn has_max_length_attribute(f: Field) -> bool {
    exists|i: int| 0 <= i < f.attributes@.len() && f.attributes@[i] is MaxLength
}

/// The diagnostic text for a shape-bounded field without a `MaxLength`
/// attribute.
pub open spec fn max_length_warning_text(message_name: Seq<char>, field_name: Seq<char>) -> Seq<char> {
    "in message "@ + message_name + " field "@ + field_name
        + " does not have MaxLength attribute"@
}

/// The outcome of the built-in bound check: a pattern-matching field must
/// carry a `MaxLength` attribute; its absence is worth a warning naming the
/// message and the field.
pub open spec fn regex_max_length_outcome(m: Message, f: Field) -> LintOutcome {
    if f.field_type is Regex && has_max_length_attribute(f) {
        LintOutcome::Passed
    } else {
        LintOutcome::Warning(max_length_warning_text(m.name@, f.name@))
    }
}

/// A linter checks the correctness of a message's fields.
///
/// - A linter may be stateful;
/// - the validation framework calls the whole set of linters on each field;
/// - a linter is called on fields in declaration order, once per field;
/// - linters called on the same field must not make assumptions on the
///   order of mutual execution, and must be functionally independent;
/// - a linter may perform composite (cross-field) checking within one
///   message, but never across messages.
#[derive(Debug, Clone, Copy)]
pub enum MessageFieldLint {
    Mock(MockLinter),
    RegexFieldMaxLength(RegexFieldMaxLengthLinter),
}

/// A linter that accepts every field.
#[derive(Debug, Clone, Copy)]
pub struct MockLinter {}

/// Makes sure that a "regex" field has a "max length" attribute.
#[derive(Debug, Clone, Copy)]
pub struct RegexFieldMaxLengthLinter {}

/// The outcome a given linter produces for a given field.
pub open spec fn lint_outcome(l: MessageFieldLint, m: Message, f: Field) -> LintOutcome {
    match l {
        MessageFieldLint::Mock(_) => LintOutcome::Passed,
        MessageFieldLint::RegexFieldMaxLength(_) => regex_max_length_outcome(m, f),
    }
}

impl MockLinter {
    fn lint_field(&mut self, message: &Message, field: &Field) -> (r: MessageFieldLintResult)
        ensures
            *final(self) == *old(self),
            r@ == LintOutcome::Passed,
    {
        MessageFieldLintResult::Passed
    }
}

impl RegexFieldMaxLengthLinter {
    fn lint_field(&mut self, message: &Message, field: &Field) -> (r: MessageFieldLintResult)
        ensures
            *final(self) == *old(self),
            r@ == regex_max_length_outcome(*message, *field),
    {
        match field.field_type {
            FieldType::Regex(_) => {
                let mut i: usize = 0;
                while i < field.attributes.len()
                    invariant
                        0 <= i <= field.attributes@.len(),
                        forall|j: int| 0 <= j < i ==> !(#[trigger] field.attributes@[j] is MaxLength),
                    decreases field.attributes@.len() - i,
                {
                    match field.attributes[i] {
                        FieldAttribute::MaxLength(_) => {
                            proof {
                                assert(field.attributes@[i as int] is MaxLength);
                            }
                            return MessageFieldLintResult::Passed;
                        },
                    }
                }
            },
        }

        let mut text = String::from_str("in message ");
        text.append(message.name.as_str());
        text.append(" field ");
        text.append(field.name.as_str());
        text.append(" does not have MaxLength attribute");
        MessageFieldLintResult::Warning(text)
    }
}

impl MessageFieldLint {
    fn lint_field(&mut self, message: &Message, field: &Field) -> (r: MessageFieldLintResult)
        ensures
            *final(self) == *old(self),
            r@ == lint_outcome(*old(self), *message, *field),
    {
        match self {
            MessageFieldLint::Mock(linter) => linter.lint_field(message, field),
            MessageFieldLint::RegexFieldMaxLength(linter) => linter.lint_field(message, field),
        }
    }
}

/// The outcomes of the first `k` linters of the list on one field, in list
/// order.
pub open spec fn lint_outcomes_upto(linters: Seq<MessageFieldLint>, m: Message, f: Field, k: int) -> Seq<LintOutcome>
    decreases k,
{
    if k <= 0 {
        Seq::<LintOutcome>::empty()
    } else {
        lint_outcomes_upto(linters, m, f, k - 1).push(lint_outcome(linters[k - 1], m, f))
    }
}

/// The outcomes the linter list contributes for the first `k` fields of a
/// message, in field order.
pub open spec fn field_outcomes_upto(linters: Seq<MessageFieldLint>, m: Message, k: int) -> Seq<LintOutcome>
    decreases k,
{
    if k <= 0 {
        Seq::<LintOutcome>::empty()
    } else {
        field_outcomes_upto(linters, m, k - 1)
            + lint_outcomes_upto(linters, m, m.fields@[k - 1], linters.len() as int)
    }
}

/// The outcomes the linter list contributes for one whole message.
pub open spec fn message_outcomes(linters: Seq<MessageFieldLint>, m: Message) -> Seq<LintOutcome> {
    field_outcomes_upto(linters, m, m.fields@.len() as int)
}

/// The outcomes the linter list contributes for the first `k` messages of a
/// protocol, in declaration order.
pub open spec fn protocol_outcomes_upto(linters: Seq<MessageFieldLint>, p: Protocol, k: int) -> Seq<LintOutcome>
    decreases k,
{
    if k <= 0 {
        Seq::<LintOutcome>::empty()
    } else {
        protocol_outcomes_upto(linters, p, k - 1) + message_outcomes(linters, p.messages@[k - 1])
    }
}

/// The linter list the validation engine is built with: the mock linter
/// followed by the bound check.
pub open spec fn built_in_linters() -> Seq<MessageFieldLint> {
    seq![
        MessageFieldLint::Mock(MockLinter {}),
        MessageFieldLint::RegexFieldMaxLength(RegexFieldMaxLengthLinter {}),
    ]
}

/// The full report the validation engine produces for a protocol: for every
/// message in declaration order, for every field in declaration order, one
/// outcome per built-in linter, in list order.
pub open spec fn protocol_lint_outcomes(p: Protocol) -> Seq<LintOutcome> {
    protocol_outcomes_upto(built_in_linters(), p, p.messages@.len() as int)
}

/// Holds an ordered list of linter instances and runs all of them against
/// each field of each message, appending every result (including `Ok`) to
/// the protocol-level report.
pub struct CompositeMessageLinter {
    pending_linters: Vec<MessageFieldLint>,
}

impl CompositeMessageLinter {
    /// The ordered list of linter instances the engine runs.
    pub closed spec fn linters(&self) -> Seq<MessageFieldLint> {
        self.pending_linters@
    }

    /// Builds the engine with the built-in linter list.
    pub fn new() -> (r: CompositeMessageLinter)
        ensures
            r.linters() == built_in_linters(),
    {
        let mut instance = CompositeMessageLinter { pending_linters: Vec::new() };
        instance.pending_linters.push(MessageFieldLint::Mock(MockLinter {}));
        instance.pending_linters.push(MessageFieldLint::RegexFieldMaxLength(RegexFieldMaxLengthLinter {}));
        proof {
            assert(instance.pending_linters@ =~= built_in_linters());
        }
        instance
    }

    /// Runs every pending linter on every field of the message, in field
    /// order, appending each result to the report.
    pub fn lint_message(&mut self, message: &Message, protocol_lint_result: &mut ProtocolLintResult)
        ensures
            final(self).linters() == old(self).linters(),
            view_lints(final(protocol_lint_result).message_lint_results@)
                == view_lints(old(protocol_lint_result).message_lint_results@)
                    + message_outcomes(old(self).linters(), *message),
    {
        let ghost linters: Seq<MessageFieldLint> = self.pending_linters@;
        let ghost initial: Seq<LintOutcome> = view_lints(protocol_lint_result.message_lint_results@);
        let mut i: usize = 0;
        proof {
            assert(initial + field_outcomes_upto(linters, *message, 0) =~= initial);
        }
        while i < message.fields.len()
            invariant
                0 <= i <= message.fields@.len(),
                self.pending_linters@ == linters,
                view_lints(protocol_lint_result.message_lint_results@)
                    == initial + field_outcomes_upto(linters, *message, i as int),
            decreases message.fields@.len() - i,
        {
            let field = &message.fields[i];
            self.lint_field(message, field, protocol_lint_result);
            proof {
                assert(initial + field_outcomes_upto(linters, *message, i as int)
                        + lint_outcomes_upto(linters, *message, *field, linters.len() as int)
                    =~= initial + field_outcomes_upto(linters, *message, i + 1));
            }
            i = i + 1;
        }
    }

    /// Runs every pending linter on one field, in list order, appending
    /// each result to the report.
    fn lint_field(&mut self, message: &Message, field: &Field, protocol_lint_result: &mut ProtocolLintResult)
        ensures
            final(self).pending_linters@ == old(self).pending_linters@,
            view_lints(final(protocol_lint_result).message_lint_results@)
                == view_lints(old(protocol_lint_result).message_lint_results@)
                    + lint_outcomes_upto(
                        old(self).pending_linters@,
                        *message,
                        *field,
                        old(self).pending_linters@.len() as int,
                    ),
    {
        let ghost linters: Seq<MessageFieldLint> = self.pending_linters@;
        let ghost initial: Seq<LintOutcome> = view_lints(protocol_lint_result.message_lint_results@);
        let mut i: usize = 0;
        proof {
            assert(initial + lint_outcomes_upto(linters, *message, *field, 0) =~= initial);
        }
        while i < self.pending_linters.len()
            invariant
                0 <= i <= linters.len(),
                self.pending_linters@ == linters,
                view_lints(protocol_lint_result.message_lint_results@)
                    == initial + lint_outcomes_upto(linters, *message, *field, i as int),
            decreases linters.len() - i,
        {
            let ghost before: Seq<MessageFieldLintResult> = protocol_lint_result.message_lint_results@;
            let result = self.pending_linters[i].lint_field(message, field);
            protocol_lint_result.message_lint_results.push(result);
            proof {
                assert(self.pending_linters@ =~= linters);
                assert(view_lints(before.push(result)) =~= view_lints(before).push(result@));
                assert(view_lints(protocol_lint_result.message_lint_results@)
                    =~= initial + lint_outcomes_upto(linters, *message, *field, i + 1));
            }
            i = i + 1;
        }
    }
}

/// Invokes the built-in linters on each message of the protocol and
/// produces the report of every (linter, field) outcome, in order.  The
/// protocol definition is invalid for generation purposes exactly when
/// `report_has_error` holds of the result.
pub fn validate_protocol(protocol: &Protocol) -> (r: ProtocolLintResult)
    ensures
        view_lints(r.message_lint_results@) == protocol_lint_outcomes(*protocol),
{
    let mut linter = CompositeMessageLinter::new();
    let mut protocol_lint_result = ProtocolLintResult::default();

    let ghost linters: Seq<MessageFieldLint> = linter.pending_linters@;
    let mut i: usize = 0;
    proof {
        assert(view_lints(protocol_lint_result.message_lint_results@)
            =~= protocol_outcomes_upto(linters, *protocol, 0));
    }
    while i < protocol.messages.len()
        invariant
            0 <= i <= protocol.messages@.len(),
            linter.pending_linters@ == linters,
            linters == built_in_linters(),
            view_lints(protocol_lint_result.message_lint_results@)
                == protocol_outcomes_upto(linters, *protocol, i as int),
        decreases protocol.messages@.len() - i,
    {
        let message = &protocol.messages[i];
        linter.lint_message(message, &mut protocol_lint_result);
        proof {
            assert(protocol_outcomes_upto(linters, *protocol, i as int)
                    + message_outcomes(linters, *message)
                =~= protocol_outcomes_upto(linters, *protocol, i + 1));
        }
        i = i + 1;
    }

    protocol_lint_result
}

/// The number of fields declared in the first `k` messages of the protocol.
pub open spec fn total_fields_upto(p: Protocol, k: int) -> int
    decreases k,
{
    if k <= 0 {
        0
    } else {
        total_fields_upto(p, k - 1) + p.messages@[k - 1].fields@.len()
    }
}

proof fn lemma_lint_outcomes_upto_len(linters: Seq<MessageFieldLint>, m: Message, f: Field, k: int)
    requires
        k >= 0,
    ensures
        lint_outcomes_upto(linters, m, f, k).len() == k,
    decreases k,
{
    if k > 0 {
        lemma_lint_outcomes_upto_len(linters, m, f, k - 1);
    }
}

proof fn lemma_field_outcomes_upto_len(linters: Seq<MessageFieldLint>, m: Message, k: int)
    requires
        k >= 0,
        linters.len() == 2,
    ensures
        field_outcomes_upto(linters, m, k).len() == 2 * k,
    decreases k,
{
    if k > 0 {
        lemma_field_outcomes_upto_len(linters, m, k - 1);
        lemma_lint_outcomes_upto_len(linters, m, m.fields@[k - 1], 2);
    }
}

proof fn lemma_field_outcomes_upto_index(linters: Seq<MessageFieldLint>, m: Message, k: int, fi: int)
    requires
        linters.len() == 2,
        0 <= fi < k,
    ensures
        field_outcomes_upto(linters, m, k).len() == 2 * k,
        field_outcomes_upto(linters, m, k)[2 * fi] == lint_outcome(linters[0], m, m.fields@[fi]),
        field_outcomes_upto(linters, m, k)[2 * fi + 1] == lint_outcome(linters[1], m, m.fields@[fi]),
    decreases k,
{
    lemma_field_outcomes_upto_len(linters, m, k);
    let prefix = field_outcomes_upto(linters, m, k - 1);
    let pair = lint_outcomes_upto(linters, m, m.fields@[k - 1], 2);
    lemma_field_outcomes_upto_len(linters, m, k - 1);
    lemma_lint_outcomes_upto_len(linters, m, m.fields@[k - 1], 2);
    if fi < k - 1 {
        lemma_field_outcomes_upto_index(linters, m, k - 1, fi);
        assert((prefix + pair)[2 * fi] == prefix[2 * fi]);
        assert((prefix + pair)[2 * fi + 1] == prefix[2 * fi + 1]);
    } else {
        assert(pair == lint_outcomes_upto(linters, m, m.fields@[k - 1], 1)
            .push(lint_outcome(linters[1], m, m.fields@[k - 1])));
        assert(lint_outcomes_upto(linters, m, m.fields@[k - 1], 1)
            == lint_outcomes_upto(linters, m, m.fields@[k - 1], 0)
                .push(lint_outcome(linters[0], m, m.fields@[k - 1])));
        assert(pair[0] == lint_outcome(linters[0], m, m.fields@[k - 1]));
        assert(pair[1] == lint_outcome(linters[1], m, m.fields@[k - 1]));
        assert((prefix + pair)[2 * fi] == pair[0]);
        assert((prefix + pair)[2 * fi + 1] == pair[1]);
    }
}

proof fn lemma_total_fields_upto_mono(p: Protocol, a: int, b: int)
    requires
        0 <= a <= b,
    ensures
        total_fields_upto(p, a) <= total_fields_upto(p, b),
    decreases b,
{
    if a < b {
        lemma_total_fields_upto_mono(p, a, b - 1);
    }
}

proof fn lemma_protocol_outcomes_upto_len(linters: Seq<MessageFieldLint>, p: Protocol, k: int)
    requires
        k >= 0,
        linters.len() == 2,
    ensures
        protocol_outcomes_upto(linters, p, k).len() == 2 * total_fields_upto(p, k),
    decreases k,
{
    if k > 0 {
        lemma_protocol_outcomes_upto_len(linters, p, k - 1);
        lemma_field_outcomes_upto_len(linters, p.messages@[k - 1], p.messages@[k - 1].fields@.len() as int);
    }
}

proof fn lemma_protocol_outcomes_upto_index(linters: Seq<MessageFieldLint>, p: Protocol, k: int, mi: int, t: int)
    requires
        linters.len() == 2,
        0 <= mi < k,
        0 <= t < 2 * p.messages@[mi].fields@.len(),
    ensures
        protocol_outcomes_upto(linters, p, k)[2 * total_fields_upto(p, mi) + t]
            == message_outcomes(linters, p.messages@[mi])[t],
        0 <= 2 * total_fields_upto(p, mi) + t < protocol_outcomes_upto(linters, p, k).len(),
    decreases k,
{
    lemma_protocol_outcomes_upto_len(linters, p, k);
    lemma_protocol_outcomes_upto_len(linters, p, k - 1);
    lemma_total_fields_upto_mono(p, 0, mi);
    let prefix = protocol_outcomes_upto(linters, p, k - 1);
    let last = message_outcomes(linters, p.messages@[k - 1]);
    lemma_field_outcomes_upto_len(linters, p.messages@[k - 1], p.messages@[k - 1].fields@.len() as int);
    if mi < k - 1 {
        lemma_protocol_outcomes_upto_index(linters, p, k - 1, mi, t);
        lemma_total_fields_upto_mono(p, mi + 1, k - 1);
        assert(2 * total_fields_upto(p, mi) + t < prefix.len());
        assert((prefix + last)[2 * total_fields_upto(p, mi) + t] == prefix[2 * total_fields_upto(p, mi) + t]);
    } else {
        assert((prefix + last)[prefix.len() + t] == last[t]);
    }
}

/// Law: in the validation report, every (message, field) pair contributes
/// exactly two adjacent entries, at the position given by the number of
/// fields declared before it: first the mock linter's `Passed`, then the
/// bound check's outcome — `Passed` exactly when the pattern-matching field
/// carries a `MaxLength` attribute, and otherwise the one warning naming
/// that message and that field.
pub proof fn lemma_report_entries_per_field(p: Protocol, mi: int, fi: int)
    requires
        0 <= mi < p.messages@.len(),
        0 <= fi < p.messages@[mi].fields@.len(),
    ensures
        protocol_lint_outcomes(p).len() == 2 * total_fields_upto(p, p.messages@.len() as int),
        0 <= 2 * (total_fields_upto(p, mi) + fi) + 1 < protocol_lint_outcomes(p).len(),
        protocol_lint_outcomes(p)[2 * (total_fields_upto(p, mi) + fi)] == LintOutcome::Passed,
        protocol_lint_outcomes(p)[2 * (total_fields_upto(p, mi) + fi) + 1]
            == regex_max_length_outcome(p.messages@[mi], p.messages@[mi].fields@[fi]),
        p.messages@[mi].fields@[fi].field_type is Regex
            && has_max_length_attribute(p.messages@[mi].fields@[fi])
            ==> protocol_lint_outcomes(p)[2 * (total_fields_upto(p, mi) + fi) + 1] == LintOutcome::Passed,
        !has_max_length_attribute(p.messages@[mi].fields@[fi])
            ==> protocol_lint_outcomes(p)[2 * (total_fields_upto(p, mi) + fi) + 1]
                == LintOutcome::Warning(max_length_warning_text(
                    p.messages@[mi].name@,
                    p.messages@[mi].fields@[fi].name@,
                )),
{
    let linters = built_in_linters();
    let m = p.messages@[mi];
    let n = p.messages@.len() as int;
    lemma_protocol_outcomes_upto_len(linters, p, n);
    lemma_field_outcomes_upto_index(linters, m, m.fields@.len() as int, fi);
    lemma_protocol_outcomes_upto_index(linters, p, n, mi, 2 * fi);
    lemma_protocol_outcomes_upto_index(linters, p, n, mi, 2 * fi + 1);
    assert(linters[0] == MessageFieldLint::Mock(MockLinter {}));
    assert(linters[1] == MessageFieldLint::RegexFieldMaxLength(RegexFieldMaxLengthLinter {}));
}


proof fn lemma_message_outcomes_shape(m: Message, k: int)
    requires
        k >= 0,
    ensures
        field_outcomes_upto(built_in_linters(), m, k).len() == 2 * k,
        forall|j: int| 0 <= j < 2 * k
            ==> !((#[trigger] field_outcomes_upto(built_in_linters(), m, k)[j]) is Error),
        forall|j: int| 0 <= j < 2 * k && j % 2 == 0
            ==> field_outcomes_upto(built_in_linters(), m, k)[j] is Passed,
    decreases k,
{
    let linters = built_in_linters();
    lemma_field_outcomes_upto_len(linters, m, k);
    if k > 0 {
        lemma_message_outcomes_shape(m, k - 1);
        let prefix = field_outcomes_upto(linters, m, k - 1);
        let pair = lint_outcomes_upto(linters, m, m.fields@[k - 1], 2);
        lemma_lint_outcomes_upto_len(linters, m, m.fields@[k - 1], 2);
        assert(pair == lint_outcomes_upto(linters, m, m.fields@[k - 1], 1)
            .push(lint_outcome(linters[1], m, m.fields@[k - 1])));
        assert(lint_outcomes_upto(linters, m, m.fields@[k - 1], 1)
            == lint_outcomes_upto(linters, m, m.fields@[k - 1], 0)
                .push(lint_outcome(linters[0], m, m.fields@[k - 1])));
        assert(pair[0] == lint_outcome(linters[0], m, m.fields@[k - 1]));
        assert(pair[1] == lint_outcome(linters[1], m, m.fields@[k - 1]));
        assert(pair[0] is Passed);
        assert(!(pair[1] is Error));
        assert forall|j: int| 0 <= j < 2 * k
            implies !((#[trigger] field_outcomes_upto(linters, m, k)[j]) is Error)
                && (j % 2 == 0 ==> field_outcomes_upto(linters, m, k)[j] is Passed) by {
            if j < prefix.len() {
                assert((prefix + pair)[j] == prefix[j]);
            } else {
                assert((prefix + pair)[j] == pair[j - prefix.len()]);
                assert(j - prefix.len() == j - 2 * (k - 1));
            }
        }
    }
}

proof fn lemma_protocol_outcomes_shape(p: Protocol, k: int)
    requires
        k >= 0,
    ensures
        protocol_outcomes_upto(built_in_linters(), p, k).len() == 2 * total_fields_upto(p, k),
        forall|j: int| 0 <= j < protocol_outcomes_upto(built_in_linters(), p, k).len()
            ==> !((#[trigger] protocol_outcomes_upto(built_in_linters(), p, k)[j]) is Error),
        forall|j: int| 0 <= j < protocol_outcomes_upto(built_in_linters(), p, k).len() && j % 2 == 0
            ==> protocol_outcomes_upto(built_in_linters(), p, k)[j] is Passed,
    decreases k,
{
    let linters = built_in_linters();
    lemma_protocol_outcomes_upto_len(linters, p, k);
    if k > 0 {
        lemma_protocol_outcomes_shape(p, k - 1);
        let prefix = protocol_outcomes_upto(linters, p, k - 1);
        let m = p.messages@[k - 1];
        lemma_message_outcomes_shape(m, m.fields@.len() as int);
        assert forall|j: int| 0 <= j < (prefix + message_outcomes(linters, m)).len()
            implies !((#[trigger] (prefix + message_outcomes(linters, m))[j]) is Error)
                && (j % 2 == 0 ==> (prefix + message_outcomes(linters, m))[j] is Passed) by {
            if j < prefix.len() {
                assert((prefix + message_outcomes(linters, m))[j] == prefix[j]);
            } else {
                assert((prefix + message_outcomes(linters, m))[j]
                    == message_outcomes(linters, m)[j - prefix.len()]);
                assert(prefix.len() == 2 * total_fields_upto(p, k - 1));
                assert((j - prefix.len()) % 2 == j % 2);
            }
        }
    }
}

/// Law: the whole report holds exactly two entries per field — and the
/// built-in linters never produce an `Error`, so the built-in validation
/// alone never makes a protocol definition invalid; every even-positioned
/// entry is the mock linter's `Passed`, leaving each field's bound-check
/// outcome as the sole possible warning for it (its exact position and
/// text are given by `lemma_report_entries_per_field`).
pub proof fn lemma_report_shape(p: Protocol)
    ensures
        protocol_lint_outcomes(p).len() == 2 * total_fields_upto(p, p.messages@.len() as int),
        !report_has_error(protocol_lint_outcomes(p)),
        forall|j: int| 0 <= j < protocol_lint_outcomes(p).len() && j % 2 == 0
            ==> (#[trigger] protocol_lint_outcomes(p)[j]) is Passed,
{
    lemma_protocol_outcomes_shape(p, p.messages@.len() as int);
}

} // verus!
