//! Parse errors and their mathematical model. A `ParseError` locates one
//! grammar mismatch: where it happened, what was found there, what would
//! have been accepted instead, which rule was being attempted, and a reason
//! that distinguishes plain mismatches, unclosed delimiters and custom
//! messages.

use vstd::prelude::*;

verus! {

/// A half-open range of character offsets into the source buffer.
#[derive(Clone, Copy, Debug, PartialEq, Eq, Structural)]
pub struct Span {
    pub start: usize,
    pub end: usize,
}

/// The model of a `Span`: the same range over unbounded integers.
#[verifier::ext_equal]
pub ghost struct SpanV {
    pub start: int,
    pub end: int,
}

impl View for Span {
    type V = SpanV;

    open spec fn view(&self) -> SpanV {
        SpanV { start: self.start as int, end: self.end as int }
    }
}

/// One token that the failed rule would have accepted: a concrete character,
/// or the end of the input.
#[derive(Clone, Copy, Debug, PartialEq, Eq)]
pub enum Expected {
    Token(char),
    End,
}

/// The grammar rule that was being attempted when an error arose.
#[derive(Clone, Copy, Debug, PartialEq, Eq)]
pub enum RuleLabel {
    Protocol,
    ProtocolName,
    Content,
    Comment,
}

/// The display text of each rule label.
pub open spec fn rule_label_text(l: RuleLabel) -> Seq<char> {
    match l {
        RuleLabel::Protocol => "protocol"@,
        RuleLabel::ProtocolName => "protocol name"@,
        RuleLabel::Content => "content"@,
        RuleLabel::Comment => "comment"@,
    }
}

impl RuleLabel {
    /// The label as it appears in diagnostic messages.
    pub fn text(&self) -> (r: &'static str)
        ensures
            r@ == rule_label_text(*self),
    {
        match self {
            RuleLabel::Protocol => "protocol",
            RuleLabel::ProtocolName => "protocol name",
            RuleLabel::Content => "content",
            RuleLabel::Comment => "comment",
        }
    }
}

/// Why the parse failed at the error's span.
#[derive(Clone, Debug, PartialEq)]
pub enum Reason {
    /// A plain mismatch: the input at the span does not continue any rule.
    Unexpected,
    /// A delimiter was opened at `open` and never closed.
    Unclosed { open: Span, delimiter: char },
    /// A message supplied verbatim.
    Custom { message: String },
}

/// The model of a `Reason`.
#[verifier::ext_equal]
pub ghost enum ReasonV {
    Unexpected,
    Unclosed { open: SpanV, delimiter: char },
    Custom { message: Seq<char> },
}

impl View for Reason {
    type V = ReasonV;

    open spec fn view(&self) -> ReasonV {
        match self {
            Reason::Unexpected => ReasonV::Unexpected,
            Reason::Unclosed { open, delimiter } => ReasonV::Unclosed {
                open: open@,
                delimiter: *delimiter,
            },
            Reason::Custom { message } => ReasonV::Custom { message: message@ },
        }
    }
}

/// One parse failure, located in the source buffer.
#[derive(Clone, Debug, PartialEq)]
pub struct ParseError {
    /// Where the failure was detected. Empty (`start == end`) only at the
    /// end of the input.
    pub span: Span,
    /// The character found at the span, or `None` at the end of the input.
    pub found: Option<char>,
    /// The tokens that would have been accepted at the span.
    pub expected: Vec<Expected>,
    /// The rule being attempted, where one was identifiable.
    pub label: Option<RuleLabel>,
    /// The kind of failure.
    pub reason: Reason,
}

/// The model of a `ParseError`.
#[verifier::ext_equal]
pub ghost struct ErrV {
    pub span: SpanV,
    pub found: Option<char>,
    pub expected: Seq<Expected>,
    pub label: Option<RuleLabel>,
    pub reason: ReasonV,
}

/// A span that lies within an input of `n` characters.
pub open spec fn located_in(sp: SpanV, n: int) -> bool {
    0 <= sp.start <= sp.end <= n
}

/// An error all of whose spans lie within an input of `n` characters.
pub open spec fn err_located(e: ErrV, n: int) -> bool {
    &&& located_in(e.span, n)
    &&& match e.reason {
        ReasonV::Unclosed { open, .. } => located_in(open, n),
        _ => true,
    }
}

impl View for ParseError {
    type V = ErrV;

    open spec fn view(&self) -> ErrV {
        ErrV {
            span: self.span@,
            found: self.found,
            expected: self.expected@,
            label: self.label,
            reason: self.reason@,
        }
    }
}

} // verus!
