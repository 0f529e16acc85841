//! The diagnostic reporter. Each parse error is turned into a `Diagnostic` —
//! a headline, a primary label at the error's span and, for an unclosed
//! delimiter, a secondary label at the opening delimiter — and the
//! diagnostic is rendered against the source text as a terminal report.
//! Everything up to the rendering is computed here and proved exact; the
//! rendering itself is ariadne's.

use vstd::prelude::*;
use vstd::string::StringExecFns;
use ariadne::{Config, Label, Report, ReportKind, Source};
use crate::error::{
    err_located, rule_label_text, ErrV, Expected, ParseError, Reason, ReasonV, RuleLabel, Span,
    SpanV,
};

verus! {

/// The diagnostic code carried by every report.
pub const REPORT_CODE: u32 = 3;

/// One error, ready to be rendered: the spans to point at and the text to
/// show beside them.
pub struct Diagnostic {
    /// The report's code.
    pub code: u32,
    /// The headline message.
    pub message: String,
    /// Where the primary label points.
    pub primary_span: Span,
    /// The text beside the primary label.
    pub primary_message: String,
    /// A second label: where an unclosed delimiter was opened, and the text
    /// beside it.
    pub secondary: Option<(Span, String)>,
}

/// The model of a `Diagnostic`.
#[verifier::ext_equal]
pub ghost struct DiagnosticV {
    pub code: int,
    pub message: Seq<char>,
    pub primary_span: SpanV,
    pub primary_message: Seq<char>,
    pub secondary: Option<(SpanV, Seq<char>)>,
}

impl View for Diagnostic {
    type V = DiagnosticV;

    open spec fn view(&self) -> DiagnosticV {
        DiagnosticV {
            code: self.code as int,
            message: self.message@,
            primary_span: self.primary_span@,
            primary_message: self.primary_message@,
            secondary: match self.secondary {
                Some((sp, m)) => Some((sp@, m@)),
                None => None,
            },
        }
    }
}

/// The display text of one expected token: the character itself, or
/// `end of input`.
pub open spec fn expected_text(x: Expected) -> Seq<char> {
    match x {
        Expected::Token(c) => seq![c],
        Expected::End => "end of input"@,
    }
}

/// The expected tokens joined with commas, in their given order.
pub open spec fn joined_expected(es: Seq<Expected>) -> Seq<char>
    decreases es.len(),
{
    if es.len() <= 0 {
        Seq::empty()
    } else if es.len() == 1 {
        expected_text(es[0])
    } else {
        expected_text(es[0]) + ", "@ + joined_expected(es.skip(1))
    }
}

/// What the headline says was expected: the joined tokens, or `something
/// else` when the error names none.
pub open spec fn expected_desc(es: Seq<Expected>) -> Seq<char> {
    if es.len() == 0 {
        "something else"@
    } else {
        joined_expected(es)
    }
}

/// How the headline opens: whether a token was found at the failure site,
/// or the input was exhausted.
pub open spec fn found_text(found: Option<char>) -> Seq<char> {
    match found {
        Some(_) => "Unexpected token"@,
        None => "Unexpected end of input"@,
    }
}

/// The headline's rule suffix, when the error carries a label.
pub open spec fn label_suffix(label: Option<RuleLabel>) -> Seq<char> {
    match label {
        Some(l) => " while parsing "@ + rule_label_text(l),
        None => Seq::empty(),
    }
}

/// The headline of one error: a custom message verbatim; otherwise what was
/// found, which rule was being parsed, and what was expected.
pub open spec fn headline_text(e: ErrV) -> Seq<char> {
    match e.reason {
        ReasonV::Custom { message } => message,
        _ => found_text(e.found) + label_suffix(e.label) + ", expected "@ + expected_desc(
            e.expected,
        ),
    }
}

/// The text beside the primary label: a custom message verbatim; otherwise
/// the found token or the end of input.
pub open spec fn primary_text(e: ErrV) -> Seq<char> {
    match e.reason {
        ReasonV::Custom { message } => message,
        _ => match e.found {
            Some(c) => "Unexpected token "@ + seq![c],
            None => "Unexpected end of input"@,
        },
    }
}

/// The secondary label, present exactly for an unclosed delimiter: the
/// opening delimiter's span and a message naming the delimiter.
pub open spec fn secondary_label(e: ErrV) -> Option<(SpanV, Seq<char>)> {
    match e.reason {
        ReasonV::Unclosed { open, delimiter } => Some(
            (open, "Unclosed delimiter "@ + seq![delimiter]),
        ),
        _ => None,
    }
}

/// The whole diagnostic built from one error.
pub open spec fn diagnostic_of(e: ErrV) -> DiagnosticV {
    DiagnosticV {
        code: REPORT_CODE as int,
        message: headline_text(e),
        primary_span: e.span,
        primary_message: primary_text(e),
        secondary: secondary_label(e),
    }
}

/// Relies on std's `String::push`: it appends the given character to the
/// end of the string.
#[verifier::external_body]
fn push_char(s: &mut String, c: char)
    ensures
        final(s)@ == old(s)@.push(c),
{
    s.push(c);
}

/// The display text of one expected token.
fn expected_item_string(x: Expected) -> (r: String)
    ensures
        r@ == expected_text(x),
{
    match x {
        Expected::Token(c) => {
            let mut s = String::new();
            push_char(&mut s, c);
            assert(s@ =~= seq![c]);
            s
        },
        Expected::End => String::from_str("end of input"),
    }
}

/// Appending one more expected token extends the joined text with a comma
/// and that token's text.
proof fn lemma_joined_push(es: Seq<Expected>, x: Expected)
    ensures
        joined_expected(es.push(x)) == if es.len() == 0 {
            expected_text(x)
        } else {
            joined_expected(es) + ", "@ + expected_text(x)
        },
    decreases es.len(),
{
    let t = es.push(x);
    if es.len() == 0 {
        assert(t.len() == 1);
        assert(t[0] == x);
    } else if es.len() == 1 {
        assert(t[0] == es[0]);
        assert(t.skip(1) =~= seq![x]);
        assert(joined_expected(seq![x]) == expected_text(x));
        assert(joined_expected(t) =~= joined_expected(es) + ", "@ + expected_text(x));
    } else {
        lemma_joined_push(es.skip(1), x);
        assert(t[0] == es[0]);
        assert(t.skip(1) =~= es.skip(1).push(x));
        assert(joined_expected(t) =~= joined_expected(es) + ", "@ + expected_text(x));
    }
}

/// The expected-set description of the headline.
pub fn expected_desc_string(es: &Vec<Expected>) -> (r: String)
    ensures
        r@ == expected_desc(es@),
{
    if es.len() == 0 {
        return String::from_str("something else");
    }
    let mut out = expected_item_string(es[0]);
    proof {
        assert(es@.take(1) =~= seq![es@[0]]);
    }
    let mut i: usize = 1;
    while i < es.len()
        invariant
            1 <= i <= es@.len(),
            out@ == joined_expected(es@.take(i as int)),
        decreases es@.len() - i,
    {
        out.append(", ");
        let item = expected_item_string(es[i]);
        out.append(item.as_str());
        proof {
            lemma_joined_push(es@.take(i as int), es@[i as int]);
            assert(es@.take(i as int + 1) =~= es@.take(i as int).push(es@[i as int]));
            assert(out@ =~= joined_expected(es@.take(i as int + 1)));
        }
        i = i + 1;
    }
    proof {
        assert(es@.take(es@.len() as int) =~= es@);
    }
    out
}

/// The headline of one error.
pub fn headline(e: &ParseError) -> (r: String)
    ensures
        r@ == headline_text(e@),
{
    match &e.reason {
        Reason::Custom { message } => message.clone(),
        _ => {
            let mut msg = if e.found.is_some() {
                String::from_str("Unexpected token")
            } else {
                String::from_str("Unexpected end of input")
            };
            match &e.label {
                Some(l) => {
                    msg.append(" while parsing ");
                    msg.append(l.text());
                },
                None => {},
            }
            msg.append(", expected ");
            let desc = expected_desc_string(&e.expected);
            msg.append(desc.as_str());
            assert(msg@ =~= headline_text(e@));
            msg
        },
    }
}

/// The text beside the primary label.
pub fn primary_label_message(e: &ParseError) -> (r: String)
    ensures
        r@ == primary_text(e@),
{
    match &e.reason {
        Reason::Custom { message } => message.clone(),
        _ => match e.found {
            Some(c) => {
                let mut m = String::from_str("Unexpected token ");
                push_char(&mut m, c);
                assert(m@ =~= "Unexpected token "@ + seq![c]);
                m
            },
            None => String::from_str("Unexpected end of input"),
        },
    }
}

/// Build the whole diagnostic for one error.
pub fn diagnose(e: &ParseError) -> (d: Diagnostic)
    ensures
        d@ == diagnostic_of(e@),
{
    let message = headline(e);
    let primary_message = primary_label_message(e);
    let secondary = match &e.reason {
        Reason::Unclosed { open, delimiter } => {
            let mut m = String::from_str("Unclosed delimiter ");
            push_char(&mut m, *delimiter);
            assert(m@ =~= "Unclosed delimiter "@ + seq![*delimiter]);
            Some((*open, m))
        },
        _ => None,
    };
    let d = Diagnostic {
        code: REPORT_CODE,
        message,
        primary_span: e.span,
        primary_message,
        secondary,
    };
    assert(d@ =~= diagnostic_of(e@));
    d
}

/// What the terminal rendering of one diagnostic against a source text
/// looks like; ariadne computes it.
pub uninterp spec fn rendered_report(src: Seq<char>, d: DiagnosticV) -> Seq<char>;

/// Relies on ariadne's `Report::write`: building a report with a code, a
/// message, one primary label and an optional secondary label, and rendering
/// it against `Source::from(src)` with color disabled, is a pure function of
/// the report's contents and the source text. The configuration uses
/// character offsets; with color off no output goes through the terminal
/// styling switch that a process can toggle at runtime, so equal inputs
/// render equally in every process. `Label::new` rejects a backwards span,
/// and rendering resolves spans to lines of the source, so every span must
/// lie within it.
#[verifier::external_body]
fn render_diagnostic(src: &str, d: &Diagnostic) -> (r: String)
    requires
        0 <= d@.primary_span.start <= d@.primary_span.end <= src@.len(),
        d@.secondary matches Some(sec) ==> 0 <= sec.0.start <= sec.0.end <= src@.len(),
    ensures
        r@ == rendered_report(src@, d@),
{
    let span = d.primary_span.start..d.primary_span.end;
    let mut builder = Report::build(ReportKind::Error, span.clone()).with_code(d.code)
        .with_message(&d.message)
        .with_config(Config::default().with_color(false))
        .with_label(Label::new(span).with_message(&d.primary_message));
    if let Some((sp, m)) = &d.secondary {
        builder = builder.with_label(Label::new(sp.start..sp.end).with_message(m));
    }
    let mut buf: Vec<u8> = Vec::new();
    let _ = builder.finish().write(Source::from(src), &mut buf);
    String::from_utf8_lossy(&buf).into_owned()
}

/// The rendered report for one error: its diagnostic, laid out by ariadne
/// against the source text.
pub fn report_to_string(src: &str, e: &ParseError) -> (r: String)
    requires
        err_located(e@, src@.len() as int),
    ensures
        r@ == rendered_report(src@, diagnostic_of(e@)),
{
    let d = diagnose(e);
    render_diagnostic(src, &d)
}

/// The rendered reports for every collected error, in order: no error is
/// passed over.
pub fn report_all(src: &str, errs: &Vec<ParseError>) -> (r: Vec<String>)
    requires
        forall|i: int|
            0 <= i < errs@.len() ==> #[trigger] err_located(errs@[i]@, src@.len() as int),
    ensures
        r@.len() == errs@.len(),
        forall|i: int|
            0 <= i < errs@.len() ==> #[trigger] r@[i]@ == rendered_report(
                src@,
                diagnostic_of(errs@[i]@),
            ),
{
    let mut out: Vec<String> = Vec::new();
    let mut i: usize = 0;
    while i < errs.len()
        invariant
            i <= errs@.len(),
            out@.len() == i,
            forall|j: int|
                0 <= j < errs@.len() ==> #[trigger] err_located(errs@[j]@, src@.len() as int),
            forall|j: int|
                0 <= j < i ==> #[trigger] out@[j]@ == rendered_report(
                    src@,
                    diagnostic_of(errs@[j]@),
                ),
        decreases errs@.len() - i,
    {
        let s = report_to_string(src, &errs[i]);
        out.push(s);
        i = i + 1;
    }
    out
}

} // verus!
