use avdl::ast::Avdl;
use avdl::error::{Expected, ParseError, Reason, RuleLabel, Span};
use avdl::parser::parse;
use avdl::report::{
    diagnose, expected_desc_string, headline, primary_label_message, report_all, report_to_string,
    REPORT_CODE,
};

fn one_error(src: &str) -> ParseError {
    let errs = parse(src).expect_err("expected a parse failure");
    assert_eq!(errs.len(), 1);
    errs.into_iter().next().unwrap()
}

#[test]
fn headline_for_bad_protocol_name() {
    let e = one_error("protocol 123 {}");
    assert_eq!(
        headline(&e),
        "Unexpected token while parsing protocol name, expected something else"
    );
}

#[test]
fn headline_for_trailing_input() {
    let e = one_error("protocol Foo {} extra");
    assert_eq!(headline(&e), "Unexpected token, expected end of input");
}

#[test]
fn headline_for_unclosed_delimiter() {
    let e = one_error("protocol Foo {");
    assert_eq!(
        headline(&e),
        "Unexpected end of input while parsing content, expected }"
    );
}

#[test]
fn headline_for_empty_input() {
    let e = one_error("");
    assert_eq!(headline(&e), "Unexpected end of input, expected p, /");
}

#[test]
fn headline_for_custom_reason_is_verbatim() {
    let e = ParseError {
        span: Span { start: 0, end: 1 },
        found: Some('x'),
        expected: vec![Expected::Token('y')],
        label: Some(RuleLabel::Protocol),
        reason: Reason::Custom { message: "a message of its own".to_string() },
    };
    assert_eq!(headline(&e), "a message of its own");
    assert_eq!(primary_label_message(&e), "a message of its own");
}

#[test]
fn expected_description_joins_tokens_in_order() {
    let es = vec![Expected::Token('a'), Expected::End, Expected::Token('b')];
    assert_eq!(expected_desc_string(&es), "a, end of input, b");
}

#[test]
fn expected_description_of_nothing() {
    let es: Vec<Expected> = vec![];
    assert_eq!(expected_desc_string(&es), "something else");
}

#[test]
fn primary_message_names_the_found_token() {
    let e = one_error("protocol Foo {x}");
    assert_eq!(primary_label_message(&e), "Unexpected token x");
}

#[test]
fn primary_message_at_end_of_input() {
    let e = one_error("protocol Foo {");
    assert_eq!(primary_label_message(&e), "Unexpected end of input");
}

#[test]
fn diagnostic_for_unclosed_delimiter_has_two_labels() {
    let e = one_error("protocol Foo {");
    let d = diagnose(&e);
    assert_eq!(d.code, REPORT_CODE);
    assert_eq!(d.primary_span, Span { start: 14, end: 14 });
    assert_eq!(d.primary_message, "Unexpected end of input");
    let (open, msg) = d.secondary.expect("expected a secondary label");
    assert_eq!(open, Span { start: 13, end: 14 });
    assert_eq!(msg, "Unclosed delimiter {");
}

#[test]
fn diagnostic_for_plain_mismatch_has_one_label() {
    let e = one_error("protocol Foo {x}");
    let d = diagnose(&e);
    assert_eq!(d.code, REPORT_CODE);
    assert_eq!(d.primary_span, Span { start: 14, end: 15 });
    assert!(d.secondary.is_none());
    assert_eq!(d.message, "Unexpected token while parsing content, expected }");
}

#[test]
fn rendered_report_shows_message_and_source() {
    let src = "protocol Foo {x}";
    let e = one_error(src);
    let r = report_to_string(src, &e);
    assert!(r.contains("Unexpected token while parsing content, expected }"));
    assert!(r.contains("Unexpected token x"));
    assert!(r.contains("[03] Error:"));
    assert!(r.contains("1:15"));
    assert!(r.contains(src));
    assert_ne!(r, src);
    assert!(r.len() > src.len());
}

#[test]
fn rendered_report_marks_the_unclosed_delimiter() {
    let src = "protocol Foo {";
    let e = one_error(src);
    let r = report_to_string(src, &e);
    assert!(r.contains("Unclosed delimiter"));
    assert!(r.contains("Unexpected end of input"));
}

#[test]
fn rendering_the_same_error_twice_is_identical() {
    let src = "protocol Foo {x}";
    let e = one_error(src);
    assert_eq!(report_to_string(src, &e), report_to_string(src, &e));
}

#[test]
fn every_error_is_reported() {
    let src = "protocol Foo {";
    let errs = parse(src).expect_err("expected a parse failure");
    let reports = report_all(src, &errs);
    assert_eq!(reports.len(), errs.len());
    assert_eq!(reports[0], report_to_string(src, &errs[0]));
}

#[test]
fn display_text_of_protocol() {
    let ast = parse("protocol Foo {}").expect("expected a parse success");
    assert_eq!(ast.to_display_string(), "protocol: \"Foo\", ");
}

#[test]
fn display_text_of_comment_is_empty() {
    let ast = parse("/* quiet */").expect("expected a parse success");
    assert_eq!(ast.to_display_string(), "");
    assert_eq!(Avdl::Empty.to_display_string(), "");
}
