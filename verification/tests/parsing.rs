use avdl::ast::Avdl;
use avdl::error::{Expected, Reason, RuleLabel, Span};
use avdl::parser::parse;

fn parse_one_error(src: &str) -> avdl::error::ParseError {
    let errs = parse(src).expect_err("expected a parse failure");
    assert_eq!(errs.len(), 1);
    errs.into_iter().next().unwrap()
}

#[test]
fn protocol_with_empty_braces() {
    let ast = parse("protocol Foo {}").expect("expected a parse success");
    match ast {
        Avdl::Protocol(name, body) => {
            assert_eq!(name, "Foo");
            assert!(matches!(*body, Avdl::Empty));
        }
        other => panic!("expected a protocol, got {:?}", other),
    }
}

#[test]
fn protocol_with_whitespace_body() {
    let ast = parse("protocol Foo { }").expect("expected a parse success");
    assert_eq!(ast, Avdl::Protocol("Foo".to_string(), Box::new(Avdl::Empty)));
}

#[test]
fn protocol_with_surrounding_whitespace() {
    let ast = parse("  \n protocol \t A_1 \n {\n\t }\r\n ").expect("expected a parse success");
    assert_eq!(ast, Avdl::Protocol("A_1".to_string(), Box::new(Avdl::Empty)));
}

#[test]
fn unicode_whitespace_is_skipped() {
    let src = "\u{a0}protocol\u{2003}Foo\u{2028}{\u{3000}}\u{202f}";
    let ast = parse(src).expect("expected a parse success");
    assert_eq!(ast, Avdl::Protocol("Foo".to_string(), Box::new(Avdl::Empty)));
}

#[test]
fn protocol_name_may_start_with_underscore() {
    let ast = parse("protocol _x {}").expect("expected a parse success");
    assert_eq!(ast, Avdl::Protocol("_x".to_string(), Box::new(Avdl::Empty)));
}

#[test]
fn keyword_needs_no_space_before_name() {
    // the keyword is the literal eight characters; the padded identifier
    // may follow it directly
    let ast = parse("protocolFoo {}").expect("expected a parse success");
    assert_eq!(ast, Avdl::Protocol("Foo".to_string(), Box::new(Avdl::Empty)));
}

#[test]
fn no_space_needed_before_brace() {
    let ast = parse("protocol Foo{}").expect("expected a parse success");
    assert_eq!(ast, Avdl::Protocol("Foo".to_string(), Box::new(Avdl::Empty)));
}

#[test]
fn missing_protocol_name_rejected_at_end_of_input() {
    let e = parse_one_error("protocol");
    assert_eq!(e.span, Span { start: 8, end: 8 });
    assert_eq!(e.found, None);
    assert_eq!(e.expected, vec![]);
    assert_eq!(e.label, Some(RuleLabel::ProtocolName));
    assert_eq!(e.reason, Reason::Unexpected);
}

#[test]
fn numeric_protocol_name_rejected() {
    let e = parse_one_error("protocol 123 {}");
    assert_eq!(e.span, Span { start: 9, end: 10 });
    assert_eq!(e.found, Some('1'));
    assert_eq!(e.expected, vec![]);
    assert_eq!(e.label, Some(RuleLabel::ProtocolName));
    assert_eq!(e.reason, Reason::Unexpected);
}

#[test]
fn missing_closing_brace_is_unclosed_delimiter() {
    let e = parse_one_error("protocol Foo {");
    assert_eq!(e.span, Span { start: 14, end: 14 });
    assert_eq!(e.found, None);
    assert_eq!(e.expected, vec![Expected::Token('}')]);
    assert_eq!(e.label, Some(RuleLabel::Content));
    assert_eq!(
        e.reason,
        Reason::Unclosed { open: Span { start: 13, end: 14 }, delimiter: '{' }
    );
}

#[test]
fn unclosed_secondary_span_covers_the_opening_brace() {
    let src = "protocol Foo {  \n";
    let e = parse_one_error(src);
    match e.reason {
        Reason::Unclosed { open, delimiter } => {
            assert_eq!(delimiter, '{');
            assert_eq!(src.chars().nth(open.start).unwrap(), '{');
            assert_eq!(open.end, open.start + 1);
        }
        other => panic!("expected an unclosed delimiter, got {:?}", other),
    }
}

#[test]
fn body_content_rejected_inside_braces() {
    let src = "protocol Foo {x}";
    let e = parse_one_error(src);
    assert_eq!(e.span, Span { start: 14, end: 15 });
    assert_eq!(e.found, Some('x'));
    assert_eq!(e.expected, vec![Expected::Token('}')]);
    assert_eq!(e.label, Some(RuleLabel::Content));
    assert_eq!(e.reason, Reason::Unexpected);
    // the span lies within the braces
    let open = src.find('{').unwrap();
    let close = src.find('}').unwrap();
    assert!(open < e.span.start && e.span.end <= close + 1);
}

#[test]
fn body_content_rejected_after_whitespace() {
    let e = parse_one_error("protocol Foo {  records }");
    assert_eq!(e.span, Span { start: 16, end: 17 });
    assert_eq!(e.found, Some('r'));
    assert_eq!(e.expected, vec![Expected::Token('}')]);
    assert_eq!(e.label, Some(RuleLabel::Content));
    assert_eq!(e.reason, Reason::Unexpected);
}

#[test]
fn missing_open_brace_rejected() {
    let e = parse_one_error("protocol Foo");
    assert_eq!(e.span, Span { start: 12, end: 12 });
    assert_eq!(e.found, None);
    assert_eq!(e.expected, vec![Expected::Token('{')]);
    assert_eq!(e.label, Some(RuleLabel::Content));
    assert_eq!(e.reason, Reason::Unexpected);
}

#[test]
fn bare_comment_accepted() {
    let ast = parse("/* a comment */").expect("expected a parse success");
    assert!(matches!(ast, Avdl::Comment));
}

#[test]
fn comment_with_surrounding_whitespace_accepted() {
    let ast = parse("  /* hi */  \n").expect("expected a parse success");
    assert!(matches!(ast, Avdl::Comment));
}

#[test]
fn empty_comment_accepted() {
    let ast = parse("/**/").expect("expected a parse success");
    assert!(matches!(ast, Avdl::Comment));
}

#[test]
fn comment_scan_stops_at_first_terminator() {
    // everything after the first `*/` must be whitespace
    let e = parse_one_error("/* a */ b */");
    assert_eq!(e.span, Span { start: 8, end: 9 });
    assert_eq!(e.found, Some('b'));
    assert_eq!(e.expected, vec![Expected::End]);
    assert_eq!(e.label, None);
    assert_eq!(e.reason, Reason::Unexpected);
}

#[test]
fn unterminated_comment_rejected() {
    let e = parse_one_error("/*abc");
    assert_eq!(e.span, Span { start: 5, end: 5 });
    assert_eq!(e.found, None);
    assert_eq!(e.expected, vec![Expected::Token('*')]);
    assert_eq!(e.label, Some(RuleLabel::Comment));
    assert_eq!(e.reason, Reason::Unexpected);
}

#[test]
fn comment_opener_missing_star_rejected() {
    let e = parse_one_error("/x");
    assert_eq!(e.span, Span { start: 1, end: 2 });
    assert_eq!(e.found, Some('x'));
    assert_eq!(e.expected, vec![Expected::Token('*')]);
    assert_eq!(e.label, Some(RuleLabel::Comment));
    assert_eq!(e.reason, Reason::Unexpected);
}

#[test]
fn trailing_input_rejected_after_protocol() {
    let e = parse_one_error("protocol Foo {} extra");
    assert_eq!(e.span, Span { start: 16, end: 17 });
    assert_eq!(e.found, Some('e'));
    assert_eq!(e.expected, vec![Expected::End]);
    assert_eq!(e.label, None);
    assert_eq!(e.reason, Reason::Unexpected);
}

#[test]
fn partial_keyword_rejected() {
    let e = parse_one_error("proto x");
    assert_eq!(e.span, Span { start: 5, end: 6 });
    assert_eq!(e.found, Some(' '));
    assert_eq!(e.expected, vec![Expected::Token('c')]);
    assert_eq!(e.label, Some(RuleLabel::Protocol));
    assert_eq!(e.reason, Reason::Unexpected);
}

#[test]
fn unrecognized_opening_rejected_with_merged_expectations() {
    let e = parse_one_error("xyz {}");
    assert_eq!(e.span, Span { start: 0, end: 1 });
    assert_eq!(e.found, Some('x'));
    assert_eq!(e.expected, vec![Expected::Token('p'), Expected::Token('/')]);
    assert_eq!(e.label, None);
    assert_eq!(e.reason, Reason::Unexpected);
}

#[test]
fn empty_input_rejected_at_end_of_input() {
    let e = parse_one_error("");
    assert_eq!(e.span, Span { start: 0, end: 0 });
    assert_eq!(e.found, None);
    assert_eq!(e.expected, vec![Expected::Token('p'), Expected::Token('/')]);
    assert_eq!(e.label, None);
    assert_eq!(e.reason, Reason::Unexpected);
}

#[test]
fn whitespace_only_input_rejected() {
    let e = parse_one_error("   \n\t");
    assert_eq!(e.span, Span { start: 5, end: 5 });
    assert_eq!(e.found, None);
    assert_eq!(e.expected, vec![Expected::Token('p'), Expected::Token('/')]);
}

#[test]
fn reparsing_success_is_identical() {
    let src = "protocol Foo { }";
    assert_eq!(parse(src), parse(src));
}

#[test]
fn reparsing_failure_is_identical() {
    let src = "protocol Foo {";
    assert_eq!(parse(src), parse(src));
}
