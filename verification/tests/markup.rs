//! Tests of the markup lexer and parser.

use fml::lexer::{Lexer, Span, Token, TokenKind};
use fml::parser::attr::{AttributeValue, VariableType};
use fml::parser::element::{ElementId, ElementKind, Node};
use fml::parser::error::ParseError;
use fml::parser::Parser;

fn chars(s: &str) -> Vec<char> {
    s.chars().collect()
}

fn text_of(v: &[char]) -> String {
    v.iter().collect()
}

fn lex_all(s: &str) -> Vec<Token> {
    let input = chars(s);
    let mut lexer = Lexer::new(input.as_slice());
    lexer.lex()
}

#[test]
fn single_root_parses_to_one_element() {
    let node = fml::parse("<box></box>").unwrap();
    match node {
        Node::Element(e) => assert_eq!(e.kind, ElementKind::Box),
        Node::Text(_) => panic!("expected an element"),
    }
}

#[test]
fn zero_top_level_tags_is_an_error() {
    let err = fml::parse("").unwrap_err();
    assert_eq!(text_of(&err), "No root tag found!");
}

#[test]
fn text_only_input_is_an_error() {
    let err = fml::parse("hello").unwrap_err();
    assert!(text_of(&err).contains("Expected TagStart"));
}

#[test]
fn multiple_top_level_tags_take_the_first() {
    let node = fml::parse("<box/><label></label>").unwrap();
    match node {
        Node::Element(e) => assert_eq!(e.kind, ElementKind::Box),
        Node::Text(_) => panic!("expected an element"),
    }
}

#[test]
fn self_closing_input_round_trip() {
    // lexing then parsing a self-closing tag yields the typed element
    let node = fml::parse("<input value=\"5\"/>").unwrap();
    let Node::Element(e) = node else {
        panic!("expected an element");
    };
    assert_eq!(e.kind, ElementKind::Input);
    assert_eq!(e.children.len(), 0);
    assert_eq!(e.attributes.len(), 1);
    assert_eq!(text_of(&e.attributes[0].name), "value");
    match &e.attributes[0].value {
        AttributeValue::Integer { value, .. } => assert_eq!(*value, 5),
        other => panic!("expected an integer value, got {other:?}"),
    }
}

#[test]
fn mismatched_tags_name_both_sides() {
    let err = fml::parse("<box><label>x</box></label>").unwrap_err();
    let msg = text_of(&err);
    assert!(msg.contains("box"), "{msg}");
    assert!(msg.contains("label"), "{msg}");
}

#[test]
fn variable_extraction_from_text() {
    let node = fml::parse("<label>Count: {int:counter}</label>").unwrap();
    let Node::Element(e) = node else {
        panic!("expected an element");
    };
    assert_eq!(e.children.len(), 1);
    let Node::Text(t) = &e.children[0] else {
        panic!("expected a text child");
    };
    assert_eq!(text_of(&t.content), "Count: {int:counter}");
    assert_eq!(t.variable_refs.len(), 1);
    let r = &t.variable_refs[0];
    assert_eq!(r.kind, VariableType::Integer);
    assert_eq!(text_of(&r.name()), "counter");
    // the span covers the braced occurrence inside the content
    assert_eq!(r.start, 7);
    assert_eq!(r.end, 20);
    assert_eq!(text_of(&r.full_match), "{int:counter}");
}

#[test]
fn escaped_closing_brace_is_skipped() {
    let node = fml::parse("<label>a {x\\} and {str:s}</label>").unwrap();
    let Node::Element(e) = node else {
        panic!("expected an element");
    };
    let Node::Text(t) = &e.children[0] else {
        panic!("expected a text child");
    };
    assert_eq!(t.variable_refs.len(), 1);
    assert_eq!(text_of(&t.variable_refs[0].name()), "s");
    assert_eq!(t.variable_refs[0].kind, VariableType::String);
}

#[test]
fn parse_is_repeatable() {
    // the same source parsed twice gives structurally identical trees
    let src = "<root><box a=\"1\"><label>hi {str:n}</label></box><input value=\"5\"/></root>";
    let first = fml::parse(src).unwrap();
    let second = fml::parse(src).unwrap();
    assert_eq!(first, second);
}

#[test]
fn element_ids_follow_construction_order() {
    let node = fml::parse("<box><label></label><input/></box>").unwrap();
    let Node::Element(e) = node else {
        panic!("expected an element");
    };
    // children are built before their parent, in document order
    let Node::Element(label) = &e.children[0] else {
        panic!()
    };
    let Node::Element(input) = &e.children[1] else {
        panic!()
    };
    assert_eq!(label.id, ElementId(0));
    assert_eq!(input.id, ElementId(1));
    assert_eq!(e.id, ElementId(2));
}

#[test]
fn lexer_token_stream_for_self_closing_tag() {
    let toks = lex_all("<input value=\"5\"/>");
    let kinds: Vec<TokenKind> = toks.iter().map(|t| t.kind).collect();
    assert_eq!(kinds.len(), 6);
    assert_eq!(kinds[0], TokenKind::TagStart);
    assert_eq!(kinds[1], TokenKind::TagName(Span { start: 1, end: 6 }));
    assert_eq!(kinds[2], TokenKind::AttributeName(Span { start: 7, end: 12 }));
    assert_eq!(kinds[3], TokenKind::EqualSign);
    // the value span excludes the quotes
    assert_eq!(kinds[4], TokenKind::AttributeValue(Span { start: 14, end: 15 }));
    assert_eq!(kinds[5], TokenKind::TagSelfClose);
}

#[test]
fn lexer_counts_lines() {
    let toks = lex_all("<box>\n</box>");
    let close = toks
        .iter()
        .find(|t| t.kind == TokenKind::TagClose)
        .unwrap();
    assert_eq!(close.line, 2);
}

#[test]
fn line_comments_are_dropped_by_the_parser() {
    let toks = lex_all("// note\n<box/>");
    assert!(toks
        .iter()
        .any(|t| matches!(t.kind, TokenKind::LineComment(_))));
    let node = fml::parse("// note\n<box/>").unwrap();
    let Node::Element(e) = node else {
        panic!()
    };
    assert_eq!(e.kind, ElementKind::Box);
}

#[test]
fn attribute_value_forms() {
    let node =
        fml::parse("<box a=\"1\" b=\"2.5\" c={str:name} d=\"hi there\"/>").unwrap();
    let Node::Element(e) = node else {
        panic!()
    };
    match e.get_attr(&chars("a")).unwrap() {
        AttributeValue::Integer { value, .. } => assert_eq!(*value, 1),
        other => panic!("{other:?}"),
    }
    match e.get_attr(&chars("b")).unwrap() {
        AttributeValue::Float { value, .. } => {
            assert_eq!(value.neg, false);
            assert_eq!(value.mantissa, 25);
            assert_eq!(value.scale, 1);
        },
        other => panic!("{other:?}"),
    }
    match e.get_attr(&chars("c")).unwrap() {
        AttributeValue::Variable { name, .. } => {
            assert_eq!(text_of(&name.name), "name");
            assert_eq!(name.kind, VariableType::String);
        },
        other => panic!("{other:?}"),
    }
    match e.get_attr(&chars("d")).unwrap() {
        AttributeValue::String { value, .. } => assert_eq!(text_of(value), "hi there"),
        other => panic!("{other:?}"),
    }
    assert!(e.get_attr(&chars("missing")).is_none());
}

#[test]
fn newline_in_attribute_value_is_rejected() {
    let err = fml::parse("<box a=\"x\ny\"/>").unwrap_err();
    assert!(text_of(&err).contains("Line breaks are not allowed in attribute values"));
}

#[test]
fn unterminated_tag_reports_eof() {
    let err = fml::parse("<box").unwrap_err();
    assert_eq!(text_of(&err), "EOF: Expected TagName");
}

#[test]
fn bare_attribute_value_is_reported_with_position() {
    let err = fml::parse("<box a=b/>").unwrap_err();
    assert!(text_of(&err).contains("Expected AttributeValue or Variable"));
}

#[test]
fn custom_tag_names_are_kept() {
    let node = fml::parse("<widget></widget>").unwrap();
    let Node::Element(e) = node else {
        panic!()
    };
    match &e.kind {
        ElementKind::Custom(name) => assert_eq!(text_of(name), "widget"),
        other => panic!("{other:?}"),
    }
}

#[test]
fn unicode_tag_names_lex_as_identifiers() {
    // a non-ASCII alphabetic character starts an identifier run
    let node = fml::parse("<šx></šx>").unwrap();
    let Node::Element(e) = node else {
        panic!()
    };
    match &e.kind {
        ElementKind::Custom(name) => assert_eq!(text_of(name), "šx"),
        other => panic!("{other:?}"),
    }
}

#[test]
fn unicode_whitespace_separates_tokens() {
    // U+00A0 counts as white space between attributes
    let node = fml::parse("<box\u{a0}a=\"1\"/>").unwrap();
    let Node::Element(e) = node else {
        panic!()
    };
    assert_eq!(e.attributes.len(), 1);
}

#[test]
fn inline_variable_token_becomes_text_child() {
    let node = fml::parse("<label>{int:count}</label>").unwrap();
    let Node::Element(e) = node else {
        panic!()
    };
    let Node::Text(t) = &e.children[0] else {
        panic!("expected a text child")
    };
    assert_eq!(text_of(&t.content), "{int:count}");
    assert_eq!(t.variable_refs.len(), 1);
    assert_eq!(t.variable_refs[0].kind, VariableType::Integer);
    assert_eq!(text_of(&t.variable_refs[0].name()), "count");
}

#[test]
fn parser_over_prelexed_tokens() {
    let input = chars("<box/>");
    let mut lexer = Lexer::new(input.as_slice());
    let tokens = lexer.lex();
    let mut parser = Parser::new(input.as_slice(), tokens);
    let nodes = parser.parse().unwrap();
    assert_eq!(nodes.len(), 1);
}

#[test]
fn attribute_value_parser_is_total() {
    let v = AttributeValue::new(&chars("-42"), 1, 1).unwrap();
    assert!(matches!(v, AttributeValue::Integer { value: -42, .. }));
    let v = AttributeValue::new(&chars("x:y"), 1, 1).unwrap();
    assert!(matches!(v, AttributeValue::Variable { .. }));
    let v = AttributeValue::new(&chars("\"quoted\""), 1, 1).unwrap();
    match v {
        AttributeValue::String { value, .. } => assert_eq!(text_of(&value), "quoted"),
        other => panic!("{other:?}"),
    }
}

#[test]
fn parse_error_constructors_render_positions() {
    let e = ParseError::expected_token(&TokenKind::TagEnd, &TokenKind::TagStart, 3, 7);
    let msg = text_of(e.message_chars());
    assert_eq!(msg, "Expected token `TagEnd`, found `TagStart` at 3:7");
    let e2 = ParseError::mismatching_closing_tag(&chars("box"), &chars("label"), 1, 2);
    let msg2 = text_of(e2.message_chars());
    assert_eq!(msg2, "Mismatching closing tag. Expected `box`, found `label` at 1:2");
}

#[test]
fn structural_error_carries_line_and_column() {
    let err = fml::parse("x<box/>").unwrap_err();
    assert_eq!(text_of(&err), "Expected TagStart: Line 1 Col 1");
}

#[test]
fn unterminated_quote_runs_to_end_of_input() {
    let toks = lex_all("<box a=\"oops");
    let last = toks.last().unwrap();
    match last.kind {
        TokenKind::AttributeValue(span) => {
            assert_eq!(span, Span { start: 8, end: 12 });
        },
        other => panic!("{other:?}"),
    }
}

#[test]
fn unterminated_reference_degrades() {
    let toks = lex_all("{oops");
    assert_eq!(toks.len(), 1);
    match toks[0].kind {
        TokenKind::Variable(span) => assert_eq!(span, Span { start: 1, end: 4 }),
        other => panic!("{other:?}"),
    }
}

#[test]
fn stray_slash_is_skipped() {
    let node = fml::parse("<box a=\"1\"/ ></box>").unwrap();
    let Node::Element(e) = node else {
        panic!()
    };
    assert_eq!(e.attributes.len(), 1);
}

#[test]
fn leading_text_outside_tags_is_one_token() {
    let toks = lex_all("hello world<box/>");
    match toks[0].kind {
        TokenKind::Text(span) => assert_eq!(span, Span { start: 0, end: 11 }),
        other => panic!("{other:?}"),
    }
}
