// Tests for the scanner and the builder: the documented behaviours of the
// two-stage front end, each on concrete inputs.

use markup::nodes::{Attribute, Element};
use markup::parser::{parse, token_not_allowed, ParseError, ParseState};
use markup::tokenizer::{invalid_token, strip, tokenize, LexError, Token};
use markup::{Document, DocumentError};

fn parse_str(s: &str) -> Result<Element, DocumentError> {
    match Document::from_string(s) {
        Ok(_) => {}
        Err(e) => return Err(e),
    }
    let tokens = tokenize(s).map_err(DocumentError::Lex)?;
    parse(tokens).map_err(DocumentError::Parse)
}

#[test]
fn round_trip_shape() {
    // parsing a well-formed text reproduces the exact nesting, attribute
    // order and flags of the tree the text writes down
    let parsed = parse_str("<a x=\"1\"><b/>text</a>").unwrap();

    let mut expected = Element::new("a");
    expected.append_attribute(Attribute::new("x", "1"));
    let mut b = Element::new("b");
    b.set_empty(true);
    expected.append_child(b);
    expected.set_text("text");

    assert!(parsed == expected);
}

#[test]
fn attribute_render_round_trip() {
    let a = Attribute::new("x", "1");
    assert_eq!(a.print(), "x=\"1\"");
}

#[test]
fn truncated_input_is_unbalanced() {
    // a missing final close never yields a partial tree
    assert_eq!(
        parse_str("<a>").unwrap_err(),
        DocumentError::Parse(ParseError::UnbalancedStructure)
    );
    assert_eq!(
        parse_str("<a><b></b>").unwrap_err(),
        DocumentError::Parse(ParseError::UnbalancedStructure)
    );
    assert_eq!(
        parse_str("").unwrap_err(),
        DocumentError::Parse(ParseError::UnbalancedStructure)
    );
}

#[test]
fn tag_names_match() {
    let e = parse_str("<a><b></b></a>").unwrap();
    assert_eq!(e.get_name(), "a");
    assert_eq!(e.get_child_count(), 1);
    assert_eq!(e.get_first_child().unwrap().get_name(), "b");
}

#[test]
fn tag_name_mismatch_fails() {
    let err = parse_str("<a><b></a>").unwrap_err();
    assert_eq!(
        err,
        DocumentError::Parse(ParseError::TagMismatch {
            expected: "b".to_string(),
            found: "a".to_string(),
        })
    );
    assert_eq!(
        err.message(),
        "Expected closing tag: b, found closing tag: a"
    );
}

#[test]
fn self_closing_has_no_children() {
    let mut e = parse_str("<a/>").unwrap();
    assert_eq!(e.get_name(), "a");
    assert!(e.is_empty());
    assert_eq!(e.get_child_count(), 0);
}

#[test]
fn attributes_captured_in_order() {
    let e = parse_str("<a x=\"1\" y='2'>text</a>").unwrap();
    let attrs = e.iter_attributes();
    assert_eq!(attrs.len(), 3);
    assert_eq!(attrs[0].get_name(), "x");
    assert_eq!(attrs[0].get_value(), "1");
    assert_eq!(attrs[1].get_name(), "y");
    assert_eq!(attrs[1].get_value(), "2");
    assert_eq!(attrs[2].get_name(), "text_data");
    assert_eq!(attrs[2].get_value(), "text");
}

#[test]
fn whitespace_collapses() {
    assert_eq!(strip("a    b\n\tc"), "a bc");
    assert_eq!(strip("a    b\n\t c"), "a b c");
    assert_eq!(strip("\n\t"), "");
    let tokens = tokenize("a b c").unwrap();
    assert_eq!(
        tokens,
        vec![
            Token::Text("a".to_string()),
            Token::Text("b".to_string()),
            Token::Text("c".to_string()),
        ]
    );
}

#[test]
fn comments_are_stripped() {
    let with_comment = parse_str("<a><!-- ignored <b> --></a>").unwrap();
    let without = parse_str("<a></a>").unwrap();
    assert!(with_comment == without);
    assert_eq!(with_comment.get_child_count(), 0);
}

#[test]
fn comment_token_is_emitted_at_terminator() {
    let tokens = tokenize("<a><!-- x --></a>").unwrap();
    assert_eq!(
        tokens,
        vec![
            Token::Left,
            Token::Text("a".to_string()),
            Token::Right,
            Token::Comment,
            Token::ClosingLeft,
            Token::Text("a".to_string()),
            Token::Right,
        ]
    );
}

#[test]
fn bare_dash_is_illegal() {
    let err = tokenize("a - b").unwrap_err();
    assert_eq!(err, LexError { first: '-', second: '-' });
    assert_eq!(err.message(), "Invalid Token: --");
}

#[test]
fn illegal_pairs_are_reported() {
    assert_eq!(tokenize("<<").unwrap_err(), LexError { first: '<', second: '<' });
    assert_eq!(tokenize("a!b").unwrap_err(), LexError { first: '!', second: '!' });
    assert_eq!(tokenize("?-").unwrap_err(), LexError { first: '?', second: '-' });
    assert_eq!(
        parse_str("-").unwrap_err(),
        DocumentError::Lex(LexError { first: '-', second: '-' })
    );
}

#[test]
fn error_helpers_build_errors() {
    let lex = invalid_token(&'/', &'?').unwrap_err();
    assert_eq!(lex, LexError { first: '/', second: '?' });

    let parse_err = token_not_allowed(&Token::Right, &ParseState::InDocument).unwrap_err();
    assert_eq!(
        parse_err,
        ParseError::TokenNotAllowed { token: Token::Right, state: ParseState::InDocument }
    );
}

#[test]
fn tokens_not_allowed_outside_elements() {
    // text before any element opens is not valid in the document state
    let err = parse_str("stray<a></a>").unwrap_err();
    assert_eq!(
        err,
        DocumentError::Parse(ParseError::TokenNotAllowed {
            token: Token::Text("stray".to_string()),
            state: ParseState::InDocument,
        })
    );
}

#[test]
fn processing_instructions_are_ignored() {
    let e = parse_str("<a><?pi data?></a>").unwrap();
    assert_eq!(e.get_child_count(), 0);
    assert_eq!(e.iter_attributes().len(), 0);
}

#[test]
fn markup_declarations_are_ignored() {
    let e = parse_str("<a><!DOCTYPE x></a>").unwrap();
    assert_eq!(e.get_child_count(), 0);
    assert_eq!(e.iter_attributes().len(), 0);
}

#[test]
fn trailing_content_after_root_is_ignored() {
    let e = parse_str("<a></a><b></b>").unwrap();
    assert_eq!(e.get_name(), "a");
    assert_eq!(e.get_child_count(), 0);
}

#[test]
fn node_model_operations() {
    let mut e = Element::new_empty();
    assert_eq!(e.get_name(), "");
    e.set_name("item");
    assert_eq!(e.get_name(), "item");
    assert!(!e.is_empty());
    e.set_empty(true);
    assert!(e.is_empty());
    e.set_empty(false);

    e.set_attributes(vec![Attribute::new("k", "v")]);
    assert_eq!(e.get_attribute("k").unwrap().get_value(), "v");
    e.set_text("body");
    assert_eq!(e.get_attribute("text_data").unwrap().get_value(), "body");

    e.append_child(Element::new("one"));
    e.append_child(Element::new("two"));
    assert_eq!(e.get_child_count(), 2);
    assert_eq!(e.get_first_child().unwrap().get_name(), "one");
    assert_eq!(e.get_child("two").unwrap().get_name(), "two");
    assert!(e.get_child("three").is_none());

    let cloned = Attribute::new("a", "b").clone();
    assert_eq!(cloned.get_name(), "a");
    assert_eq!(cloned.get_value(), "b");
}

#[test]
fn quote_kinds_are_interchangeable() {
    // a value opened with one quote kind may be closed by the other
    let e = parse_str("<a x=\"1'></a>").unwrap();
    let attrs = e.iter_attributes();
    assert_eq!(attrs[0].get_name(), "x");
    assert_eq!(attrs[0].get_value(), "1");
}
