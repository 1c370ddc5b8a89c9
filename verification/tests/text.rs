use hackc_core::emit_property::{copy_value, copy_values};
use hackc_core::hhas_property::TypedValue;
use hackc_core::namespace_env::copy_pairs;
use hackc_core::positioned_syntax::PositionedSyntax;
use hackc_core::syntax::{Span, SyntaxKind, Token, TokenKind};
use hackc_core::text::{chars_of, contains_char, copy_text, same_text, starts_with};

fn chars(s: &str) -> Vec<char> {
    s.chars().collect()
}

#[test]
fn chars_of_gives_characters_not_bytes() {
    assert_eq!(chars_of(""), Vec::<char>::new());
    assert_eq!(chars_of("a\\b"), vec!['a', '\\', 'b']);
    assert_eq!(chars_of("é→z"), vec!['é', '→', 'z']);
    assert_eq!(chars_of("é→z").len(), 3);
}

#[test]
fn starts_with_compares_prefix() {
    assert!(starts_with(&chars("namespace"), &chars("name")));
    assert!(starts_with(&chars("name"), &chars("name")));
    assert!(starts_with(&chars("name"), &chars("")));
    assert!(starts_with(&chars(""), &chars("")));
    assert!(!starts_with(&chars("nam"), &chars("name")));
    assert!(!starts_with(&chars("name"), &chars("nane")));
    assert!(!starts_with(&chars("xname"), &chars("name")));
    assert!(!starts_with(&chars(""), &chars("a")));
}

#[test]
fn contains_char_finds_separator() {
    assert!(contains_char(&chars("A\\B"), '\\'));
    assert!(contains_char(&chars("\\"), '\\'));
    assert!(contains_char(&chars("AB\\"), '\\'));
    assert!(!contains_char(&chars("AB"), '\\'));
    assert!(!contains_char(&chars(""), '\\'));
}

#[test]
fn same_text_compares_whole_strings() {
    assert!(same_text("", ""));
    assert!(same_text("__LSB", "__LSB"));
    assert!(!same_text("__LSB", "__LSb"));
    assert!(!same_text("__LSB", "__LS"));
    assert!(!same_text("", "a"));
}

#[test]
fn copies_are_equal_to_what_was_copied() {
    assert_eq!(copy_text(&None), None);
    assert_eq!(copy_text(&Some("a".to_string())), Some("a".to_string()));
    let pairs = vec![("a".to_string(), "b".to_string()), ("".to_string(), "c".to_string())];
    assert_eq!(copy_pairs(&pairs), pairs);
    assert_eq!(copy_pairs(&Vec::new()), Vec::new());
    let values = vec![
        TypedValue::Null,
        TypedValue::Bool(true),
        TypedValue::Int(-3),
        TypedValue::String("s".to_string()),
    ];
    assert_eq!(copy_values(&values), values);
    assert_eq!(copy_values(&Vec::new()), Vec::new());
    for value in &values {
        assert_eq!(&copy_value(value), value);
    }
}

#[test]
fn from_children_records_union_of_spans() {
    let a = Token::new(TokenKind(1), "a".to_string(), 10, 1).unwrap();
    let b = Token::new(TokenKind(1), "bb".to_string(), 2, 2).unwrap();
    let missing = PositionedSyntax::from_children(SyntaxKind::Missing, Vec::new());
    assert_eq!(missing.span(), None);
    let node = PositionedSyntax::from_children(
        SyntaxKind::NamespaceBody,
        vec![PositionedSyntax::from_token(a), missing, PositionedSyntax::from_token(b)],
    );
    assert_eq!(node.kind(), SyntaxKind::NamespaceBody);
    assert_eq!(node.span(), Some(Span { start: 2, end: 11 }));
    assert_eq!(node.children().len(), 3);
    assert!(node.is_well_formed());
}
