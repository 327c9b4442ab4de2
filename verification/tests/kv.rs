use godot_macros::kv::{parse_kv_group, AttributeMap, KvError, KvErrorKind, KvValue};
use godot_macros::source::Token;

fn ident(name: &str) -> Token {
    Token::Ident(name.to_string())
}

fn lit(text: &str) -> Token {
    Token::Literal(text.to_string())
}

fn eq() -> Token {
    Token::Punct('=')
}

fn comma() -> Token {
    Token::Punct(',')
}

fn map(entries: Vec<(&str, KvValue)>) -> AttributeMap {
    let mut m = AttributeMap::new();
    for (key, value) in entries {
        m.insert(key.to_string(), value);
    }
    m
}

fn refused(tokens: Vec<Token>) -> KvError {
    parse_kv_group(&tokens).unwrap_err()
}

#[test]
fn empty_body() {
    assert_eq!(parse_kv_group(&vec![]).unwrap(), AttributeMap::new());
}

#[test]
fn single_flag() {
    assert_eq!(parse_kv_group(&vec![ident("init")]).unwrap(), map(vec![("init", KvValue::Flag)]));
}

#[test]
fn key_with_identifier() {
    assert_eq!(
        parse_kv_group(&vec![ident("base"), eq(), ident("Node")]).unwrap(),
        map(vec![("base", KvValue::Ident("Node".to_string()))])
    );
}

#[test]
fn key_with_literal() {
    assert_eq!(
        parse_kv_group(&vec![ident("name"), eq(), lit("\"x\"")]).unwrap(),
        map(vec![("name", KvValue::Literal("\"x\"".to_string()))])
    );
}

#[test]
fn several_keys_keep_their_order() {
    let parsed = parse_kv_group(&vec![
        ident("b"),
        comma(),
        ident("a"),
        eq(),
        lit("1"),
        comma(),
        ident("c"),
        eq(),
        ident("x"),
    ])
    .unwrap();
    assert_eq!(parsed.keys(), vec!["b".to_string(), "a".to_string(), "c".to_string()]);
    assert_eq!(parsed.get("b"), Some(&KvValue::Flag));
    assert_eq!(parsed.get("a"), Some(&KvValue::Literal("1".to_string())));
    assert_eq!(parsed.get("c"), Some(&KvValue::Ident("x".to_string())));
    assert_eq!(parsed.len(), 3);
}

#[test]
fn comma_at_the_end_is_accepted() {
    assert_eq!(
        parse_kv_group(&vec![ident("init"), comma()]).unwrap(),
        map(vec![("init", KvValue::Flag)])
    );
    assert_eq!(
        parse_kv_group(&vec![ident("base"), eq(), ident("Node"), comma()]).unwrap(),
        map(vec![("base", KvValue::Ident("Node".to_string()))])
    );
}

#[test]
fn body_must_start_with_a_key() {
    assert_eq!(refused(vec![comma()]), KvError { kind: KvErrorKind::ExpectedKey, at: 0 });
    assert_eq!(refused(vec![eq(), ident("x")]), KvError { kind: KvErrorKind::ExpectedKey, at: 0 });
    assert_eq!(refused(vec![lit("1")]), KvError { kind: KvErrorKind::ExpectedKey, at: 0 });
    assert_eq!(refused(vec![Token::Group]), KvError { kind: KvErrorKind::ExpectedKey, at: 0 });
}

#[test]
fn key_must_follow_a_comma() {
    assert_eq!(
        refused(vec![ident("a"), comma(), comma()]),
        KvError { kind: KvErrorKind::ExpectedKey, at: 2 }
    );
    assert_eq!(
        refused(vec![ident("a"), eq(), ident("b"), comma(), lit("1")]),
        KvError { kind: KvErrorKind::ExpectedKey, at: 4 }
    );
}

#[test]
fn key_must_be_followed_by_a_separator() {
    assert_eq!(
        refused(vec![ident("a"), ident("b")]),
        KvError { kind: KvErrorKind::ExpectedSeparator, at: 1 }
    );
    assert_eq!(
        refused(vec![ident("a"), Token::Punct(';')]),
        KvError { kind: KvErrorKind::ExpectedSeparator, at: 1 }
    );
    assert_eq!(
        refused(vec![ident("a"), Token::Group]),
        KvError { kind: KvErrorKind::ExpectedSeparator, at: 1 }
    );
}

#[test]
fn value_must_be_followed_by_a_comma() {
    assert_eq!(
        refused(vec![ident("a"), eq(), ident("b"), ident("c")]),
        KvError { kind: KvErrorKind::ExpectedSeparator, at: 3 }
    );
    assert_eq!(
        refused(vec![ident("a"), eq(), ident("b"), eq()]),
        KvError { kind: KvErrorKind::ExpectedSeparator, at: 3 }
    );
}

#[test]
fn value_must_be_identifier_or_literal() {
    assert_eq!(refused(vec![ident("a"), eq()]), KvError { kind: KvErrorKind::ExpectedValue, at: 2 });
    assert_eq!(
        refused(vec![ident("a"), eq(), comma()]),
        KvError { kind: KvErrorKind::ExpectedValue, at: 2 }
    );
    assert_eq!(
        refused(vec![ident("a"), eq(), Token::Group]),
        KvError { kind: KvErrorKind::ExpectedValue, at: 2 }
    );
}

#[test]
fn key_may_stand_only_once() {
    assert_eq!(
        refused(vec![ident("a"), comma(), ident("b"), eq(), lit("1"), comma(), ident("a")]),
        KvError { kind: KvErrorKind::DuplicateKey, at: 6 }
    );
    assert_eq!(
        refused(vec![ident("a"), eq(), ident("x"), comma(), ident("a"), eq(), ident("y")]),
        KvError { kind: KvErrorKind::DuplicateKey, at: 4 }
    );
}

#[test]
fn first_fault_is_reported() {
    assert_eq!(
        refused(vec![ident("a"), ident("b"), eq()]),
        KvError { kind: KvErrorKind::ExpectedSeparator, at: 1 }
    );
}
