use godot_macros::attributes::{
    ensure_kv_empty, parse_godot_attr, parse_struct_attributes, ClassAttributes,
};
use godot_macros::errors::{bail, Diagnostic, ErrorKind};
use godot_macros::kv::{AttributeMap, KvError, KvErrorKind, KvValue};
use godot_macros::source::{same_text, Attribute, ClassDeclaration, Location, Shape, Token};

fn ident(name: &str) -> Token {
    Token::Ident(name.to_string())
}

fn lit(text: &str) -> Token {
    Token::Literal(text.to_string())
}

fn eq() -> Token {
    Token::Punct('=')
}

fn comma() -> Token {
    Token::Punct(',')
}

fn attr(path: &[&str], value: Vec<Token>) -> Attribute {
    Attribute { path: path.iter().map(|s| s.to_string()).collect(), value }
}

fn godot(value: Vec<Token>) -> Attribute {
    attr(&["godot"], value)
}

fn class(attributes: Vec<Attribute>) -> ClassDeclaration {
    ClassDeclaration { name: "Thing".to_string(), shape: Shape::NoFields, attributes }
}

fn resolve(attributes: Vec<Attribute>) -> Result<ClassAttributes, Diagnostic> {
    parse_struct_attributes(&class(attributes))
}

#[test]
fn no_attribute_gives_defaults() {
    let config = resolve(vec![]).unwrap();
    assert_eq!(config, ClassAttributes { base_ty: "RefCounted".to_string(), has_generated_init: false });
}

#[test]
fn other_attributes_are_passed_over() {
    let config = resolve(vec![
        attr(&["derive"], vec![Token::Group]),
        attr(&["doc"], vec![eq(), lit("\"text\"")]),
        attr(&["godot", "export"], vec![ident("speed")]),
        attr(&[], vec![]),
    ])
    .unwrap();
    assert_eq!(config.base_ty, "RefCounted");
    assert!(!config.has_generated_init);
}

#[test]
fn empty_config_attribute_gives_defaults() {
    let config = resolve(vec![godot(vec![])]).unwrap();
    assert_eq!(config.base_ty, "RefCounted");
    assert!(!config.has_generated_init);
}

#[test]
fn base_overrides_the_default() {
    let config = resolve(vec![godot(vec![ident("base"), eq(), ident("Node3D")])]).unwrap();
    assert_eq!(config.base_ty, "Node3D");
    assert!(!config.has_generated_init);
}

#[test]
fn init_asks_for_the_constructor() {
    let config = resolve(vec![godot(vec![ident("init")])]).unwrap();
    assert_eq!(config.base_ty, "RefCounted");
    assert!(config.has_generated_init);
}

#[test]
fn order_of_keys_does_not_matter() {
    let one = resolve(vec![godot(vec![ident("init"), comma(), ident("base"), eq(), ident("Node")])]);
    let other = resolve(vec![godot(vec![ident("base"), eq(), ident("Node"), comma(), ident("init")])]);
    assert_eq!(one.unwrap(), other.unwrap());
}

#[test]
fn base_with_literal_is_refused() {
    let e = resolve(vec![attr(&["derive"], vec![]), godot(vec![ident("base"), eq(), lit("\"Node\"")])])
        .unwrap_err();
    assert_eq!(e.kind, ErrorKind::InvalidBaseValue);
    assert_eq!(e.location, Location::StructAttribute(1));
    assert_eq!(e.message(), "Invalid value for 'base' argument");
}

#[test]
fn base_without_value_is_refused() {
    let e = resolve(vec![godot(vec![ident("base")])]).unwrap_err();
    assert_eq!(e.kind, ErrorKind::InvalidBaseValue);
    assert_eq!(e.location, Location::StructAttribute(0));
}

#[test]
fn init_with_value_is_refused() {
    let e = resolve(vec![godot(vec![ident("init"), eq(), ident("yes")])]).unwrap_err();
    assert_eq!(e.kind, ErrorKind::InitTakesNoValue);
    assert_eq!(e.location, Location::StructAttribute(0));
    assert_eq!(e.message(), "Argument 'init' must not have a value");
}

#[test]
fn unknown_key_is_refused() {
    let e = resolve(vec![godot(vec![ident("init"), comma(), ident("speed"), eq(), lit("3")])])
        .unwrap_err();
    assert_eq!(e.kind, ErrorKind::UnknownAttributeKey { keys: vec!["speed".to_string()] });
    assert_eq!(e.location, Location::StructAttribute(0));
    assert_eq!(e.message(), "Attribute contains unknown keys: speed");
}

#[test]
fn every_unknown_key_is_reported_in_order() {
    let e = resolve(vec![godot(vec![
        ident("zeta"),
        comma(),
        ident("base"),
        eq(),
        ident("Node"),
        comma(),
        ident("alpha"),
        comma(),
        ident("init"),
        comma(),
        ident("mid"),
    ])])
    .unwrap_err();
    assert_eq!(
        e.kind,
        ErrorKind::UnknownAttributeKey {
            keys: vec!["zeta".to_string(), "alpha".to_string(), "mid".to_string()]
        }
    );
    assert_eq!(e.message(), "Attribute contains unknown keys: zeta, alpha, mid");
}

#[test]
fn invalid_base_is_reported_before_other_keys() {
    let e = resolve(vec![godot(vec![
        ident("speed"),
        comma(),
        ident("init"),
        eq(),
        ident("x"),
        comma(),
        ident("base"),
        eq(),
        lit("1"),
    ])])
    .unwrap_err();
    assert_eq!(e.kind, ErrorKind::InvalidBaseValue);
}

#[test]
fn init_with_value_is_reported_before_unknown_keys() {
    let e = resolve(vec![godot(vec![ident("speed"), comma(), ident("init"), eq(), ident("x")])])
        .unwrap_err();
    assert_eq!(e.kind, ErrorKind::InitTakesNoValue);
}

#[test]
fn second_config_attribute_is_refused() {
    let e = resolve(vec![
        godot(vec![ident("init")]),
        attr(&["derive"], vec![]),
        godot(vec![ident("base"), eq(), ident("Node")]),
        godot(vec![]),
    ])
    .unwrap_err();
    assert_eq!(e.kind, ErrorKind::DuplicateConfigAttribute);
    assert_eq!(e.location, Location::StructAttribute(2));
    assert_eq!(e.message(), "Only one #[godot] attribute per item (struct, fn, ...) allowed");
}

#[test]
fn malformed_body_is_refused() {
    let e = resolve(vec![attr(&["derive"], vec![]), godot(vec![ident("base"), eq()])]).unwrap_err();
    assert_eq!(
        e.kind,
        ErrorKind::MalformedAttribute { error: KvError { kind: KvErrorKind::ExpectedValue, at: 2 } }
    );
    assert_eq!(e.location, Location::StructAttribute(1));
    assert_eq!(e.message(), "Expected identifier or literal as value in #[godot] attribute");
}

#[test]
fn malformed_first_body_is_reported_before_a_second_attribute() {
    let e = resolve(vec![godot(vec![comma()]), godot(vec![])]).unwrap_err();
    assert_eq!(
        e.kind,
        ErrorKind::MalformedAttribute { error: KvError { kind: KvErrorKind::ExpectedKey, at: 0 } }
    );
    assert_eq!(e.location, Location::StructAttribute(0));
}

#[test]
fn body_of_a_second_attribute_is_not_read() {
    let e = resolve(vec![godot(vec![]), godot(vec![comma()])]).unwrap_err();
    assert_eq!(e.kind, ErrorKind::DuplicateConfigAttribute);
    assert_eq!(e.location, Location::StructAttribute(1));
}

#[test]
fn messages_of_malformed_bodies() {
    let message = |kind: KvErrorKind| {
        Diagnostic {
            kind: ErrorKind::MalformedAttribute { error: KvError { kind, at: 0 } },
            location: Location::StructAttribute(0),
        }
        .message()
    };
    assert_eq!(message(KvErrorKind::ExpectedKey), "Expected a key in #[godot] attribute");
    assert_eq!(message(KvErrorKind::ExpectedSeparator), "Expected `,` or `=` in #[godot] attribute");
    assert_eq!(
        message(KvErrorKind::ExpectedValue),
        "Expected identifier or literal as value in #[godot] attribute"
    );
    assert_eq!(message(KvErrorKind::DuplicateKey), "Duplicate key in #[godot] attribute");
}

#[test]
fn parse_godot_attr_finds_the_attribute() {
    let attributes = vec![
        attr(&["derive"], vec![Token::Group]),
        godot(vec![ident("base"), eq(), ident("Node"), comma(), ident("init")]),
    ];
    let (location, map) = parse_godot_attr(&attributes).unwrap().unwrap();
    assert_eq!(location, Location::StructAttribute(1));
    assert_eq!(map.keys(), vec!["base".to_string(), "init".to_string()]);
    assert_eq!(map.get("base"), Some(&KvValue::Ident("Node".to_string())));
    assert_eq!(map.get("init"), Some(&KvValue::Flag));
}

#[test]
fn parse_godot_attr_without_the_attribute() {
    let attributes = vec![attr(&["derive"], vec![Token::Group]), attr(&["godot", "x"], vec![])];
    assert_eq!(parse_godot_attr(&attributes).unwrap(), None);
    assert_eq!(parse_godot_attr(&vec![]).unwrap(), None);
}

#[test]
fn ensure_kv_empty_on_empty_map() {
    assert_eq!(ensure_kv_empty(AttributeMap::new(), Location::StructAttribute(4)), Ok(()));
}

#[test]
fn ensure_kv_empty_reports_what_is_left() {
    let mut map = AttributeMap::new();
    map.insert("b".to_string(), KvValue::Flag);
    map.insert("a".to_string(), KvValue::Literal("1".to_string()));
    let e = ensure_kv_empty(map, Location::StructAttribute(4)).unwrap_err();
    assert_eq!(
        e.kind,
        ErrorKind::UnknownAttributeKey { keys: vec!["b".to_string(), "a".to_string()] }
    );
    assert_eq!(e.location, Location::StructAttribute(4));
}

#[test]
fn bail_fails_with_what_it_was_given() {
    let r: Result<u8, Diagnostic> = bail(ErrorKind::InitTakesNoValue, Location::Fields);
    assert_eq!(r, Err(Diagnostic { kind: ErrorKind::InitTakesNoValue, location: Location::Fields }));
}

#[test]
fn path_of_an_attribute() {
    let single = attr(&["godot"], vec![]);
    assert_eq!(single.single_path_segment(), Some(&"godot".to_string()));
    assert!(single.path_is_single("godot"));
    assert!(!single.path_is_single("base"));
    let long = attr(&["godot", "base"], vec![]);
    assert_eq!(long.single_path_segment(), None);
    assert!(!long.path_is_single("godot"));
    let none = attr(&[], vec![]);
    assert_eq!(none.single_path_segment(), None);
    assert!(!none.path_is_single(""));
}

#[test]
fn same_text_compares_characters() {
    assert!(same_text(&"base".to_string(), "base"));
    assert!(!same_text(&"base".to_string(), "Base"));
    assert!(!same_text(&"base".to_string(), "bas"));
    assert!(same_text(&String::new(), ""));
}
