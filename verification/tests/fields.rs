use godot_macros::errors::ErrorKind;
use godot_macros::fields::{parse_fields, ExportedField, Fields};
use godot_macros::source::{Attribute, ClassDeclaration, Location, NamedField, Shape, Token};

fn attr(path: &[&str]) -> Attribute {
    Attribute { path: path.iter().map(|s| s.to_string()).collect(), value: vec![] }
}

fn field(name: &str, ty: &str, attributes: Vec<Attribute>) -> NamedField {
    NamedField { attributes, name: name.to_string(), ty: ty.to_string() }
}

fn class(shape: Shape) -> ClassDeclaration {
    ClassDeclaration { name: "Thing".to_string(), shape, attributes: vec![] }
}

fn scan(fields: Vec<NamedField>) -> Result<Fields, godot_macros::errors::Diagnostic> {
    parse_fields(&class(Shape::NamedFields(fields)))
}

fn exported(name: &str, ty: &str) -> ExportedField {
    ExportedField { name: name.to_string(), ty: ty.to_string() }
}

fn names(list: &[&str]) -> Vec<String> {
    list.iter().map(|s| s.to_string()).collect()
}

#[test]
fn struct_without_fields() {
    let fields = parse_fields(&class(Shape::NoFields)).unwrap();
    assert_eq!(fields, Fields { all_field_names: vec![], base_field: None, exported_fields: vec![] });
    assert_eq!(scan(vec![]).unwrap(), fields);
}

#[test]
fn tuple_struct_is_refused() {
    let e = parse_fields(&class(Shape::Unsupported)).unwrap_err();
    assert_eq!(e.kind, ErrorKind::UnsupportedFields);
    assert_eq!(e.location, Location::Fields);
}

#[test]
fn plain_fields_keep_their_order() {
    let fields = scan(vec![
        field("c", "i32", vec![]),
        field("a", "i32", vec![attr(&["doc"])]),
        field("b", "i32", vec![]),
    ])
    .unwrap();
    assert_eq!(fields.all_field_names, names(&["c", "a", "b"]));
    assert_eq!(fields.base_field, None);
    assert!(fields.exported_fields.is_empty());
}

#[test]
fn base_field_is_found_and_left_out_of_the_plain_names() {
    let fields = scan(vec![
        field("a", "i32", vec![]),
        field("node", "Base<Node>", vec![attr(&["doc"]), attr(&["base"])]),
        field("b", "i32", vec![]),
    ])
    .unwrap();
    assert_eq!(fields.all_field_names, names(&["a", "b"]));
    assert_eq!(fields.base_field, Some(exported("node", "Base<Node>")));
}

#[test]
fn exported_fields_are_collected_and_stay_plain() {
    let fields = scan(vec![
        field("a", "i32", vec![attr(&["export"])]),
        field("b", "f32", vec![]),
        field("c", "bool", vec![attr(&["export"])]),
    ])
    .unwrap();
    assert_eq!(fields.all_field_names, names(&["a", "b", "c"]));
    assert_eq!(fields.exported_fields, vec![exported("a", "i32"), exported("c", "bool")]);
}

#[test]
fn field_marked_base_and_export_is_no_plain_field() {
    let fields = scan(vec![
        field("node", "Base<Node>", vec![attr(&["export"]), attr(&["base"])]),
        field("a", "i32", vec![]),
    ])
    .unwrap();
    assert_eq!(fields.all_field_names, names(&["a"]));
    assert_eq!(fields.base_field, Some(exported("node", "Base<Node>")));
    assert_eq!(fields.exported_fields, vec![exported("node", "Base<Node>")]);
}

#[test]
fn field_exported_twice_is_collected_twice() {
    let fields = scan(vec![field("a", "i32", vec![attr(&["export"]), attr(&["export"])])]).unwrap();
    assert_eq!(fields.exported_fields, vec![exported("a", "i32"), exported("a", "i32")]);
    assert_eq!(fields.all_field_names, names(&["a"]));
}

#[test]
fn markers_with_longer_paths_do_not_count() {
    let fields = scan(vec![
        field("a", "i32", vec![attr(&["godot", "base"])]),
        field("b", "i32", vec![attr(&["export", "x"]), attr(&[])]),
    ])
    .unwrap();
    assert_eq!(fields.all_field_names, names(&["a", "b"]));
    assert_eq!(fields.base_field, None);
    assert!(fields.exported_fields.is_empty());
}

#[test]
fn body_of_a_marker_is_not_read() {
    let with_body = Attribute { path: vec!["base".to_string()], value: vec![Token::Group] };
    let fields = scan(vec![field("node", "Base", vec![with_body])]).unwrap();
    assert_eq!(fields.base_field, Some(exported("node", "Base")));
}

#[test]
fn second_base_field_is_refused_and_names_the_first() {
    let e = scan(vec![
        field("plain", "i32", vec![]),
        field("one", "Base", vec![attr(&["base"])]),
        field("between", "i32", vec![attr(&["export"])]),
        field("two", "Base", vec![attr(&["doc"]), attr(&["export"]), attr(&["base"])]),
        field("three", "Base", vec![attr(&["base"])]),
    ])
    .unwrap_err();
    assert_eq!(e.kind, ErrorKind::MultipleBaseFields { previous: "one".to_string() });
    assert_eq!(e.location, Location::FieldAttribute { field: 3, attribute: 2 });
    assert_eq!(e.message(), "#[base] allowed for at most 1 field, already applied to 'one'");
}

#[test]
fn field_marked_base_twice_is_refused() {
    let e = scan(vec![field("one", "Base", vec![attr(&["base"]), attr(&["base"])])]).unwrap_err();
    assert_eq!(e.kind, ErrorKind::MultipleBaseFields { previous: "one".to_string() });
    assert_eq!(e.location, Location::FieldAttribute { field: 0, attribute: 1 });
}

#[test]
fn exported_field_new_keeps_name_and_type() {
    let f = field("speed", "f32", vec![attr(&["export"])]);
    assert_eq!(ExportedField::new(&f), exported("speed", "f32"));
}
