//! The pass itself: from a declaration to the output for its class.

use crate::attributes::{
    default_base, is_recognized_key, lemma_base_overrides, lemma_base_value_refused,
    lemma_defaults_without_config, lemma_unknown_key_refused, only_config_at,
    parse_struct_attributes, resolve_attributes, ClassAttributes, ClassAttributesView,
};
use crate::errors::{
    bail, lemma_message_names_base_field, lemma_message_names_unknown_key, message_of, occurs_in,
    outcome, Diagnostic, DiagnosticView, ErrorKind, ErrorKindView,
};
use crate::fields::{
    has_marker, lemma_two_base_fields_refused, parse_fields, scan_fields, Fields, FieldsView,
};
use crate::kv::{lookup, parsed, KvEntryView, KvError, KvValueView};
use crate::output::{
    Callback, ClassOutput, ClassOutputView, ClassPlugin, ClassPluginView, Declarer, FieldInit,
    FieldInitView, FnRef, FnRefView, GeneratedInit, GeneratedInitView, InitValue, MemoryMode,
    MetadataBinding, MetadataBindingView,
};
use crate::source::{
    ClassDeclaration, ClassDeclarationView, Declaration, DeclarationView, Location,
    NamedFieldView, Shape, ShapeView,
};
use vstd::prelude::*;
use vstd::string::StringExecFns;

verus! {

/// The struct that the pass works on, where it takes the declaration: a
/// declaration that is no struct is refused, and so is a struct with fields
/// by position.
pub open spec fn accepted(decl: DeclarationView) -> Result<ClassDeclarationView, DiagnosticView> {
    match decl {
        DeclarationView::Struct(class) => if class.shape is Unsupported {
            Err(
                DiagnosticView {
                    kind: ErrorKindView::UnsupportedFields,
                    location: Location::Fields,
                },
            )
        } else {
            Ok(class)
        },
        _ => Err(
            DiagnosticView {
                kind: ErrorKindView::UnsupportedShape,
                location: Location::Declaration,
            },
        ),
    }
}

/// Takes a declaration that is a struct with named fields or without
/// fields, and refuses any other.
pub fn accept_declaration(decl: Declaration) -> (r: Result<ClassDeclaration, Diagnostic>)
    ensures
        outcome(r) == accepted(decl@),
{
    match decl {
        Declaration::Struct(class) => {
            if let Shape::Unsupported = class.shape {
                bail(ErrorKind::UnsupportedFields, Location::Fields)
            } else {
                Ok(class)
            }
        },
        _ => bail(ErrorKind::UnsupportedShape, Location::Declaration),
    }
}

/// An initializer with the default value for each name, in the order of the
/// names.
pub open spec fn default_inits(names: Seq<Seq<char>>) -> Seq<FieldInitView> {
    names.map_values(|name: Seq<char>| FieldInitView { name, value: InitValue::Default })
}

/// The constructor of the class `class_name` with the scanned fields
/// `fields`: every plain field gets its default value, in the order of the
/// declaration, and then the base field, if there is one, gets the handle.
/// Where no field is marked `base`, no field takes the handle: the
/// constructor drops it.
pub open spec fn constructor_of(class_name: Seq<char>, fields: FieldsView) -> GeneratedInitView {
    GeneratedInitView {
        class_name,
        inits: default_inits(fields.all_field_names) + match fields.base_field {
            Some(base) => seq![FieldInitView { name: base.name, value: InitValue::BaseHandle }],
            None => Seq::empty(),
        },
    }
}

/// The constructor keeps the handle to the base object exactly where a
/// field is marked `base`.
pub proof fn lemma_handle_kept_by_base_field(class_name: Seq<char>, fields: FieldsView)
    ensures
        constructor_of(class_name, fields).stores_base_handle() <==> fields.base_field is Some,
{
    let inits = constructor_of(class_name, fields).inits;
    let defaults = default_inits(fields.all_field_names);
    if fields.base_field is Some {
        assert(inits[defaults.len() as int].value == InitValue::BaseHandle);
    } else {
        assert(inits =~= defaults);
    }
}

/// Writes the constructor of the class `class_name`. A struct without base
/// field gets a constructor that drops the handle it is given.
pub fn make_godot_init_impl(class_name: &String, fields: Fields) -> (r: GeneratedInit)
    ensures
        r@ == constructor_of(class_name@, fields@),
{
    let mut inits: Vec<FieldInit> = Vec::new();
    let mut i: usize = 0;
    while i < fields.all_field_names.len()
        invariant
            i <= fields.all_field_names.len(),
            inits@.len() == i,
            forall|k: int|
                0 <= k < i ==> (#[trigger] inits@[k])@ == (FieldInitView {
                    name: fields.all_field_names@[k]@,
                    value: InitValue::Default,
                }),
        decreases fields.all_field_names.len() - i,
    {
        inits.push(FieldInit { name: fields.all_field_names[i].clone(), value: InitValue::Default });
        i += 1;
    }
    if let Some(base) = &fields.base_field {
        inits.push(FieldInit { name: base.name.clone(), value: InitValue::BaseHandle });
    }
    let r = GeneratedInit { class_name: class_name.clone(), inits };
    assert(r@.inits =~= constructor_of(class_name@, fields@).inits);
    r
}

/// The name of the check that `base` is a class of the host.
pub open spec fn inherits_macro_name(base: Seq<char>) -> Seq<char> {
    "inherits_transitive_"@ + base
}

/// All that the pass emits for the class `class_name` with the configuration
/// `config` and the scanned fields `fields`.
pub open spec fn emitted(
    class_name: Seq<char>,
    config: ClassAttributesView,
    fields: FieldsView,
) -> ClassOutputView {
    ClassOutputView {
        metadata_binding: MetadataBindingView {
            class_name,
            base: config.base_ty,
            declarer: Declarer::UserDomain,
            mem: MemoryMode::InheritedFromBase,
        },
        generated_constructor: if config.has_generated_init {
            Some(constructor_of(class_name, fields))
        } else {
            None
        },
        registry_entry: ClassPluginView {
            class_name,
            base_class_name: config.base_ty,
            generated_create_fn: if config.has_generated_init {
                Some(FnRefView { callback: Callback::Create, class_name })
            } else {
                None
            },
            free_fn: FnRefView { callback: Callback::Free, class_name },
        },
        inherits_macro: inherits_macro_name(config.base_ty),
    }
}

/// What the pass gives for a declaration: the output for its class, or the
/// first diagnostic of the stages in their order: the declaration is taken,
/// its attributes are resolved, its fields are scanned.
pub open spec fn transformed(decl: DeclarationView) -> Result<ClassOutputView, DiagnosticView> {
    match accepted(decl) {
        Err(e) => Err(e),
        Ok(class) => match resolve_attributes(class.attributes) {
            Err(e) => Err(e),
            Ok(config) => match scan_fields(class.shape) {
                Err(e) => Err(e),
                Ok(fields) => Ok(emitted(class.name, config, fields)),
            },
        },
    }
}

/// Assembles the output for `class` from its configuration and its scanned
/// fields.
pub fn emit_class(class: &ClassDeclaration, config: ClassAttributes, fields: Fields) -> (r:
    ClassOutput)
    ensures
        r@ == emitted(class@.name, config@, fields@),
{
    let base_ty_str = config.base_ty;
    let class_name_str = class.name.clone();
    let inherits_macro = String::from_str("inherits_transitive_").concat(base_ty_str.as_str());

    let godot_init_impl: Option<GeneratedInit>;
    let create_fn: Option<FnRef>;
    if config.has_generated_init {
        godot_init_impl = Some(make_godot_init_impl(&class.name, fields));
        create_fn = Some(FnRef { callback: Callback::Create, class_name: class.name.clone() });
    } else {
        godot_init_impl = None;
        create_fn = None;
    }

    ClassOutput {
        metadata_binding: MetadataBinding {
            class_name: class_name_str.clone(),
            base: base_ty_str.clone(),
            declarer: Declarer::UserDomain,
            mem: MemoryMode::InheritedFromBase,
        },
        generated_constructor: godot_init_impl,
        registry_entry: ClassPlugin {
            class_name: class_name_str,
            base_class_name: base_ty_str,
            generated_create_fn: create_fn,
            free_fn: FnRef { callback: Callback::Free, class_name: class.name.clone() },
        },
        inherits_macro,
    }
}

/// Runs the pass on a declaration: the output for its class, or the one
/// diagnostic with which the pass aborts.
pub fn transform(input: Declaration) -> (r: Result<ClassOutput, Diagnostic>)
    ensures
        outcome(r) == transformed(input@),
{
    let class = match accept_declaration(input) {
        Ok(class) => class,
        Err(e) => {
            return Err(e);
        },
    };
    let struct_cfg = match parse_struct_attributes(&class) {
        Ok(config) => config,
        Err(e) => {
            return Err(e);
        },
    };
    let fields = match parse_fields(&class) {
        Ok(fields) => fields,
        Err(e) => {
            return Err(e);
        },
    };
    Ok(emit_class(&class, struct_cfg, fields))
}

/// Two runs of the pass on the same declaration return the same: the same
/// output, or the same diagnostic.
pub proof fn lemma_same_declaration_same_outcome(
    decl: DeclarationView,
    first: Result<ClassOutput, Diagnostic>,
    second: Result<ClassOutput, Diagnostic>,
)
    requires
        outcome(first) == transformed(decl),
        outcome(second) == transformed(decl),
    ensures
        outcome(first) == outcome(second),
{
}

/// A struct with fields by position is refused for its fields, whatever its
/// attributes hold.
pub proof fn lemma_tuple_struct_refused(class: ClassDeclarationView)
    requires
        class.shape is Unsupported,
    ensures
        transformed(DeclarationView::Struct(class)) == Err::<ClassOutputView, DiagnosticView>(
            DiagnosticView { kind: ErrorKindView::UnsupportedFields, location: Location::Fields },
        ),
{
}

/// The pass on a struct without configuration attribute, where it
/// succeeds, binds the default base type and writes no constructor; it
/// fails only for the fields of the struct.
pub proof fn lemma_pass_defaults(class: ClassDeclarationView)
    requires
        forall|i: int|
            0 <= i < class.attributes.len() ==> !(#[trigger] class.attributes[i]).is_marker(
                "godot"@,
            ),
    ensures
        match transformed(DeclarationView::Struct(class)) {
            Ok(output) => output.metadata_binding.base == default_base()
                && output.registry_entry.base_class_name == default_base()
                && output.generated_constructor is None
                && output.registry_entry.generated_create_fn is None,
            Err(e) => e.kind is UnsupportedFields || e.kind is MultipleBaseFields,
        },
{
    lemma_defaults_without_config(class.attributes);
}

/// The pass on a struct in which two fields are marked `base`, and whose
/// attributes are in order, fails with `MultipleBaseFields`; the diagnostic
/// and its message name the first field that is marked `base`.
pub proof fn lemma_pass_two_base_fields(
    class: ClassDeclarationView,
    fields: Seq<NamedFieldView>,
    first: int,
    second: int,
)
    requires
        class.shape == ShapeView::NamedFields(fields),
        resolve_attributes(class.attributes) is Ok,
        0 <= first < second < fields.len(),
        has_marker(fields[first], "base"@),
        has_marker(fields[second], "base"@),
        forall|f: int| 0 <= f < first ==> !has_marker(#[trigger] fields[f], "base"@),
    ensures
        transformed(DeclarationView::Struct(class)) is Err,
        transformed(DeclarationView::Struct(class))->Err_0.kind == (
        ErrorKindView::MultipleBaseFields { previous: fields[first].name }),
        occurs_in(
            fields[first].name,
            message_of(transformed(DeclarationView::Struct(class))->Err_0.kind),
        ),
{
    lemma_two_base_fields_refused(fields, first, second);
    lemma_message_names_base_field(fields[first].name);
}

/// The pass on a struct whose configuration attribute gives `base` the
/// identifier `name`, where it succeeds, binds the base type `name`.
pub proof fn lemma_pass_base_overrides(
    class: ClassDeclarationView,
    at: int,
    args: Seq<KvEntryView>,
    name: Seq<char>,
)
    requires
        only_config_at(class.attributes, at),
        parsed(class.attributes[at].value) == Ok::<Seq<KvEntryView>, KvError>(args),
        lookup(args, "base"@) == Some(KvValueView::Ident(name)),
    ensures
        match transformed(DeclarationView::Struct(class)) {
            Ok(output) => output.metadata_binding.base == name
                && output.registry_entry.base_class_name == name && output.inherits_macro
                == inherits_macro_name(name),
            Err(e) => !(e.kind is InvalidBaseValue),
        },
{
    lemma_base_overrides(class.attributes, at, args, name);
}

/// The pass on a struct with named fields or without fields, whose
/// configuration attribute gives `base` a value that is no bare identifier,
/// fails with `InvalidBaseValue` at that attribute.
pub proof fn lemma_pass_base_value_refused(
    class: ClassDeclarationView,
    at: int,
    args: Seq<KvEntryView>,
)
    requires
        !(class.shape is Unsupported),
        only_config_at(class.attributes, at),
        parsed(class.attributes[at].value) == Ok::<Seq<KvEntryView>, KvError>(args),
        lookup(args, "base"@) is Some,
        !(lookup(args, "base"@)->0 is Ident),
    ensures
        transformed(DeclarationView::Struct(class)) == Err::<ClassOutputView, DiagnosticView>(
            DiagnosticView {
                kind: ErrorKindView::InvalidBaseValue,
                location: Location::StructAttribute(at as usize),
            },
        ),
{
    lemma_base_value_refused(class.attributes, at, args);
}

/// The pass on a struct with named fields or without fields, whose
/// configuration attribute holds a key that the pass does not know, while
/// `base` and `init` are in order, fails with `UnknownAttributeKey`; the key
/// is among the keys that it reports, and the message names it.
pub proof fn lemma_pass_unknown_key_refused(
    class: ClassDeclarationView,
    at: int,
    args: Seq<KvEntryView>,
    i: int,
)
    requires
        !(class.shape is Unsupported),
        only_config_at(class.attributes, at),
        parsed(class.attributes[at].value) == Ok::<Seq<KvEntryView>, KvError>(args),
        0 <= i < args.len(),
        !is_recognized_key(args[i].key),
        lookup(args, "base"@) is Some ==> lookup(args, "base"@)->0 is Ident,
        lookup(args, "init"@) is Some ==> lookup(args, "init"@)->0 is Flag,
    ensures
        transformed(DeclarationView::Struct(class)) is Err,
        transformed(DeclarationView::Struct(class))->Err_0.location == Location::StructAttribute(
            at as usize,
        ),
        transformed(DeclarationView::Struct(class))->Err_0.kind is UnknownAttributeKey,
        transformed(DeclarationView::Struct(class))->Err_0.kind->keys.contains(args[i].key),
        occurs_in(
            args[i].key,
            message_of(transformed(DeclarationView::Struct(class))->Err_0.kind),
        ),
{
    lemma_unknown_key_refused(class.attributes, at, args, i);
    let keys = transformed(DeclarationView::Struct(class))->Err_0.kind->keys;
    let k = choose|k: int| 0 <= k < keys.len() && keys[k] == args[i].key;
    lemma_message_names_unknown_key(keys, k);
}

} // verus!
