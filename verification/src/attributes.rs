//! The struct-attribute resolver: finds the `#[godot(...)]` attribute of a
//! struct and resolves its keys to the configuration of the class.

use crate::errors::{bail, outcome, Diagnostic, DiagnosticView, ErrorKind, ErrorKindView};
use crate::kv::{
    find_key, keys_distinct, keys_of, lemma_find_key, lookup, parse_kv_group, parsed,
    AttributeMap, KvEntryView, KvError, KvValue, KvValueView,
};
use crate::source::{attributes_of, Attribute, AttributeView, ClassDeclaration, Location};
use vstd::prelude::*;
use vstd::string::StringExecFns;

verus! {

/// The configuration of a class.
#[derive(Debug, PartialEq, Eq)]
pub struct ClassAttributes {
    /// The name of the base type.
    pub base_ty: String,
    /// Whether the pass writes the constructor.
    pub has_generated_init: bool,
}

/// Mathematical model of [`ClassAttributes`].
pub struct ClassAttributesView {
    pub base_ty: Seq<char>,
    pub has_generated_init: bool,
}

impl View for ClassAttributes {
    type V = ClassAttributesView;

    open spec fn view(&self) -> ClassAttributesView {
        ClassAttributesView { base_ty: self.base_ty@, has_generated_init: self.has_generated_init }
    }
}

/// The base type of a class that names none.
pub open spec fn default_base() -> Seq<char> {
    "RefCounted"@
}

/// The configuration of a class without a configuration attribute.
pub open spec fn default_attributes() -> ClassAttributesView {
    ClassAttributesView { base_ty: default_base(), has_generated_init: false }
}

/// The places of the configuration attribute among the first `upto`
/// attributes, in their order.
pub open spec fn config_places(attributes: Seq<AttributeView>, upto: int) -> Seq<int>
    decreases upto,
{
    if upto <= 0 {
        Seq::empty()
    } else {
        let before = config_places(attributes, upto - 1);
        if attributes[upto - 1].is_marker("godot"@) {
            before.push(upto - 1)
        } else {
            before
        }
    }
}

/// The configuration attribute of a struct with these attributes: its
/// location and the entries of its body. There is none where no attribute is
/// `godot`. The first one must have a body that the grammar accepts; a
/// second one is refused.
pub open spec fn config_attribute(attributes: Seq<AttributeView>) -> Result<
    Option<(Location, Seq<KvEntryView>)>,
    DiagnosticView,
> {
    let places = config_places(attributes, attributes.len() as int);
    if places.len() == 0 {
        Ok(None)
    } else {
        match parsed(attributes[places[0]].value) {
            Err(error) => Err(
                DiagnosticView {
                    kind: ErrorKindView::MalformedAttribute { error },
                    location: Location::StructAttribute(places[0] as usize),
                },
            ),
            Ok(args) => if places.len() >= 2 {
                Err(
                    DiagnosticView {
                        kind: ErrorKindView::DuplicateConfigAttribute,
                        location: Location::StructAttribute(places[1] as usize),
                    },
                )
            } else {
                Ok(Some((Location::StructAttribute(places[0] as usize), args)))
            },
        }
    }
}

/// The pass knows the key.
pub open spec fn is_recognized_key(key: Seq<char>) -> bool {
    key == "base"@ || key == "init"@
}

/// The entries of `args` whose key the pass does not know, in their order.
pub open spec fn unknown_entries(args: Seq<KvEntryView>) -> Seq<KvEntryView> {
    args.filter(|e: KvEntryView| !is_recognized_key(e.key))
}

/// The keys of `args` that the pass does not know, in their order.
pub open spec fn unknown_keys(args: Seq<KvEntryView>) -> Seq<Seq<char>> {
    keys_of(unknown_entries(args))
}

/// The configuration that the body `args` of the attribute at `location`
/// resolves to.
///
/// `base` must carry a bare identifier and `init` no value; any other key
/// is refused. The first of these that fails, in this order, is reported.
pub open spec fn resolve_config(args: Seq<KvEntryView>, location: Location) -> Result<
    ClassAttributesView,
    DiagnosticView,
> {
    let base = lookup(args, "base"@);
    let init = lookup(args, "init"@);
    if base is Some && !(base->0 is Ident) {
        Err(DiagnosticView { kind: ErrorKindView::InvalidBaseValue, location })
    } else if init is Some && !(init->0 is Flag) {
        Err(DiagnosticView { kind: ErrorKindView::InitTakesNoValue, location })
    } else if unknown_keys(args).len() > 0 {
        Err(
            DiagnosticView {
                kind: ErrorKindView::UnknownAttributeKey { keys: unknown_keys(args) },
                location,
            },
        )
    } else {
        Ok(
            ClassAttributesView {
                base_ty: match base {
                    Some(KvValueView::Ident(name)) => name,
                    _ => default_base(),
                },
                has_generated_init: init is Some,
            },
        )
    }
}

/// The configuration of a struct with these attributes.
pub open spec fn resolve_attributes(attributes: Seq<AttributeView>) -> Result<
    ClassAttributesView,
    DiagnosticView,
> {
    match config_attribute(attributes) {
        Err(e) => Err(e),
        Ok(None) => Ok(default_attributes()),
        Ok(Some((location, args))) => resolve_config(args, location),
    }
}

proof fn lemma_config_places_grow(attributes: Seq<AttributeView>, m: int, n: int)
    requires
        0 <= m <= n,
    ensures
        config_places(attributes, m).len() <= config_places(attributes, n).len(),
        forall|k: int|
            0 <= k < config_places(attributes, m).len() ==> config_places(attributes, m)[k]
                == config_places(attributes, n)[k],
    decreases n - m,
{
    if m < n {
        lemma_config_places_grow(attributes, m, n - 1);
    }
}

/// What the search for the configuration attribute returned, by its model.
pub open spec fn found_of(r: Result<Option<(Location, AttributeMap)>, Diagnostic>) -> Result<
    Option<(Location, Seq<KvEntryView>)>,
    DiagnosticView,
> {
    match r {
        Ok(Some((location, map))) => Ok(Some((location, map@))),
        Ok(None) => Ok(None),
        Err(e) => Err(e@),
    }
}

/// Finds the `#[godot(...)]` attribute among `attributes` and reads its
/// body.
pub fn parse_godot_attr(attributes: &Vec<Attribute>) -> (r: Result<
    Option<(Location, AttributeMap)>,
    Diagnostic,
>)
    ensures
        found_of(r) == config_attribute(attributes_of(attributes@)),
{
    let ghost av = attributes_of(attributes@);
    let mut godot_attr: Option<(Location, AttributeMap)> = None;
    let mut i: usize = 0;
    while i < attributes.len()
        invariant
            i <= attributes.len(),
            av == attributes_of(attributes@),
            config_places(av, i as int).len() <= 1,
            match godot_attr {
                Some((location, map)) => config_places(av, i as int).len() == 1 && 0
                    <= config_places(av, i as int)[0] < i && location == Location::StructAttribute(
                    config_places(av, i as int)[0] as usize,
                ) && parsed(av[config_places(av, i as int)[0]].value) == Ok::<
                    Seq<KvEntryView>,
                    KvError,
                >(map@),
                None => config_places(av, i as int).len() == 0,
            },
        decreases attributes.len() - i,
    {
        let attr = &attributes[i];
        assert(attr@ == av[i as int]);
        if attr.path_is_single("godot") {
            if godot_attr.is_some() {
                proof {
                    lemma_config_places_grow(av, i + 1, av.len() as int);
                }
                return bail(ErrorKind::DuplicateConfigAttribute, Location::StructAttribute(i));
            }
            let map = match parse_kv_group(&attr.value) {
                Ok(map) => map,
                Err(error) => {
                    proof {
                        lemma_config_places_grow(av, i + 1, av.len() as int);
                    }
                    return bail(
                        ErrorKind::MalformedAttribute { error },
                        Location::StructAttribute(i),
                    );
                },
            };
            godot_attr = Some((Location::StructAttribute(i), map));
        }
        i += 1;
    }
    Ok(godot_attr)
}

/// Fails where `map` still holds a key, and reports every key that is left.
pub fn ensure_kv_empty(map: AttributeMap, location: Location) -> (r: Result<(), Diagnostic>)
    ensures
        match r {
            Ok(_) => map@.len() == 0,
            Err(e) => map@.len() > 0 && e@ == (DiagnosticView {
                kind: ErrorKindView::UnknownAttributeKey { keys: keys_of(map@) },
                location,
            }),
        },
{
    if map.is_empty() {
        Ok(())
    } else {
        let keys = map.keys();
        bail(ErrorKind::UnknownAttributeKey { keys }, location)
    }
}

/// The entry at `at` is the first one with `key` where it has the key and
/// no entry before it has.
proof fn lemma_first_is_found(entries: Seq<KvEntryView>, key: Seq<char>, at: int)
    requires
        0 <= at < entries.len(),
        entries[at].key == key,
        forall|j: int| 0 <= j < at ==> (#[trigger] entries[j]).key != key,
    ensures
        find_key(entries, key, 0) == Some(at),
{
    lemma_find_key(entries, key, 0);
}

/// No entry has `key` where the key is not found.
proof fn lemma_absent_is_not_found(entries: Seq<KvEntryView>, key: Seq<char>)
    requires
        forall|j: int| 0 <= j < entries.len() ==> (#[trigger] entries[j]).key != key,
    ensures
        find_key(entries, key, 0).is_none(),
{
    lemma_find_key(entries, key, 0);
}

/// Taking out the entry at `at` leaves the value of every other key, keeps
/// the keys apart, and leaves no entry with the key that was taken out.
proof fn lemma_remove_entry(entries: Seq<KvEntryView>, at: int, other: Seq<char>)
    requires
        keys_distinct(entries),
        0 <= at < entries.len(),
        entries[at].key != other,
    ensures
        keys_distinct(entries.remove(at)),
        lookup(entries.remove(at), other) == lookup(entries, other),
        find_key(entries.remove(at), entries[at].key, 0).is_none(),
{
    let rest = entries.remove(at);
    assert forall|j: int| 0 <= j < rest.len() implies (#[trigger] rest[j]).key
        != entries[at].key by {
        if j < at {
            assert(rest[j] == entries[j]);
        } else {
            assert(rest[j] == entries[j + 1]);
        }
    }
    lemma_absent_is_not_found(rest, entries[at].key);
    assert forall|i: int, j: int| 0 <= i < j < rest.len() implies (#[trigger] rest[i]).key != (
    #[trigger] rest[j]).key by {
        let si = if i < at { i } else { i + 1 };
        let sj = if j < at { j } else { j + 1 };
        assert(rest[i] == entries[si] && rest[j] == entries[sj]);
    }
    lemma_find_key(entries, other, 0);
    match find_key(entries, other, 0) {
        Some(a) => {
            let b = if a < at { a } else { a - 1 };
            assert(rest[b] == entries[a]);
            assert forall|j: int| 0 <= j < b implies (#[trigger] rest[j]).key != other by {
                let sj = if j < at { j } else { j + 1 };
                assert(rest[j] == entries[sj]);
            }
            lemma_first_is_found(rest, other, b);
        },
        None => {
            assert forall|j: int| 0 <= j < rest.len() implies (#[trigger] rest[j]).key
                != other by {
                let sj = if j < at { j } else { j + 1 };
                assert(rest[j] == entries[sj]);
            }
            lemma_absent_is_not_found(rest, other);
        },
    }
}

/// Taking out an entry whose key the pass knows leaves the unknown entries
/// as they were.
proof fn lemma_unknown_remove(entries: Seq<KvEntryView>, at: int)
    requires
        0 <= at < entries.len(),
        is_recognized_key(entries[at].key),
    ensures
        unknown_entries(entries.remove(at)) == unknown_entries(entries),
{
    let keep = |e: KvEntryView| !is_recognized_key(e.key);
    let head = entries.take(at);
    let one = seq![entries[at]];
    let tail = entries.skip(at + 1);
    assert(entries =~= (head + one) + tail);
    assert(entries.remove(at) =~= head + tail);
    Seq::filter_distributes_over_add(head + one, tail, keep);
    Seq::filter_distributes_over_add(head, one, keep);
    Seq::filter_distributes_over_add(head, tail, keep);
    reveal_with_fuel(Seq::filter, 2);
    assert(one.drop_last() =~= Seq::<KvEntryView>::empty());
    assert(one.filter(keep) =~= Seq::<KvEntryView>::empty());
    assert(head.filter(keep) + one.filter(keep) =~= head.filter(keep));
}

/// Where the pass knows no key of `entries`, all of them are unknown
/// entries.
proof fn lemma_unknown_all(entries: Seq<KvEntryView>)
    requires
        forall|j: int| 0 <= j < entries.len() ==> !is_recognized_key((#[trigger] entries[j]).key),
    ensures
        unknown_entries(entries) == entries,
    decreases entries.len(),
{
    reveal_with_fuel(Seq::filter, 2);
    if entries.len() > 0 {
        let front = entries.drop_last();
        assert forall|j: int| 0 <= j < front.len() implies !is_recognized_key(
            (#[trigger] front[j]).key,
        ) by {
            assert(front[j] == entries[j]);
        }
        lemma_unknown_all(front);
        assert(front.push(entries.last()) =~= entries);
    } else {
        assert(unknown_entries(entries) =~= entries);
    }
}

/// Resolves the `#[godot(...)]` attribute of `class` to the configuration of
/// the class.
pub fn parse_struct_attributes(class: &ClassDeclaration) -> (r: Result<ClassAttributes, Diagnostic>)
    ensures
        outcome(r) == resolve_attributes(class@.attributes),
{
    let mut base = String::from_str("RefCounted");
    let mut has_generated_init = false;

    match parse_godot_attr(&class.attributes) {
        Err(e) => {
            return Err(e);
        },
        Ok(None) => {},
        Ok(Some((span, mut map))) => {
            let ghost args = map@;
            proof {
                reveal_strlit("base");
                reveal_strlit("init");
                assert("base"@[0] != "init"@[0]);
                lemma_find_key(args, "base"@, 0);
            }
            if let Some(kv_value) = map.remove("base") {
                proof {
                    let at = find_key(args, "base"@, 0).unwrap();
                    lemma_remove_entry(args, at, "init"@);
                    lemma_unknown_remove(args, at);
                }
                if let KvValue::Ident(override_base) = kv_value {
                    base = override_base;
                } else {
                    return bail(ErrorKind::InvalidBaseValue, span);
                }
            }
            let ghost without_base = map@;
            proof {
                lemma_find_key(without_base, "init"@, 0);
            }
            if let Some(kv_value) = map.remove("init") {
                proof {
                    let at = find_key(without_base, "init"@, 0).unwrap();
                    lemma_remove_entry(without_base, at, "base"@);
                    lemma_unknown_remove(without_base, at);
                }
                match kv_value {
                    KvValue::Flag => {
                        has_generated_init = true;
                    },
                    _ => {
                        return bail(ErrorKind::InitTakesNoValue, span);
                    },
                }
            }
            proof {
                lemma_find_key(map@, "base"@, 0);
                lemma_find_key(map@, "init"@, 0);
                lemma_unknown_all(map@);
            }
            match ensure_kv_empty(map, span) {
                Err(e) => {
                    return Err(e);
                },
                Ok(_) => {},
            }
        },
    }

    Ok(ClassAttributes { base_ty: base, has_generated_init })
}

/// The places of the configuration attribute are the places where an
/// attribute is `godot`, each once, in their order.
pub proof fn lemma_config_places(attributes: Seq<AttributeView>, upto: int)
    requires
        0 <= upto <= attributes.len(),
    ensures
        forall|k: int|
            0 <= k < config_places(attributes, upto).len() ==> {
                let at = #[trigger] config_places(attributes, upto)[k];
                0 <= at < upto && attributes[at].is_marker("godot"@)
            },
        forall|at: int|
            0 <= at < upto && (#[trigger] attributes[at]).is_marker("godot"@) ==> config_places(
                attributes,
                upto,
            ).contains(at),
        forall|k1: int, k2: int|
            0 <= k1 < k2 < config_places(attributes, upto).len() ==> (#[trigger] config_places(
                attributes,
                upto,
            )[k1]) < (#[trigger] config_places(attributes, upto)[k2]),
    decreases upto,
{
    if upto > 0 {
        lemma_config_places(attributes, upto - 1);
        let before = config_places(attributes, upto - 1);
        let now = config_places(attributes, upto);
        assert forall|at: int|
            0 <= at < upto && (#[trigger] attributes[at]).is_marker("godot"@) implies now.contains(
            at,
        ) by {
            if at < upto - 1 {
                assert(before.contains(at));
                let k = choose|k: int| 0 <= k < before.len() && before[k] == at;
                assert(now[k] == at);
            } else {
                assert(now[now.len() - 1] == at);
            }
        }
    }
}

/// `at` is the place of the only configuration attribute of `attributes`.
pub open spec fn only_config_at(attributes: Seq<AttributeView>, at: int) -> bool {
    &&& 0 <= at < attributes.len()
    &&& forall|i: int|
        0 <= i < attributes.len() ==> ((#[trigger] attributes[i]).is_marker("godot"@) <==> i == at)
}

/// The one attribute that is `godot` is the configuration attribute, and
/// its body gives the entries.
pub proof fn lemma_only_config(attributes: Seq<AttributeView>, at: int, args: Seq<KvEntryView>)
    requires
        only_config_at(attributes, at),
        parsed(attributes[at].value) == Ok::<Seq<KvEntryView>, KvError>(args),
    ensures
        config_attribute(attributes) == Ok::<Option<(Location, Seq<KvEntryView>)>, DiagnosticView>(
            Some((Location::StructAttribute(at as usize), args)),
        ),
{
    let places = config_places(attributes, attributes.len() as int);
    lemma_config_places(attributes, attributes.len() as int);
    assert(attributes[at].is_marker("godot"@));
    assert(places.contains(at));
    if places.len() >= 2 {
        assert(places[0] < places[1]);
        assert(attributes[places[0]].is_marker("godot"@));
        assert(attributes[places[1]].is_marker("godot"@));
    }
    let k = choose|k: int| 0 <= k < places.len() && places[k] == at;
    assert(k == 0);
}

/// A struct without configuration attribute has the default configuration:
/// the default base type, and no generated constructor.
pub proof fn lemma_defaults_without_config(attributes: Seq<AttributeView>)
    requires
        forall|i: int| 0 <= i < attributes.len() ==> !(#[trigger] attributes[i]).is_marker("godot"@),
    ensures
        resolve_attributes(attributes) == Ok::<ClassAttributesView, DiagnosticView>(
            default_attributes(),
        ),
{
    let places = config_places(attributes, attributes.len() as int);
    lemma_config_places(attributes, attributes.len() as int);
    if places.len() > 0 {
        assert(attributes[places[0]].is_marker("godot"@));
    }
}

/// Where the configuration attribute gives `base` the identifier `name`,
/// the base type of the class is `name`, unless the attribute is refused for
/// another of its keys.
pub proof fn lemma_base_overrides(
    attributes: Seq<AttributeView>,
    at: int,
    args: Seq<KvEntryView>,
    name: Seq<char>,
)
    requires
        only_config_at(attributes, at),
        parsed(attributes[at].value) == Ok::<Seq<KvEntryView>, KvError>(args),
        lookup(args, "base"@) == Some(KvValueView::Ident(name)),
    ensures
        match resolve_attributes(attributes) {
            Ok(config) => config.base_ty == name,
            Err(e) => e.location == Location::StructAttribute(at as usize) && (e.kind
                is InitTakesNoValue || e.kind is UnknownAttributeKey),
        },
{
    lemma_only_config(attributes, at, args);
}

/// Where the configuration attribute gives `base` a value that is no bare
/// identifier, the pass fails with `InvalidBaseValue` at that attribute.
pub proof fn lemma_base_value_refused(
    attributes: Seq<AttributeView>,
    at: int,
    args: Seq<KvEntryView>,
)
    requires
        only_config_at(attributes, at),
        parsed(attributes[at].value) == Ok::<Seq<KvEntryView>, KvError>(args),
        lookup(args, "base"@) is Some,
        !(lookup(args, "base"@)->0 is Ident),
    ensures
        resolve_attributes(attributes) == Err::<ClassAttributesView, DiagnosticView>(
            DiagnosticView {
                kind: ErrorKindView::InvalidBaseValue,
                location: Location::StructAttribute(at as usize),
            },
        ),
{
    lemma_only_config(attributes, at, args);
}

/// Where the configuration attribute holds a key that the pass does not
/// know, and `base` and `init` are in order, the pass fails with
/// `UnknownAttributeKey`, and the key is among the keys that it reports.
pub proof fn lemma_unknown_key_refused(
    attributes: Seq<AttributeView>,
    at: int,
    args: Seq<KvEntryView>,
    i: int,
)
    requires
        only_config_at(attributes, at),
        parsed(attributes[at].value) == Ok::<Seq<KvEntryView>, KvError>(args),
        0 <= i < args.len(),
        !is_recognized_key(args[i].key),
        lookup(args, "base"@) is Some ==> lookup(args, "base"@)->0 is Ident,
        lookup(args, "init"@) is Some ==> lookup(args, "init"@)->0 is Flag,
    ensures
        resolve_attributes(attributes) is Err,
        resolve_attributes(attributes)->Err_0.location == Location::StructAttribute(at as usize),
        resolve_attributes(attributes)->Err_0.kind is UnknownAttributeKey,
        resolve_attributes(attributes)->Err_0.kind->keys.contains(args[i].key),
{
    lemma_only_config(attributes, at, args);
    let keep = |e: KvEntryView| !is_recognized_key(e.key);
    args.lemma_filter_contains(keep, i);
    let unknown = unknown_entries(args);
    assert(unknown.contains(args[i]));
    let k = choose|k: int| 0 <= k < unknown.len() && unknown[k] == args[i];
    assert(keys_of(unknown)[k] == args[i].key);
}

} // verus!
