//! The field scanner: which field is the base field, which fields are
//! exported, and which fields a generated constructor fills by default.

use crate::errors::{bail, outcome, Diagnostic, DiagnosticView, ErrorKind, ErrorKindView};
use crate::source::{
    fields_of, same_text, texts_of, ClassDeclaration, Location, NamedField, NamedFieldView, Shape,
    ShapeView,
};
use vstd::prelude::*;

verus! {

/// What the pass keeps of a field that has a role: its name and its type.
#[derive(Debug, PartialEq, Eq)]
pub struct ExportedField {
    pub name: String,
    pub ty: String,
}

/// Mathematical model of an [`ExportedField`].
pub struct ExportedFieldView {
    pub name: Seq<char>,
    pub ty: Seq<char>,
}

impl View for ExportedField {
    type V = ExportedFieldView;

    open spec fn view(&self) -> ExportedFieldView {
        ExportedFieldView { name: self.name@, ty: self.ty@ }
    }
}

/// Name and type of `field`.
pub open spec fn exported_of(field: NamedFieldView) -> ExportedFieldView {
    ExportedFieldView { name: field.name, ty: field.ty }
}

impl ExportedField {
    /// Name and type of `field`.
    pub fn new(field: &NamedField) -> (r: Self)
        ensures
            r@ == exported_of(field@),
    {
        Self { name: field.name.clone(), ty: field.ty.clone() }
    }
}

/// The fields of `fields`, each by its model.
pub open spec fn exported_views(fields: Seq<ExportedField>) -> Seq<ExportedFieldView> {
    fields.map_values(|f: ExportedField| f@)
}

/// The result of the field scan.
#[derive(Debug, PartialEq, Eq)]
pub struct Fields {
    /// The names of the fields that are not the base field, in the order of
    /// their declaration.
    pub all_field_names: Vec<String>,
    /// The field marked `base`, if there is one.
    pub base_field: Option<ExportedField>,
    /// The fields marked `export`, once for each such marker.
    pub exported_fields: Vec<ExportedField>,
}

/// Mathematical model of [`Fields`].
pub struct FieldsView {
    pub all_field_names: Seq<Seq<char>>,
    pub base_field: Option<ExportedFieldView>,
    pub exported_fields: Seq<ExportedFieldView>,
}

impl View for Fields {
    type V = FieldsView;

    open spec fn view(&self) -> FieldsView {
        FieldsView {
            all_field_names: texts_of(self.all_field_names@),
            base_field: match self.base_field {
                Some(field) => Some(field@),
                None => None,
            },
            exported_fields: exported_views(self.exported_fields@),
        }
    }
}

/// The attribute at index `a` of `field` is the marker `name`.
pub open spec fn is_marker_at(field: NamedFieldView, name: Seq<char>, a: int) -> bool {
    0 <= a < field.attributes.len() && field.attributes[a].is_marker(name)
}

/// `field` carries the marker `name`.
pub open spec fn has_marker(field: NamedFieldView, name: Seq<char>) -> bool {
    exists|a: int| is_marker_at(field, name, a)
}

/// The places of the marker `name` among the first `upto` attributes of the
/// field at index `f`, in their order. A place is the index of the field and
/// the index of the attribute.
pub open spec fn marker_places_in_field(
    field: NamedFieldView,
    f: int,
    name: Seq<char>,
    upto: int,
) -> Seq<(int, int)>
    decreases upto,
{
    if upto <= 0 {
        Seq::empty()
    } else {
        let before = marker_places_in_field(field, f, name, upto - 1);
        if is_marker_at(field, name, upto - 1) {
            before.push((f, upto - 1))
        } else {
            before
        }
    }
}

/// The places of the marker `name` in the first `upto` fields, in the order
/// of the declaration.
pub open spec fn marker_places(fields: Seq<NamedFieldView>, name: Seq<char>, upto: int) -> Seq<
    (int, int),
>
    decreases upto,
{
    if upto <= 0 {
        Seq::empty()
    } else {
        marker_places(fields, name, upto - 1) + marker_places_in_field(
            fields[upto - 1],
            upto - 1,
            name,
            fields[upto - 1].attributes.len() as int,
        )
    }
}

/// All places of the marker `name` in `fields`.
pub open spec fn all_marker_places(fields: Seq<NamedFieldView>, name: Seq<char>) -> Seq<
    (int, int),
> {
    marker_places(fields, name, fields.len() as int)
}

/// The names of the fields that do not carry the marker `base`, in the order
/// of the declaration.
pub open spec fn plain_field_names(fields: Seq<NamedFieldView>) -> Seq<Seq<char>> {
    fields.filter(|f: NamedFieldView| !has_marker(f, "base"@)).map_values(
        |f: NamedFieldView| f.name,
    )
}

/// Name and type of the field of each place of `places`.
pub open spec fn fields_at(fields: Seq<NamedFieldView>, places: Seq<(int, int)>) -> Seq<
    ExportedFieldView,
> {
    places.map_values(|p: (int, int)| exported_of(fields[p.0]))
}

/// The place `place` as the location of a diagnostic.
pub open spec fn location_of(place: (int, int)) -> Location {
    Location::FieldAttribute { field: place.0 as usize, attribute: place.1 as usize }
}

/// What the field scan gives for a struct of this shape.
///
/// A field list by position is refused. Where `base` marks two places or
/// more, the scan fails at the second place and names the field of the
/// first. Otherwise the field at the only such place, if there is one, is
/// the base field.
pub open spec fn scan_fields(shape: ShapeView) -> Result<FieldsView, DiagnosticView> {
    let fields = shape.named_fields();
    let bases = all_marker_places(fields, "base"@);
    if shape is Unsupported {
        Err(DiagnosticView { kind: ErrorKindView::UnsupportedFields, location: Location::Fields })
    } else if bases.len() >= 2 {
        Err(
            DiagnosticView {
                kind: ErrorKindView::MultipleBaseFields { previous: fields[bases[0].0].name },
                location: location_of(bases[1]),
            },
        )
    } else {
        Ok(
            FieldsView {
                all_field_names: plain_field_names(fields),
                base_field: if bases.len() == 1 {
                    Some(exported_of(fields[bases[0].0]))
                } else {
                    None
                },
                exported_fields: fields_at(fields, all_marker_places(fields, "export"@)),
            },
        )
    }
}

/// The places of the marker `name` before the attribute at index `a` of the
/// field at index `f`.
pub open spec fn marker_places_before(
    fields: Seq<NamedFieldView>,
    name: Seq<char>,
    f: int,
    a: int,
) -> Seq<(int, int)> {
    marker_places(fields, name, f) + marker_places_in_field(fields[f], f, name, a)
}

/// `p` is the start of `q`.
pub open spec fn starts(p: Seq<(int, int)>, q: Seq<(int, int)>) -> bool {
    p.len() <= q.len() && forall|k: int| 0 <= k < p.len() ==> p[k] == q[k]
}

proof fn lemma_in_field_grows(field: NamedFieldView, f: int, name: Seq<char>, a: int, b: int)
    requires
        0 <= a <= b,
    ensures
        starts(
            marker_places_in_field(field, f, name, a),
            marker_places_in_field(field, f, name, b),
        ),
    decreases b - a,
{
    if a < b {
        lemma_in_field_grows(field, f, name, a, b - 1);
    }
}

proof fn lemma_places_grow(fields: Seq<NamedFieldView>, name: Seq<char>, m: int, n: int)
    requires
        0 <= m <= n,
    ensures
        starts(marker_places(fields, name, m), marker_places(fields, name, n)),
    decreases n - m,
{
    if m < n {
        lemma_places_grow(fields, name, m, n - 1);
    }
}

/// The places found before an attribute are the first of all places.
pub proof fn lemma_places_before_start(
    fields: Seq<NamedFieldView>,
    name: Seq<char>,
    f: int,
    a: int,
)
    requires
        0 <= f < fields.len(),
        0 <= a <= fields[f].attributes.len(),
    ensures
        starts(marker_places_before(fields, name, f, a), all_marker_places(fields, name)),
{
    lemma_in_field_grows(fields[f], f, name, a, fields[f].attributes.len() as int);
    lemma_places_grow(fields, name, f + 1, fields.len() as int);
}

/// The plain names of one field more.
proof fn lemma_plain_names_step(fields: Seq<NamedFieldView>, i: int)
    requires
        0 <= i < fields.len(),
    ensures
        plain_field_names(fields.take(i + 1)) == if has_marker(fields[i], "base"@) {
            plain_field_names(fields.take(i))
        } else {
            plain_field_names(fields.take(i)).push(fields[i].name)
        },
{
    let keep = |f: NamedFieldView| !has_marker(f, "base"@);
    let name = |f: NamedFieldView| f.name;
    assert(fields.take(i + 1).drop_last() =~= fields.take(i));
    assert(fields.take(i + 1).last() == fields[i]);
    reveal_with_fuel(Seq::filter, 2);
    if keep(fields[i]) {
        assert(fields.take(i + 1).filter(keep) == fields.take(i).filter(keep).push(fields[i]));
        assert(fields.take(i).filter(keep).push(fields[i]).map_values(name) =~= fields.take(
            i,
        ).filter(keep).map_values(name).push(fields[i].name));
    }
}

/// The place `p` comes before the place `q` in the declaration.
pub open spec fn place_before(p: (int, int), q: (int, int)) -> bool {
    p.0 < q.0 || (p.0 == q.0 && p.1 < q.1)
}

proof fn lemma_in_field_places(field: NamedFieldView, f: int, name: Seq<char>, upto: int)
    requires
        0 <= upto,
    ensures
        forall|k: int|
            0 <= k < marker_places_in_field(field, f, name, upto).len() ==> {
                let p = #[trigger] marker_places_in_field(field, f, name, upto)[k];
                p.0 == f && 0 <= p.1 < upto && is_marker_at(field, name, p.1)
            },
        forall|a: int|
            0 <= a < upto && #[trigger] is_marker_at(field, name, a) ==> marker_places_in_field(
                field,
                f,
                name,
                upto,
            ).contains((f, a)),
        forall|k1: int, k2: int|
            0 <= k1 < k2 < marker_places_in_field(field, f, name, upto).len() ==> place_before(
                #[trigger] marker_places_in_field(field, f, name, upto)[k1],
                #[trigger] marker_places_in_field(field, f, name, upto)[k2],
            ),
    decreases upto,
{
    if upto > 0 {
        lemma_in_field_places(field, f, name, upto - 1);
        let before = marker_places_in_field(field, f, name, upto - 1);
        let now = marker_places_in_field(field, f, name, upto);
        assert forall|a: int| 0 <= a < upto && #[trigger] is_marker_at(
            field,
            name,
            a,
        ) implies now.contains((f, a)) by {
            if a < upto - 1 {
                assert(before.contains((f, a)));
                let k = choose|k: int| 0 <= k < before.len() && before[k] == (f, a);
                assert(now[k] == (f, a));
            } else {
                assert(now[now.len() - 1] == (f, a));
            }
        }
    }
}

/// The places of a marker are the places where an attribute is the marker,
/// each once, in the order of the declaration.
pub proof fn lemma_marker_places(fields: Seq<NamedFieldView>, name: Seq<char>, upto: int)
    requires
        0 <= upto <= fields.len(),
    ensures
        forall|k: int|
            0 <= k < marker_places(fields, name, upto).len() ==> {
                let p = #[trigger] marker_places(fields, name, upto)[k];
                0 <= p.0 < upto && is_marker_at(fields[p.0], name, p.1)
            },
        forall|f: int, a: int|
            0 <= f < upto && #[trigger] is_marker_at(fields[f], name, a) ==> marker_places(
                fields,
                name,
                upto,
            ).contains((f, a)),
        forall|k1: int, k2: int|
            0 <= k1 < k2 < marker_places(fields, name, upto).len() ==> place_before(
                #[trigger] marker_places(fields, name, upto)[k1],
                #[trigger] marker_places(fields, name, upto)[k2],
            ),
    decreases upto,
{
    if upto > 0 {
        lemma_marker_places(fields, name, upto - 1);
        let last = fields[upto - 1];
        lemma_in_field_places(last, upto - 1, name, last.attributes.len() as int);
        let before = marker_places(fields, name, upto - 1);
        let here = marker_places_in_field(last, upto - 1, name, last.attributes.len() as int);
        let now = marker_places(fields, name, upto);
        assert(now == before + here);
        assert forall|k: int| 0 <= k < now.len() implies {
            let p = #[trigger] now[k];
            0 <= p.0 < upto && is_marker_at(fields[p.0], name, p.1)
        } by {
            if k < before.len() {
                assert(now[k] == before[k]);
            } else {
                assert(now[k] == here[k - before.len()]);
            }
        }
        assert forall|f: int, a: int|
            0 <= f < upto && #[trigger] is_marker_at(fields[f], name, a) implies now.contains(
            (f, a),
        ) by {
            if f < upto - 1 {
                assert(before.contains((f, a)));
                let k = choose|k: int| 0 <= k < before.len() && before[k] == (f, a);
                assert(now[k] == (f, a));
            } else {
                assert(here.contains((f, a)));
                let k = choose|k: int| 0 <= k < here.len() && here[k] == (f, a);
                assert(now[before.len() + k] == (f, a));
            }
        }
        assert forall|k1: int, k2: int| 0 <= k1 < k2 < now.len() implies place_before(
            #[trigger] now[k1],
            #[trigger] now[k2],
        ) by {
            if k2 < before.len() {
                assert(now[k1] == before[k1] && now[k2] == before[k2]);
            } else if k1 < before.len() {
                assert(now[k1] == before[k1]);
                assert(now[k2] == here[k2 - before.len()]);
            } else {
                assert(now[k1] == here[k1 - before.len()]);
                assert(now[k2] == here[k2 - before.len()]);
            }
        }
    }
}

/// A struct in which two fields are marked `base` is refused: the scan
/// fails with `MultipleBaseFields` and names the first field that is marked
/// `base`.
pub proof fn lemma_two_base_fields_refused(fields: Seq<NamedFieldView>, first: int, second: int)
    requires
        0 <= first < second < fields.len(),
        has_marker(fields[first], "base"@),
        has_marker(fields[second], "base"@),
        forall|f: int| 0 <= f < first ==> !has_marker(#[trigger] fields[f], "base"@),
    ensures
        scan_fields(ShapeView::NamedFields(fields)) is Err,
        scan_fields(ShapeView::NamedFields(fields))->Err_0.kind == (
        ErrorKindView::MultipleBaseFields { previous: fields[first].name }),
{
    let all = all_marker_places(fields, "base"@);
    lemma_marker_places(fields, "base"@, fields.len() as int);
    let a1 = choose|a: int| is_marker_at(fields[first], "base"@, a);
    let a2 = choose|a: int| is_marker_at(fields[second], "base"@, a);
    assert(all.contains((first, a1)));
    assert(all.contains((second, a2)));
    let k1 = choose|k: int| 0 <= k < all.len() && all[k] == (first, a1);
    let k2 = choose|k: int| 0 <= k < all.len() && all[k] == (second, a2);
    assert(k1 != k2);
    assert(all.len() >= 2);
    assert(is_marker_at(fields[all[0].0], "base"@, all[0].1));
    assert(has_marker(fields[all[0].0], "base"@));
    if k1 > 0 {
        assert(place_before(all[0], all[k1]));
    }
    assert(all[0].0 == first);
}

/// Scans the fields of `class`: finds the base field, collects the exported
/// fields and the names of the fields that a constructor fills by default.
pub fn parse_fields(class: &ClassDeclaration) -> (r: Result<Fields, Diagnostic>)
    ensures
        outcome(r) == scan_fields(class@.shape),
{
    let mut all_field_names: Vec<String> = Vec::new();
    let mut exported_fields: Vec<ExportedField> = Vec::new();
    let mut base_field: Option<ExportedField> = None;

    let no_fields: Vec<NamedField> = Vec::new();
    let fields: &Vec<NamedField> = match &class.shape {
        Shape::NoFields => &no_fields,
        Shape::Unsupported => {
            return bail(ErrorKind::UnsupportedFields, Location::Fields);
        },
        Shape::NamedFields(fields) => fields,
    };
    let ghost fv = fields_of(fields@);
    proof {
        reveal_strlit("base");
        reveal_strlit("export");
        assert("base"@.len() == 4 && "export"@.len() == 6);
    }
    assert(fv =~= class@.shape.named_fields());
    assert(fv.take(0) =~= Seq::<NamedFieldView>::empty());
    assert(texts_of(all_field_names@) =~= plain_field_names(fv.take(0)));
    assert(exported_views(exported_fields@) =~= fields_at(fv, marker_places(fv, "export"@, 0)));

    let mut i: usize = 0;
    while i < fields.len()
        invariant
            i <= fields.len(),
            fv == fields_of(fields@),
            fv == class@.shape.named_fields(),
            !(class@.shape is Unsupported),
            "base"@ != "export"@,
            marker_places(fv, "base"@, i as int).len() <= 1,
            match base_field {
                Some(b) => marker_places(fv, "base"@, i as int).len() == 1 && b@ == exported_of(
                    fv[marker_places(fv, "base"@, i as int)[0].0],
                ),
                None => marker_places(fv, "base"@, i as int).len() == 0,
            },
            texts_of(all_field_names@) == plain_field_names(fv.take(i as int)),
            exported_views(exported_fields@) == fields_at(
                fv,
                marker_places(fv, "export"@, i as int),
            ),
        decreases fields.len() - i,
    {
        let field = &fields[i];
        let mut is_base = false;
        assert(field@ == fv[i as int]);
        assert(marker_places_before(fv, "base"@, i as int, 0) =~= marker_places(
            fv,
            "base"@,
            i as int,
        ));
        assert(marker_places_before(fv, "export"@, i as int, 0) =~= marker_places(
            fv,
            "export"@,
            i as int,
        ));

        let mut j: usize = 0;
        while j < field.attributes.len()
            invariant
                i < fields.len(),
                j <= field.attributes.len(),
                field == &fields[i as int],
                fv == fields_of(fields@),
                fv == class@.shape.named_fields(),
                !(class@.shape is Unsupported),
                field@ == fv[i as int],
                "base"@ != "export"@,
                marker_places_before(fv, "base"@, i as int, j as int).len() <= 1,
                match base_field {
                    Some(b) => marker_places_before(fv, "base"@, i as int, j as int).len() == 1
                        && b@ == exported_of(
                        fv[marker_places_before(fv, "base"@, i as int, j as int)[0].0],
                    ),
                    None => marker_places_before(fv, "base"@, i as int, j as int).len() == 0,
                },
                is_base <==> exists|a: int| 0 <= a < j && is_marker_at(fv[i as int], "base"@, a),
                exported_views(exported_fields@) == fields_at(
                    fv,
                    marker_places_before(fv, "export"@, i as int, j as int),
                ),
            decreases field.attributes.len() - j,
        {
            let attr = &field.attributes[j];
            let ghost base_before = marker_places_before(fv, "base"@, i as int, j as int);
            let ghost export_before = marker_places_before(fv, "export"@, i as int, j as int);
            assert(attr@ == fv[i as int].attributes[j as int]);
            if let Some(path) = attr.single_path_segment() {
                if same_text(path, "base") {
                    is_base = true;
                    assert(is_marker_at(fv[i as int], "base"@, j as int));
                    assert(marker_places_before(fv, "base"@, i as int, j + 1) =~= base_before.push(
                        (i as int, j as int),
                    ));
                    if let Some(prev_base) = base_field {
                        proof {
                            lemma_places_before_start(fv, "base"@, i as int, j + 1);
                            let found = base_before.push((i as int, j as int));
                            let all = all_marker_places(fv, "base"@);
                            assert(all[0] == found[0] && all[1] == found[1]);
                            assert(location_of(all[1]) == (Location::FieldAttribute {
                                field: i,
                                attribute: j,
                            }));
                        }
                        return bail(
                            ErrorKind::MultipleBaseFields { previous: prev_base.name },
                            Location::FieldAttribute { field: i, attribute: j },
                        );
                    }
                    base_field = Some(ExportedField::new(field));
                } else if same_text(path, "export") {
                    let ghost exported_before = exported_fields@;
                    exported_fields.push(ExportedField::new(field));
                    assert(exported_views(exported_fields@) =~= exported_views(
                        exported_before,
                    ).push(exported_of(fv[i as int])));
                    assert(fields_at(fv, export_before.push((i as int, j as int))) =~= fields_at(
                        fv,
                        export_before,
                    ).push(exported_of(fv[i as int])));
                    assert(is_marker_at(fv[i as int], "export"@, j as int));
                    assert(marker_places_before(fv, "export"@, i as int, j + 1)
                        =~= export_before.push((i as int, j as int)));
                    assert(exported_views(exported_fields@) =~= fields_at(
                        fv,
                        export_before.push((i as int, j as int)),
                    ));
                }
            }
            proof {
                if !is_marker_at(fv[i as int], "base"@, j as int) {
                    assert(marker_places_before(fv, "base"@, i as int, j + 1) =~= base_before);
                }
                if !is_marker_at(fv[i as int], "export"@, j as int) {
                    assert(marker_places_before(fv, "export"@, i as int, j + 1) =~= export_before);
                }
            }
            j += 1;
        }

        proof {
            assert(marker_places(fv, "base"@, i + 1) =~= marker_places_before(
                fv,
                "base"@,
                i as int,
                j as int,
            ));
            assert(marker_places(fv, "export"@, i + 1) =~= marker_places_before(
                fv,
                "export"@,
                i as int,
                j as int,
            ));
            assert(is_base <==> has_marker(fv[i as int], "base"@));
            lemma_plain_names_step(fv, i as int);
        }
        if !is_base {
            all_field_names.push(field.name.clone());
            assert(texts_of(all_field_names@) =~= plain_field_names(fv.take(i as int)).push(
                fv[i as int].name,
            ));
        }
        i += 1;
    }

    assert(fv.take(i as int) =~= fv);
    Ok(Fields { all_field_names, base_field, exported_fields })
}

} // verus!
