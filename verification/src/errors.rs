//! The diagnostics with which the pass aborts.

use crate::kv::{KvError, KvErrorKind};
use crate::source::{texts_of, Location};
use vstd::prelude::*;
use vstd::string::StringExecFns;

verus! {

/// Why a declaration was refused.
#[derive(Debug, PartialEq, Eq)]
pub enum ErrorKind {
    /// The declaration is not a struct.
    UnsupportedShape,
    /// The struct has fields by position.
    UnsupportedFields,
    /// The struct carries the configuration attribute more than once.
    DuplicateConfigAttribute,
    /// The body of the configuration attribute is no list of keys.
    MalformedAttribute { error: KvError },
    /// The value of `base` is not a bare identifier.
    InvalidBaseValue,
    /// `init` was given a value.
    InitTakesNoValue,
    /// The configuration attribute holds keys that the pass does not know:
    /// all of them, in the order in which they were written.
    UnknownAttributeKey { keys: Vec<String> },
    /// A second field is marked `base`; `previous` names the field that
    /// holds the role already.
    MultipleBaseFields { previous: String },
}

/// Mathematical model of an [`ErrorKind`].
pub enum ErrorKindView {
    UnsupportedShape,
    UnsupportedFields,
    DuplicateConfigAttribute,
    MalformedAttribute { error: KvError },
    InvalidBaseValue,
    InitTakesNoValue,
    UnknownAttributeKey { keys: Seq<Seq<char>> },
    MultipleBaseFields { previous: Seq<char> },
}

impl View for ErrorKind {
    type V = ErrorKindView;

    open spec fn view(&self) -> ErrorKindView {
        match self {
            ErrorKind::UnsupportedShape => ErrorKindView::UnsupportedShape,
            ErrorKind::UnsupportedFields => ErrorKindView::UnsupportedFields,
            ErrorKind::DuplicateConfigAttribute => ErrorKindView::DuplicateConfigAttribute,
            ErrorKind::MalformedAttribute { error } => ErrorKindView::MalformedAttribute {
                error: *error,
            },
            ErrorKind::InvalidBaseValue => ErrorKindView::InvalidBaseValue,
            ErrorKind::InitTakesNoValue => ErrorKindView::InitTakesNoValue,
            ErrorKind::UnknownAttributeKey { keys } => ErrorKindView::UnknownAttributeKey {
                keys: texts_of(keys@),
            },
            ErrorKind::MultipleBaseFields { previous } => ErrorKindView::MultipleBaseFields {
                previous: previous@,
            },
        }
    }
}

/// The one diagnostic of a pass that failed: what is wrong, and where.
#[derive(Debug, PartialEq, Eq)]
pub struct Diagnostic {
    pub kind: ErrorKind,
    pub location: Location,
}

/// Mathematical model of a [`Diagnostic`].
pub struct DiagnosticView {
    pub kind: ErrorKindView,
    pub location: Location,
}

impl View for Diagnostic {
    type V = DiagnosticView;

    open spec fn view(&self) -> DiagnosticView {
        DiagnosticView { kind: self.kind@, location: self.location }
    }
}

/// What a stage of the pass returned, by its model.
pub open spec fn outcome<T: View>(r: Result<T, Diagnostic>) -> Result<T::V, DiagnosticView> {
    match r {
        Ok(value) => Ok(value@),
        Err(e) => Err(e@),
    }
}

/// The first `n` texts of `keys`, with `", "` between two of them.
pub open spec fn joined(keys: Seq<Seq<char>>, n: int) -> Seq<char>
    decreases n,
{
    if n <= 0 {
        Seq::empty()
    } else if n == 1 {
        keys[0]
    } else {
        joined(keys, n - 1) + ", "@ + keys[n - 1]
    }
}

/// What a body that is refused lacks.
pub open spec fn syntax_message_of(kind: KvErrorKind) -> Seq<char> {
    match kind {
        KvErrorKind::ExpectedKey => "Expected a key in #[godot] attribute"@,
        KvErrorKind::ExpectedSeparator => "Expected `,` or `=` in #[godot] attribute"@,
        KvErrorKind::ExpectedValue =>
            "Expected identifier or literal as value in #[godot] attribute"@,
        KvErrorKind::DuplicateKey => "Duplicate key in #[godot] attribute"@,
    }
}

/// The text of a diagnostic of this kind.
pub open spec fn message_of(kind: ErrorKindView) -> Seq<char> {
    match kind {
        ErrorKindView::UnsupportedShape => "Not a valid struct"@,
        ErrorKindView::UnsupportedFields =>
            "#[derive(GodotClass)] not supported for tuple structs"@,
        ErrorKindView::DuplicateConfigAttribute =>
            "Only one #[godot] attribute per item (struct, fn, ...) allowed"@,
        ErrorKindView::MalformedAttribute { error } => syntax_message_of(error.kind),
        ErrorKindView::InvalidBaseValue => "Invalid value for 'base' argument"@,
        ErrorKindView::InitTakesNoValue => "Argument 'init' must not have a value"@,
        ErrorKindView::UnknownAttributeKey { keys } => "Attribute contains unknown keys: "@ + joined(
            keys,
            keys.len() as int,
        ),
        ErrorKindView::MultipleBaseFields { previous } =>
            "#[base] allowed for at most 1 field, already applied to '"@ + previous + "'"@,
    }
}

/// `part` stands somewhere in `whole`, unbroken.
pub open spec fn occurs_in(part: Seq<char>, whole: Seq<char>) -> bool {
    exists|start: int|
        0 <= start && start + part.len() <= whole.len() && #[trigger] whole.subrange(
            start,
            start + part.len(),
        ) == part
}

/// What occurs in a text occurs in the text with more before and behind it.
pub proof fn lemma_occurs_within(
    part: Seq<char>,
    whole: Seq<char>,
    before: Seq<char>,
    behind: Seq<char>,
)
    requires
        occurs_in(part, whole),
    ensures
        occurs_in(part, before + whole + behind),
{
    let start = choose|start: int|
        0 <= start && start + part.len() <= whole.len() && #[trigger] whole.subrange(
            start,
            start + part.len(),
        ) == part;
    let all = before + whole + behind;
    let at = before.len() + start;
    assert(all.subrange(at, at + part.len()) =~= whole.subrange(start, start + part.len()));
}

/// Each of the first `n` keys occurs in the text that joins them.
pub proof fn lemma_joined_names_key(keys: Seq<Seq<char>>, n: int, k: int)
    requires
        0 <= k < n <= keys.len(),
    ensures
        occurs_in(keys[k], joined(keys, n)),
    decreases n,
{
    let none = Seq::<char>::empty();
    if n == 1 {
        assert(keys[0].subrange(0int, 0int + keys[0].len()) =~= keys[0]);
    } else if k == n - 1 {
        let last = keys[n - 1];
        assert(last.subrange(0int, 0int + last.len()) =~= last);
        lemma_occurs_within(last, last, joined(keys, n - 1) + ", "@, none);
        assert((joined(keys, n - 1) + ", "@) + last + none =~= joined(keys, n));
    } else {
        lemma_joined_names_key(keys, n - 1, k);
        lemma_occurs_within(keys[k], joined(keys, n - 1), none, ", "@ + keys[n - 1]);
        assert(none + joined(keys, n - 1) + (", "@ + keys[n - 1]) =~= joined(keys, n));
    }
}

/// The message of `UnknownAttributeKey` names every key that it reports.
pub proof fn lemma_message_names_unknown_key(keys: Seq<Seq<char>>, k: int)
    requires
        0 <= k < keys.len(),
    ensures
        occurs_in(keys[k], message_of(ErrorKindView::UnknownAttributeKey { keys })),
{
    lemma_joined_names_key(keys, keys.len() as int, k);
    let listed = joined(keys, keys.len() as int);
    lemma_occurs_within(keys[k], listed, "Attribute contains unknown keys: "@, Seq::empty());
    assert("Attribute contains unknown keys: "@ + listed + Seq::<char>::empty()
        =~= "Attribute contains unknown keys: "@ + listed);
}

/// The message of `MultipleBaseFields` names the field that holds the role
/// already.
pub proof fn lemma_message_names_base_field(previous: Seq<char>)
    ensures
        occurs_in(previous, message_of(ErrorKindView::MultipleBaseFields { previous })),
{
    assert(previous.subrange(0int, 0int + previous.len()) =~= previous);
    lemma_occurs_within(
        previous,
        previous,
        "#[base] allowed for at most 1 field, already applied to '"@,
        "'"@,
    );
}

/// The texts of `keys`, with `", "` between two of them.
fn join_keys(keys: &Vec<String>) -> (r: String)
    ensures
        r@ == joined(texts_of(keys@), keys@.len() as int),
{
    let mut out = String::new();
    let mut i: usize = 0;
    while i < keys.len()
        invariant
            i <= keys.len(),
            out@ == joined(texts_of(keys@), i as int),
        decreases keys.len() - i,
    {
        if i > 0 {
            out.append(", ");
        }
        out.append(keys[i].as_str());
        proof {
            if i == 0 {
                assert(out@ =~= texts_of(keys@)[0]);
            }
        }
        i += 1;
    }
    out
}

impl Diagnostic {
    /// The message for the reader of the diagnostic.
    pub fn message(&self) -> (r: String)
        ensures
            r@ == message_of(self@.kind),
    {
        match &self.kind {
            ErrorKind::UnsupportedShape => String::from_str("Not a valid struct"),
            ErrorKind::UnsupportedFields => String::from_str(
                "#[derive(GodotClass)] not supported for tuple structs",
            ),
            ErrorKind::DuplicateConfigAttribute => String::from_str(
                "Only one #[godot] attribute per item (struct, fn, ...) allowed",
            ),
            ErrorKind::MalformedAttribute { error } => match error.kind {
                KvErrorKind::ExpectedKey => String::from_str("Expected a key in #[godot] attribute"),
                KvErrorKind::ExpectedSeparator => String::from_str(
                    "Expected `,` or `=` in #[godot] attribute",
                ),
                KvErrorKind::ExpectedValue => String::from_str(
                    "Expected identifier or literal as value in #[godot] attribute",
                ),
                KvErrorKind::DuplicateKey => String::from_str("Duplicate key in #[godot] attribute"),
            },
            ErrorKind::InvalidBaseValue => String::from_str("Invalid value for 'base' argument"),
            ErrorKind::InitTakesNoValue => String::from_str(
                "Argument 'init' must not have a value",
            ),
            ErrorKind::UnknownAttributeKey { keys } => {
                let listed = join_keys(keys);
                String::from_str("Attribute contains unknown keys: ").concat(listed.as_str())
            },
            ErrorKind::MultipleBaseFields { previous } => {
                String::from_str("#[base] allowed for at most 1 field, already applied to '").concat(
                    previous.as_str(),
                ).concat("'")
            },
        }
    }
}

/// Fails with a diagnostic of kind `kind` at `location`.
pub fn bail<T>(kind: ErrorKind, location: Location) -> (r: Result<T, Diagnostic>)
    ensures
        r matches Err(e) && e@ == (DiagnosticView { kind: kind@, location }),
{
    Err(Diagnostic { kind, location })
}

} // verus!
