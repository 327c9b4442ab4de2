//! The declaration as the pass reads it: names, attributes and fields, each
//! as plain text, and the place of every syntax node within the declaration.

use vstd::prelude::*;
use vstd::string::StringExecFns;

verus! {

/// The syntax node that a diagnostic points at, by its position within the
/// declaration.
#[derive(Clone, Copy, Debug, PartialEq, Eq, Structural)]
pub enum Location {
    /// The declaration as a whole.
    Declaration,
    /// The field list of the struct.
    Fields,
    /// The struct-level attribute at this index.
    StructAttribute(usize),
    /// The attribute at index `attribute` of the field at index `field`.
    FieldAttribute { field: usize, attribute: usize },
}

/// The characters of each text of `texts`.
pub open spec fn texts_of(texts: Seq<String>) -> Seq<Seq<char>> {
    texts.map_values(|t: String| t@)
}

/// One token of an attribute body.
#[derive(Debug, PartialEq, Eq)]
pub enum Token {
    Ident(String),
    Punct(char),
    /// A literal, as it was written.
    Literal(String),
    /// A group in brackets of any kind.
    Group,
}

/// Mathematical model of a [`Token`].
pub enum TokenView {
    Ident(Seq<char>),
    Punct(char),
    Literal(Seq<char>),
    Group,
}

impl View for Token {
    type V = TokenView;

    open spec fn view(&self) -> TokenView {
        match self {
            Token::Ident(name) => TokenView::Ident(name@),
            Token::Punct(c) => TokenView::Punct(*c),
            Token::Literal(text) => TokenView::Literal(text@),
            Token::Group => TokenView::Group,
        }
    }
}

/// The tokens of `tokens`, each by its model.
pub open spec fn tokens_of(tokens: Seq<Token>) -> Seq<TokenView> {
    tokens.map_values(|t: Token| t@)
}

/// An attribute: `#[path(value)]`.
#[derive(Debug, PartialEq, Eq)]
pub struct Attribute {
    /// The segments of the path before the body: `a`, `b` for `#[a::b]`.
    pub path: Vec<String>,
    /// The tokens of the body, none where the attribute has no body.
    pub value: Vec<Token>,
}

/// Mathematical model of an [`Attribute`].
pub struct AttributeView {
    pub path: Seq<Seq<char>>,
    pub value: Seq<TokenView>,
}

impl View for Attribute {
    type V = AttributeView;

    open spec fn view(&self) -> AttributeView {
        AttributeView { path: texts_of(self.path@), value: tokens_of(self.value@) }
    }
}

impl AttributeView {
    /// The path is the one segment `name`.
    pub open spec fn is_marker(self, name: Seq<char>) -> bool {
        self.path.len() == 1 && self.path[0] == name
    }
}

impl Attribute {
    /// The only segment of the path; `None` where the path has none or
    /// several.
    pub fn single_path_segment(&self) -> (r: Option<&String>)
        ensures
            match r {
                Some(name) => self@.path.len() == 1 && self@.path[0] == name@,
                None => self@.path.len() != 1,
            },
    {
        if self.path.len() == 1 {
            Some(&self.path[0])
        } else {
            None
        }
    }

    /// Whether the path is the one segment `name`.
    pub fn path_is_single(&self, name: &str) -> (r: bool)
        ensures
            r == self@.is_marker(name@),
    {
        match self.single_path_segment() {
            Some(segment) => same_text(segment, name),
            None => false,
        }
    }
}

/// The attributes of `attributes`, each by its model.
pub open spec fn attributes_of(attributes: Seq<Attribute>) -> Seq<AttributeView> {
    attributes.map_values(|a: Attribute| a@)
}

/// A field with a name: `name: ty`, below its attributes.
#[derive(Debug, PartialEq, Eq)]
pub struct NamedField {
    pub attributes: Vec<Attribute>,
    pub name: String,
    /// The type expression, as it was written.
    pub ty: String,
}

/// Mathematical model of a [`NamedField`].
pub struct NamedFieldView {
    pub attributes: Seq<AttributeView>,
    pub name: Seq<char>,
    pub ty: Seq<char>,
}

impl View for NamedField {
    type V = NamedFieldView;

    open spec fn view(&self) -> NamedFieldView {
        NamedFieldView {
            attributes: attributes_of(self.attributes@),
            name: self.name@,
            ty: self.ty@,
        }
    }
}

/// The fields of `fields`, each by its model.
pub open spec fn fields_of(fields: Seq<NamedField>) -> Seq<NamedFieldView> {
    fields.map_values(|f: NamedField| f@)
}

/// The form of a struct's field list.
#[derive(Debug, PartialEq, Eq)]
pub enum Shape {
    /// No field list, or an empty one.
    NoFields,
    /// Fields with names, in the order of their declaration.
    NamedFields(Vec<NamedField>),
    /// Fields by position: a tuple struct.
    Unsupported,
}

/// Mathematical model of a [`Shape`].
pub enum ShapeView {
    NoFields,
    NamedFields(Seq<NamedFieldView>),
    Unsupported,
}

impl View for Shape {
    type V = ShapeView;

    open spec fn view(&self) -> ShapeView {
        match self {
            Shape::NoFields => ShapeView::NoFields,
            Shape::NamedFields(fields) => ShapeView::NamedFields(fields_of(fields@)),
            Shape::Unsupported => ShapeView::Unsupported,
        }
    }
}

impl ShapeView {
    /// The named fields; none where the struct has no field list.
    pub open spec fn named_fields(self) -> Seq<NamedFieldView> {
        match self {
            ShapeView::NamedFields(fields) => fields,
            _ => Seq::empty(),
        }
    }
}

/// A struct declaration.
#[derive(Debug, PartialEq, Eq)]
pub struct ClassDeclaration {
    pub name: String,
    pub shape: Shape,
    /// The attributes above the struct.
    pub attributes: Vec<Attribute>,
}

/// Mathematical model of a [`ClassDeclaration`].
pub struct ClassDeclarationView {
    pub name: Seq<char>,
    pub shape: ShapeView,
    pub attributes: Seq<AttributeView>,
}

impl View for ClassDeclaration {
    type V = ClassDeclarationView;

    open spec fn view(&self) -> ClassDeclarationView {
        ClassDeclarationView {
            name: self.name@,
            shape: self.shape@,
            attributes: attributes_of(self.attributes@),
        }
    }
}

/// A declaration of any kind.
#[derive(Debug, PartialEq, Eq)]
pub enum Declaration {
    Struct(ClassDeclaration),
    Enum,
    Union,
    /// A function, a module, an impl block or another item.
    Other,
}

/// Mathematical model of a [`Declaration`].
pub enum DeclarationView {
    Struct(ClassDeclarationView),
    Enum,
    Union,
    Other,
}

impl View for Declaration {
    type V = DeclarationView;

    open spec fn view(&self) -> DeclarationView {
        match self {
            Declaration::Struct(class) => DeclarationView::Struct(class@),
            Declaration::Enum => DeclarationView::Enum,
            Declaration::Union => DeclarationView::Union,
            Declaration::Other => DeclarationView::Other,
        }
    }
}

/// Whether two texts hold the same characters.
pub fn same_text(a: &String, b: &str) -> (r: bool)
    ensures
        r == (a@ == b@),
{
    let other = String::from_str(b);
    *a == other
}

} // verus!
