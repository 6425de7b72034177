//! The description of a host type, as far as the deriver reads it.
//!
//! These are plain values: whoever has the host type's syntax tree fills them in.

use crate::token::Token;
use vstd::prelude::*;

verus! {

/// Where an annotation stands.
#[derive(Clone, Copy, Debug, PartialEq, Eq, Structural)]
pub enum AttrStyle {
    /// In front of the item.
    Outer,
    /// Inside the item.
    Inner,
}

/// What stands behind the `=` of an annotation.
#[derive(Debug, PartialEq, Eq)]
pub enum MetaValue {
    /// A string literal, by the text it stands for.
    Str(String),
    /// Any other expression.
    Other,
}

/// The content of an annotation. `path` is the annotation's name where that is a single
/// word, `None` otherwise.
#[derive(Debug, PartialEq, Eq)]
pub enum Meta {
    /// `#[name]`
    Path { path: Option<String> },
    /// `#[name = value]`
    NameValue { path: Option<String>, value: MetaValue },
    /// `#[name(tokens)]`
    List { path: Option<String>, tokens: Vec<Token> },
}

/// One annotation.
#[derive(Debug, PartialEq, Eq)]
pub struct Attribute {
    pub style: AttrStyle,
    pub meta: Meta,
}

/// The shape of a field's type. `head` is the last word of the type's path, `None` where
/// the type is no path. `arg` is the last word of the path that is the last type argument
/// in angle brackets behind `head`, `None` where there is no such argument.
#[derive(Debug, PartialEq, Eq)]
pub struct FieldType {
    pub head: Option<String>,
    pub arg: Option<String>,
}

/// A named field.
#[derive(Debug, PartialEq, Eq)]
pub struct Field {
    pub attrs: Vec<Attribute>,
    pub ident: String,
    pub ty: FieldType,
}

/// The fields of a struct or of a variant.
#[derive(Debug, PartialEq, Eq)]
pub enum Fields {
    /// `{ name: Type, .. }`
    Named(Vec<Field>),
    /// `(Type, ..)`
    Unnamed,
    /// No fields.
    Unit,
}

/// One variant of an enum.
#[derive(Debug, PartialEq, Eq)]
pub struct Variant {
    pub attrs: Vec<Attribute>,
    pub ident: String,
    pub fields: Fields,
}

/// The body of a host type.
#[derive(Debug, PartialEq, Eq)]
pub enum Data {
    Struct(Fields),
    Enum(Vec<Variant>),
    Union,
}

/// A host type: its annotations, its name, the names of its type parameters, its body.
#[derive(Debug, PartialEq, Eq)]
pub struct DeriveInput {
    pub attrs: Vec<Attribute>,
    pub ident: String,
    pub generics: Vec<String>,
    pub data: Data,
}

/// Is the annotation's name the word `word`?
pub open spec fn path_is(path: Option<String>, word: Seq<char>) -> bool {
    path matches Some(p) && p@ == word
}

/// Is the annotation's name the word `word`?
pub fn path_named(path: &Option<String>, word: &str) -> (out: bool)
    ensures
        out == path_is(*path, word@),
{
    match path {
        Some(p) => *p.as_str() == *word,
        None => false,
    }
}

} // verus!
