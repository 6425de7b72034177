//! The deriver for plain structs: lenient about annotations it does not know, and with the
//! tags given as one flat list.

use crate::spread::generate::{spec_fields_pieces, spread_pieces_view, SpreadPiece, SpreadPieceView};
use crate::spread::input::{
    path_is, path_named, AttrStyle, Attribute, Data, DeriveInput, Field, Fields, Meta, MetaValue,
};
use crate::spread::instance::{raw_pieces, spec_raw_pieces, values_view, Instance, SpreadError};
use crate::spread::parse::{default_prefix, ReflectionError};
use crate::spread::syntax::{
    duplicate_names, fields_view, names_view, optional_names_view, optional_text_view, ImplTags,
    ImplTagsView, SpreadBlock, SpreadField, SpreadFieldView,
};
use crate::types::attrs::{Bundle, BundleView};
use crate::token::{tokens_view, Token, TokenView};
use vstd::prelude::*;
use vstd::string::*;

verus! {

/// The text that the annotation gives for the name `word`: that of `#[word = "text"]`,
/// where the annotation stands in front of the item.
pub open spec fn named_text(attr: Attribute, word: Seq<char>) -> Option<Seq<char>> {
    if attr.style != AttrStyle::Outer {
        None
    } else {
        match attr.meta {
            Meta::NameValue { path, value } => match value {
                MetaValue::Str(text) => if path_is(path, word) {
                    Some(text@)
                } else {
                    None
                },
                MetaValue::Other => None,
            },
            _ => None,
        }
    }
}

/// Is the annotation the bare word `word`, in front of the item?
pub open spec fn is_flag(attr: Attribute, word: Seq<char>) -> bool {
    attr.style == AttrStyle::Outer && (attr.meta matches Meta::Path { path } && path_is(path, word))
}

/// The prefix that the annotation sets, if it sets one.
pub open spec fn prefix_of(attr: Attribute) -> Option<Seq<char>> {
    if is_flag(attr, "prefix"@) {
        Some(default_prefix())
    } else {
        named_text(attr, "prefix"@)
    }
}

/// The first prefix that the annotations from the index `from` on set.
pub open spec fn first_prefix(attrs: Seq<Attribute>, from: int) -> Option<Seq<char>>
    decreases attrs.len() - from,
{
    if 0 <= from < attrs.len() {
        match prefix_of(attrs[from]) {
            Some(p) => Some(p),
            None => first_prefix(attrs, from + 1),
        }
    } else {
        None
    }
}

/// The first text that the annotations from the index `from` on give for the name `word`.
pub open spec fn first_named(attrs: Seq<Attribute>, word: Seq<char>, from: int) -> Option<
    Seq<char>,
>
    decreases attrs.len() - from,
{
    if 0 <= from < attrs.len() {
        match named_text(attrs[from], word) {
            Some(text) => Some(text),
            None => first_named(attrs, word, from + 1),
        }
    } else {
        None
    }
}

/// Is one of the annotations from the index `from` on the bare word `word`?
pub open spec fn any_flag(attrs: Seq<Attribute>, word: Seq<char>, from: int) -> bool
    decreases attrs.len() - from,
{
    if 0 <= from < attrs.len() {
        is_flag(attrs[from], word) || any_flag(attrs, word, from + 1)
    } else {
        false
    }
}

/// The words among the tokens from the index `from` on; whatever else stands there is
/// passed over.
pub open spec fn words(ts: Seq<TokenView>, from: int) -> Seq<Seq<char>>
    decreases ts.len() - from,
{
    if 0 <= from < ts.len() {
        match ts[from] {
            TokenView::Ident(word) => seq![word] + words(ts, from + 1),
            _ => words(ts, from + 1),
        }
    } else {
        Seq::empty()
    }
}

/// The tags that the first `tags(..)` among the annotations from the index `from` on
/// lists; `None` where there is no such annotation.
pub open spec fn first_tags(attrs: Seq<Attribute>, from: int) -> Option<Seq<Seq<char>>>
    decreases attrs.len() - from,
{
    if 0 <= from < attrs.len() {
        match attrs[from].meta {
            Meta::List { path, tokens } => if attrs[from].style == AttrStyle::Outer && path_is(
                path,
                "tags"@,
            ) {
                Some(words(tokens_view(tokens@), 0))
            } else {
                first_tags(attrs, from + 1)
            },
            _ => first_tags(attrs, from + 1),
        }
    } else {
        None
    }
}

/// The description of one field: optional where its type is an `Option`, escaped where
/// it is marked `escape_value`, named by its first `rename`.
pub open spec fn spec_plain_field(field: Field) -> SpreadFieldView {
    SpreadFieldView {
        rename: first_named(field.attrs@, "rename"@, 0),
        name: field.ident@,
        is_option: path_is(field.ty.head, "Option"@),
        is_escaped: any_flag(field.attrs@, "escape_value"@, 0),
        is_name_only: false,
    }
}

/// The descriptions of all fields.
pub open spec fn spec_plain_fields(fields: Seq<Field>) -> Seq<SpreadFieldView> {
    Seq::new(fields.len(), |i: int| spec_plain_field(fields[i]))
}

/// What is generated for a plain struct.
#[derive(Debug, PartialEq, Eq)]
pub struct EmbedImpl {
    /// The name of the host type.
    pub data_id: String,
    /// The type parameters that have to have a textual form.
    pub generics: Vec<String>,
    /// The tags that the struct lists; `None` for every standard tag.
    pub tags: Option<Vec<String>>,
    /// The template of the serialization.
    pub pieces: Vec<SpreadPiece>,
}

pub struct EmbedImplView {
    pub data_id: Seq<char>,
    pub generics: Seq<Seq<char>>,
    pub tags: Option<Seq<Seq<char>>>,
    pub pieces: Seq<SpreadPieceView>,
}

impl View for EmbedImpl {
    type V = EmbedImplView;

    open spec fn view(&self) -> EmbedImplView {
        EmbedImplView {
            data_id: self.data_id@,
            generics: names_view(self.generics@),
            tags: optional_names_view(self.tags),
            pieces: spread_pieces_view(self.pieces@),
        }
    }
}

/// What is generated for the host type `input`: for a struct with named fields, the
/// template of its fields under the first prefix and the first suffix that its annotations
/// set. Any other host type is refused.
pub open spec fn spec_expand(input: DeriveInput) -> Result<EmbedImplView, ReflectionError> {
    match input.data {
        Data::Struct(Fields::Named(fields)) => {
            let described = spec_plain_fields(fields@);
            Ok(
                EmbedImplView {
                    data_id: input.ident@,
                    generics: names_view(input.generics@),
                    tags: first_tags(input.attrs@, 0),
                    pieces: spec_fields_pieces(
                        described,
                        described.len() as int,
                        first_prefix(input.attrs@, 0),
                        first_named(input.attrs@, "suffix"@, 0),
                    ),
                },
            )
        },
        _ => Err(ReflectionError::UnsupportedShape),
    }
}

/// The text that the annotation gives for the name `word`.
fn named_text_of<'a>(attr: &'a Attribute, word: &str) -> (out: Option<&'a String>)
    ensures
        match out {
            Some(text) => named_text(*attr, word@) == Some(text@),
            None => named_text(*attr, word@) is None,
        },
{
    match attr.style {
        AttrStyle::Outer => {},
        AttrStyle::Inner => {
            return None;
        },
    }
    match &attr.meta {
        Meta::NameValue { path, value } => match value {
            MetaValue::Str(text) => {
                if path_named(path, word) {
                    Some(text)
                } else {
                    None
                }
            },
            MetaValue::Other => None,
        },
        _ => None,
    }
}

/// Is the annotation the bare word `word`?
fn is_flag_of(attr: &Attribute, word: &str) -> (out: bool)
    ensures
        out == is_flag(*attr, word@),
{
    match attr.style {
        AttrStyle::Outer => {},
        AttrStyle::Inner => {
            return false;
        },
    }
    match &attr.meta {
        Meta::Path { path } => path_named(path, word),
        _ => false,
    }
}

/// The first prefix that the annotations set.
pub fn find_prefix(attrs: &Vec<Attribute>) -> (out: Option<String>)
    ensures
        optional_text_view(out) == first_prefix(attrs@, 0),
{
    let mut i: usize = 0;
    while i < attrs.len()
        invariant
            i <= attrs.len(),
            first_prefix(attrs@, 0) == first_prefix(attrs@, i as int),
        decreases attrs.len() - i,
    {
        if is_flag_of(&attrs[i], "prefix") {
            return Some(String::from_str(crate::spread::DATA_PREFIX));
        }
        match named_text_of(&attrs[i], "prefix") {
            Some(text) => {
                return Some(text.clone());
            },
            None => {},
        }
        i += 1;
    }
    None
}

/// The first text that the annotations give for the name `word`.
pub fn find_named(attrs: &Vec<Attribute>, word: &str) -> (out: Option<String>)
    ensures
        optional_text_view(out) == first_named(attrs@, word@, 0),
{
    let mut i: usize = 0;
    while i < attrs.len()
        invariant
            i <= attrs.len(),
            first_named(attrs@, word@, 0) == first_named(attrs@, word@, i as int),
        decreases attrs.len() - i,
    {
        match named_text_of(&attrs[i], word) {
            Some(text) => {
                return Some(text.clone());
            },
            None => {},
        }
        i += 1;
    }
    None
}

/// Is one of the annotations the bare word `word`?
pub fn has_flag(attrs: &Vec<Attribute>, word: &str) -> (out: bool)
    ensures
        out == any_flag(attrs@, word@, 0),
{
    let mut i: usize = 0;
    while i < attrs.len()
        invariant
            i <= attrs.len(),
            any_flag(attrs@, word@, 0) == any_flag(attrs@, word@, i as int),
        decreases attrs.len() - i,
    {
        if is_flag_of(&attrs[i], word) {
            return true;
        }
        i += 1;
    }
    false
}

/// The words among the tokens.
fn collect_words(tokens: &Vec<Token>) -> (out: Vec<String>)
    ensures
        names_view(out@) == words(tokens_view(tokens@), 0),
{
    let ghost ts = tokens_view(tokens@);
    let mut out: Vec<String> = Vec::new();
    let mut i: usize = 0;
    assert(names_view(out@) + words(ts, 0) =~= words(ts, 0));
    while i < tokens.len()
        invariant
            i <= tokens.len(),
            ts == tokens_view(tokens@),
            names_view(out@) + words(ts, i as int) == words(ts, 0),
        decreases tokens.len() - i,
    {
        let ghost before = names_view(out@);
        match &tokens[i] {
            Token::Ident(word) => {
                out.push(word.clone());
                assert(names_view(out@) =~= before + seq![word@]);
                assert((before + seq![word@]) + words(ts, i + 1) =~= before + (seq![word@] + words(
                    ts,
                    i + 1,
                )));
            },
            _ => {},
        }
        i += 1;
    }
    assert(names_view(out@) + Seq::<Seq<char>>::empty() =~= names_view(out@));
    out
}

/// The tags that the first `tags(..)` among the annotations lists.
fn find_tags(attrs: &Vec<Attribute>) -> (out: Option<Vec<String>>)
    ensures
        optional_names_view(out) == first_tags(attrs@, 0),
{
    let mut i: usize = 0;
    while i < attrs.len()
        invariant
            i <= attrs.len(),
            first_tags(attrs@, 0) == first_tags(attrs@, i as int),
        decreases attrs.len() - i,
    {
        let outer = match attrs[i].style {
            AttrStyle::Outer => true,
            AttrStyle::Inner => false,
        };
        match &attrs[i].meta {
            Meta::List { path, tokens } => {
                if outer && path_named(path, "tags") {
                    return Some(collect_words(tokens));
                }
            },
            _ => {},
        }
        i += 1;
    }
    None
}

/// The descriptions of all fields.
pub fn plain_fields(fields: &Vec<Field>) -> (out: Vec<SpreadField>)
    ensures
        fields_view(out@) == spec_plain_fields(fields@),
{
    let mut out: Vec<SpreadField> = Vec::new();
    let mut i: usize = 0;
    while i < fields.len()
        invariant
            i <= fields.len(),
            out.len() == i,
            forall|k: int| 0 <= k < i ==> out[k]@ == spec_plain_field(fields[k]),
        decreases fields.len() - i,
    {
        let field = &fields[i];
        out.push(
            SpreadField {
                rename: find_named(&field.attrs, "rename"),
                name: field.ident.clone(),
                is_option: path_named(&field.ty.head, "Option"),
                is_escaped: has_flag(&field.attrs, "escape_value"),
                is_name_only: false,
            },
        );
        i += 1;
    }
    assert(fields_view(out@) =~= spec_plain_fields(fields@));
    out
}

/// Generates the serialization for a plain struct.
pub fn expand_embed_as_attrs(input: &DeriveInput) -> (out: Result<EmbedImpl, ReflectionError>)
    ensures
        match spec_expand(*input) {
            Ok(expanded) => out matches Ok(x) && x@ == expanded,
            Err(e) => out matches Err(x) && x == e,
        },
{
    let fields = match &input.data {
        Data::Struct(Fields::Named(fields)) => fields,
        _ => {
            return Err(ReflectionError::UnsupportedShape);
        },
    };
    let block = SpreadBlock {
        prefix: find_prefix(&input.attrs),
        suffix: find_named(&input.attrs, "suffix"),
        fields: plain_fields(fields),
    };
    Ok(
        EmbedImpl {
            data_id: input.ident.clone(),
            generics: duplicate_names(&input.generics),
            tags: find_tags(&input.attrs),
            pieces: block.generate_tokens(),
        },
    )
}

impl EmbedImpl {
    /// The attributes of the host value `instance`, serialized.
    pub fn raw(&self, instance: &Instance) -> (out: Result<String, SpreadError>)
        ensures
            match spec_raw_pieces(self@.pieces, 0, values_view(instance.fields@)) {
                Ok(text) => out matches Ok(s) && s@ == text,
                Err(e) => out matches Err(x) && x == e,
            },
    {
        raw_pieces(&self.pieces, instance)
    }

    /// The bundle for the host value `instance`: its serialization, and the listed tags
    /// or, without a list, every standard tag.
    pub fn bundle(&self, instance: &Instance) -> (out: Result<Bundle, SpreadError>)
        ensures
            match spec_raw_pieces(self@.pieces, 0, values_view(instance.fields@)) {
                Ok(text) => out matches Ok(b) && b@ == (BundleView {
                    raw: text,
                    tags: match self@.tags {
                        Some(list) => ImplTagsView::Only(list),
                        None => ImplTagsView::DefaultWith { extra: None, exclude: None },
                    },
                }),
                Err(e) => out matches Err(x) && x == e,
            },
    {
        match self.raw(instance) {
            Err(e) => Err(e),
            Ok(raw) => {
                let tags = match &self.tags {
                    Some(list) => ImplTags::Only(duplicate_names(list)),
                    None => ImplTags::DefaultWith { extra: None, exclude: None },
                };
                Ok(Bundle { raw, tags })
            },
        }
    }
}

} // verus!
