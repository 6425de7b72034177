//! Reading the description of a host type: its annotations, its fields, its variants.

use crate::spread::input::{
    path_is, path_named, AttrStyle, Attribute, Data, DeriveInput, Field, FieldType, Fields, Meta,
    MetaValue, Variant,
};
use crate::spread::syntax::{
    fields_view, names_view, optional_names_view, optional_text_view, variants_view, ImplTags,
    ImplTagsView, SpreadBlock, SpreadBlockView, SpreadData, SpreadDataView, SpreadField,
    SpreadFieldView, SpreadInput, SpreadInputView,
};
use crate::token::{tokens_view, Delimiter, Token, TokenView};
use vstd::prelude::*;
use vstd::string::*;

verus! {

/// Why a host type cannot be made a bundle of attributes.
#[derive(Clone, Copy, Debug, PartialEq, Eq, Structural)]
pub enum ReflectionError {
    /// An annotation that the deriver does not know, or one in a place where it has no
    /// meaning.
    UnexpectedAttribute,
    /// `prefix`, `suffix` or `rename` with a value that is no string literal.
    ExpectedString,
    /// In `tags(..)`: a word that opens no tag list.
    ExpectedKeyword,
    /// In `tags(..)`: no list in round brackets behind the word that opens one.
    ExpectedTagList,
    /// In `tags(..)`: a tag list that holds something other than words and commas.
    ExpectedIdents,
    /// In `tags(..)`: `only` together with another list.
    ConflictingTags,
    /// A variant without named fields.
    UnnamedFields,
    /// A union, or a struct without named fields.
    UnsupportedShape,
}

/// The prefix that `#[prefix]` without a value stands for.
pub open spec fn default_prefix() -> Seq<char> {
    "data"@
}

/// The word that opens the list of tags to add to the standard ones.
pub open spec fn extra_keyword() -> Seq<char> {
    seq!['i', 'n', 'c', 'l', 'u', 'd', 'e']
}

/// Whether a field is optional, and whether it stands for a bare attribute: by the last
/// word of its type, `NameOnly` or `Option`, and for an `Option` by its argument.
pub open spec fn spec_field_shape(ty: FieldType) -> (bool, bool) {
    if path_is(ty.head, "NameOnly"@) {
        (false, true)
    } else if path_is(ty.head, "Option"@) {
        (true, path_is(ty.arg, "NameOnly"@))
    } else {
        (false, false)
    }
}

/// What a field's annotations have said so far.
pub struct FieldFlags {
    pub is_escaped: bool,
    pub rename: Option<Seq<char>>,
}

/// What one annotation of a field adds to `flags`: `escape_value` switches escaping on,
/// `rename = "name"` gives the attribute its name; nothing else may stand on a field.
pub open spec fn spec_field_attr(attr: Attribute, flags: FieldFlags) -> Result<
    FieldFlags,
    ReflectionError,
> {
    if attr.style != AttrStyle::Outer {
        Err(ReflectionError::UnexpectedAttribute)
    } else {
        match attr.meta {
            Meta::Path { path } => if path_is(path, "escape_value"@) {
                Ok(FieldFlags { is_escaped: true, rename: flags.rename })
            } else {
                Err(ReflectionError::UnexpectedAttribute)
            },
            Meta::NameValue { path, value } => if path_is(path, "rename"@) {
                match value {
                    MetaValue::Str(name) => Ok(
                        FieldFlags { is_escaped: flags.is_escaped, rename: Some(name@) },
                    ),
                    MetaValue::Other => Err(ReflectionError::ExpectedString),
                }
            } else {
                Err(ReflectionError::UnexpectedAttribute)
            },
            Meta::List { .. } => Err(ReflectionError::UnexpectedAttribute),
        }
    }
}

/// What a field's annotations from the index `from` on add to `flags`.
pub open spec fn spec_field_attrs(attrs: Seq<Attribute>, from: int, flags: FieldFlags) -> Result<
    FieldFlags,
    ReflectionError,
>
    decreases attrs.len() - from,
{
    if 0 <= from < attrs.len() {
        match spec_field_attr(attrs[from], flags) {
            Ok(next) => spec_field_attrs(attrs, from + 1, next),
            Err(e) => Err(e),
        }
    } else {
        Ok(flags)
    }
}

/// The description of one field.
pub open spec fn spec_parse_field(field: Field) -> Result<SpreadFieldView, ReflectionError> {
    let (is_option, is_name_only) = spec_field_shape(field.ty);
    match spec_field_attrs(field.attrs@, 0, FieldFlags { is_escaped: false, rename: None }) {
        Err(e) => Err(e),
        Ok(flags) => Ok(
            SpreadFieldView {
                rename: flags.rename,
                name: field.ident@,
                is_option,
                is_escaped: flags.is_escaped,
                is_name_only,
            },
        ),
    }
}

/// The descriptions of the fields from the index `from` on.
pub open spec fn spec_parse_fields(fields: Seq<Field>, from: int) -> Result<
    Seq<SpreadFieldView>,
    ReflectionError,
>
    decreases fields.len() - from,
{
    if 0 <= from < fields.len() {
        match spec_parse_field(fields[from]) {
            Err(e) => Err(e),
            Ok(field) => match spec_parse_fields(fields, from + 1) {
                Err(e) => Err(e),
                Ok(rest) => Ok(seq![field] + rest),
            },
        }
    } else {
        Ok(Seq::empty())
    }
}

/// The naming policy: what is put in front of and behind each field's name.
pub struct NamingView {
    pub prefix: Option<Seq<char>>,
    pub suffix: Option<Seq<char>>,
}

/// What a naming annotation changes in `naming`: `prefix` alone sets the default prefix,
/// `prefix = ".."` and `suffix = ".."` set what they name. `None` for any other annotation.
pub open spec fn spec_naming_attr(attr: Attribute, naming: NamingView) -> Option<
    Result<NamingView, ReflectionError>,
> {
    if attr.style != AttrStyle::Outer {
        None
    } else {
        match attr.meta {
            Meta::Path { path } => if path_is(path, "prefix"@) {
                Some(Ok(NamingView { prefix: Some(default_prefix()), suffix: naming.suffix }))
            } else {
                None
            },
            Meta::NameValue { path, value } => if path_is(path, "prefix"@) {
                match value {
                    MetaValue::Str(text) => Some(
                        Ok(NamingView { prefix: Some(text@), suffix: naming.suffix }),
                    ),
                    MetaValue::Other => Some(Err(ReflectionError::ExpectedString)),
                }
            } else if path_is(path, "suffix"@) {
                match value {
                    MetaValue::Str(text) => Some(
                        Ok(NamingView { prefix: naming.prefix, suffix: Some(text@) }),
                    ),
                    MetaValue::Other => Some(Err(ReflectionError::ExpectedString)),
                }
            } else {
                None
            },
            Meta::List { .. } => None,
        }
    }
}

/// The words of a tag list from the index `from` on, its commas passed over; `None`
/// where anything else stands in the list.
pub open spec fn spec_idents(ts: Seq<TokenView>, from: int) -> Option<Seq<Seq<char>>>
    decreases ts.len() - from,
{
    if 0 <= from < ts.len() {
        match ts[from] {
            TokenView::Ident(word) => match spec_idents(ts, from + 1) {
                Some(rest) => Some(seq![word] + rest),
                None => None,
            },
            TokenView::Punct(c, _) => if c == ',' {
                spec_idents(ts, from + 1)
            } else {
                None
            },
            _ => None,
        }
    } else {
        Some(Seq::empty())
    }
}

/// The three tag lists that `tags(..)` may give.
pub struct TagLists {
    pub extra: Option<Seq<Seq<char>>>,
    pub exclude: Option<Seq<Seq<char>>>,
    pub only: Option<Seq<Seq<char>>>,
}

/// Is `t` one of the words that open a tag list?
pub open spec fn is_list_keyword(t: TokenView) -> bool {
    t.is_word(extra_keyword()) || t.is_word("exclude"@) || t.is_word("only"@)
}

/// `lists` with the list that the word `keyword` opens set to `names`.
pub open spec fn with_list(lists: TagLists, keyword: TokenView, names: Seq<Seq<char>>) -> TagLists {
    if keyword.is_word(extra_keyword()) {
        TagLists { extra: Some(names), exclude: lists.exclude, only: lists.only }
    } else if keyword.is_word("exclude"@) {
        TagLists { extra: lists.extra, exclude: Some(names), only: lists.only }
    } else {
        TagLists { extra: lists.extra, exclude: lists.exclude, only: Some(names) }
    }
}

/// The tag lists that the tokens of `tags(..)` give from the index `pos` on, added to
/// `lists`. A word that opens a list is followed by the list in round brackets; a
/// punctuation mark there is passed over.
pub open spec fn spec_tag_lists(ts: Seq<TokenView>, pos: int, lists: TagLists) -> Result<
    TagLists,
    ReflectionError,
>
    decreases ts.len() - pos,
{
    if 0 <= pos < ts.len() {
        if is_list_keyword(ts[pos]) {
            if pos + 1 < ts.len() {
                match ts[pos + 1] {
                    TokenView::Group(d, inner) => if d == Delimiter::Parenthesis {
                        match spec_idents(inner, 0) {
                            Some(names) => spec_tag_lists(
                                ts,
                                pos + 2,
                                with_list(lists, ts[pos], names),
                            ),
                            None => Err(ReflectionError::ExpectedIdents),
                        }
                    } else {
                        Err(ReflectionError::ExpectedTagList)
                    },
                    TokenView::Punct(_, _) => spec_tag_lists(ts, pos + 2, lists),
                    _ => Err(ReflectionError::ExpectedTagList),
                }
            } else {
                Ok(lists)
            }
        } else {
            Err(ReflectionError::ExpectedKeyword)
        }
    } else {
        Ok(lists)
    }
}

/// The tags that `tags(..)` with the tokens `ts` asks for; `None` where it gives no list.
/// `only` stands alone; the other two lists change the standard tags.
pub open spec fn spec_parse_tags(ts: Seq<TokenView>) -> Result<
    Option<ImplTagsView>,
    ReflectionError,
> {
    match spec_tag_lists(ts, 0, TagLists { extra: None, exclude: None, only: None }) {
        Err(e) => Err(e),
        Ok(lists) => match lists.only {
            None => if lists.extra is None && lists.exclude is None {
                Ok(None)
            } else {
                Ok(Some(ImplTagsView::DefaultWith { extra: lists.extra, exclude: lists.exclude }))
            },
            Some(only) => if lists.extra is None && lists.exclude is None {
                Ok(Some(ImplTagsView::Only(only)))
            } else {
                Err(ReflectionError::ConflictingTags)
            },
        },
    }
}

/// What the annotations of a host type have said so far.
pub struct PolicyView {
    pub tags: ImplTagsView,
    pub naming: NamingView,
}

/// What one annotation of the host type changes in `policy`.
pub open spec fn spec_type_attr(attr: Attribute, policy: PolicyView) -> Result<
    PolicyView,
    ReflectionError,
> {
    match spec_naming_attr(attr, policy.naming) {
        Some(Ok(naming)) => Ok(PolicyView { tags: policy.tags, naming }),
        Some(Err(e)) => Err(e),
        None => match attr.meta {
            Meta::List { path, tokens } => if attr.style == AttrStyle::Outer && path_is(
                path,
                "tags"@,
            ) {
                match spec_parse_tags(tokens_view(tokens@)) {
                    Err(e) => Err(e),
                    Ok(None) => Ok(policy),
                    Ok(Some(tags)) => Ok(PolicyView { tags, naming: policy.naming }),
                }
            } else {
                Err(ReflectionError::UnexpectedAttribute)
            },
            _ => Err(ReflectionError::UnexpectedAttribute),
        },
    }
}

/// What the host type's annotations from the index `from` on change in `policy`.
pub open spec fn spec_type_attrs(attrs: Seq<Attribute>, from: int, policy: PolicyView) -> Result<
    PolicyView,
    ReflectionError,
>
    decreases attrs.len() - from,
{
    if 0 <= from < attrs.len() {
        match spec_type_attr(attrs[from], policy) {
            Ok(next) => spec_type_attrs(attrs, from + 1, next),
            Err(e) => Err(e),
        }
    } else {
        Ok(policy)
    }
}

/// What a variant's annotations from the index `from` on change in `naming`. Only naming
/// annotations may stand on a variant.
pub open spec fn spec_variant_attrs(attrs: Seq<Attribute>, from: int, naming: NamingView) -> Result<
    NamingView,
    ReflectionError,
>
    decreases attrs.len() - from,
{
    if 0 <= from < attrs.len() {
        match spec_naming_attr(attrs[from], naming) {
            Some(Ok(next)) => spec_variant_attrs(attrs, from + 1, next),
            Some(Err(e)) => Err(e),
            None => Err(ReflectionError::UnexpectedAttribute),
        }
    } else {
        Ok(naming)
    }
}

/// The block of one variant: the naming of the host type, changed by the variant's own
/// annotations, and the variant's fields.
pub open spec fn spec_parse_variant(variant: Variant, naming: NamingView) -> Result<
    (Seq<char>, SpreadBlockView),
    ReflectionError,
> {
    match spec_variant_attrs(variant.attrs@, 0, naming) {
        Err(e) => Err(e),
        Ok(own) => match variant.fields {
            Fields::Named(fields) => match spec_parse_fields(fields@, 0) {
                Err(e) => Err(e),
                Ok(fields) => Ok(
                    (
                        variant.ident@,
                        SpreadBlockView { prefix: own.prefix, suffix: own.suffix, fields },
                    ),
                ),
            },
            _ => Err(ReflectionError::UnnamedFields),
        },
    }
}

/// The blocks of the variants from the index `from` on.
pub open spec fn spec_parse_variants(variants: Seq<Variant>, from: int, naming: NamingView) -> Result<
    Seq<(Seq<char>, SpreadBlockView)>,
    ReflectionError,
>
    decreases variants.len() - from,
{
    if 0 <= from < variants.len() {
        match spec_parse_variant(variants[from], naming) {
            Err(e) => Err(e),
            Ok(block) => match spec_parse_variants(variants, from + 1, naming) {
                Err(e) => Err(e),
                Ok(rest) => Ok(seq![block] + rest),
            },
        }
    } else {
        Ok(Seq::empty())
    }
}

/// The fields of a host type with the body `data`, under the naming `naming`.
pub open spec fn spec_parse_data(data: Data, naming: NamingView) -> Result<
    SpreadDataView,
    ReflectionError,
> {
    match data {
        Data::Struct(fields) => match fields {
            Fields::Named(fields) => match spec_parse_fields(fields@, 0) {
                Err(e) => Err(e),
                Ok(fields) => Ok(
                    SpreadDataView::Struct(
                        SpreadBlockView { prefix: naming.prefix, suffix: naming.suffix, fields },
                    ),
                ),
            },
            _ => Err(ReflectionError::UnsupportedShape),
        },
        Data::Enum(variants) => match spec_parse_variants(variants@, 0, naming) {
            Err(e) => Err(e),
            Ok(blocks) => Ok(SpreadDataView::Enum(blocks)),
        },
        Data::Union => Err(ReflectionError::UnsupportedShape),
    }
}

/// The policy of a host type without annotations: every standard tag, no prefix, no
/// suffix.
pub open spec fn initial_policy() -> PolicyView {
    PolicyView {
        tags: ImplTagsView::DefaultWith { extra: None, exclude: None },
        naming: NamingView { prefix: None, suffix: None },
    }
}

/// What the deriver knows of the host type `input`, or why it cannot be a bundle.
pub open spec fn spec_parse_input(input: DeriveInput) -> Result<SpreadInputView, ReflectionError> {
    match spec_type_attrs(input.attrs@, 0, initial_policy()) {
        Err(e) => Err(e),
        Ok(policy) => match spec_parse_data(input.data, policy.naming) {
            Err(e) => Err(e),
            Ok(fields) => Ok(
                SpreadInputView {
                    tags: policy.tags,
                    data_id: input.ident@,
                    generics: names_view(input.generics@),
                    fields,
                },
            ),
        },
    }
}

/// The naming policy.
pub struct Naming {
    pub prefix: Option<String>,
    pub suffix: Option<String>,
}

impl View for Naming {
    type V = NamingView;

    open spec fn view(&self) -> NamingView {
        NamingView {
            prefix: optional_text_view(self.prefix),
            suffix: optional_text_view(self.suffix),
        }
    }
}

/// A copy of an optional text.
fn duplicate_text(text: &Option<String>) -> (out: Option<String>)
    ensures
        optional_text_view(out) == optional_text_view(*text),
{
    match text {
        Some(t) => Some(t.clone()),
        None => None,
    }
}

impl Naming {
    /// A copy of this policy.
    fn duplicate(&self) -> (out: Naming)
        ensures
            out@ == self@,
    {
        Naming { prefix: duplicate_text(&self.prefix), suffix: duplicate_text(&self.suffix) }
    }

    /// Applies a naming annotation. `None`, and no change, for any other annotation.
    fn apply(&mut self, attr: &Attribute) -> (out: Option<Result<(), ReflectionError>>)
        ensures
            match spec_naming_attr(*attr, old(self)@) {
                Some(Ok(naming)) => out == Some(Ok::<(), ReflectionError>(())) && final(self)@
                    == naming,
                Some(Err(e)) => out == Some(Err::<(), ReflectionError>(e)),
                None => out is None && final(self)@ == old(self)@,
            },
    {
        match attr.style {
            AttrStyle::Outer => {},
            AttrStyle::Inner => {
                return None;
            },
        }
        match &attr.meta {
            Meta::Path { path } => {
                if path_named(path, "prefix") {
                    self.prefix = Some(String::from_str(crate::spread::DATA_PREFIX));
                    Some(Ok(()))
                } else {
                    None
                }
            },
            Meta::NameValue { path, value } => {
                if path_named(path, "prefix") {
                    match value {
                        MetaValue::Str(text) => {
                            self.prefix = Some(text.clone());
                            Some(Ok(()))
                        },
                        MetaValue::Other => Some(Err(ReflectionError::ExpectedString)),
                    }
                } else if path_named(path, "suffix") {
                    match value {
                        MetaValue::Str(text) => {
                            self.suffix = Some(text.clone());
                            Some(Ok(()))
                        },
                        MetaValue::Other => Some(Err(ReflectionError::ExpectedString)),
                    }
                } else {
                    None
                }
            },
            Meta::List { .. } => None,
        }
    }
}

impl SpreadField {
    /// Reads the description of one field.
    pub fn parse(field: &Field) -> (out: Result<SpreadField, ReflectionError>)
        ensures
            match spec_parse_field(*field) {
                Ok(f) => out matches Ok(x) && x@ == f,
                Err(e) => out == Err::<SpreadField, ReflectionError>(e),
            },
    {
        let (is_option, is_name_only) = if path_named(&field.ty.head, "NameOnly") {
            (false, true)
        } else if path_named(&field.ty.head, "Option") {
            (true, path_named(&field.ty.arg, "NameOnly"))
        } else {
            (false, false)
        };
        let mut is_escaped = false;
        let mut rename: Option<String> = None;
        let mut i: usize = 0;
        while i < field.attrs.len()
            invariant
                i <= field.attrs.len(),
                spec_field_attrs(
                    field.attrs@,
                    0,
                    FieldFlags { is_escaped: false, rename: None },
                ) == spec_field_attrs(
                    field.attrs@,
                    i as int,
                    FieldFlags { is_escaped, rename: optional_text_view(rename) },
                ),
            decreases field.attrs.len() - i,
        {
            let attr = &field.attrs[i];
            match attr.style {
                AttrStyle::Outer => {},
                AttrStyle::Inner => {
                    return Err(ReflectionError::UnexpectedAttribute);
                },
            }
            match &attr.meta {
                Meta::Path { path } => {
                    if path_named(path, "escape_value") {
                        is_escaped = true;
                    } else {
                        return Err(ReflectionError::UnexpectedAttribute);
                    }
                },
                Meta::NameValue { path, value } => {
                    if path_named(path, "rename") {
                        match value {
                            MetaValue::Str(name) => {
                                rename = Some(name.clone());
                            },
                            MetaValue::Other => {
                                return Err(ReflectionError::ExpectedString);
                            },
                        }
                    } else {
                        return Err(ReflectionError::UnexpectedAttribute);
                    }
                },
                Meta::List { .. } => {
                    return Err(ReflectionError::UnexpectedAttribute);
                },
            }
            i += 1;
        }
        Ok(SpreadField { rename, name: field.ident.clone(), is_option, is_escaped, is_name_only })
    }
}

/// `found` put in front of what a continued reading of fields returns.
pub open spec fn with_fields(
    found: Seq<SpreadFieldView>,
    rest: Result<Seq<SpreadFieldView>, ReflectionError>,
) -> Result<Seq<SpreadFieldView>, ReflectionError> {
    match rest {
        Ok(more) => Ok(found + more),
        Err(e) => Err(e),
    }
}

/// Reads the descriptions of all fields.
fn parse_fields(fields: &Vec<Field>) -> (out: Result<Vec<SpreadField>, ReflectionError>)
    ensures
        match spec_parse_fields(fields@, 0) {
            Ok(fs) => out matches Ok(v) && fields_view(v@) == fs,
            Err(e) => out == Err::<Vec<SpreadField>, ReflectionError>(e),
        },
{
    let mut found: Vec<SpreadField> = Vec::new();
    let mut i: usize = 0;
    proof {
        assert(fields_view(found@) =~= Seq::empty());
        match spec_parse_fields(fields@, 0) {
            Ok(more) => {
                assert(Seq::<SpreadFieldView>::empty() + more =~= more);
            },
            Err(_) => {},
        }
    }
    while i < fields.len()
        invariant
            i <= fields.len(),
            spec_parse_fields(fields@, 0) == with_fields(
                fields_view(found@),
                spec_parse_fields(fields@, i as int),
            ),
        decreases fields.len() - i,
    {
        let ghost before = fields_view(found@);
        match SpreadField::parse(&fields[i]) {
            Err(e) => {
                return Err(e);
            },
            Ok(field) => {
                let ghost one = seq![field@];
                found.push(field);
                proof {
                    assert(fields_view(found@) =~= before + one);
                    match spec_parse_fields(fields@, i + 1) {
                        Ok(more) => {
                            assert((before + one) + more =~= before + (one + more));
                        },
                        Err(_) => {},
                    }
                }
            },
        }
        i += 1;
    }
    assert(fields_view(found@) + Seq::<SpreadFieldView>::empty() =~= fields_view(found@));
    Ok(found)
}

/// Reads the words of a tag list.
fn parse_idents(tokens: &Vec<Token>) -> (out: Option<Vec<String>>)
    ensures
        optional_names_view(out) == spec_idents(tokens_view(tokens@), 0),
{
    let ghost ts = tokens_view(tokens@);
    let mut names: Vec<String> = Vec::new();
    let mut i: usize = 0;
    proof {
        assert(names_view(names@) =~= Seq::empty());
        match spec_idents(ts, 0) {
            Some(more) => {
                assert(Seq::<Seq<char>>::empty() + more =~= more);
            },
            None => {},
        }
    }
    while i < tokens.len()
        invariant
            i <= tokens.len(),
            ts == tokens_view(tokens@),
            spec_idents(ts, 0) == match spec_idents(ts, i as int) {
                Some(more) => Some(names_view(names@) + more),
                None => None,
            },
        decreases tokens.len() - i,
    {
        let ghost before = names_view(names@);
        match &tokens[i] {
            Token::Ident(word) => {
                names.push(word.clone());
                proof {
                    let one = seq![word@];
                    assert(names_view(names@) =~= before + one);
                    match spec_idents(ts, i + 1) {
                        Some(more) => {
                            assert((before + one) + more =~= before + (one + more));
                        },
                        None => {},
                    }
                }
            },
            Token::Punct(c, _) => {
                if *c != ',' {
                    return None;
                }
            },
            _ => {
                return None;
            },
        }
        i += 1;
    }
    assert(names_view(names@) + Seq::<Seq<char>>::empty() =~= names_view(names@));
    Some(names)
}

/// Is `t` the word that opens the list of tags to add?
fn is_extra_keyword(t: &Token) -> (out: bool)
    ensures
        out == t@.is_word(extra_keyword()),
{
    match t {
        Token::Ident(word) => {
            let mut keyword = String::new();
            keyword.push('i');
            keyword.push('n');
            keyword.push('c');
            keyword.push('l');
            keyword.push('u');
            keyword.push('d');
            keyword.push('e');
            assert(keyword@ =~= extra_keyword());
            *word == keyword
        },
        _ => false,
    }
}

/// Reads the tokens of `tags(..)`.
fn parse_tags(tokens: &Vec<Token>) -> (out: Result<Option<ImplTags>, ReflectionError>)
    ensures
        match spec_parse_tags(tokens_view(tokens@)) {
            Ok(Some(tags)) => out matches Ok(Some(t)) && t@ == tags,
            Ok(None) => out matches Ok(None),
            Err(e) => out matches Err(x) && x == e,
        },
{
    let ghost ts = tokens_view(tokens@);
    let mut extra: Option<Vec<String>> = None;
    let mut exclude: Option<Vec<String>> = None;
    let mut only: Option<Vec<String>> = None;
    let mut i: usize = 0;
    let count = tokens.len();
    while i < count
        invariant
            i <= count + 1,
            count == tokens.len(),
            ts == tokens_view(tokens@),
            spec_tag_lists(ts, 0, TagLists { extra: None, exclude: None, only: None })
                == spec_tag_lists(
                ts,
                i as int,
                TagLists {
                    extra: optional_names_view(extra),
                    exclude: optional_names_view(exclude),
                    only: optional_names_view(only),
                },
            ),
        decreases count + 1 - i,
    {
        let keyword = &tokens[i];
        let adds = is_extra_keyword(keyword);
        let removes = keyword.is_ident("exclude");
        let limits = keyword.is_ident("only");
        if !adds && !removes && !limits {
            return Err(ReflectionError::ExpectedKeyword);
        }
        if i + 1 >= count {
            i = count;
        } else {
            match &tokens[i + 1] {
                Token::Group(d, inner) => {
                    match d {
                        Delimiter::Parenthesis => {},
                        _ => {
                            return Err(ReflectionError::ExpectedTagList);
                        },
                    }
                    match parse_idents(inner) {
                        None => {
                            return Err(ReflectionError::ExpectedIdents);
                        },
                        Some(names) => {
                            if adds {
                                extra = Some(names);
                            } else if removes {
                                exclude = Some(names);
                            } else {
                                only = Some(names);
                            }
                        },
                    }
                },
                Token::Punct(_, _) => {},
                _ => {
                    return Err(ReflectionError::ExpectedTagList);
                },
            }
            i += 2;
        }
    }
    match only {
        None => {
            if extra.is_none() && exclude.is_none() {
                Ok(None)
            } else {
                Ok(Some(ImplTags::DefaultWith { extra, exclude }))
            }
        },
        Some(list) => {
            if extra.is_none() && exclude.is_none() {
                Ok(Some(ImplTags::Only(list)))
            } else {
                Err(ReflectionError::ConflictingTags)
            }
        },
    }
}

/// Reads one variant.
fn parse_variant(variant: &Variant, naming: &Naming) -> (out: Result<
    (String, SpreadBlock),
    ReflectionError,
>)
    ensures
        match spec_parse_variant(*variant, naming@) {
            Ok((name, block)) => out matches Ok(x) && x.0@ == name && x.1@ == block,
            Err(e) => out matches Err(x) && x == e,
        },
{
    let mut own = naming.duplicate();
    let mut i: usize = 0;
    while i < variant.attrs.len()
        invariant
            i <= variant.attrs.len(),
            spec_variant_attrs(variant.attrs@, 0, naming@) == spec_variant_attrs(
                variant.attrs@,
                i as int,
                own@,
            ),
        decreases variant.attrs.len() - i,
    {
        match own.apply(&variant.attrs[i]) {
            Some(Ok(())) => {},
            Some(Err(e)) => {
                return Err(e);
            },
            None => {
                return Err(ReflectionError::UnexpectedAttribute);
            },
        }
        i += 1;
    }
    match &variant.fields {
        Fields::Named(fields) => match parse_fields(fields) {
            Err(e) => Err(e),
            Ok(fields) => Ok(
                (
                    variant.ident.clone(),
                    SpreadBlock { prefix: own.prefix, suffix: own.suffix, fields },
                ),
            ),
        },
        _ => Err(ReflectionError::UnnamedFields),
    }
}

/// Reads all variants.
fn parse_variants(variants: &Vec<Variant>, naming: &Naming) -> (out: Result<
    Vec<(String, SpreadBlock)>,
    ReflectionError,
>)
    ensures
        match spec_parse_variants(variants@, 0, naming@) {
            Ok(blocks) => out matches Ok(v) && variants_view(v@) == blocks,
            Err(e) => out matches Err(x) && x == e,
        },
{
    let mut found: Vec<(String, SpreadBlock)> = Vec::new();
    let mut i: usize = 0;
    proof {
        assert(variants_view(found@) =~= Seq::empty());
        match spec_parse_variants(variants@, 0, naming@) {
            Ok(more) => {
                assert(Seq::<(Seq<char>, SpreadBlockView)>::empty() + more =~= more);
            },
            Err(_) => {},
        }
    }
    while i < variants.len()
        invariant
            i <= variants.len(),
            spec_parse_variants(variants@, 0, naming@) == match spec_parse_variants(
                variants@,
                i as int,
                naming@,
            ) {
                Ok(more) => Ok(variants_view(found@) + more),
                Err(e) => Err(e),
            },
        decreases variants.len() - i,
    {
        let ghost before = variants_view(found@);
        match parse_variant(&variants[i], naming) {
            Err(e) => {
                return Err(e);
            },
            Ok(block) => {
                let ghost one = seq![(block.0@, block.1@)];
                found.push(block);
                proof {
                    assert(variants_view(found@) =~= before + one);
                    match spec_parse_variants(variants@, i + 1, naming@) {
                        Ok(more) => {
                            assert((before + one) + more =~= before + (one + more));
                        },
                        Err(_) => {},
                    }
                }
            },
        }
        i += 1;
    }
    assert(variants_view(found@) + Seq::<(Seq<char>, SpreadBlockView)>::empty() =~= variants_view(
        found@,
    ));
    Ok(found)
}

impl SpreadInput {
    /// Reads the description of a host type: its annotations, then its fields.
    pub fn parse(input: DeriveInput) -> (out: Result<SpreadInput, ReflectionError>)
        ensures
            match spec_parse_input(input) {
                Ok(parsed) => out matches Ok(x) && x@ == parsed,
                Err(e) => out matches Err(x) && x == e,
            },
    {
        let mut tags = ImplTags::DefaultWith { extra: None, exclude: None };
        let mut naming = Naming { prefix: None, suffix: None };
        let mut i: usize = 0;
        while i < input.attrs.len()
            invariant
                i <= input.attrs.len(),
                spec_type_attrs(input.attrs@, 0, initial_policy()) == spec_type_attrs(
                    input.attrs@,
                    i as int,
                    PolicyView { tags: tags@, naming: naming@ },
                ),
            decreases input.attrs.len() - i,
        {
            let attr = &input.attrs[i];
            match naming.apply(attr) {
                Some(Ok(())) => {},
                Some(Err(e)) => {
                    return Err(e);
                },
                None => {
                    let outer = match attr.style {
                        AttrStyle::Outer => true,
                        AttrStyle::Inner => false,
                    };
                    match &attr.meta {
                        Meta::List { path, tokens } => {
                            if outer && path_named(path, "tags") {
                                match parse_tags(tokens) {
                                    Err(e) => {
                                        return Err(e);
                                    },
                                    Ok(None) => {},
                                    Ok(Some(given)) => {
                                        tags = given;
                                    },
                                }
                            } else {
                                return Err(ReflectionError::UnexpectedAttribute);
                            }
                        },
                        _ => {
                            return Err(ReflectionError::UnexpectedAttribute);
                        },
                    }
                },
            }
            i += 1;
        }
        let fields = match &input.data {
            Data::Struct(fields) => match fields {
                Fields::Named(fields) => match parse_fields(fields) {
                    Err(e) => {
                        return Err(e);
                    },
                    Ok(fields) => SpreadData::Struct(
                        SpreadBlock { prefix: naming.prefix, suffix: naming.suffix, fields },
                    ),
                },
                _ => {
                    return Err(ReflectionError::UnsupportedShape);
                },
            },
            Data::Enum(variants) => match parse_variants(variants, &naming) {
                Err(e) => {
                    return Err(e);
                },
                Ok(blocks) => SpreadData::Enum(blocks),
            },
            Data::Union => {
                return Err(ReflectionError::UnsupportedShape);
            },
        };
        Ok(
            SpreadInput {
                tags,
                data_id: input.ident.clone(),
                generics: crate::spread::syntax::duplicate_names(&input.generics),
                fields,
            },
        )
    }
}

/// Does the annotation set a prefix?
pub open spec fn sets_prefix(attr: Attribute) -> bool {
    spec_naming_attr(attr, NamingView { prefix: None, suffix: None }) matches Some(Ok(naming))
        && naming.prefix is Some
}

/// Does the annotation set a suffix?
pub open spec fn sets_suffix(attr: Attribute) -> bool {
    spec_naming_attr(attr, NamingView { prefix: None, suffix: None }) matches Some(Ok(naming))
        && naming.suffix is Some
}

/// Whether the annotations of a variant are accepted does not depend on the naming of
/// the host type, and where two namings agree on the prefix, or on the suffix, they
/// still agree on it behind the variant's annotations.
pub proof fn lemma_variant_attrs_agree(
    attrs: Seq<Attribute>,
    from: int,
    first: NamingView,
    second: NamingView,
)
    requires
        0 <= from <= attrs.len(),
    ensures
        spec_variant_attrs(attrs, from, first) is Ok <==> spec_variant_attrs(
            attrs,
            from,
            second,
        ) is Ok,
        spec_variant_attrs(attrs, from, first) matches Err(e) ==> spec_variant_attrs(
            attrs,
            from,
            second,
        ) == Err::<NamingView, ReflectionError>(e),
        spec_variant_attrs(attrs, from, first) is Ok && first.prefix == second.prefix
            ==> spec_variant_attrs(attrs, from, first)->Ok_0.prefix == spec_variant_attrs(
            attrs,
            from,
            second,
        )->Ok_0.prefix,
        spec_variant_attrs(attrs, from, first) is Ok && first.suffix == second.suffix
            ==> spec_variant_attrs(attrs, from, first)->Ok_0.suffix == spec_variant_attrs(
            attrs,
            from,
            second,
        )->Ok_0.suffix,
    decreases attrs.len() - from,
{
    if from < attrs.len() {
        match (spec_naming_attr(attrs[from], first), spec_naming_attr(attrs[from], second)) {
            (Some(Ok(a)), Some(Ok(b))) => {
                lemma_variant_attrs_agree(attrs, from + 1, a, b);
            },
            _ => {},
        }
    }
}

/// A prefix set on a variant overrides that of the host type: where an annotation of the
/// variant sets a prefix, the variant's prefix is the same whatever the host type's naming
/// is.
pub proof fn lemma_variant_prefix_wins(
    attrs: Seq<Attribute>,
    from: int,
    first: NamingView,
    second: NamingView,
)
    requires
        0 <= from <= attrs.len(),
        exists|i: int| from <= i < attrs.len() && sets_prefix(#[trigger] attrs[i]),
        spec_variant_attrs(attrs, from, first) is Ok,
    ensures
        spec_variant_attrs(attrs, from, second) is Ok,
        spec_variant_attrs(attrs, from, first)->Ok_0.prefix == spec_variant_attrs(
            attrs,
            from,
            second,
        )->Ok_0.prefix,
    decreases attrs.len() - from,
{
    let i = choose|i: int| from <= i < attrs.len() && sets_prefix(#[trigger] attrs[i]);
    match (spec_naming_attr(attrs[from], first), spec_naming_attr(attrs[from], second)) {
        (Some(Ok(a)), Some(Ok(b))) => {
            if sets_prefix(attrs[from]) {
                lemma_variant_attrs_agree(attrs, from + 1, a, b);
            } else {
                assert(i > from);
                lemma_variant_prefix_wins(attrs, from + 1, a, b);
            }
        },
        _ => {},
    }
}

/// A suffix set on a variant overrides that of the host type.
pub proof fn lemma_variant_suffix_wins(
    attrs: Seq<Attribute>,
    from: int,
    first: NamingView,
    second: NamingView,
)
    requires
        0 <= from <= attrs.len(),
        exists|i: int| from <= i < attrs.len() && sets_suffix(#[trigger] attrs[i]),
        spec_variant_attrs(attrs, from, first) is Ok,
    ensures
        spec_variant_attrs(attrs, from, second) is Ok,
        spec_variant_attrs(attrs, from, first)->Ok_0.suffix == spec_variant_attrs(
            attrs,
            from,
            second,
        )->Ok_0.suffix,
    decreases attrs.len() - from,
{
    let i = choose|i: int| from <= i < attrs.len() && sets_suffix(#[trigger] attrs[i]);
    match (spec_naming_attr(attrs[from], first), spec_naming_attr(attrs[from], second)) {
        (Some(Ok(a)), Some(Ok(b))) => {
            if sets_suffix(attrs[from]) {
                lemma_variant_attrs_agree(attrs, from + 1, a, b);
            } else {
                assert(i > from);
                lemma_variant_suffix_wins(attrs, from + 1, a, b);
            }
        },
        _ => {},
    }
}

/// A variant without annotations has the naming of the host type.
pub proof fn lemma_variant_inherits_naming(attrs: Seq<Attribute>, naming: NamingView)
    requires
        attrs.len() == 0,
    ensures
        spec_variant_attrs(attrs, 0, naming) == Ok::<NamingView, ReflectionError>(naming),
{
}

} // verus!
