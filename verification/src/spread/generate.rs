//! Generating the serialization of a bundle, and running it on a host value.

use crate::escape::escaped;
use crate::render::Value;
use crate::spread::syntax::{
    fields_view, names_view, variants_view, ImplTags, ImplTagsView, SpreadBlock, SpreadBlockView,
    SpreadData, SpreadDataView, SpreadField, SpreadFieldView, SpreadInput, SpreadInputView,
};
use crate::text::{doubled_braces, push_doubled};

use vstd::prelude::*;
use vstd::string::*;

verus! {

/// One piece of the template that serializes a block of fields.
#[derive(Debug, PartialEq, Eq)]
#[allow(inconsistent_fields)]
pub enum SpreadPiece {
    /// Fixed text.
    Text(String),
    /// The value of the field `field`, escaped if `escaped`.
    Value { field: String, escaped: bool },
    /// Where the optional field `field` is present: a space, `name`, and its value in
    /// quotes behind `=`; nothing where it is absent.
    Optional { field: String, name: String, escaped: bool },
    /// Where the optional field `field` is present: a space and `name`; nothing where
    /// it is absent.
    Flag { field: String, name: String },
}

#[allow(inconsistent_fields)]
pub enum SpreadPieceView {
    Text(Seq<char>),
    Value { field: Seq<char>, escaped: bool },
    Optional { field: Seq<char>, name: Seq<char>, escaped: bool },
    Flag { field: Seq<char>, name: Seq<char> },
}

impl View for SpreadPiece {
    type V = SpreadPieceView;

    open spec fn view(&self) -> SpreadPieceView {
        match self {
            SpreadPiece::Text(text) => SpreadPieceView::Text(text@),
            SpreadPiece::Value { field, escaped } => SpreadPieceView::Value {
                field: field@,
                escaped: *escaped,
            },
            SpreadPiece::Optional { field, name, escaped } => SpreadPieceView::Optional {
                field: field@,
                name: name@,
                escaped: *escaped,
            },
            SpreadPiece::Flag { field, name } => SpreadPieceView::Flag { field: field@, name: name@ },
        }
    }
}

/// The views of a sequence of pieces.
pub open spec fn spread_pieces_view(pieces: Seq<SpreadPiece>) -> Seq<SpreadPieceView> {
    Seq::new(pieces.len(), |i: int| pieces[i]@)
}

/// The field's name with the prefix in front of it and the suffix behind it, each joined
/// by a hyphen, as far as they are given.
pub open spec fn composed_name(
    name: Seq<char>,
    prefix: Option<Seq<char>>,
    suffix: Option<Seq<char>>,
) -> Seq<char> {
    let front = match prefix {
        Some(p) => p + seq!['-'] + name,
        None => name,
    };
    match suffix {
        Some(s) => front + seq!['-'] + s,
        None => front,
    }
}

/// The name of the attribute that a field becomes: the name it was given by `rename`, or
/// else its own name with the prefix and the suffix in force.
pub open spec fn attribute_name(
    field: SpreadFieldView,
    prefix: Option<Seq<char>>,
    suffix: Option<Seq<char>>,
) -> Seq<char> {
    match field.rename {
        Some(name) => name,
        None => composed_name(field.name, prefix, suffix),
    }
}

/// The template pieces of one field.
pub open spec fn spec_field_pieces(
    field: SpreadFieldView,
    prefix: Option<Seq<char>>,
    suffix: Option<Seq<char>>,
) -> Seq<SpreadPieceView> {
    let name = attribute_name(field, prefix, suffix);
    if field.is_option {
        if field.is_name_only {
            seq![SpreadPieceView::Flag { field: field.name, name }]
        } else {
            seq![SpreadPieceView::Optional { field: field.name, name, escaped: field.is_escaped }]
        }
    } else if field.is_name_only {
        seq![SpreadPieceView::Text(seq![' '] + name)]
    } else {
        seq![
            SpreadPieceView::Text(seq![' '] + name + seq!['=', '"']),
            SpreadPieceView::Value { field: field.name, escaped: field.is_escaped },
            SpreadPieceView::Text(seq!['"']),
        ]
    }
}

/// The template pieces of the first `count` fields of a block, in the order of the
/// fields.
pub open spec fn spec_fields_pieces(
    fields: Seq<SpreadFieldView>,
    count: int,
    prefix: Option<Seq<char>>,
    suffix: Option<Seq<char>>,
) -> Seq<SpreadPieceView>
    decreases count,
{
    if 0 < count <= fields.len() {
        spec_fields_pieces(fields, count - 1, prefix, suffix) + spec_field_pieces(
            fields[count - 1],
            prefix,
            suffix,
        )
    } else {
        Seq::empty()
    }
}

/// The template that serializes a block.
pub open spec fn spec_block_pieces(block: SpreadBlockView) -> Seq<SpreadPieceView> {
    spec_fields_pieces(block.fields, block.fields.len() as int, block.prefix, block.suffix)
}

/// The serialization of a host type: one template for a struct, one for each variant of
/// an enum.
#[derive(Debug, PartialEq, Eq)]
pub enum RawBody {
    Struct(Vec<SpreadPiece>),
    Enum(Vec<(String, Vec<SpreadPiece>)>),
}

pub enum RawBodyView {
    Struct(Seq<SpreadPieceView>),
    Enum(Seq<(Seq<char>, Seq<SpreadPieceView>)>),
}

/// The views of the templates of an enum's variants.
pub open spec fn variant_pieces_view(variants: Seq<(String, Vec<SpreadPiece>)>) -> Seq<
    (Seq<char>, Seq<SpreadPieceView>),
> {
    Seq::new(variants.len(), |i: int| (variants[i].0@, spread_pieces_view(variants[i].1@)))
}

impl View for RawBody {
    type V = RawBodyView;

    open spec fn view(&self) -> RawBodyView {
        match self {
            RawBody::Struct(pieces) => RawBodyView::Struct(spread_pieces_view(pieces@)),
            RawBody::Enum(variants) => RawBodyView::Enum(variant_pieces_view(variants@)),
        }
    }
}

/// What the deriver generates for a host type.
#[derive(Debug, PartialEq, Eq)]
pub struct SpreadImpl {
    /// The name of the host type.
    pub data_id: String,
    /// The name of the type that carries the accessors, one for each allowed tag.
    pub tag_wrapper: String,
    /// The type parameters that have to have a textual form.
    pub generics: Vec<String>,
    /// The tags that have an accessor.
    pub tags: ImplTags,
    /// The serialization.
    pub body: RawBody,
}

pub struct SpreadImplView {
    pub data_id: Seq<char>,
    pub tag_wrapper: Seq<char>,
    pub generics: Seq<Seq<char>>,
    pub tags: ImplTagsView,
    pub body: RawBodyView,
}

impl View for SpreadImpl {
    type V = SpreadImplView;

    open spec fn view(&self) -> SpreadImplView {
        SpreadImplView {
            data_id: self.data_id@,
            tag_wrapper: self.tag_wrapper@,
            generics: names_view(self.generics@),
            tags: self.tags@,
            body: self.body@,
        }
    }
}

/// The templates of the variants of an enum.
pub open spec fn spec_variant_bodies(variants: Seq<(Seq<char>, SpreadBlockView)>) -> Seq<
    (Seq<char>, Seq<SpreadPieceView>),
> {
    Seq::new(variants.len(), |i: int| (variants[i].0, spec_block_pieces(variants[i].1)))
}

/// What is generated for the host type described by `input`.
pub open spec fn spec_generate(input: SpreadInputView) -> SpreadImplView {
    SpreadImplView {
        data_id: input.data_id,
        tag_wrapper: input.data_id + "Tags"@,
        generics: input.generics,
        tags: input.tags,
        body: match input.fields {
            SpreadDataView::Struct(block) => RawBodyView::Struct(spec_block_pieces(block)),
            SpreadDataView::Enum(variants) => RawBodyView::Enum(spec_variant_bodies(variants)),
        },
    }
}

impl SpreadField {
    /// The name of the attribute that this field becomes under the given prefix and
    /// suffix.
    pub fn attribute_name(&self, prefix: &Option<String>, suffix: &Option<String>) -> (out: String)
        ensures
            out@ == attribute_name(
                self@,
                crate::spread::syntax::optional_text_view(*prefix),
                crate::spread::syntax::optional_text_view(*suffix),
            ),
    {
        match &self.rename {
            Some(name) => name.clone(),
            None => {
                let mut out = String::new();
                match prefix {
                    Some(p) => {
                        out.append(p.as_str());
                        out.push('-');
                    },
                    None => {},
                }
                out.append(self.name.as_str());
                match suffix {
                    Some(s) => {
                        out.push('-');
                        out.append(s.as_str());
                    },
                    None => {},
                }
                assert(out@ =~= composed_name(
                    self.name@,
                    crate::spread::syntax::optional_text_view(*prefix),
                    crate::spread::syntax::optional_text_view(*suffix),
                ));
                out
            },
        }
    }
}

impl SpreadBlock {
    /// The template that serializes this block.
    pub fn generate_tokens(&self) -> (out: Vec<SpreadPiece>)
        ensures
            spread_pieces_view(out@) == spec_block_pieces(self@),
    {
        let ghost fields = fields_view(self.fields@);
        let ghost prefix = crate::spread::syntax::optional_text_view(self.prefix);
        let ghost suffix = crate::spread::syntax::optional_text_view(self.suffix);
        let mut out: Vec<SpreadPiece> = Vec::new();
        let mut i: usize = 0;
        assert(spread_pieces_view(out@) =~= Seq::empty());
        while i < self.fields.len()
            invariant
                i <= self.fields.len(),
                fields == fields_view(self.fields@),
                prefix == crate::spread::syntax::optional_text_view(self.prefix),
                suffix == crate::spread::syntax::optional_text_view(self.suffix),
                spread_pieces_view(out@) == spec_fields_pieces(fields, i as int, prefix, suffix),
            decreases self.fields.len() - i,
        {
            let ghost before = spread_pieces_view(out@);
            let field = &self.fields[i];
            let name = field.attribute_name(&self.prefix, &self.suffix);
            if field.is_option {
                if field.is_name_only {
                    out.push(SpreadPiece::Flag { field: field.name.clone(), name });
                } else {
                    out.push(
                        SpreadPiece::Optional {
                            field: field.name.clone(),
                            name,
                            escaped: field.is_escaped,
                        },
                    );
                }
            } else if field.is_name_only {
                let mut text = String::new();
                text.push(' ');
                text.append(name.as_str());
                assert(text@ =~= seq![' '] + name@);
                out.push(SpreadPiece::Text(text));
            } else {
                let mut head = String::new();
                head.push(' ');
                head.append(name.as_str());
                head.push('=');
                head.push('"');
                assert(head@ =~= seq![' '] + name@ + seq!['=', '"']);
                out.push(SpreadPiece::Text(head));
                out.push(
                    SpreadPiece::Value { field: field.name.clone(), escaped: field.is_escaped },
                );
                let mut tail = String::new();
                tail.push('"');
                assert(tail@ =~= seq!['"']);
                out.push(SpreadPiece::Text(tail));
            }
            assert(spread_pieces_view(out@) =~= before + spec_field_pieces(
                fields[i as int],
                prefix,
                suffix,
            ));
            i += 1;
        }
        out
    }
}

/// Generates the serialization for a host type.
pub fn generate_spread_impl(input: SpreadInput) -> (out: SpreadImpl)
    ensures
        out@ == spec_generate(input@),
{
    let mut tag_wrapper = input.data_id.clone();
    tag_wrapper.append("Tags");
    let body = match &input.fields {
        SpreadData::Struct(block) => RawBody::Struct(block.generate_tokens()),
        SpreadData::Enum(variants) => {
            let mut bodies: Vec<(String, Vec<SpreadPiece>)> = Vec::new();
            let mut i: usize = 0;
            while i < variants.len()
                invariant
                    i <= variants.len(),
                    bodies.len() == i,
                    forall|k: int|
                        0 <= k < i ==> bodies[k].0@ == variants[k].0@ && spread_pieces_view(
                            bodies[k].1@,
                        ) == spec_block_pieces(variants[k].1@),
                decreases variants.len() - i,
            {
                let variant = &variants[i];
                bodies.push((variant.0.clone(), variant.1.generate_tokens()));
                i += 1;
            }
            assert(variant_pieces_view(bodies@) =~= spec_variant_bodies(variants_view(variants@)));
            RawBody::Enum(bodies)
        },
    };
    SpreadImpl {
        data_id: input.data_id,
        tag_wrapper,
        generics: input.generics,
        tags: input.tags,
        body,
    }
}

/// The order in which an attribute gets its name: the name given by `rename` comes
/// first; without it the field's own name is used, with the prefix and the suffix in
/// force; without those the field's own name stands alone.
pub proof fn lemma_name_precedence(
    field: SpreadFieldView,
    prefix: Option<Seq<char>>,
    suffix: Option<Seq<char>>,
)
    ensures
        field.rename matches Some(name) ==> attribute_name(field, prefix, suffix) == name,
        field.rename is None ==> attribute_name(field, prefix, suffix) == composed_name(
            field.name,
            prefix,
            suffix,
        ),
        field.rename is None && prefix is None && suffix is None ==> attribute_name(
            field,
            prefix,
            suffix,
        ) == field.name,
        field.rename is None && prefix is Some && suffix is None ==> attribute_name(
            field,
            prefix,
            suffix,
        ) == prefix->Some_0 + seq!['-'] + field.name,
        field.rename is None && prefix is None && suffix is Some ==> attribute_name(
            field,
            prefix,
            suffix,
        ) == field.name + seq!['-'] + suffix->Some_0,
{
}

/// The format template of the first `count` pieces: the fixed text with its braces
/// doubled, and `{}` for each piece that is filled from a field.
pub open spec fn spec_format_string(pieces: Seq<SpreadPieceView>, count: int) -> Seq<char>
    decreases count,
{
    if 0 < count <= pieces.len() {
        spec_format_string(pieces, count - 1) + match pieces[count - 1] {
            SpreadPieceView::Text(text) => doubled_braces(text),
            _ => seq!['{', '}'],
        }
    } else {
        Seq::empty()
    }
}

/// The format template of a serialization, for generated code.
pub fn format_string(pieces: &Vec<SpreadPiece>) -> (out: String)
    ensures
        out@ == spec_format_string(spread_pieces_view(pieces@), pieces.len() as int),
{
    let ghost all = spread_pieces_view(pieces@);
    let mut out = String::new();
    let mut i: usize = 0;
    while i < pieces.len()
        invariant
            i <= pieces.len(),
            all == spread_pieces_view(pieces@),
            out@ == spec_format_string(all, i as int),
        decreases pieces.len() - i,
    {
        match &pieces[i] {
            SpreadPiece::Text(text) => {
                push_doubled(text.as_str(), &mut out);
            },
            _ => {
                out.push('{');
                out.push('}');
                assert(out@ =~= spec_format_string(all, i as int) + seq!['{', '}']);
            },
        }
        i += 1;
    }
    out
}

} // verus!
