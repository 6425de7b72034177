//! The simplest deriver: every field of a struct as `name="value"`, each followed by a
//! space.

use crate::derive::{
    find_named, find_prefix, first_named, first_prefix, plain_fields, spec_plain_fields, EmbedImpl,
    EmbedImplView,
};
use crate::spread::generate::{attribute_name, spread_pieces_view, SpreadPiece, SpreadPieceView};
use crate::spread::input::{Data, DeriveInput, Fields};
use crate::spread::parse::ReflectionError;
use crate::spread::syntax::{
    duplicate_names, fields_view, names_view, optional_text_view, SpreadFieldView,
};
use vstd::prelude::*;
use vstd::string::*;

verus! {

/// The template pieces of one field: its attribute name and `="`, its value, and `"`
/// with a space behind it.
pub open spec fn spec_spaced_field(
    field: SpreadFieldView,
    prefix: Option<Seq<char>>,
    suffix: Option<Seq<char>>,
) -> Seq<SpreadPieceView> {
    seq![
        SpreadPieceView::Text(attribute_name(field, prefix, suffix) + seq!['=', '"']),
        SpreadPieceView::Value { field: field.name, escaped: field.is_escaped },
        SpreadPieceView::Text(seq!['"', ' ']),
    ]
}

/// The template pieces of the first `count` fields.
pub open spec fn spec_spaced_fields(
    fields: Seq<SpreadFieldView>,
    count: int,
    prefix: Option<Seq<char>>,
    suffix: Option<Seq<char>>,
) -> Seq<SpreadPieceView>
    decreases count,
{
    if 0 < count <= fields.len() {
        spec_spaced_fields(fields, count - 1, prefix, suffix) + spec_spaced_field(
            fields[count - 1],
            prefix,
            suffix,
        )
    } else {
        Seq::empty()
    }
}

/// What is generated for the host type `input`: for a struct with named fields, a space
/// and then the pieces of its fields, under the first prefix and the first suffix that
/// its annotations set. Any other host type is refused.
pub open spec fn spec_expand(input: DeriveInput) -> Result<EmbedImplView, ReflectionError> {
    match input.data {
        Data::Struct(Fields::Named(fields)) => {
            let described = spec_plain_fields(fields@);
            Ok(
                EmbedImplView {
                    data_id: input.ident@,
                    generics: names_view(input.generics@),
                    tags: None,
                    pieces: seq![SpreadPieceView::Text(seq![' '])] + spec_spaced_fields(
                        described,
                        described.len() as int,
                        first_prefix(input.attrs@, 0),
                        first_named(input.attrs@, "suffix"@, 0),
                    ),
                },
            )
        },
        _ => Err(ReflectionError::UnsupportedShape),
    }
}

/// Generates the serialization for a struct with named fields.
pub fn expand_embed_as_attrs(input: &DeriveInput) -> (out: Result<EmbedImpl, ReflectionError>)
    ensures
        match spec_expand(*input) {
            Ok(expanded) => out matches Ok(x) && x@ == expanded,
            Err(e) => out matches Err(x) && x == e,
        },
{
    let fields = match &input.data {
        Data::Struct(Fields::Named(fields)) => fields,
        _ => {
            return Err(ReflectionError::UnsupportedShape);
        },
    };
    let prefix = find_prefix(&input.attrs);
    let suffix = find_named(&input.attrs, "suffix");
    let described = plain_fields(fields);
    let ghost all = fields_view(described@);
    let ghost first = seq![SpreadPieceView::Text(seq![' '])];
    let mut pieces: Vec<SpreadPiece> = Vec::new();
    let mut space = String::new();
    space.push(' ');
    assert(space@ =~= seq![' ']);
    pieces.push(SpreadPiece::Text(space));
    assert(spread_pieces_view(pieces@) =~= first + spec_spaced_fields(
        all,
        0,
        optional_text_view(prefix),
        optional_text_view(suffix),
    ));
    let mut i: usize = 0;
    while i < described.len()
        invariant
            i <= described.len(),
            all == fields_view(described@),
            spread_pieces_view(pieces@) == first + spec_spaced_fields(
                all,
                i as int,
                optional_text_view(prefix),
                optional_text_view(suffix),
            ),
        decreases described.len() - i,
    {
        let ghost before = spread_pieces_view(pieces@);
        let field = &described[i];
        let mut head = field.attribute_name(&prefix, &suffix);
        head.push('=');
        head.push('"');
        assert(head@ =~= attribute_name(
            all[i as int],
            optional_text_view(prefix),
            optional_text_view(suffix),
        ) + seq!['=', '"']);
        pieces.push(SpreadPiece::Text(head));
        pieces.push(SpreadPiece::Value { field: field.name.clone(), escaped: field.is_escaped });
        let mut tail = String::new();
        tail.push('"');
        tail.push(' ');
        assert(tail@ =~= seq!['"', ' ']);
        pieces.push(SpreadPiece::Text(tail));
        proof {
            let step = spec_spaced_field(
                all[i as int],
                optional_text_view(prefix),
                optional_text_view(suffix),
            );
            assert(spread_pieces_view(pieces@) =~= before + step);
            assert((first + spec_spaced_fields(
                all,
                i as int,
                optional_text_view(prefix),
                optional_text_view(suffix),
            )) + step =~= first + spec_spaced_fields(
                all,
                i + 1,
                optional_text_view(prefix),
                optional_text_view(suffix),
            ));
        }
        i += 1;
    }
    Ok(
        EmbedImpl {
            data_id: input.ident.clone(),
            generics: duplicate_names(&input.generics),
            tags: None,
            pieces,
        },
    )
}

} // verus!
