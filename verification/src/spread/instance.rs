//! Running a generated serialization on the fields of one host value.

use crate::escape::{escape_to_string, escaped};
use crate::render::named_value;
use crate::spread::generate::{
    spread_pieces_view, variant_pieces_view, RawBody, RawBodyView, SpreadImpl, SpreadPiece,
    SpreadPieceView,
};
use crate::types::attrs::{Bundle, BundleView};
use vstd::prelude::*;
use vstd::string::*;

verus! {

/// The value of one field of a host value.
#[derive(Debug, PartialEq, Eq)]
pub enum FieldValue {
    /// A value, by its textual form.
    Text(String),
    /// The value of a field that stands for a bare attribute.
    Unit,
    /// An optional field without a value.
    Absent,
}

pub enum FieldValueView {
    Text(Seq<char>),
    Unit,
    Absent,
}

impl View for FieldValue {
    type V = FieldValueView;

    open spec fn view(&self) -> FieldValueView {
        match self {
            FieldValue::Text(text) => FieldValueView::Text(text@),
            FieldValue::Unit => FieldValueView::Unit,
            FieldValue::Absent => FieldValueView::Absent,
        }
    }
}

/// One host value: the variant it is of, for an enum, and its fields by name.
#[derive(Debug, PartialEq, Eq)]
pub struct Instance {
    pub variant: Option<String>,
    pub fields: Vec<(String, FieldValue)>,
}

/// The views of the fields of a host value.
pub open spec fn values_view(fields: Seq<(String, FieldValue)>) -> Seq<(Seq<char>, FieldValueView)> {
    Seq::new(fields.len(), |i: int| (fields[i].0@, fields[i].1@))
}

/// Why a host value could not be serialized.
#[derive(Clone, Copy, Debug, PartialEq, Eq, Structural)]
pub enum SpreadError {
    /// The value lacks a field that the serialization reads.
    MissingField,
    /// A field holds a value of a kind that the field's description does not allow.
    Mismatch,
    /// The value is of no variant that the serialization knows.
    UnknownVariant,
}

/// The value of the first field from the index `from` on that has the name `name`.
pub open spec fn field_value(
    fields: Seq<(Seq<char>, FieldValueView)>,
    name: Seq<char>,
    from: int,
) -> Option<FieldValueView>
    decreases fields.len() - from,
{
    if 0 <= from < fields.len() {
        if fields[from].0 == name {
            Some(fields[from].1)
        } else {
            field_value(fields, name, from + 1)
        }
    } else {
        None
    }
}

/// A field's text as it is put out: escaped where the field asks for that.
pub open spec fn shown(text: Seq<char>, escape: bool) -> Seq<char> {
    if escape {
        escaped(text)
    } else {
        text
    }
}

/// The text of one template piece for a host value with the fields `fields`.
pub open spec fn spread_piece_text(
    piece: SpreadPieceView,
    fields: Seq<(Seq<char>, FieldValueView)>,
) -> Result<Seq<char>, SpreadError> {
    match piece {
        SpreadPieceView::Text(text) => Ok(text),
        SpreadPieceView::Value { field, escaped } => match field_value(fields, field, 0) {
            None => Err(SpreadError::MissingField),
            Some(FieldValueView::Text(text)) => Ok(shown(text, escaped)),
            Some(_) => Err(SpreadError::Mismatch),
        },
        SpreadPieceView::Optional { field, name, escaped } => match field_value(fields, field, 0) {
            None => Err(SpreadError::MissingField),
            Some(FieldValueView::Absent) => Ok(Seq::empty()),
            Some(FieldValueView::Text(text)) => Ok(named_value(name, shown(text, escaped))),
            Some(FieldValueView::Unit) => Err(SpreadError::Mismatch),
        },
        SpreadPieceView::Flag { field, name } => match field_value(fields, field, 0) {
            None => Err(SpreadError::MissingField),
            Some(FieldValueView::Absent) => Ok(Seq::empty()),
            Some(_) => Ok(seq![' '] + name),
        },
    }
}

/// The text of the template pieces from the index `from` on.
pub open spec fn spec_raw_pieces(
    pieces: Seq<SpreadPieceView>,
    from: int,
    fields: Seq<(Seq<char>, FieldValueView)>,
) -> Result<Seq<char>, SpreadError>
    decreases pieces.len() - from,
{
    if 0 <= from < pieces.len() {
        match spread_piece_text(pieces[from], fields) {
            Err(e) => Err(e),
            Ok(text) => match spec_raw_pieces(pieces, from + 1, fields) {
                Err(e) => Err(e),
                Ok(rest) => Ok(text + rest),
            },
        }
    } else {
        Ok(Seq::empty())
    }
}

/// The index of the first variant from `from` on that has the name `name`; the number of
/// variants if there is none.
pub open spec fn find_variant(
    variants: Seq<(Seq<char>, Seq<SpreadPieceView>)>,
    name: Seq<char>,
    from: int,
) -> int
    decreases variants.len() - from,
{
    if 0 <= from < variants.len() {
        if variants[from].0 == name {
            from
        } else {
            find_variant(variants, name, from + 1)
        }
    } else {
        variants.len() as int
    }
}

/// The attributes of a host value, serialized: for a struct by its one template, for an
/// enum by the template of the value's variant.
pub open spec fn spec_raw(
    body: RawBodyView,
    variant: Option<Seq<char>>,
    fields: Seq<(Seq<char>, FieldValueView)>,
) -> Result<Seq<char>, SpreadError> {
    match body {
        RawBodyView::Struct(pieces) => spec_raw_pieces(pieces, 0, fields),
        RawBodyView::Enum(variants) => match variant {
            None => Err(SpreadError::UnknownVariant),
            Some(name) => {
                let i = find_variant(variants, name, 0);
                if 0 <= i < variants.len() {
                    spec_raw_pieces(variants[i].1, 0, fields)
                } else {
                    Err(SpreadError::UnknownVariant)
                }
            },
        },
    }
}

impl Instance {
    /// The value of the field `name`.
    pub fn get(&self, name: &str) -> (out: Option<&FieldValue>)
        ensures
            match out {
                Some(v) => field_value(values_view(self.fields@), name@, 0) == Some(v@),
                None => field_value(values_view(self.fields@), name@, 0) is None,
            },
    {
        let ghost all = values_view(self.fields@);
        let mut i: usize = 0;
        while i < self.fields.len()
            invariant
                i <= self.fields.len(),
                all == values_view(self.fields@),
                field_value(all, name@, 0) == field_value(all, name@, i as int),
            decreases self.fields.len() - i,
        {
            if *self.fields[i].0.as_str() == *name {
                return Some(&self.fields[i].1);
            }
            i += 1;
        }
        None
    }
}

/// Puts out a field's text, escaped where the field asks for that.
fn push_shown(text: &String, escape: bool, out: &mut String)
    ensures
        final(out)@ == old(out)@ + shown(text@, escape),
{
    if escape {
        escape_to_string(text.as_str(), out);
    } else {
        out.append(text.as_str());
    }
}

/// Puts out the text of one template piece.
fn raw_piece(piece: &SpreadPiece, instance: &Instance, out: &mut String) -> (result: Result<
    (),
    SpreadError,
>)
    ensures
        match spread_piece_text(piece@, values_view(instance.fields@)) {
            Ok(text) => result is Ok && final(out)@ == old(out)@ + text,
            Err(e) => result == Err::<(), SpreadError>(e),
        },
{
    proof {
        assert(out@ + Seq::<char>::empty() =~= out@);
    }
    match piece {
        SpreadPiece::Text(text) => {
            out.append(text.as_str());
            Ok(())
        },
        SpreadPiece::Value { field, escaped } => match instance.get(field.as_str()) {
            None => Err(SpreadError::MissingField),
            Some(FieldValue::Text(text)) => {
                push_shown(text, *escaped, out);
                Ok(())
            },
            Some(_) => Err(SpreadError::Mismatch),
        },
        SpreadPiece::Optional { field, name, escaped } => match instance.get(field.as_str()) {
            None => Err(SpreadError::MissingField),
            Some(FieldValue::Absent) => Ok(()),
            Some(FieldValue::Text(text)) => {
                out.push(' ');
                out.append(name.as_str());
                out.push('=');
                out.push('"');
                push_shown(text, *escaped, out);
                out.push('"');
                assert(out@ =~= old(out)@ + named_value(name@, shown(text@, *escaped)));
                Ok(())
            },
            Some(FieldValue::Unit) => Err(SpreadError::Mismatch),
        },
        SpreadPiece::Flag { field, name } => match instance.get(field.as_str()) {
            None => Err(SpreadError::MissingField),
            Some(FieldValue::Absent) => Ok(()),
            Some(_) => {
                out.push(' ');
                out.append(name.as_str());
                assert(out@ =~= old(out)@ + (seq![' '] + name@));
                Ok(())
            },
        },
    }
}

/// Serializes a host value by one template.
pub fn raw_pieces(pieces: &Vec<SpreadPiece>, instance: &Instance) -> (out: Result<String, SpreadError>)
    ensures
        match spec_raw_pieces(spread_pieces_view(pieces@), 0, values_view(instance.fields@)) {
            Ok(text) => out matches Ok(s) && s@ == text,
            Err(e) => out matches Err(x) && x == e,
        },
{
    let ghost all = spread_pieces_view(pieces@);
    let ghost fields = values_view(instance.fields@);
    let mut text = String::new();
    let mut i: usize = 0;
    proof {
        match spec_raw_pieces(all, 0, fields) {
            Ok(more) => {
                assert(Seq::<char>::empty() + more =~= more);
            },
            Err(_) => {},
        }
    }
    while i < pieces.len()
        invariant
            i <= pieces.len(),
            all == spread_pieces_view(pieces@),
            fields == values_view(instance.fields@),
            spec_raw_pieces(all, 0, fields) == match spec_raw_pieces(all, i as int, fields) {
                Ok(more) => Ok(text@ + more),
                Err(e) => Err(e),
            },
        decreases pieces.len() - i,
    {
        let ghost before = text@;
        match raw_piece(&pieces[i], instance, &mut text) {
            Err(e) => {
                return Err(e);
            },
            Ok(()) => {
                proof {
                    let one = spread_piece_text(all[i as int], fields)->Ok_0;
                    match spec_raw_pieces(all, i + 1, fields) {
                        Ok(more) => {
                            assert((before + one) + more =~= before + (one + more));
                        },
                        Err(_) => {},
                    }
                }
            },
        }
        i += 1;
    }
    assert(text@ + Seq::<char>::empty() =~= text@);
    Ok(text)
}

impl SpreadImpl {
    /// The attributes of the host value `instance`, serialized.
    #[verifier::loop_isolation(false)]
    pub fn raw(&self, instance: &Instance) -> (out: Result<String, SpreadError>)
        ensures
            match spec_raw(
                self@.body,
                crate::spread::syntax::optional_text_view(instance.variant),
                values_view(instance.fields@),
            ) {
                Ok(text) => out matches Ok(s) && s@ == text,
                Err(e) => out matches Err(x) && x == e,
            },
    {
        match &self.body {
            RawBody::Struct(pieces) => raw_pieces(pieces, instance),
            RawBody::Enum(variants) => match &instance.variant {
                None => Err(SpreadError::UnknownVariant),
                Some(name) => {
                    let ghost all = variant_pieces_view(variants@);
                    let mut i: usize = 0;
                    while i < variants.len()
                        invariant
                            i <= variants.len(),
                            all == variant_pieces_view(variants@),
                            find_variant(all, name@, 0) == find_variant(all, name@, i as int),
                        decreases variants.len() - i,
                    {
                        if variants[i].0 == *name {
                            return raw_pieces(&variants[i].1, instance);
                        }
                        i += 1;
                    }
                    Err(SpreadError::UnknownVariant)
                },
            },
        }
    }

    /// The bundle for the host value `instance`: its serialization, with the tags that
    /// the host type allows.
    pub fn bundle(&self, instance: &Instance) -> (out: Result<Bundle, SpreadError>)
        ensures
            match spec_raw(
                self@.body,
                crate::spread::syntax::optional_text_view(instance.variant),
                values_view(instance.fields@),
            ) {
                Ok(text) => out matches Ok(b) && b@ == (BundleView { raw: text, tags: self@.tags }),
                Err(e) => out matches Err(x) && x == e,
            },
    {
        match self.raw(instance) {
            Ok(raw) => Ok(Bundle { raw, tags: self.tags.duplicate() }),
            Err(e) => Err(e),
        }
    }
}

} // verus!
