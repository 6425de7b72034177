//! The attribute deriver: from the description of a host type to the serialization of its
//! fields as tag attributes.

pub mod generate;
pub mod input;
pub mod instance;
pub mod parse;
pub mod syntax;

use crate::spread::generate::{spec_generate, SpreadImpl, SpreadImplView};
use crate::spread::input::DeriveInput;
use crate::spread::parse::{spec_parse_input, ReflectionError};
use crate::spread::syntax::SpreadInput;
use vstd::prelude::*;

verus! {

/// The prefix that `#[prefix]` without a value stands for.
pub const DATA_PREFIX: &'static str = "data";

/// What is generated for the host type `input`, or why nothing can be.
pub open spec fn spec_derive(input: DeriveInput) -> Result<SpreadImplView, ReflectionError> {
    match spec_parse_input(input) {
        Ok(parsed) => Ok(spec_generate(parsed)),
        Err(e) => Err(e),
    }
}

/// Derives the serialization for a host type: reads its description and generates from
/// what was read.
pub fn generate_spread_impl(input: DeriveInput) -> (out: Result<SpreadImpl, ReflectionError>)
    ensures
        match spec_derive(input) {
            Ok(generated) => out matches Ok(x) && x@ == generated,
            Err(e) => out matches Err(x) && x == e,
        },
{
    match SpreadInput::parse(input) {
        Ok(parsed) => Ok(crate::spread::generate::generate_spread_impl(parsed)),
        Err(e) => Err(e),
    }
}

} // verus!
