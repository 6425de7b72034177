//! Bundles of attributes, as the host program hands them to a template.

use crate::spread::syntax::{ImplTags, ImplTagsView};
use vstd::prelude::*;
use vstd::string::*;

verus! {

/// A value that can be spread on a tag: it gives the text of its attributes.
pub trait Spread {
    /// The attributes, each with a space in front of it.
    fn raw(&self) -> String;
}

/// The type of a field that stands for a bare attribute, without a value.
#[derive(Clone, Copy, Debug, PartialEq, Eq, Structural)]
pub struct NameOnly;

/// Is `out` a text that the value `value` gives as the text of its attributes?
pub open spec fn gives<T: Spread>(value: &T, out: String) -> bool {
    call_ensures(T::raw, (value,), out)
}

impl<'a, T: Spread> Spread for &'a T {
    fn raw(&self) -> (out: String)
        ensures
            gives::<T>(*self, out),
    {
        Spread::raw(*self)
    }
}

impl<'a, T: Spread> Spread for &'a mut T {
    fn raw(&self) -> (out: String)
        ensures
            gives::<T>(&*old(*self), out),
    {
        Spread::raw(&**self)
    }
}

/// The attributes of one host value, serialized, and the tags that they may be spread on.
#[derive(Debug, PartialEq, Eq)]
pub struct Bundle {
    pub raw: String,
    pub tags: ImplTags,
}

pub struct BundleView {
    pub raw: Seq<char>,
    pub tags: ImplTagsView,
}

impl View for Bundle {
    type V = BundleView;

    open spec fn view(&self) -> BundleView {
        BundleView { raw: self.raw@, tags: self.tags@ }
    }
}

impl Spread for Bundle {
    fn raw(&self) -> (out: String)
        ensures
            out@ == self@.raw,
    {
        self.raw.clone()
    }
}

} // verus!
