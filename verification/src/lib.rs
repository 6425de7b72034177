//! A compiler and renderer for a small markup templating language.
//!
//! A template is written in the lexical syntax of Rust: tags with attributes and bodies,
//! literals, and slots that are filled from the host program.
//!
//! ```text
//! a href=(url) .[class] {
//!     "Read " (title)
//!     @if unread { b { "new" } }
//! }
//! ```
//!
//! The pipeline has four stages, each with a specification that says exactly what it
//! returns:
//!
//! - [`token`] splits the text into token trees (the lexing is `proc_macro2`'s);
//! - [`html::parse`] reads the token trees into a markup tree;
//! - [`html::generate`] lowers the tree to output operations;
//! - [`render`] runs the operations against the values that the host binds to the
//!   template's fragments, and gives the escaped text.
//!
//! Beside it stands the attribute deriver, [`spread`]: from the description of a host type
//! it generates the serialization of the type's fields as tag attributes, and the list of
//! tags on which such a bundle may be spread.

pub mod attrs;
pub mod derive;
pub mod escape;
pub mod html;
pub mod render;
pub mod spread;
pub mod text;
pub mod token;
pub mod types;
