//! The types that a host program uses with templates.

pub mod attrs;
