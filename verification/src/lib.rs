//! Intermediate representation of a small functional language that lowers to
//! an interaction-combinator runtime: the term/pattern model, the
//! definition-name table, a pretty-printer, and the constructor-resolution
//! pass that disambiguates pattern identifiers once the whole program's
//! constructor set is known.

pub mod ast;
pub mod names;
pub mod ops;
pub mod pretty;
pub mod resolve;
