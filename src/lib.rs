//! Annotation validation and generic-clause synthesis for serialization derives.
//!
//! `attrs` checks the annotations found on a type or a field against a fixed
//! schema and answers point queries about them; `generics` renders the two
//! generic-parameter clauses that a generated implementation needs.

pub mod attrs;
pub mod generics;
pub mod text;
