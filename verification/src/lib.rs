//! Compiler from a relational data-model description to the input types of a
//! create mutation: for each model, and optionally for the relation edge along
//! which the model was reached, it derives the legal input fields in two
//! mutually exclusive shapes (checked and unchecked), breaking the cyclic
//! recursion of bidirectional relation graphs through an identifier-keyed,
//! append-only type registry.

pub mod compiler;
pub mod fields;
pub mod filters;
pub mod identifier;
pub mod laws;
pub mod mapper;
pub mod metadata;
pub mod mutations;
pub mod registry;

