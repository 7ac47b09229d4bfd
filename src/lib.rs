//! Expansion engine for an error-deriving macro: a validated model of an
//! annotated type definition, the inference of generic bounds, and the
//! emitters that turn the model into generated declarations.
pub mod bounds;
pub mod emit;
pub mod laws;
pub mod model;
pub mod naming;
pub mod plan;
pub mod render;
pub mod template;
pub mod text;
pub mod ty;
pub mod validate;
