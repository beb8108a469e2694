//! A schema-driven data validation and serialization engine.
//!
//! A declarative schema is compiled once into a tree of validators and a
//! tree of serializers. A validator tree applied to an input value yields
//! either a normalized value or a list of location-tagged line errors; a
//! serializer tree applied to a normalized value yields an output value,
//! filtered by include/exclude sets, aliasing and default suppression.

use vstd::prelude::*;

pub mod errors;
pub mod datetime;
pub mod value;
pub mod validators;
pub mod serializers;

verus! {

} // verus!
