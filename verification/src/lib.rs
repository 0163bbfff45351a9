//! A binary template-packing engine in the style of Perl's `pack`: a
//! template string of one-letter type tags with optional numeric modifiers
//! is parsed into field descriptors, each descriptor is paired positionally
//! with one caller-supplied value, and the values' own byte renderings are
//! concatenated into a single buffer.

mod catalog;
mod engine;
mod errors;
mod laws;
mod parser;

pub use catalog::parse_field;
pub use engine::pack;
pub use engine::pack_private;
pub use engine::unpack;
pub use engine::Packable;
pub use engine::PackableArg;
pub use engine::Packed;
pub use engine::ScriptedArg;
pub use engine::Unpackable;
pub use parser::parse_template;
pub use catalog::PackType;
pub use errors::PackError;
pub use errors::UnpackError;
