//! An immutable, self-describing value container in the GVariant style: a
//! type-signature algebra, a tree of typed values, a canonical little-endian
//! byte serialization, and typed conversions between native values and
//! variants.
//!
//! - `types`: signatures, their text and the parser.
//! - `value`: values, their classification, access, equality, order and
//!   byte-order swapping, and the serializer.
//! - `serial`: the serialized form, stated as spec functions.
//! - `decode`: reading values back from bytes.
//! - `convert`: the conversion traits and their implementations.
//! - `laws`: what holds of serializing and reading back.
//! - `text`: text held in values, which holds no nul.
//! - `print`: a deterministic text rendering of values.
pub mod types;
pub mod value;
pub mod serial;
pub mod convert;
pub mod decode;
pub mod laws;
pub mod text;
pub mod print;

pub use types::{VariantType, TypeParseError};
pub use value::{Variant, VariantClass};
pub use convert::{DictEntry, FixedSizeVariantType, FromVariant, StaticVariantType, ToVariant, VariantRoundTrip, VariantTypeMismatchError};
pub use decode::InsufficientSpace;
