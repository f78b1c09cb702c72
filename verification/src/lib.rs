//! Typed marshaling between a flat record of scalar fields and an HTTP header
//! collection.
//!
//! The decode driver visits an ordered field-name schema, fetches each raw
//! header value and converts it to the field's declared scalar kind; the
//! encode driver walks a record in schema order and writes each field's
//! canonical text into a fresh header collection. Both report malformed or
//! missing data through the closed [`Error`] taxonomy and abort on the first
//! failure.

pub mod de;
pub mod error;
pub mod field;
pub mod headers;
pub mod laws;
pub mod num;
pub mod ser;

pub use de::decode_field;
pub use de::decode_value;
pub use de::from_header_map;
pub use de::Deserializer;
pub use error::Error;
pub use error::ErrorSpec;
pub use field::FieldDecl;
pub use field::FieldDeclSpec;
pub use field::FieldValue;
pub use field::FieldValueSpec;
pub use field::Kind;
pub use field::Value;
pub use field::ValueSpec;
pub use laws::lemma_bad_numeric;
pub use laws::lemma_char_arity;
pub use laws::lemma_missing_field_first;
pub use laws::lemma_optional_omitted;
pub use laws::lemma_round_trip;
pub use laws::lemma_utf8_guard;
pub use laws::lemma_value_round_trip;
pub use ser::to_header_map;
pub use ser::Serializer;
