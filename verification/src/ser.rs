//! Encoding: from a record of typed field values to a header collection.
//!
//! The encode driver starts from an empty collection and visits the record's
//! fields strictly in schema order: each value is turned into its canonical
//! text and inserted under the field's name. An optional field left absent is
//! omitted entirely — its key never appears. The first failure aborts the
//! whole encode and the collection built so far is discarded.

use vstd::prelude::*;
use vstd::utf8::decode_utf8;
use vstd::utf8::encode_utf8;
use vstd::utf8::valid_utf8;

use crate::error::Error;
use crate::error::ErrorSpec;
use crate::field::FieldValue;
use crate::field::FieldValueSpec;
use crate::field::Value;
use crate::field::ValueSpec;
use crate::headers::bytes_to_string;
use crate::headers::canonical_name;
use crate::headers::entries;
use crate::headers::hm_insert;
use crate::headers::hm_new;
use crate::headers::push_char;
use crate::headers::valid_header_name;
use crate::headers::valid_header_value;
use crate::headers::InsertOutcome;
use crate::num::dec_of_int;
use crate::num::dec_of_nat;
use crate::num::format_i128;
use crate::num::format_u128;

verus! {

/// The canonical text of one scalar value: `true`/`false` for booleans,
/// base-10 for the integer kinds, the character itself for a character,
/// strings verbatim; a byte sequence must be valid UTF-8 and yields the text
/// it encodes.
pub open spec fn encode_value_spec(v: ValueSpec) -> Result<Seq<char>, ErrorSpec> {
    match v {
        ValueSpec::Bool(b) => Ok(
            if b {
                "true"@
            } else {
                "false"@
            },
        ),
        ValueSpec::I8(x) => Ok(dec_of_int(x as int)),
        ValueSpec::I16(x) => Ok(dec_of_int(x as int)),
        ValueSpec::I32(x) => Ok(dec_of_int(x as int)),
        ValueSpec::I64(x) => Ok(dec_of_int(x as int)),
        ValueSpec::I128(x) => Ok(dec_of_int(x as int)),
        ValueSpec::U8(x) => Ok(dec_of_nat(x as nat)),
        ValueSpec::U16(x) => Ok(dec_of_nat(x as nat)),
        ValueSpec::U32(x) => Ok(dec_of_nat(x as nat)),
        ValueSpec::U64(x) => Ok(dec_of_nat(x as nat)),
        ValueSpec::U128(x) => Ok(dec_of_nat(x as nat)),
        ValueSpec::Char(c) => Ok(seq![c]),
        ValueSpec::Str(s) => Ok(s),
        ValueSpec::Bytes(b) => if valid_utf8(b) {
            Ok(decode_utf8(b))
        } else {
            Err(ErrorSpec::InvalidUtf8)
        },
    }
}

/// What encoding one field into the collection contents `m` yields: an
/// absent optional value leaves `m` untouched and its key unwritten; a
/// present value is turned into text and stored under the folded name, the
/// collection's charset rules failing the call otherwise.
pub open spec fn encode_field_spec(
    m: Map<Seq<char>, Seq<u8>>,
    name: Seq<char>,
    value: Option<ValueSpec>,
) -> Result<Map<Seq<char>, Seq<u8>>, ErrorSpec> {
    match value {
        None => Ok(m),
        Some(v) => match encode_value_spec(v) {
            Err(e) => Err(e),
            Ok(text) => if !valid_header_name(name) {
                Err(ErrorSpec::Custom("invalid header name"@))
            } else if !valid_header_value(text) {
                Err(ErrorSpec::Custom("invalid header value"@))
            } else {
                Ok(m.insert(canonical_name(name), encode_utf8(text)))
            },
        },
    }
}

/// What encoding the record suffix that starts at `i` into `m` yields.
pub open spec fn encode_from(
    fields: Seq<FieldValueSpec>,
    i: int,
    m: Map<Seq<char>, Seq<u8>>,
) -> Result<Map<Seq<char>, Seq<u8>>, ErrorSpec>
    decreases fields.len() - i,
{
    if i < 0 || i >= fields.len() {
        Ok(m)
    } else {
        match encode_field_spec(m, fields[i].name, fields[i].value) {
            Err(e) => Err(e),
            Ok(m2) => encode_from(fields, i + 1, m2),
        }
    }
}

/// What encoding a whole record yields: each field written into an initially
/// empty collection, strictly in declared order, the first failure aborting
/// the record.
pub open spec fn encode_record_spec(fields: Seq<FieldValueSpec>) -> Result<
    Map<Seq<char>, Seq<u8>>,
    ErrorSpec,
> {
    encode_from(fields, 0, Map::empty())
}

/// The key a serializer is about to write under, or empty before the first
/// field.
pub open spec fn key_of(k: Option<Seq<char>>) -> Seq<char> {
    match k {
        Some(s) => s,
        None => Seq::empty(),
    }
}

/// How one value-writing step relates a serializer's contents before and
/// after: success stores the value's text under the pending key, failure
/// reports exactly what the field encoder yields and leaves the contents
/// unchanged.
pub open spec fn value_step(
    pre: Map<Seq<char>, Seq<u8>>,
    key: Seq<char>,
    v: ValueSpec,
    post: Map<Seq<char>, Seq<u8>>,
    r: Result<(), Error>,
) -> bool {
    match r {
        Ok(_) => encode_field_spec(pre, key, Some(v)) == Ok::<Map<Seq<char>, Seq<u8>>, ErrorSpec>(
            post,
        ),
        Err(e) => encode_field_spec(pre, key, Some(v)) == Err::<
            Map<Seq<char>, Seq<u8>>,
            ErrorSpec,
        >(e@) && post == pre,
    }
}

/// The encode context: the field name currently being written and the header
/// collection under construction.
pub struct Serializer {
    current: Option<String>,
    output: http::HeaderMap,
}

impl Serializer {
    /// The contents of the collection built so far.
    pub closed spec fn contents(&self) -> Map<Seq<char>, Seq<u8>> {
        entries(self.output)
    }

    /// The name of the field currently being written.
    pub closed spec fn current_key(&self) -> Option<Seq<char>> {
        match self.current {
            Some(ref s) => Some(s@),
            None => None,
        }
    }

    /// True while the collection has room for another entry.
    pub open spec fn has_room(&self) -> bool {
        self.contents().dom().finite() && self.contents().dom().len() <= 6552
    }

    /// Starts an encode into an empty collection, with no field pending.
    pub fn new() -> (s: Serializer)
        ensures
            s.contents() =~= Map::empty(),
            s.current_key() is None,
    {
        Serializer { current: None, output: hm_new() }
    }

    /// Hands the finished collection back.
    pub fn end(self) -> (r: http::HeaderMap)
        ensures
            entries(r) == self.contents(),
    {
        self.output
    }

    /// Inserts the given text under the pending field name, reporting a
    /// charset violation of the collection as `Custom`.
    fn insert_current(&mut self, text: &str) -> (r: Result<(), Error>)
        requires
            old(self).current_key() is Some,
            old(self).has_room(),
        ensures
            final(self).current_key() == old(self).current_key(),
            match r {
                Ok(_) => valid_header_name(key_of(old(self).current_key())) && valid_header_value(
                    text@,
                ) && final(self).contents() == old(self).contents().insert(
                    canonical_name(key_of(old(self).current_key())),
                    encode_utf8(text@),
                ),
                Err(e) => final(self).contents() == old(self).contents() && ((!valid_header_name(
                    key_of(old(self).current_key()),
                ) && e@ == ErrorSpec::Custom("invalid header name"@)) || (valid_header_name(
                    key_of(old(self).current_key()),
                ) && !valid_header_value(text@) && e@ == ErrorSpec::Custom(
                    "invalid header value"@,
                ))),
            },
    {
        let outcome = match &self.current {
            Some(k) => hm_insert(&mut self.output, k.as_str(), text),
            None => vstd::pervasive::unreached(),
        };
        match outcome {
            InsertOutcome::Inserted => Ok(()),
            InsertOutcome::BadName => Err(Error::Custom("invalid header name".to_owned())),
            InsertOutcome::BadValue => Err(Error::Custom("invalid header value".to_owned())),
            InsertOutcome::Full => vstd::pervasive::unreached(),
        }
    }

    /// Writes a boolean as `true` or `false`.
    pub fn serialize_bool(&mut self, v: bool) -> (r: Result<(), Error>)
        requires
            old(self).current_key() is Some,
            old(self).has_room(),
        ensures
            final(self).current_key() == old(self).current_key(),
            value_step(
                old(self).contents(),
                key_of(old(self).current_key()),
                ValueSpec::Bool(v),
                final(self).contents(),
                r,
            ),
    {
        if v {
            self.insert_current("true")
        } else {
            self.insert_current("false")
        }
    }

    /// Writes a signed integer in its canonical decimal form.
    pub fn serialize_i8(&mut self, v: i8) -> (r: Result<(), Error>)
        requires
            old(self).current_key() is Some,
            old(self).has_room(),
        ensures
            final(self).current_key() == old(self).current_key(),
            value_step(
                old(self).contents(),
                key_of(old(self).current_key()),
                ValueSpec::I8(v),
                final(self).contents(),
                r,
            ),
    {
        let text = format_i128(v as i128);
        self.insert_current(text.as_str())
    }

    /// Writes a signed integer in its canonical decimal form.
    pub fn serialize_i16(&mut self, v: i16) -> (r: Result<(), Error>)
        requires
            old(self).current_key() is Some,
            old(self).has_room(),
        ensures
            final(self).current_key() == old(self).current_key(),
            value_step(
                old(self).contents(),
                key_of(old(self).current_key()),
                ValueSpec::I16(v),
                final(self).contents(),
                r,
            ),
    {
        let text = format_i128(v as i128);
        self.insert_current(text.as_str())
    }

    /// Writes a signed integer in its canonical decimal form.
    pub fn serialize_i32(&mut self, v: i32) -> (r: Result<(), Error>)
        requires
            old(self).current_key() is Some,
            old(self).has_room(),
        ensures
            final(self).current_key() == old(self).current_key(),
            value_step(
                old(self).contents(),
                key_of(old(self).current_key()),
                ValueSpec::I32(v),
                final(self).contents(),
                r,
            ),
    {
        let text = format_i128(v as i128);
        self.insert_current(text.as_str())
    }

    /// Writes a signed integer in its canonical decimal form.
    pub fn serialize_i64(&mut self, v: i64) -> (r: Result<(), Error>)
        requires
            old(self).current_key() is Some,
            old(self).has_room(),
        ensures
            final(self).current_key() == old(self).current_key(),
            value_step(
                old(self).contents(),
                key_of(old(self).current_key()),
                ValueSpec::I64(v),
                final(self).contents(),
                r,
            ),
    {
        let text = format_i128(v as i128);
        self.insert_current(text.as_str())
    }

    /// Writes a signed integer in its canonical decimal form.
    pub fn serialize_i128(&mut self, v: i128) -> (r: Result<(), Error>)
        requires
            old(self).current_key() is Some,
            old(self).has_room(),
        ensures
            final(self).current_key() == old(self).current_key(),
            value_step(
                old(self).contents(),
                key_of(old(self).current_key()),
                ValueSpec::I128(v),
                final(self).contents(),
                r,
            ),
    {
        let text = format_i128(v);
        self.insert_current(text.as_str())
    }

    /// Writes an unsigned integer in its canonical decimal form.
    pub fn serialize_u8(&mut self, v: u8) -> (r: Result<(), Error>)
        requires
            old(self).current_key() is Some,
            old(self).has_room(),
        ensures
            final(self).current_key() == old(self).current_key(),
            value_step(
                old(self).contents(),
                key_of(old(self).current_key()),
                ValueSpec::U8(v),
                final(self).contents(),
                r,
            ),
    {
        let text = format_u128(v as u128);
        self.insert_current(text.as_str())
    }

    /// Writes an unsigned integer in its canonical decimal form.
    pub fn serialize_u16(&mut self, v: u16) -> (r: Result<(), Error>)
        requires
            old(self).current_key() is Some,
            old(self).has_room(),
        ensures
            final(self).current_key() == old(self).current_key(),
            value_step(
                old(self).contents(),
                key_of(old(self).current_key()),
                ValueSpec::U16(v),
                final(self).contents(),
                r,
            ),
    {
        let text = format_u128(v as u128);
        self.insert_current(text.as_str())
    }

    /// Writes an unsigned integer in its canonical decimal form.
    pub fn serialize_u32(&mut self, v: u32) -> (r: Result<(), Error>)
        requires
            old(self).current_key() is Some,
            old(self).has_room(),
        ensures
            final(self).current_key() == old(self).current_key(),
            value_step(
                old(self).contents(),
                key_of(old(self).current_key()),
                ValueSpec::U32(v),
                final(self).contents(),
                r,
            ),
    {
        let text = format_u128(v as u128);
        self.insert_current(text.as_str())
    }

    /// Writes an unsigned integer in its canonical decimal form.
    pub fn serialize_u64(&mut self, v: u64) -> (r: Result<(), Error>)
        requires
            old(self).current_key() is Some,
            old(self).has_room(),
        ensures
            final(self).current_key() == old(self).current_key(),
            value_step(
                old(self).contents(),
                key_of(old(self).current_key()),
                ValueSpec::U64(v),
                final(self).contents(),
                r,
            ),
    {
        let text = format_u128(v as u128);
        self.insert_current(text.as_str())
    }

    /// Writes an unsigned integer in its canonical decimal form.
    pub fn serialize_u128(&mut self, v: u128) -> (r: Result<(), Error>)
        requires
            old(self).current_key() is Some,
            old(self).has_room(),
        ensures
            final(self).current_key() == old(self).current_key(),
            value_step(
                old(self).contents(),
                key_of(old(self).current_key()),
                ValueSpec::U128(v),
                final(self).contents(),
                r,
            ),
    {
        let text = format_u128(v);
        self.insert_current(text.as_str())
    }

    /// Writes a single character as itself.
    pub fn serialize_char(&mut self, v: char) -> (r: Result<(), Error>)
        requires
            old(self).current_key() is Some,
            old(self).has_room(),
        ensures
            final(self).current_key() == old(self).current_key(),
            value_step(
                old(self).contents(),
                key_of(old(self).current_key()),
                ValueSpec::Char(v),
                final(self).contents(),
                r,
            ),
    {
        let mut text = String::new();
        push_char(&mut text, v);
        proof {
            assert(text@ =~= seq![v]);
        }
        self.insert_current(text.as_str())
    }

    /// Writes a string verbatim.
    pub fn serialize_str(&mut self, v: &str) -> (r: Result<(), Error>)
        requires
            old(self).current_key() is Some,
            old(self).has_room(),
        ensures
            final(self).current_key() == old(self).current_key(),
            value_step(
                old(self).contents(),
                key_of(old(self).current_key()),
                ValueSpec::Str(v@),
                final(self).contents(),
                r,
            ),
    {
        self.insert_current(v)
    }

    /// Writes a byte sequence, which must be valid UTF-8, as the text it
    /// encodes.
    pub fn serialize_bytes(&mut self, v: &Vec<u8>) -> (r: Result<(), Error>)
        requires
            old(self).current_key() is Some,
            old(self).has_room(),
        ensures
            final(self).current_key() == old(self).current_key(),
            value_step(
                old(self).contents(),
                key_of(old(self).current_key()),
                ValueSpec::Bytes(v@),
                final(self).contents(),
                r,
            ),
    {
        match bytes_to_string(v) {
            None => Err(Error::InvalidUtf8),
            Some(s) => self.insert_current(s.as_str()),
        }
    }

    /// Writes nothing: an absent optional field leaves its key out entirely.
    pub fn serialize_none(&mut self) -> (r: Result<(), Error>)
        ensures
            *final(self) == *old(self),
            r is Ok,
    {
        Ok(())
    }

    /// Writes a present optional value through the inner value's encoder.
    pub fn serialize_some(&mut self, v: &Value) -> (r: Result<(), Error>)
        requires
            old(self).current_key() is Some,
            old(self).has_room(),
        ensures
            final(self).current_key() == old(self).current_key(),
            value_step(
                old(self).contents(),
                key_of(old(self).current_key()),
                v@,
                final(self).contents(),
                r,
            ),
    {
        self.serialize_value(v)
    }

    /// Writes one scalar value through the encoder for its kind.
    pub fn serialize_value(&mut self, v: &Value) -> (r: Result<(), Error>)
        requires
            old(self).current_key() is Some,
            old(self).has_room(),
        ensures
            final(self).current_key() == old(self).current_key(),
            value_step(
                old(self).contents(),
                key_of(old(self).current_key()),
                v@,
                final(self).contents(),
                r,
            ),
    {
        match v {
            Value::Bool(x) => self.serialize_bool(*x),
            Value::I8(x) => self.serialize_i8(*x),
            Value::I16(x) => self.serialize_i16(*x),
            Value::I32(x) => self.serialize_i32(*x),
            Value::I64(x) => self.serialize_i64(*x),
            Value::I128(x) => self.serialize_i128(*x),
            Value::U8(x) => self.serialize_u8(*x),
            Value::U16(x) => self.serialize_u16(*x),
            Value::U32(x) => self.serialize_u32(*x),
            Value::U64(x) => self.serialize_u64(*x),
            Value::U128(x) => self.serialize_u128(*x),
            Value::Char(x) => self.serialize_char(*x),
            Value::Str(x) => self.serialize_str(x.as_str()),
            Value::Bytes(x) => self.serialize_bytes(x),
        }
    }

    /// Sets the pending field name, then writes the field's value; an absent
    /// optional value writes nothing.
    pub fn serialize_field(&mut self, key: &str, value: &Option<Value>) -> (r: Result<(), Error>)
        requires
            old(self).has_room(),
        ensures
            final(self).current_key() == Some(key@),
            match r {
                Ok(_) => encode_field_spec(old(self).contents(), key@, value.deep_view()) == Ok::<
                    Map<Seq<char>, Seq<u8>>,
                    ErrorSpec,
                >(final(self).contents()),
                Err(e) => encode_field_spec(old(self).contents(), key@, value.deep_view()) == Err::<
                    Map<Seq<char>, Seq<u8>>,
                    ErrorSpec,
                >(e@) && final(self).contents() == old(self).contents(),
            },
    {
        self.current = Some(key.to_owned());
        match value {
            None => Ok(()),
            Some(v) => self.serialize_value(v),
        }
    }
}

/// Encodes a record into a fresh header collection: every field visited
/// strictly in declared order, the first failure aborting the whole call.
pub fn to_header_map(fields: &Vec<FieldValue>) -> (r: Result<http::HeaderMap, Error>)
    requires
        fields@.len() <= 6552,
    ensures
        match r {
            Ok(m) => encode_record_spec(fields.deep_view()) == Ok::<
                Map<Seq<char>, Seq<u8>>,
                ErrorSpec,
            >(entries(m)),
            Err(e) => encode_record_spec(fields.deep_view()) == Err::<
                Map<Seq<char>, Seq<u8>>,
                ErrorSpec,
            >(e@),
        },
{
    broadcast use vstd::set::axiom_set_insert_len, vstd::set::axiom_set_insert_finite;

    let ghost fview = fields.deep_view();
    let mut ser = Serializer::new();
    let n = fields.len();
    let mut i: usize = 0;
    while i < n
        invariant
            n == fields@.len(),
            n <= 6552,
            0 <= i <= n,
            fview == fields.deep_view(),
            ser.contents().dom().finite(),
            ser.contents().dom().len() <= i,
            encode_from(fview, i as int, ser.contents()) == encode_record_spec(fview),
        decreases n - i,
    {
        let f = &fields[i];
        match ser.serialize_field(f.name.as_str(), &f.value) {
            Ok(_) => {},
            Err(e) => {
                return Err(e);
            },
        }
        i = i + 1;
    }
    Ok(ser.end())
}

} // verus!
