//! Decoding: from a header collection to a record of typed field values.
//!
//! The decode driver visits an ordered schema of field declarations. For each
//! field it fetches the raw header value under the field's name and hands it
//! to the field decoder for the declared scalar kind; an absent key resolves
//! to the absent variant for an optional field and to `MissingField`
//! otherwise. The first failure aborts the whole decode.

use vstd::prelude::*;
use vstd::string::StrSliceExecFns;
use vstd::utf8::decode_utf8;
use vstd::utf8::encode_utf8;
use vstd::utf8::valid_utf8;

use crate::error::Error;
use crate::error::ErrorSpec;
use crate::field::FieldDecl;
use crate::field::FieldDeclSpec;
use crate::field::Kind;
use crate::field::Value;
use crate::field::ValueSpec;
use crate::headers::bytes_to_string;
use crate::headers::canonical_name;
use crate::headers::entries;
use crate::headers::hm_contains;
use crate::headers::hm_get;
use crate::num::parse_int;
use crate::num::parse_int_i128;
use crate::num::parse_nat;
use crate::num::parse_nat_u128;

verus! {

/// The error for raw text that is not a decimal number of the target width.
pub open spec fn digit_error(raw: Seq<char>) -> ErrorSpec {
    ErrorSpec::InvalidValue(raw, "digit only"@)
}

/// Signed decimal decoding into the range `lo ..= hi`: parse failure and
/// overflow are not told apart.
pub open spec fn decode_signed(raw: Seq<char>, lo: int, hi: int) -> Option<int> {
    match parse_int(raw) {
        Some(v) => if lo <= v <= hi {
            Some(v)
        } else {
            None
        },
        None => None,
    }
}

/// Unsigned decimal decoding up to `hi`: parse failure and overflow are not
/// told apart.
pub open spec fn decode_unsigned(raw: Seq<char>, hi: nat) -> Option<nat> {
    match parse_nat(raw) {
        Some(v) => if v <= hi {
            Some(v)
        } else {
            None
        },
        None => None,
    }
}

/// What the field decoder yields for one present raw string and one requested
/// scalar kind. Booleans have no decode rule and are rejected as unsupported;
/// a single-character field requires exactly one character; strings pass
/// through verbatim; byte sequences are the string's UTF-8 bytes.
pub open spec fn decode_value_spec(raw: Seq<char>, kind: Kind) -> Result<ValueSpec, ErrorSpec> {
    match kind {
        Kind::Bool => Err(ErrorSpec::Unsupported("bool"@)),
        Kind::I8 => match decode_signed(raw, i8::MIN as int, i8::MAX as int) {
            Some(v) => Ok(ValueSpec::I8(v as i8)),
            None => Err(digit_error(raw)),
        },
        Kind::I16 => match decode_signed(raw, i16::MIN as int, i16::MAX as int) {
            Some(v) => Ok(ValueSpec::I16(v as i16)),
            None => Err(digit_error(raw)),
        },
        Kind::I32 => match decode_signed(raw, i32::MIN as int, i32::MAX as int) {
            Some(v) => Ok(ValueSpec::I32(v as i32)),
            None => Err(digit_error(raw)),
        },
        Kind::I64 => match decode_signed(raw, i64::MIN as int, i64::MAX as int) {
            Some(v) => Ok(ValueSpec::I64(v as i64)),
            None => Err(digit_error(raw)),
        },
        Kind::I128 => match decode_signed(raw, i128::MIN as int, i128::MAX as int) {
            Some(v) => Ok(ValueSpec::I128(v as i128)),
            None => Err(digit_error(raw)),
        },
        Kind::U8 => match decode_unsigned(raw, u8::MAX as nat) {
            Some(v) => Ok(ValueSpec::U8(v as u8)),
            None => Err(digit_error(raw)),
        },
        Kind::U16 => match decode_unsigned(raw, u16::MAX as nat) {
            Some(v) => Ok(ValueSpec::U16(v as u16)),
            None => Err(digit_error(raw)),
        },
        Kind::U32 => match decode_unsigned(raw, u32::MAX as nat) {
            Some(v) => Ok(ValueSpec::U32(v as u32)),
            None => Err(digit_error(raw)),
        },
        Kind::U64 => match decode_unsigned(raw, u64::MAX as nat) {
            Some(v) => Ok(ValueSpec::U64(v as u64)),
            None => Err(digit_error(raw)),
        },
        Kind::U128 => match decode_unsigned(raw, u128::MAX as nat) {
            Some(v) => Ok(ValueSpec::U128(v as u128)),
            None => Err(digit_error(raw)),
        },
        Kind::Char => if raw.len() == 1 {
            Ok(ValueSpec::Char(raw[0]))
        } else {
            Err(ErrorSpec::InvalidValue(raw, "a char"@))
        },
        Kind::Str => Ok(ValueSpec::Str(raw)),
        Kind::Bytes => Ok(ValueSpec::Bytes(encode_utf8(raw))),
    }
}

/// Converts one present raw string into one scalar value of the requested
/// kind.
pub fn decode_value(raw: &str, kind: Kind) -> (r: Result<Value, Error>)
    ensures
        match r {
            Ok(v) => decode_value_spec(raw@, kind) == Ok::<ValueSpec, ErrorSpec>(v@),
            Err(e) => decode_value_spec(raw@, kind) == Err::<ValueSpec, ErrorSpec>(e@),
        },
{
    match kind {
        Kind::Bool => Err(Error::Unsupported("bool".to_owned())),
        Kind::I8 => match parse_int_i128(raw) {
            Some(v) => if -128 <= v && v <= 127 {
                Ok(Value::I8(v as i8))
            } else {
                Err(digit_error_exec(raw))
            },
            None => Err(digit_error_exec(raw)),
        },
        Kind::I16 => match parse_int_i128(raw) {
            Some(v) => if -32768 <= v && v <= 32767 {
                Ok(Value::I16(v as i16))
            } else {
                Err(digit_error_exec(raw))
            },
            None => Err(digit_error_exec(raw)),
        },
        Kind::I32 => match parse_int_i128(raw) {
            Some(v) => if -2147483648 <= v && v <= 2147483647 {
                Ok(Value::I32(v as i32))
            } else {
                Err(digit_error_exec(raw))
            },
            None => Err(digit_error_exec(raw)),
        },
        Kind::I64 => match parse_int_i128(raw) {
            Some(v) => if -9223372036854775808 <= v && v <= 9223372036854775807 {
                Ok(Value::I64(v as i64))
            } else {
                Err(digit_error_exec(raw))
            },
            None => Err(digit_error_exec(raw)),
        },
        Kind::I128 => match parse_int_i128(raw) {
            Some(v) => Ok(Value::I128(v)),
            None => Err(digit_error_exec(raw)),
        },
        Kind::U8 => match parse_nat_u128(raw) {
            Some(v) => if v <= 255 {
                Ok(Value::U8(v as u8))
            } else {
                Err(digit_error_exec(raw))
            },
            None => Err(digit_error_exec(raw)),
        },
        Kind::U16 => match parse_nat_u128(raw) {
            Some(v) => if v <= 65535 {
                Ok(Value::U16(v as u16))
            } else {
                Err(digit_error_exec(raw))
            },
            None => Err(digit_error_exec(raw)),
        },
        Kind::U32 => match parse_nat_u128(raw) {
            Some(v) => if v <= 4294967295 {
                Ok(Value::U32(v as u32))
            } else {
                Err(digit_error_exec(raw))
            },
            None => Err(digit_error_exec(raw)),
        },
        Kind::U64 => match parse_nat_u128(raw) {
            Some(v) => if v <= 18446744073709551615 {
                Ok(Value::U64(v as u64))
            } else {
                Err(digit_error_exec(raw))
            },
            None => Err(digit_error_exec(raw)),
        },
        Kind::U128 => match parse_nat_u128(raw) {
            Some(v) => Ok(Value::U128(v)),
            None => Err(digit_error_exec(raw)),
        },
        Kind::Char => if raw.unicode_len() == 1 {
            Ok(Value::Char(raw.get_char(0)))
        } else {
            Err(Error::InvalidValue(raw.to_owned(), "a char".to_owned()))
        },
        Kind::Str => Ok(Value::Str(raw.to_owned())),
        Kind::Bytes => Ok(Value::Bytes(raw.as_bytes_vec())),
    }
}

/// The `digit only` error for the given raw text.
fn digit_error_exec(raw: &str) -> (e: Error)
    ensures
        e@ == digit_error(raw@),
{
    Error::InvalidValue(raw.to_owned(), "digit only".to_owned())
}

/// What decoding one schema field from the collection contents `m` yields:
/// `Ok(None)` for an absent optional field, `MissingField` for an absent
/// required one, `InvalidUtf8` for a present value whose bytes are not UTF-8,
/// and otherwise the field decoder's outcome on the decoded text.
pub open spec fn decode_field_spec(
    m: Map<Seq<char>, Seq<u8>>,
    name: Seq<char>,
    kind: Kind,
    optional: bool,
) -> Result<Option<ValueSpec>, ErrorSpec> {
    let key = canonical_name(name);
    if !m.dom().contains(key) {
        if optional {
            Ok(None)
        } else {
            Err(ErrorSpec::MissingField(name))
        }
    } else if !valid_utf8(m[key]) {
        Err(ErrorSpec::InvalidUtf8)
    } else {
        match decode_value_spec(decode_utf8(m[key]), kind) {
            Ok(v) => Ok(Some(v)),
            Err(e) => Err(e),
        }
    }
}

/// Decodes one present raw header value: UTF-8 validation, then the field
/// decoder.
fn decode_raw(bytes: &Vec<u8>, kind: Kind) -> (r: Result<Value, Error>)
    ensures
        match r {
            Ok(v) => valid_utf8(bytes@) && decode_value_spec(decode_utf8(bytes@), kind) == Ok::<
                ValueSpec,
                ErrorSpec,
            >(v@),
            Err(e) => (!valid_utf8(bytes@) && e@ == ErrorSpec::InvalidUtf8) || (valid_utf8(bytes@)
                && decode_value_spec(decode_utf8(bytes@), kind) == Err::<ValueSpec, ErrorSpec>(e@)),
        },
{
    match bytes_to_string(bytes) {
        None => Err(Error::InvalidUtf8),
        Some(s) => decode_value(s.as_str(), kind),
    }
}

/// Decodes one schema field from the header collection.
pub fn decode_field(source: &http::HeaderMap, decl: &FieldDecl) -> (r: Result<Option<Value>, Error>)
    ensures
        match r {
            Ok(v) => decode_field_spec(entries(*source), decl.name@, decl.kind, decl.optional)
                == Ok::<Option<ValueSpec>, ErrorSpec>(v.deep_view()),
            Err(e) => decode_field_spec(entries(*source), decl.name@, decl.kind, decl.optional)
                == Err::<Option<ValueSpec>, ErrorSpec>(e@),
        },
{
    if decl.optional {
        if !hm_contains(source, decl.name.as_str()) {
            return Ok(None);
        }
        match hm_get(source, decl.name.as_str()) {
            None => Err(Error::MissingField(decl.name.clone())),
            Some(bytes) => match decode_raw(&bytes, decl.kind) {
                Ok(v) => Ok(Some(v)),
                Err(e) => Err(e),
            },
        }
    } else {
        match hm_get(source, decl.name.as_str()) {
            None => Err(Error::MissingField(decl.name.clone())),
            Some(bytes) => match decode_raw(&bytes, decl.kind) {
                Ok(v) => Ok(Some(v)),
                Err(e) => Err(e),
            },
        }
    }
}

/// What decoding the schema suffix that starts at `i` yields: the fields'
/// values in schema order, or the first failure.
pub open spec fn decode_from(
    m: Map<Seq<char>, Seq<u8>>,
    schema: Seq<FieldDeclSpec>,
    i: int,
) -> Result<Seq<Option<ValueSpec>>, ErrorSpec>
    decreases schema.len() - i,
{
    if i < 0 || i >= schema.len() {
        Ok(Seq::empty())
    } else {
        match decode_field_spec(m, schema[i].name, schema[i].kind, schema[i].optional) {
            Err(e) => Err(e),
            Ok(v) => match decode_from(m, schema, i + 1) {
                Err(e) => Err(e),
                Ok(rest) => Ok(seq![v] + rest),
            },
        }
    }
}

/// What decoding a whole schema yields: each field visited strictly in
/// declared order, the first failure aborting the record.
pub open spec fn decode_record_spec(m: Map<Seq<char>, Seq<u8>>, schema: Seq<FieldDeclSpec>) -> Result<
    Seq<Option<ValueSpec>>,
    ErrorSpec,
> {
    decode_from(m, schema, 0)
}

/// Decoding a record whose first `i` fields decode to `prefix` resolves the
/// same way as decoding from field `i` onward, with `prefix` in front.
pub(crate) proof fn lemma_decode_from_split(
    m: Map<Seq<char>, Seq<u8>>,
    schema: Seq<FieldDeclSpec>,
    i: int,
    prefix: Seq<Option<ValueSpec>>,
)
    requires
        0 <= i <= schema.len(),
        prefix.len() == i,
        forall|j: int|
            0 <= j < i ==> decode_field_spec(
                m,
                (#[trigger] schema[j]).name,
                schema[j].kind,
                schema[j].optional,
            ) == Ok::<Option<ValueSpec>, ErrorSpec>(prefix[j]),
    ensures
        decode_from(m, schema, 0) == match decode_from(m, schema, i) {
            Ok(rest) => Ok::<Seq<Option<ValueSpec>>, ErrorSpec>(prefix + rest),
            Err(e) => Err::<Seq<Option<ValueSpec>>, ErrorSpec>(e),
        },
    decreases i,
{
    if i == 0 {
        match decode_from(m, schema, 0) {
            Ok(rest) => {
                assert(prefix + rest =~= rest);
            },
            Err(_) => {},
        }
    } else {
        lemma_decode_from_split(m, schema, i - 1, prefix.take(i - 1));
        assert(decode_field_spec(m, schema[i - 1].name, schema[i - 1].kind, schema[i - 1].optional)
            == Ok::<Option<ValueSpec>, ErrorSpec>(prefix[i - 1]));
        match decode_from(m, schema, i) {
            Ok(rest) => {
                assert(prefix.take(i - 1) + (seq![prefix[i - 1]] + rest) =~= prefix + rest);
            },
            Err(_) => {},
        }
    }
}

/// The decode context: the header collection being read and the index of the
/// field the next value will come from.
pub struct Deserializer<'a> {
    source: &'a http::HeaderMap,
    index: usize,
}

impl<'a> Deserializer<'a> {
    /// The contents of the header collection being read.
    pub closed spec fn contents(&self) -> Map<Seq<char>, Seq<u8>> {
        entries(*self.source)
    }

    /// The index of the schema field the next value will come from.
    pub closed spec fn position(&self) -> int {
        self.index as int
    }

    /// Starts a decode over the given header collection, at the first field.
    pub fn from_header_map(h: &'a http::HeaderMap) -> (d: Deserializer<'a>)
        ensures
            d.contents() == entries(*h),
            d.position() == 0,
    {
        Deserializer { source: h, index: 0 }
    }

    /// Decodes the value of the field the context stands on and moves past
    /// it. Asking for a value beyond the schema's declared fields fails with
    /// `InvalidLength`, naming the index asked for and the declared count.
    pub fn next_value(&mut self, schema: &Vec<FieldDecl>) -> (r: Result<Option<Value>, Error>)
        ensures
            final(self).contents() == old(self).contents(),
            old(self).position() >= schema@.len() ==> {
                &&& final(self).position() == old(self).position()
                &&& r matches Err(e) && e@ == ErrorSpec::InvalidLength(
                    old(self).position(),
                    schema@.len() as int,
                )
            },
            old(self).position() < schema@.len() ==> {
                &&& final(self).position() == old(self).position() + 1
                &&& match r {
                    Ok(v) => decode_field_spec(
                        old(self).contents(),
                        schema@[old(self).position()]@.name,
                        schema@[old(self).position()]@.kind,
                        schema@[old(self).position()]@.optional,
                    ) == Ok::<Option<ValueSpec>, ErrorSpec>(v.deep_view()),
                    Err(e) => decode_field_spec(
                        old(self).contents(),
                        schema@[old(self).position()]@.name,
                        schema@[old(self).position()]@.kind,
                        schema@[old(self).position()]@.optional,
                    ) == Err::<Option<ValueSpec>, ErrorSpec>(e@),
                }
            },
    {
        if self.index >= schema.len() {
            Err(Error::InvalidLength(self.index, schema.len()))
        } else {
            let decl = &schema[self.index];
            self.index = self.index + 1;
            decode_field(self.source, decl)
        }
    }
}

/// Decodes a record from the header collection: every schema field visited
/// strictly in declared order, the first failure aborting the whole call.
pub fn from_header_map(h: &http::HeaderMap, schema: &Vec<FieldDecl>) -> (r: Result<
    Vec<Option<Value>>,
    Error,
>)
    ensures
        match r {
            Ok(vals) => decode_record_spec(entries(*h), schema.deep_view()) == Ok::<
                Seq<Option<ValueSpec>>,
                ErrorSpec,
            >(vals.deep_view()),
            Err(e) => decode_record_spec(entries(*h), schema.deep_view()) == Err::<
                Seq<Option<ValueSpec>>,
                ErrorSpec,
            >(e@),
        },
{
    let ghost m = entries(*h);
    let ghost sview = schema.deep_view();
    let mut d = Deserializer::from_header_map(h);
    let mut out: Vec<Option<Value>> = Vec::new();
    let n = schema.len();
    let mut i: usize = 0;
    while i < n
        invariant
            n == schema@.len(),
            0 <= i <= n,
            sview == schema.deep_view(),
            m == entries(*h),
            d.contents() == m,
            d.position() == i as int,
            out@.len() == i,
            out.deep_view().len() == i,
            forall|j: int|
                0 <= j < i ==> decode_field_spec(
                    m,
                    (#[trigger] sview[j]).name,
                    sview[j].kind,
                    sview[j].optional,
                ) == Ok::<Option<ValueSpec>, ErrorSpec>(out.deep_view()[j]),
        decreases n - i,
    {
        let ghost prev = out.deep_view();
        match d.next_value(schema) {
            Ok(v) => {
                out.push(v);
                proof {
                    assert(out.deep_view() =~= prev.push(v.deep_view()));
                }
            },
            Err(e) => {
                proof {
                    lemma_decode_from_split(m, sview, i as int, prev);
                }
                return Err(e);
            },
        }
        i = i + 1;
    }
    proof {
        lemma_decode_from_split(m, sview, n as int, out.deep_view());
        assert(out.deep_view() + Seq::<Option<ValueSpec>>::empty() =~= out.deep_view());
    }
    Ok(out)
}

} // verus!
