//! The laws relating decoding and encoding: the round trip over a fully
//! present record, the omission of absent optional fields, and the fail-fast
//! error rules.

use vstd::prelude::*;
use vstd::utf8::encode_utf8;
use vstd::utf8::valid_utf8;

use crate::de::decode_field_spec;
use crate::de::decode_record_spec;
use crate::de::decode_value_spec;
use crate::de::digit_error;
use crate::de::lemma_decode_from_split;
use crate::error::ErrorSpec;
use crate::field::kind_of;
use crate::field::FieldDeclSpec;
use crate::field::FieldValueSpec;
use crate::field::Kind;
use crate::field::ValueSpec;
use crate::headers::canonical_name;
use crate::num::lemma_parse_int_dec_of_int;
use crate::num::lemma_parse_nat_dec_of_nat;
use crate::num::parse_int;
use crate::num::parse_nat;
use crate::ser::encode_from;
use crate::ser::encode_record_spec;
use crate::ser::encode_value_spec;

verus! {

/// True of the signed and unsigned integer kinds.
pub open spec fn integer_kind(kind: Kind) -> bool {
    match kind {
        Kind::I8 | Kind::I16 | Kind::I32 | Kind::I64 | Kind::I128 => true,
        Kind::U8 | Kind::U16 | Kind::U32 | Kind::U64 | Kind::U128 => true,
        _ => false,
    }
}

/// The canonical text of a value whose encoding succeeds.
pub open spec fn text_of(v: ValueSpec) -> Seq<char> {
    match encode_value_spec(v) {
        Ok(t) => t,
        Err(_) => Seq::empty(),
    }
}

/// Decoding the canonical text of a value at the value's own kind recovers
/// the value, for every kind that has a decode rule.
pub proof fn lemma_value_round_trip(v: ValueSpec)
    requires
        kind_of(v) != Kind::Bool,
        encode_value_spec(v) is Ok,
    ensures
        decode_value_spec(text_of(v), kind_of(v)) == Ok::<ValueSpec, ErrorSpec>(v),
{
    broadcast use vstd::utf8::decode_utf8_encode_utf8;

    match v {
        ValueSpec::Bool(_) => {},
        ValueSpec::I8(x) => {
            lemma_parse_int_dec_of_int(x as int);
        },
        ValueSpec::I16(x) => {
            lemma_parse_int_dec_of_int(x as int);
        },
        ValueSpec::I32(x) => {
            lemma_parse_int_dec_of_int(x as int);
        },
        ValueSpec::I64(x) => {
            lemma_parse_int_dec_of_int(x as int);
        },
        ValueSpec::I128(x) => {
            lemma_parse_int_dec_of_int(x as int);
        },
        ValueSpec::U8(x) => {
            lemma_parse_nat_dec_of_nat(x as nat);
        },
        ValueSpec::U16(x) => {
            lemma_parse_nat_dec_of_nat(x as nat);
        },
        ValueSpec::U32(x) => {
            lemma_parse_nat_dec_of_nat(x as nat);
        },
        ValueSpec::U64(x) => {
            lemma_parse_nat_dec_of_nat(x as nat);
        },
        ValueSpec::U128(x) => {
            lemma_parse_nat_dec_of_nat(x as nat);
        },
        ValueSpec::Char(_) => {},
        ValueSpec::Str(_) => {},
        ValueSpec::Bytes(_) => {},
    }
}

/// A key that no remaining present field writes under is left exactly as the
/// accumulator holds it.
proof fn lemma_encode_frame(
    fields: Seq<FieldValueSpec>,
    i: int,
    acc: Map<Seq<char>, Seq<u8>>,
    m: Map<Seq<char>, Seq<u8>>,
    k: Seq<char>,
)
    requires
        0 <= i <= fields.len(),
        encode_from(fields, i, acc) == Ok::<Map<Seq<char>, Seq<u8>>, ErrorSpec>(m),
        forall|j: int|
            i <= j < fields.len() && (#[trigger] fields[j]).value is Some ==> canonical_name(
                fields[j].name,
            ) != k,
    ensures
        m.dom().contains(k) == acc.dom().contains(k),
        acc.dom().contains(k) ==> m[k] == acc[k],
    decreases fields.len() - i,
{
    if i < fields.len() {
        match fields[i].value {
            None => {
                lemma_encode_frame(fields, i + 1, acc, m, k);
            },
            Some(v) => {
                let text = text_of(v);
                let acc2 = acc.insert(canonical_name(fields[i].name), encode_utf8(text));
                lemma_encode_frame(fields, i + 1, acc2, m, k);
            },
        }
    }
}

/// After a successful encode, a present field whose folded name no later
/// present field reuses is stored: its value encoded successfully, and the
/// collection holds its canonical text's bytes under the folded name.
proof fn lemma_encode_lookup(
    fields: Seq<FieldValueSpec>,
    i: int,
    acc: Map<Seq<char>, Seq<u8>>,
    m: Map<Seq<char>, Seq<u8>>,
    j: int,
)
    requires
        0 <= i <= j < fields.len(),
        encode_from(fields, i, acc) == Ok::<Map<Seq<char>, Seq<u8>>, ErrorSpec>(m),
        fields[j].value is Some,
        forall|j2: int|
            j < j2 < fields.len() && (#[trigger] fields[j2]).value is Some ==> canonical_name(
                fields[j2].name,
            ) != canonical_name(fields[j].name),
    ensures
        encode_value_spec(fields[j].value.unwrap()) is Ok,
        m.dom().contains(canonical_name(fields[j].name)),
        m[canonical_name(fields[j].name)] == encode_utf8(text_of(fields[j].value.unwrap())),
    decreases j - i,
{
    if i == j {
        let v = fields[j].value.unwrap();
        let text = text_of(v);
        let acc2 = acc.insert(canonical_name(fields[j].name), encode_utf8(text));
        lemma_encode_frame(fields, j + 1, acc2, m, canonical_name(fields[j].name));
    } else {
        match fields[i].value {
            None => {
                lemma_encode_lookup(fields, i + 1, acc, m, j);
            },
            Some(v) => {
                let acc2 = acc.insert(canonical_name(fields[i].name), encode_utf8(text_of(v)));
                lemma_encode_lookup(fields, i + 1, acc2, m, j);
            },
        }
    }
}

/// Round trip: a record whose fields are all present, non-optional scalars
/// of their schema kinds — booleans excluded, which have no decode rule —
/// and whose folded names are pairwise distinct, decodes from its own
/// encoding back to exactly its values.
pub proof fn lemma_round_trip(
    fields: Seq<FieldValueSpec>,
    schema: Seq<FieldDeclSpec>,
    m: Map<Seq<char>, Seq<u8>>,
)
    requires
        fields.len() == schema.len(),
        forall|i: int| 0 <= i < schema.len() ==> (#[trigger] schema[i]).name == fields[i].name,
        forall|i: int| 0 <= i < schema.len() ==> !(#[trigger] schema[i]).optional,
        forall|i: int|
            0 <= i < fields.len() ==> (#[trigger] fields[i]).value is Some && kind_of(
                fields[i].value.unwrap(),
            ) == schema[i].kind && schema[i].kind != Kind::Bool,
        forall|i: int, j: int|
            0 <= i < j < fields.len() ==> canonical_name((#[trigger] fields[i]).name)
                != canonical_name((#[trigger] fields[j]).name),
        encode_record_spec(fields) == Ok::<Map<Seq<char>, Seq<u8>>, ErrorSpec>(m),
    ensures
        decode_record_spec(m, schema) == Ok::<Seq<Option<ValueSpec>>, ErrorSpec>(
            Seq::new(fields.len() as nat, |i: int| fields[i].value),
        ),
{
    broadcast use
        vstd::utf8::encode_utf8_valid_utf8,
        vstd::utf8::encode_utf8_decode_utf8,
    ;

    let vals = Seq::new(fields.len() as nat, |i: int| fields[i].value);
    assert forall|j: int| 0 <= j < schema.len() implies decode_field_spec(
        m,
        (#[trigger] schema[j]).name,
        schema[j].kind,
        schema[j].optional,
    ) == Ok::<Option<ValueSpec>, ErrorSpec>(vals[j]) by {
        lemma_encode_lookup(fields, 0, Map::empty(), m, j);
        let v = fields[j].value.unwrap();
        lemma_value_round_trip(v);
    }
    lemma_decode_from_split(m, schema, schema.len() as int, vals);
    assert(vals + Seq::<Option<ValueSpec>>::empty() =~= vals);
}

/// Optional omission: encoding a record whose field `i` is an absent
/// optional leaves that field's key out of the destination entirely — no
/// other field writing under the same folded name — and decoding the result
/// at that field, whatever its kind, yields the absent variant.
pub proof fn lemma_optional_omitted(
    fields: Seq<FieldValueSpec>,
    m: Map<Seq<char>, Seq<u8>>,
    i: int,
)
    requires
        0 <= i < fields.len(),
        fields[i].value is None,
        forall|j: int|
            0 <= j < fields.len() && (#[trigger] fields[j]).value is Some ==> canonical_name(
                fields[j].name,
            ) != canonical_name(fields[i].name),
        encode_record_spec(fields) == Ok::<Map<Seq<char>, Seq<u8>>, ErrorSpec>(m),
    ensures
        !m.dom().contains(canonical_name(fields[i].name)),
        forall|kind: Kind|
            #[trigger] decode_field_spec(m, fields[i].name, kind, true) == Ok::<
                Option<ValueSpec>,
                ErrorSpec,
            >(None),
{
    lemma_encode_frame(fields, 0, Map::empty(), m, canonical_name(fields[i].name));
}

/// Schema-order strictness: when every field before `i` decodes, and field
/// `i` is required but its key is absent, the record decode fails with
/// `MissingField` naming field `i` — whatever stands in the fields after it.
pub proof fn lemma_missing_field_first(
    m: Map<Seq<char>, Seq<u8>>,
    schema: Seq<FieldDeclSpec>,
    i: int,
)
    requires
        0 <= i < schema.len(),
        !schema[i].optional,
        !m.dom().contains(canonical_name(schema[i].name)),
        forall|j: int|
            0 <= j < i ==> decode_field_spec(
                m,
                (#[trigger] schema[j]).name,
                schema[j].kind,
                schema[j].optional,
            ) is Ok,
    ensures
        decode_record_spec(m, schema) == Err::<Seq<Option<ValueSpec>>, ErrorSpec>(
            ErrorSpec::MissingField(schema[i].name),
        ),
{
    let prefix = Seq::new(
        i as nat,
        |j: int|
            match decode_field_spec(m, schema[j].name, schema[j].kind, schema[j].optional) {
                Ok(v) => v,
                Err(_) => None,
            },
    );
    lemma_decode_from_split(m, schema, i, prefix);
}

/// Fail-fast on bad numerics: raw text that is not a signed decimal number
/// is not an unsigned one either, and decoding it at any integer kind fails
/// with `InvalidValue` and the `digit only` description.
pub proof fn lemma_bad_numeric(raw: Seq<char>, kind: Kind)
    requires
        integer_kind(kind),
        parse_int(raw) is None,
    ensures
        decode_value_spec(raw, kind) == Err::<ValueSpec, ErrorSpec>(digit_error(raw)),
{
    assert(parse_nat(raw) is None);
}

/// Character arity: raw text of anything but exactly one character fails the
/// single-character kind with `InvalidValue` and the `a char` description.
pub proof fn lemma_char_arity(raw: Seq<char>)
    requires
        raw.len() != 1,
    ensures
        decode_value_spec(raw, Kind::Char) == Err::<ValueSpec, ErrorSpec>(
            ErrorSpec::InvalidValue(raw, "a char"@),
        ),
{
}

/// UTF-8 guard: a present header value whose bytes are not valid UTF-8 fails
/// the field decode with `InvalidUtf8`, whatever kind the field declares and
/// whether or not it is optional.
pub proof fn lemma_utf8_guard(
    m: Map<Seq<char>, Seq<u8>>,
    name: Seq<char>,
    kind: Kind,
    optional: bool,
)
    requires
        m.dom().contains(canonical_name(name)),
        !valid_utf8(m[canonical_name(name)]),
    ensures
        decode_field_spec(m, name, kind, optional) == Err::<Option<ValueSpec>, ErrorSpec>(
            ErrorSpec::InvalidUtf8,
        ),
{
}

} // verus!
