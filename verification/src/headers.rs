//! The boundary to the `http` crate's header collection.
//!
//! A `http::HeaderMap` is modelled by [`entries`]: the map from each stored
//! (lowercase) header name to the raw bytes its first value carries. The
//! wrappers here state, over that model, what the collection's lookup and
//! insertion do; everything else in this crate is verified against those
//! contracts.

use vstd::prelude::*;
use vstd::utf8::encode_utf8;

verus! {

#[verifier::external_type_specification]
#[verifier::external_body]
#[verifier::reject_recursive_types(T)]
pub struct ExHeaderMap<T>(http::HeaderMap<T>);

#[verifier::external_type_specification]
#[verifier::external_body]
pub struct ExHeaderValue(http::HeaderValue);

/// The contents of a header collection: each stored name (always lowercase)
/// mapped to the raw bytes of its first value.
pub uninterp spec fn entries(m: http::HeaderMap) -> Map<Seq<char>, Seq<u8>>;

/// ASCII lowercasing of one character, the folding a header name undergoes.
pub open spec fn lower_char(c: char) -> char {
    if 'A' <= c && c <= 'Z' {
        ((c as u32) + 32) as char
    } else {
        c
    }
}

/// The canonical form of a header name: every ASCII uppercase letter folded
/// to lowercase. Lookups and insertions act on this form of their key.
pub open spec fn canonical_name(s: Seq<char>) -> Seq<char> {
    Seq::new(s.len(), |i: int| lower_char(s[i]))
}

/// True of the characters a header name may contain: the HTTP token
/// characters, letters of either case included.
pub open spec fn name_char_ok(c: char) -> bool {
    ('a' <= c && c <= 'z') || ('A' <= c && c <= 'Z') || ('0' <= c && c <= '9') || c == '!' || c
        == '#' || c == '$' || c == '%' || c == '&' || c == '\'' || c == '*' || c == '+' || c == '-'
        || c == '.' || c == '^' || c == '_' || c == '`' || c == '|' || c == '~'
}

/// True of the strings the collection accepts as a header name: nonempty, at
/// most 65535 characters, every character a token character.
pub open spec fn valid_header_name(s: Seq<char>) -> bool {
    1 <= s.len() <= 65535 && (forall|i: int| 0 <= i < s.len() ==> name_char_ok(#[trigger] s[i]))
}

/// True of the strings the collection accepts as a header value: every
/// character is a tab, or is neither an ASCII control character nor delete.
pub open spec fn valid_header_value(s: Seq<char>) -> bool {
    forall|i: int|
        0 <= i < s.len() ==> (#[trigger] s[i] == '\t' || (' ' <= s[i] && s[i] != '\u{7f}'))
}

/// Relies on `http::HeaderMap::new`: the fresh collection holds no entries.
#[verifier::external_body]
pub(crate) fn hm_new() -> (r: http::HeaderMap)
    ensures
        entries(r) =~= Map::empty(),
{
    http::HeaderMap::new()
}

/// Relies on `http::HeaderMap::contains_key` with a `&str` key: the key is
/// folded to lowercase and matched against the stored names; a key the
/// collection could never store matches nothing.
#[verifier::external_body]
pub(crate) fn hm_contains(m: &http::HeaderMap, key: &str) -> (r: bool)
    ensures
        r == entries(*m).dom().contains(canonical_name(key@)),
{
    m.contains_key(key)
}

/// Relies on `http::HeaderMap::get` with a `&str` key and on
/// `http::HeaderValue::as_bytes`: the key is folded to lowercase, and the
/// first value stored under it is returned as its raw bytes.
#[verifier::external_body]
pub(crate) fn hm_get(m: &http::HeaderMap, key: &str) -> (r: Option<Vec<u8>>)
    ensures
        match r {
            Some(bytes) => entries(*m).dom().contains(canonical_name(key@)) && bytes@ == entries(
                *m,
            )[canonical_name(key@)],
            None => !entries(*m).dom().contains(canonical_name(key@)),
        },
{
    match m.get(key) {
        None => None,
        Some(v) => Some(v.as_bytes().to_vec()),
    }
}

/// What one attempted insertion reported.
pub(crate) enum InsertOutcome {
    /// The entry was stored.
    Inserted,
    /// The key is not an acceptable header name.
    BadName,
    /// The value text is not an acceptable header value.
    BadValue,
    /// The collection refused to grow.
    Full,
}

/// Relies on `http::header::HeaderName::from_bytes`,
/// `http::HeaderValue::from_str` and `http::HeaderMap::try_insert`: a name of
/// 1 to 65535 token characters is folded to lowercase and accepted, a value
/// whose characters pass the header charset is accepted, and insertion then
/// replaces whatever the folded name held. `try_insert` refuses to grow only
/// near the collection's fixed capacity, which a collection of at most 6552
/// entries never reaches.
#[verifier::external_body]
pub(crate) fn hm_insert(m: &mut http::HeaderMap, key: &str, value: &str) -> (r: InsertOutcome)
    ensures
        (r is BadName) == !valid_header_name(key@),
        (r is BadValue) == (valid_header_name(key@) && !valid_header_value(value@)),
        r is Inserted ==> valid_header_name(key@) && valid_header_value(value@) && entries(
            *final(m),
        ) == entries(*old(m)).insert(canonical_name(key@), encode_utf8(value@)),
        !(r is Inserted) ==> entries(*final(m)) == entries(*old(m)),
        valid_header_name(key@) && valid_header_value(value@) && entries(*old(m)).dom().finite()
            && entries(*old(m)).dom().len() <= 6552 ==> r is Inserted,
{
    let name = match http::header::HeaderName::from_bytes(key.as_bytes()) {
        Ok(n) => n,
        Err(_) => return InsertOutcome::BadName,
    };
    let val = match http::HeaderValue::from_str(value) {
        Ok(v) => v,
        Err(_) => return InsertOutcome::BadValue,
    };
    match m.try_insert(name, val) {
        Ok(_) => InsertOutcome::Inserted,
        Err(_) => InsertOutcome::Full,
    }
}

/// Relies on `std::str::from_utf8`: it accepts exactly the byte sequences
/// that are a UTF-8 encoding, and decodes them to the encoded characters.
#[verifier::external_body]
pub(crate) fn bytes_to_string(bytes: &Vec<u8>) -> (r: Option<String>)
    ensures
        match r {
            Some(s) => vstd::utf8::valid_utf8(bytes@) && s@ == vstd::utf8::decode_utf8(bytes@),
            None => !vstd::utf8::valid_utf8(bytes@),
        },
{
    match std::str::from_utf8(bytes.as_slice()) {
        Ok(s) => Some(s.to_string()),
        Err(_) => None,
    }
}

/// Relies on `String::push`: it appends the given character.
#[verifier::external_body]
pub(crate) fn push_char(s: &mut String, c: char)
    ensures
        final(s)@ == old(s)@.push(c),
{
    s.push(c);
}

} // verus!
