//! Decimal text for the integer kinds: the parsing and formatting rules, the
//! executable parsers and formatters, and the round-trip lemmas.
//!
//! Parsing follows standard base-10 integer syntax: an optional single `+`
//! (or, for signed kinds, `-`) sign followed by one or more ASCII digits,
//! nothing else. Formatting produces the canonical form: no sign for
//! nonnegative values, a leading `-` otherwise, and no leading zeros.

use vstd::arithmetic::div_mod::lemma_fundamental_div_mod;
use vstd::prelude::*;

use crate::headers::push_char;

verus! {

/// True of the ASCII decimal digits.
pub open spec fn is_digit_char(c: char) -> bool {
    '0' <= c && c <= '9'
}

/// The numeric value of one ASCII digit.
pub open spec fn digit_val(c: char) -> nat {
    (c as u32 - '0' as u32) as nat
}

/// True when every character of `s` is an ASCII decimal digit.
pub open spec fn all_digits(s: Seq<char>) -> bool {
    forall|i: int| 0 <= i < s.len() ==> is_digit_char(#[trigger] s[i])
}

/// The value of a digit string read in base 10.
pub open spec fn digits_val(s: Seq<char>) -> nat
    decreases s.len(),
{
    if s.len() == 0 {
        0
    } else {
        digits_val(s.drop_last()) * 10 + digit_val(s.last())
    }
}

/// The value of a bare digit string: at least one digit and nothing else.
pub open spec fn digits_opt(s: Seq<char>) -> Option<nat> {
    if s.len() > 0 && all_digits(s) {
        Some(digits_val(s))
    } else {
        None
    }
}

/// Standard unsigned decimal parsing: an optional leading `+`, then digits.
pub open spec fn parse_nat(s: Seq<char>) -> Option<nat> {
    if s.len() > 0 && s[0] == '+' {
        digits_opt(s.drop_first())
    } else {
        digits_opt(s)
    }
}

/// Standard signed decimal parsing: an optional leading `+` or `-`, then
/// digits.
pub open spec fn parse_int(s: Seq<char>) -> Option<int> {
    if s.len() > 0 && s[0] == '-' {
        match digits_opt(s.drop_first()) {
            Some(n) => Some(-(n as int)),
            None => None,
        }
    } else {
        match parse_nat(s) {
            Some(n) => Some(n as int),
            None => None,
        }
    }
}

/// The ASCII digit for a value below ten.
pub open spec fn digit_char(d: nat) -> char {
    if d == 0 {
        '0'
    } else if d == 1 {
        '1'
    } else if d == 2 {
        '2'
    } else if d == 3 {
        '3'
    } else if d == 4 {
        '4'
    } else if d == 5 {
        '5'
    } else if d == 6 {
        '6'
    } else if d == 7 {
        '7'
    } else if d == 8 {
        '8'
    } else {
        '9'
    }
}

/// The canonical decimal form of a natural number: most significant digit
/// first, no sign, no leading zeros.
pub open spec fn dec_of_nat(n: nat) -> Seq<char>
    decreases n,
{
    if n < 10 {
        seq![digit_char(n)]
    } else {
        dec_of_nat(n / 10).push(digit_char(n % 10))
    }
}

/// The canonical decimal form of an integer: a leading `-` for negative
/// values, nothing else added.
pub open spec fn dec_of_int(v: int) -> Seq<char> {
    if v < 0 {
        seq!['-'] + dec_of_nat((-v) as nat)
    } else {
        dec_of_nat(v as nat)
    }
}

/// A digit string is worth at least any of its prefixes.
proof fn lemma_digits_val_prefix(s: Seq<char>, k: int)
    requires
        0 <= k <= s.len(),
    ensures
        digits_val(s.subrange(0, k)) <= digits_val(s),
    decreases s.len(),
{
    if k == s.len() {
        assert(s.subrange(0, k) =~= s);
    } else {
        assert(s.subrange(0, k) =~= s.drop_last().subrange(0, k));
        lemma_digits_val_prefix(s.drop_last(), k);
    }
}

/// Reading one more digit multiplies the prefix value by ten and adds it.
proof fn lemma_digits_val_step(s: Seq<char>, start: int, i: int)
    requires
        0 <= start <= i < s.len(),
    ensures
        digits_val(s.subrange(start, i + 1)) == digits_val(s.subrange(start, i)) * 10 + digit_val(
            s[i],
        ),
{
    assert(s.subrange(start, i + 1).drop_last() =~= s.subrange(start, i));
    assert(s.subrange(start, i + 1).last() == s[i]);
}

/// Parses the digit-only tail of `s` that starts at `start`, rejecting
/// values above `u128::MAX` as standard parsing does.
fn parse_digits_u128(s: &str, start: usize) -> (r: Option<u128>)
    requires
        start <= s@.len(),
    ensures
        r == match digits_opt(s@.subrange(start as int, s@.len() as int)) {
            Some(n) => if n <= u128::MAX {
                Some(n as u128)
            } else {
                None::<u128>
            },
            None => None::<u128>,
        },
{
    let ghost digits = s@.subrange(start as int, s@.len() as int);
    let n = s.unicode_len();
    if start == n {
        return None;
    }
    let mut i: usize = start;
    let mut acc: u128 = 0;
    while i < n
        invariant
            start <= i <= n,
            n == s@.len(),
            start < n,
            digits == s@.subrange(start as int, s@.len() as int),
            all_digits(s@.subrange(start as int, i as int)),
            acc as nat == digits_val(s@.subrange(start as int, i as int)),
        decreases n - i,
    {
        let c = s.get_char(i);
        let cu = c as u32;
        if cu < 48 || cu > 57 {
            proof {
                assert(digits[i - start] == s@[i as int]);
                assert(!is_digit_char(digits[i - start]));
            }
            return None;
        }
        let d: u128 = ((cu - 48) as u8) as u128;
        proof {
            lemma_digits_val_step(s@, start as int, i as int);
        }
        if acc > (u128::MAX - d) / 10 {
            proof {
                lemma_fundamental_div_mod(u128::MAX - d, 10);
                assert(digits_val(s@.subrange(start as int, i as int + 1)) > u128::MAX);
                assert(s@.subrange(start as int, i as int + 1) =~= digits.subrange(
                    0,
                    i as int + 1 - start,
                ));
                lemma_digits_val_prefix(digits, i as int + 1 - start);
            }
            return None;
        }
        acc = acc * 10 + d;
        i += 1;
        proof {
            assert(s@.subrange(start as int, i as int).drop_last() =~= s@.subrange(
                start as int,
                i as int - 1,
            ));
        }
    }
    proof {
        assert(s@.subrange(start as int, i as int) =~= digits);
    }
    Some(acc)
}

/// Parses `s` as an unsigned decimal number, rejecting values above
/// `u128::MAX`.
pub fn parse_nat_u128(s: &str) -> (r: Option<u128>)
    ensures
        r == match parse_nat(s@) {
            Some(n) => if n <= u128::MAX {
                Some(n as u128)
            } else {
                None::<u128>
            },
            None => None::<u128>,
        },
{
    let n = s.unicode_len();
    if n > 0 && s.get_char(0) == '+' {
        proof {
            assert(s@.drop_first() =~= s@.subrange(1, s@.len() as int));
        }
        parse_digits_u128(s, 1)
    } else {
        proof {
            assert(s@.subrange(0, s@.len() as int) =~= s@);
        }
        parse_digits_u128(s, 0)
    }
}

/// Parses `s` as a signed decimal number, rejecting values outside the
/// `i128` range.
pub fn parse_int_i128(s: &str) -> (r: Option<i128>)
    ensures
        r == match parse_int(s@) {
            Some(v) => if i128::MIN <= v <= i128::MAX {
                Some(v as i128)
            } else {
                None::<i128>
            },
            None => None::<i128>,
        },
{
    let n = s.unicode_len();
    if n > 0 && s.get_char(0) == '-' {
        proof {
            assert(s@.drop_first() =~= s@.subrange(1, s@.len() as int));
        }
        match parse_digits_u128(s, 1) {
            None => None,
            Some(mag) => {
                if mag <= 0x7fff_ffff_ffff_ffff_ffff_ffff_ffff_ffff {
                    Some(0i128 - (mag as i128))
                } else if mag == 0x8000_0000_0000_0000_0000_0000_0000_0000 {
                    Some(i128::MIN)
                } else {
                    None
                }
            },
        }
    } else {
        match parse_nat_u128(s) {
            None => None,
            Some(v) => {
                if v <= 0x7fff_ffff_ffff_ffff_ffff_ffff_ffff_ffff {
                    Some(v as i128)
                } else {
                    None
                }
            },
        }
    }
}

/// The digit for a value below ten.
fn digit_to_char(d: u128) -> (c: char)
    requires
        d < 10,
    ensures
        c == digit_char(d as nat),
{
    if d == 0 {
        '0'
    } else if d == 1 {
        '1'
    } else if d == 2 {
        '2'
    } else if d == 3 {
        '3'
    } else if d == 4 {
        '4'
    } else if d == 5 {
        '5'
    } else if d == 6 {
        '6'
    } else if d == 7 {
        '7'
    } else if d == 8 {
        '8'
    } else {
        '9'
    }
}

/// Formats `v` in its canonical decimal form.
pub fn format_u128(v: u128) -> (s: String)
    ensures
        s@ == dec_of_nat(v as nat),
    decreases v,
{
    if v < 10 {
        let mut s = String::new();
        push_char(&mut s, digit_to_char(v));
        proof {
            assert(Seq::<char>::empty().push(digit_char(v as nat)) =~= seq![
                digit_char(v as nat),
            ]);
        }
        s
    } else {
        let mut s = format_u128(v / 10);
        push_char(&mut s, digit_to_char(v % 10));
        s
    }
}

/// Formats `v` in its canonical decimal form.
pub fn format_i128(v: i128) -> (s: String)
    ensures
        s@ == dec_of_int(v as int),
{
    if v >= 0 {
        format_u128(v as u128)
    } else {
        let mag: u128 = if v == i128::MIN {
            0x8000_0000_0000_0000_0000_0000_0000_0000
        } else {
            (0i128 - v) as u128
        };
        proof {
            assert(mag as int == -(v as int));
        }
        let mut s = String::from_str("-");
        let digits = format_u128(mag);
        s.append(digits.as_str());
        proof {
            reveal_strlit("-");
            assert(s@ =~= seq!['-'] + dec_of_nat(mag as nat));
        }
        s
    }
}

/// The canonical decimal form of a natural number is one or more digits.
pub proof fn lemma_dec_of_nat_digits(n: nat)
    ensures
        dec_of_nat(n).len() >= 1,
        all_digits(dec_of_nat(n)),
    decreases n,
{
    if n < 10 {
    } else {
        lemma_dec_of_nat_digits(n / 10);
        assert forall|i: int| 0 <= i < dec_of_nat(n).len() implies is_digit_char(
            #[trigger] dec_of_nat(n)[i],
        ) by {
            if i < dec_of_nat(n).len() - 1 {
                assert(dec_of_nat(n)[i] == dec_of_nat(n / 10)[i]);
            }
        }
    }
}

/// Reading back the canonical decimal form of a natural number recovers it.
pub proof fn lemma_digits_val_dec_of_nat(n: nat)
    ensures
        digits_val(dec_of_nat(n)) == n,
    decreases n,
{
    if n < 10 {
        assert(dec_of_nat(n).drop_last() =~= Seq::<char>::empty());
        assert(digits_val(Seq::<char>::empty()) == 0);
        assert(digits_val(dec_of_nat(n)) == digit_val(digit_char(n)));
    } else {
        lemma_digits_val_dec_of_nat(n / 10);
        assert(dec_of_nat(n).drop_last() =~= dec_of_nat(n / 10));
        lemma_fundamental_div_mod(n as int, 10);
    }
}

/// Unsigned round trip: parsing the canonical decimal form of a natural
/// number yields that number.
pub proof fn lemma_parse_nat_dec_of_nat(n: nat)
    ensures
        parse_nat(dec_of_nat(n)) == Some(n),
{
    lemma_dec_of_nat_digits(n);
    lemma_digits_val_dec_of_nat(n);
    assert(is_digit_char(dec_of_nat(n)[0]));
}

/// Signed round trip: parsing the canonical decimal form of an integer
/// yields that integer.
pub proof fn lemma_parse_int_dec_of_int(v: int)
    ensures
        parse_int(dec_of_int(v)) == Some(v),
{
    if v < 0 {
        let mag = (-v) as nat;
        lemma_dec_of_nat_digits(mag);
        lemma_digits_val_dec_of_nat(mag);
        assert(dec_of_int(v)[0] == '-');
        assert(dec_of_int(v).drop_first() =~= dec_of_nat(mag));
    } else {
        lemma_dec_of_nat_digits(v as nat);
        lemma_digits_val_dec_of_nat(v as nat);
        assert(is_digit_char(dec_of_int(v)[0]));
    }
}

} // verus!
