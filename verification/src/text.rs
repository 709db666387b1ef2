//! Reading values out of strings: prefixes, separators and decimal numbers.

use vstd::prelude::*;

verus! {

broadcast use vstd::string::is_ascii_spec_bytes, vstd::utf8::is_ascii_chars_encode_utf8;

/// `str::strip_prefix` with a string pattern: where `s` starts with
/// `prefix`, the rest of `s`; else `None`.
#[verifier::external_body]
pub(crate) fn strip_prefix<'a>(s: &'a str, prefix: &str) -> (r: Option<&'a str>)
    ensures
        match r {
            Some(rest) => s@ == prefix@ + rest@,
            None => !prefix@.is_prefix_of(s@),
        },
{
    s.strip_prefix(prefix)
}

/// `str::split_once` with a `char` pattern: the parts of `s` before and
/// after the first occurrence of `delimiter`, or `None` where it does not
/// occur.
#[verifier::external_body]
pub(crate) fn split_once<'a>(s: &'a str, delimiter: char) -> (r: Option<(&'a str, &'a str)>)
    ensures
        match r {
            Some((before, after)) => {
                &&& s@ == before@ + seq![delimiter] + after@
                &&& !before@.contains(delimiter)
            },
            None => !s@.contains(delimiter),
        },
{
    s.split_once(delimiter)
}

/// An ASCII decimal digit.
pub open spec fn is_decimal_digit(c: char) -> bool {
    '0' <= c <= '9'
}

/// The number that a sequence of decimal digits writes.
pub open spec fn digits_value(d: Seq<char>) -> int
    decreases d.len(),
{
    if d.len() == 0 {
        0
    } else {
        digits_value(d.drop_last()) * 10 + (d.last() as int - '0' as int)
    }
}

/// The part of `s` after an optional leading `+`.
pub open spec fn unsigned_digits(s: Seq<char>) -> Seq<char> {
    if s.len() > 0 && s[0] == '+' {
        s.drop_first()
    } else {
        s
    }
}

/// Every element of `d` is a decimal digit.
pub open spec fn all_decimal_digits(d: Seq<char>) -> bool {
    forall|i: int| 0 <= i < d.len() ==> is_decimal_digit(#[trigger] d[i])
}

/// What `u32`'s `FromStr` reads from `s`: an optional `+`, then one or more
/// decimal digits writing a number that fits in 32 bits; else nothing.
pub open spec fn parse_u32(s: Seq<char>) -> Option<u32> {
    let d = unsigned_digits(s);
    if d.len() > 0 && all_decimal_digits(d) && digits_value(d) <= u32::MAX {
        Some(digits_value(d) as u32)
    } else {
        None
    }
}

proof fn lemma_digits_value_grows(d: Seq<char>, i: int)
    requires
        0 <= i <= d.len(),
        forall|k: int| 0 <= k < d.len() ==> is_decimal_digit(#[trigger] d[k]),
    ensures
        0 <= digits_value(d.take(i)) <= digits_value(d),
    decreases d.len() - i,
{
    if i < d.len() {
        lemma_digits_value_grows(d, i + 1);
        assert(d.take(i + 1).drop_last() =~= d.take(i));
    } else {
        assert(d.take(i) =~= d);
    }
    lemma_digits_value_nonneg(d.take(i));
}

proof fn lemma_digits_value_nonneg(d: Seq<char>)
    requires
        forall|k: int| 0 <= k < d.len() ==> is_decimal_digit(#[trigger] d[k]),
    ensures
        0 <= digits_value(d),
    decreases d.len(),
{
    if d.len() > 0 {
        lemma_digits_value_nonneg(d.drop_last());
    }
}

/// Parses a `u32` as its `FromStr` does.
pub fn parse_u32_str(s: &str) -> (r: Option<u32>)
    ensures
        r == parse_u32(s@),
{
    if !s.is_ascii() {
        proof {
            let k = choose|k: int| 0 <= k < s@.len() && !('\0' <= #[trigger] s@[k] <= '\u{7f}');
            let d = unsigned_digits(s@);
            if s@.len() > 0 && s@[0] == '+' {
                assert(k >= 1);
                assert(d[k - 1] == s@[k]);
                assert(!is_decimal_digit(d[k - 1]));
            } else {
                assert(!is_decimal_digit(d[k]));
            }
            assert(!all_decimal_digits(d));
        }
        return None;
    }
    let bytes = s.as_bytes();
    let ghost chars = s@;
    proof {
        assert(bytes@.len() == chars.len());
    }
    let mut i: usize = 0;
    if bytes.len() > 0 && bytes[0] == 43u8 {
        i = 1;
    }
    let start = i;
    let ghost d = unsigned_digits(chars);
    proof {
        assert(d =~= chars.skip(start as int));
    }
    if start == bytes.len() {
        proof {
            assert(d.len() == 0);
        }
        return None;
    }
    let mut value: u64 = 0;
    while i < bytes.len()
        invariant
            start <= i <= bytes@.len(),
            bytes@.len() == chars.len(),
            chars == s@,
            vstd::utf8::is_ascii_chars(chars),
            forall|k: int| 0 <= k < chars.len() ==> #[trigger] bytes@[k] == chars[k] as u8,
            d =~= chars.skip(start as int),
            d == unsigned_digits(chars),
            forall|k: int| 0 <= k < i - start ==> is_decimal_digit(#[trigger] d[k]),
            value == digits_value(d.take(i - start)),
            value <= u32::MAX,
        decreases bytes@.len() - i,
    {
        let b = bytes[i];
        proof {
            assert(d[i - start] == chars[i as int]);
            assert((chars[i as int] as nat) < 128);
        }
        if b < 48u8 || b > 57u8 {
            proof {
                assert(!is_decimal_digit(d[i - start]));
                assert(!all_decimal_digits(d));
            }
            return None;
        }
        proof {
            assert(d.take(i - start + 1).drop_last() =~= d.take(i - start));
            assert(is_decimal_digit(d[i - start]));
        }
        value = value * 10 + (b - 48u8) as u64;
        if value > 4294967295u64 {
            proof {
                assert(value == digits_value(d.take(i - start + 1)));
                if all_decimal_digits(d) {
                    lemma_digits_value_grows(d, i - start + 1);
                }
            }
            return None;
        }
        i = i + 1;
    }
    proof {
        assert(d.take(i - start) =~= d);
        assert(all_decimal_digits(d));
    }
    Some(value as u32)
}

} // verus!
