//! Reading a user identifier from a path parameter.
use vstd::prelude::*;
use vstd::string::StringSliceAdditionalSpecFns;

verus! {

/// The largest magnitude that a negative identifier can have.
pub const MAGNITUDE_LIMIT: u64 = 2147483648;

/// Whether a character is an ASCII decimal digit.
pub open spec fn is_digit(c: char) -> bool {
    '0' <= c <= '9'
}

/// Whether every character is an ASCII decimal digit.
pub open spec fn all_digits(s: Seq<char>) -> bool {
    forall|i: int| 0 <= i < s.len() ==> is_digit(#[trigger] s[i])
}

/// The number that a run of decimal digits writes.
pub open spec fn digits_value(s: Seq<char>) -> nat
    decreases s.len(),
{
    if s.len() == 0 {
        0
    } else {
        (digits_value(s.drop_last()) * 10 + (s.last() as int - '0' as int)) as nat
    }
}

/// Whether the text starts with a sign.
pub open spec fn has_sign(s: Seq<char>) -> bool {
    s.len() > 0 && (s[0] == '-' || s[0] == '+')
}

/// The text without its sign.
pub open spec fn digits_of(s: Seq<char>) -> Seq<char> {
    if has_sign(s) {
        s.subrange(1, s.len() as int)
    } else {
        s
    }
}

/// The integer that the text writes, before any range is asked for.
pub open spec fn signed_value(s: Seq<char>) -> int {
    if s.len() > 0 && s[0] == '-' {
        -(digits_value(digits_of(s)) as int)
    } else {
        digits_value(digits_of(s)) as int
    }
}

/// The identifier that a path parameter names: an optional `+` or `-`,
/// then one or more decimal digits, the whole within the range of `i32`.
/// Anything else names none.
pub open spec fn user_id_of(s: Seq<char>) -> Option<i32> {
    if digits_of(s).len() > 0 && all_digits(digits_of(s)) && i32::MIN <= signed_value(s)
        <= i32::MAX {
        Some(signed_value(s) as i32)
    } else {
        None
    }
}

/// A text with a character outside ASCII names no identifier.
proof fn beyond_ascii_names_none(s: Seq<char>)
    requires
        !vstd::utf8::is_ascii_chars(s),
    ensures
        user_id_of(s) is None,
{
    let i = choose|i: int| 0 <= i < s.len() && !('\0' <= #[trigger] s[i] <= '\u{7f}');
    if has_sign(s) {
        assert(digits_of(s)[i - 1] == s[i]);
        assert(!is_digit(digits_of(s)[i - 1]));
    } else {
        assert(!is_digit(digits_of(s)[i]));
    }
}

/// Reads a user identifier from a path parameter.
pub fn parse_user_id(text: &str) -> (r: Option<i32>)
    ensures
        r == user_id_of(text@),
{
    if !text.is_ascii() {
        proof {
            beyond_ascii_names_none(text@);
        }
        return None;
    }
    let bytes = text.as_bytes();
    let n: usize = bytes.len();
    let negative: bool = n > 0 && bytes[0] == 45;
    let start: usize = if n > 0 && (bytes[0] == 45 || bytes[0] == 43) {
        1
    } else {
        0
    };
    if start == n {
        return None;
    }
    let ghost digits = digits_of(text@);
    let mut magnitude: u64 = 0;
    let mut too_large: bool = false;
    let mut i: usize = start;
    while i < n
        invariant
            start <= i <= n,
            n == bytes@.len(),
            n == text@.len(),
            forall|k: int|
                0 <= k < n ==> '\0' <= text@[k] <= '\u{7f}' && #[trigger] bytes@[k] == text@[k] as u8,
            digits == digits_of(text@),
            digits == text@.subrange(start as int, n as int),
            all_digits(digits.subrange(0, i - start)),
            too_large ==> digits_value(digits.subrange(0, i - start)) > MAGNITUDE_LIMIT,
            !too_large ==> magnitude == digits_value(digits.subrange(0, i - start)),
            magnitude <= MAGNITUDE_LIMIT,
        decreases n - i,
    {
        let b: u8 = bytes[i];
        proof {
            assert(bytes@[i as int] as int == text@[i as int] as int);
            assert(digits[i - start] == text@[i as int]);
        }
        if b < 48 || b > 57 {
            proof {
                assert(!is_digit(digits[i - start]));
            }
            return None;
        }
        proof {
            let before = digits.subrange(0, i - start);
            let after = digits.subrange(0, i - start + 1);
            assert(after.drop_last() =~= before);
            let c = text@[i as int];
            assert(b as int == c as int);
            assert(after.last() == c);
            assert(digits_value(after) == digits_value(before) * 10 + (b - 48));
            assert forall|k: int| 0 <= k < after.len() implies is_digit(#[trigger] after[k]) by {
                if k < before.len() {
                    assert(after[k] == before[k]);
                }
            }
        }
        if !too_large {
            let next: u64 = magnitude * 10 + (b - 48) as u64;
            if next > MAGNITUDE_LIMIT {
                too_large = true;
            } else {
                magnitude = next;
            }
        }
        i = i + 1;
    }
    proof {
        assert(digits.subrange(0, n - start) =~= digits);
    }
    if too_large {
        None
    } else if negative {
        if magnitude == MAGNITUDE_LIMIT {
            Some(i32::MIN)
        } else {
            let m: i32 = magnitude as i32;
            Some(-m)
        }
    } else if magnitude == MAGNITUDE_LIMIT {
        None
    } else {
        Some(magnitude as i32)
    }
}

} // verus!
