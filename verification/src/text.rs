//! Text: ASCII case folding, and numbers written in decimal and hexadecimal.

use vstd::prelude::*;

verus! {

/// `String::push`: the character comes to stand at the end of the string.
pub assume_specification[ String::push ](s: &mut String, c: char)
    ensures
        final(s)@ == old(s)@.push(c),
;

/// The ASCII upper case of a character: the letters `a` to `z` become `A`
/// to `Z`, every other character stays.
pub open spec fn ascii_upper(c: char) -> char {
    if 'a' <= c && c <= 'z' {
        ((c as u8) - 32) as u8 as char
    } else {
        c
    }
}

/// The text with every character in ASCII upper case.
pub open spec fn upper(s: Seq<char>) -> Seq<char> {
    Seq::new(s.len(), |i: int| ascii_upper(s[i]))
}

/// The character for a decimal digit.
pub open spec fn decimal_digit(d: int) -> char {
    (48 + d) as u8 as char
}

/// The decimal digits of a number, without leading zeros; `0` for zero.
pub open spec fn decimal(n: nat) -> Seq<char>
    decreases n,
{
    if n < 10 {
        seq![decimal_digit(n as int)]
    } else {
        decimal(n / 10).push(decimal_digit((n % 10) as int))
    }
}

/// A signed number in decimal, with a minus sign before a negative one.
pub open spec fn signed_decimal(v: int) -> Seq<char> {
    if v < 0 {
        seq!['-'] + decimal((-v) as nat)
    } else {
        decimal(v as nat)
    }
}

/// The lower-case hexadecimal digit for a number below 16.
pub open spec fn hex_lower(d: int) -> char {
    if d < 10 {
        (48 + d) as u8 as char
    } else {
        (87 + d) as u8 as char
    }
}

/// The lower-case hexadecimal digits of a number, without leading zeros;
/// `0` for zero.
pub open spec fn hex_number(n: nat) -> Seq<char>
    decreases n,
{
    if n < 16 {
        seq![hex_lower(n as int)]
    } else {
        hex_number(n / 16).push(hex_lower((n % 16) as int))
    }
}

/// The upper-case hexadecimal digit for a number below 16.
pub open spec fn hex_upper(d: int) -> char {
    if d < 10 {
        (48 + d) as u8 as char
    } else {
        (55 + d) as u8 as char
    }
}

/// Each octet as two lower-case hexadecimal digits.
pub open spec fn hex_text(bytes: Seq<u8>) -> Seq<char>
    decreases bytes.len(),
{
    if bytes.len() == 0 {
        Seq::empty()
    } else {
        hex_text(bytes.drop_last()).push(hex_lower(bytes.last() as int / 16)).push(
            hex_lower(bytes.last() as int % 16),
        )
    }
}

/// An octet as two upper-case hexadecimal digits.
pub open spec fn hex_pair_upper(b: u8) -> Seq<char> {
    seq![hex_upper(b as int / 16), hex_upper(b as int % 16)]
}

/// The ASCII upper case of a character.
pub fn to_ascii_upper(c: char) -> (r: char)
    ensures
        r == ascii_upper(c),
{
    if c >= 'a' && c <= 'z' {
        ((c as u8) - 32) as char
    } else {
        c
    }
}

/// Whether two texts are the same apart from the case of ASCII letters.
pub fn eq_ignore_ascii_case(a: &str, b: &str) -> (r: bool)
    ensures
        r == (upper(a@) == upper(b@)),
{
    let n = a.unicode_len();
    if n != b.unicode_len() {
        proof {
            assert(upper(a@).len() != upper(b@).len());
        }
        return false;
    }
    let mut i: usize = 0;
    while i < n
        invariant
            i <= n,
            n == a@.len(),
            n == b@.len(),
            forall|j: int| 0 <= j < i ==> ascii_upper(a@[j]) == ascii_upper(b@[j]),
        decreases n - i,
    {
        if to_ascii_upper(a.get_char(i)) != to_ascii_upper(b.get_char(i)) {
            proof {
                assert(upper(a@)[i as int] != upper(b@)[i as int]);
            }
            return false;
        }
        i += 1;
    }
    proof {
        assert(upper(a@) =~= upper(b@));
    }
    true
}

/// Appends a number in decimal.
pub fn push_decimal(out: &mut String, n: u64)
    ensures
        final(out)@ == old(out)@ + decimal(n as nat),
    decreases n,
{
    if n >= 10 {
        push_decimal(out, n / 10);
    }
    out.push((48 + (n % 10) as u8) as char);
    proof {
        assert(final(out)@ =~= old(out)@ + decimal(n as nat));
    }
}

/// Appends a signed number in decimal.
pub fn push_signed_decimal(out: &mut String, v: i64)
    ensures
        final(out)@ == old(out)@ + signed_decimal(v as int),
{
    if v < 0 {
        out.push('-');
        let magnitude: u64 = if v == i64::MIN {
            0x8000_0000_0000_0000
        } else {
            (-v) as u64
        };
        push_decimal(out, magnitude);
        proof {
            assert(final(out)@ =~= old(out)@ + signed_decimal(v as int));
        }
    } else {
        push_decimal(out, v as u64);
    }
}

/// Appends a number in lower-case hexadecimal, without leading zeros.
pub fn push_hex_number(out: &mut String, n: u64)
    ensures
        final(out)@ == old(out)@ + hex_number(n as nat),
    decreases n,
{
    if n >= 16 {
        push_hex_number(out, n / 16);
    }
    let d = (n % 16) as u8;
    out.push(if d < 10 {
        (48 + d) as char
    } else {
        (87 + d) as char
    });
    proof {
        assert(final(out)@ =~= old(out)@ + hex_number(n as nat));
    }
}

/// Appends an octet as two lower-case hexadecimal digits.
pub fn push_hex_lower(out: &mut String, b: u8)
    ensures
        final(out)@ == old(out)@.push(hex_lower(b as int / 16)).push(hex_lower(b as int % 16)),
{
    let hi = b / 16;
    let lo = b % 16;
    out.push(if hi < 10 {
        (48 + hi) as char
    } else {
        (87 + hi) as char
    });
    out.push(if lo < 10 {
        (48 + lo) as char
    } else {
        (87 + lo) as char
    });
}

/// Appends an octet as two upper-case hexadecimal digits.
pub fn push_hex_upper(out: &mut String, b: u8)
    ensures
        final(out)@ == old(out)@ + hex_pair_upper(b),
{
    let hi = b / 16;
    let lo = b % 16;
    out.push(if hi < 10 {
        (48 + hi) as char
    } else {
        (55 + hi) as char
    });
    out.push(if lo < 10 {
        (48 + lo) as char
    } else {
        (55 + lo) as char
    });
    proof {
        assert(final(out)@ =~= old(out)@ + hex_pair_upper(b));
    }
}

} // verus!
