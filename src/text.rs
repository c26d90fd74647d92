//! Text helpers: building strings character by character, decimal
//! formatting of identifier numbers, and parsing of decimal suffixes.

use vstd::prelude::*;
use vstd::string::*;

verus! {

/// The ASCII character for a decimal digit.
pub open spec fn digit_char(d: nat) -> char
    recommends
        d < 10,
{
    ((d + 48) as u8) as char
}

/// Whether `c` is one of the ASCII digits `0` to `9`.
pub open spec fn is_ascii_digit(c: char) -> bool {
    '0' <= c && c <= '9'
}

/// The numeric value of an ASCII digit.
pub open spec fn digit_value(c: char) -> nat {
    (c as nat - 48) as nat
}

/// The decimal representation of `n`, without leading zeros.
pub open spec fn decimal(n: nat) -> Seq<char>
    decreases n,
{
    if n < 10 {
        seq![digit_char(n)]
    } else {
        decimal(n / 10).push(digit_char(n % 10))
    }
}

/// The decimal representation of `n`, padded with zeros to at least two digits.
pub open spec fn padded2(n: nat) -> Seq<char> {
    if n < 10 {
        seq!['0', digit_char(n)]
    } else {
        decimal(n)
    }
}

/// The value of a sequence of ASCII digits, most significant first.
pub open spec fn digits_value(s: Seq<char>) -> nat
    decreases s.len(),
{
    if s.len() == 0 {
        0
    } else {
        digits_value(s.drop_last()) * 10 + digit_value(s.last())
    }
}

/// Whether every character of `s` is an ASCII digit.
pub open spec fn all_ascii_digits(s: Seq<char>) -> bool {
    forall|i: int| 0 <= i < s.len() ==> is_ascii_digit(#[trigger] s[i])
}

/// The digits part of an unsigned number: the text with one leading `+` removed.
pub open spec fn unsigned_body(s: Seq<char>) -> Seq<char> {
    if s.len() > 0 && s[0] == '+' {
        s.subrange(1, s.len() as int)
    } else {
        s
    }
}

/// What reading `s` as a 16-bit unsigned decimal number gives: an optional
/// `+`, then at least one ASCII digit, with a value that fits in 16 bits.
pub open spec fn parse_u16_spec(s: Seq<char>) -> Option<u16> {
    let body = unsigned_body(s);
    if body.len() > 0 && all_ascii_digits(body) && digits_value(body) <= 0xffff {
        Some(digits_value(body) as u16)
    } else {
        None
    }
}

/// Relies on `String::push`: the character is appended at the end.
#[verifier::external_body]
pub(crate) fn push_char(s: &mut String, c: char)
    ensures
        final(s)@ == old(s)@.push(c),
{
    s.push(c);
}

/// Appends the decimal representation of `n` to `s`.
pub fn push_decimal(s: &mut String, n: u64)
    ensures
        final(s)@ == old(s)@ + decimal(n as nat),
    decreases n,
{
    let d: u8 = (n % 10) as u8;
    if n >= 10 {
        push_decimal(s, n / 10);
        push_char(s, (d + 48) as char);
        assert(final(s)@ =~= old(s)@ + decimal(n as nat));
    } else {
        push_char(s, (d + 48) as char);
        assert(final(s)@ =~= old(s)@ + decimal(n as nat));
    }
}

/// Appends `n` to `s` in decimal, zero-padded to at least two digits.
pub fn push_padded2(s: &mut String, n: u64)
    ensures
        final(s)@ == old(s)@ + padded2(n as nat),
{
    if n < 10 {
        push_char(s, '0');
        let d: u8 = n as u8;
        push_char(s, (d + 48) as char);
        assert(final(s)@ =~= old(s)@ + padded2(n as nat));
    } else {
        push_decimal(s, n);
    }
}

/// Appends the string `t` to `s`.
pub fn push_str(s: &mut String, t: &str)
    ensures
        final(s)@ == old(s)@ + t@,
{
    s.append(t);
}


proof fn lemma_digits_value_grows(s: Seq<char>, i: int)
    requires
        0 <= i < s.len(),
    ensures
        digits_value(s.subrange(0, i + 1)) >= digits_value(s.subrange(0, i)),
        digits_value(s.subrange(0, i + 1)) == digits_value(s.subrange(0, i)) * 10
            + digit_value(s[i]),
{
    assert(s.subrange(0, i + 1).drop_last() =~= s.subrange(0, i));
}

/// Reads `s` as a 16-bit unsigned decimal number (an optional `+`, then
/// digits), or gives `None` where it is not one or does not fit.
pub fn parse_u16(s: &str) -> (r: Option<u16>)
    ensures
        r == parse_u16_spec(s@),
{
    let len = s.unicode_len();
    let mut i: usize = 0;
    if len > 0 && s.get_char(0) == '+' {
        i = 1;
    }
    let start = i;
    let ghost body = unsigned_body(s@);
    assert(body =~= s@.subrange(start as int, len as int));
    if start == len {
        return None;
    }
    let mut acc: u32 = 0;
    let mut overflow = false;
    while i < len
        invariant
            start <= i <= len,
            len == s@.len(),
            body == s@.subrange(start as int, len as int),
            body == unsigned_body(s@),
            all_ascii_digits(body.subrange(0, i - start)),
            !overflow ==> acc as nat == digits_value(body.subrange(0, i - start)) && acc <= 0xffff,
            overflow ==> digits_value(body.subrange(0, i - start)) > 0xffff,
        decreases len - i,
    {
        let c = s.get_char(i);
        let k: Ghost<int> = Ghost(i - start);
        assert(body[k@] == c);
        if !('0' <= c && c <= '9') {
            assert(!is_ascii_digit(body[k@]));
            assert(!all_ascii_digits(body));
            return None;
        }
        proof {
            lemma_digits_value_grows(body, k@);
            assert forall|j: int| 0 <= j < k@ + 1 implies is_ascii_digit(
                #[trigger] body.subrange(0, k@ + 1)[j],
            ) by {
                if j < k@ {
                    assert(body.subrange(0, k@ + 1)[j] == body.subrange(0, k@)[j]);
                }
            };
        }
        if !overflow {
            let d: u32 = (c as u32) - 48;
            let next: u32 = acc * 10 + d;
            if next > 0xffff {
                overflow = true;
            } else {
                acc = next;
            }
        }
        i = i + 1;
    }
    assert(body.subrange(0, len - start) =~= body);
    if overflow {
        None
    } else {
        Some(acc as u16)
    }
}

} // verus!
