//! Building text.
use vstd::prelude::*;

verus! {

/// The upper-case hexadecimal digit of `d < 16`.
pub open spec fn hex_digit_spec(d: int) -> char {
    if d < 10 {
        (48 + d) as char
    } else {
        (55 + d) as char
    }
}

/// The two upper-case hexadecimal digits of a byte, zero-padded.
pub open spec fn hex2(b: u8) -> Seq<char> {
    seq![hex_digit_spec(b as int / 16), hex_digit_spec(b as int % 16)]
}

/// The decimal digits of a byte, without leading zeros.
pub open spec fn decimal(b: u8) -> Seq<char> {
    if b < 10 {
        seq![(48 + b) as char]
    } else if b < 100 {
        seq![(48 + b / 10) as char, (48 + b % 10) as char]
    } else {
        seq![(48 + b / 100) as char, (48 + (b / 10) % 10) as char, (48 + b % 10) as char]
    }
}

/// `String::push` of std: appends one character at the end.
#[verifier::external_body]
pub(crate) fn push_char(s: &mut String, c: char)
    ensures
        final(s)@ == old(s)@.push(c),
{
    s.push(c);
}

/// The upper-case hexadecimal digit of `d`.
pub fn hex_digit(d: u8) -> (c: char)
    requires
        d < 16,
    ensures
        c == hex_digit_spec(d as int),
{
    if d < 10 {
        (48 + d) as char
    } else {
        (55 + d) as char
    }
}

/// Append the two hexadecimal digits of `b`.
pub fn push_hex2(s: &mut String, b: u8)
    ensures
        final(s)@ == old(s)@ + hex2(b),
{
    push_char(s, hex_digit(b / 16));
    push_char(s, hex_digit(b % 16));
    assert(s@ =~= old(s)@ + hex2(b));
}

/// Append the decimal digits of `b`.
pub fn push_decimal(s: &mut String, b: u8)
    ensures
        final(s)@ == old(s)@ + decimal(b),
{
    if b < 10 {
        push_char(s, (48 + b) as char);
    } else if b < 100 {
        push_char(s, (48 + b / 10) as char);
        push_char(s, (48 + b % 10) as char);
    } else {
        push_char(s, (48 + b / 100) as char);
        push_char(s, (48 + (b / 10) % 10) as char);
        push_char(s, (48 + b % 10) as char);
    }
    assert(s@ =~= old(s)@ + decimal(b));
}

} // verus!

verus! {

/// The value of a hexadecimal digit written in upper case: `0`..`9` are
/// 0..9 and `A`..`F` are 10..15; any other character has no value (-1).
pub open spec fn upper_hex_value(c: char) -> int {
    let n = c as int;
    if 48 <= n && n <= 57 {
        n - 48
    } else if 65 <= n && n <= 70 {
        n - 55
    } else {
        -1
    }
}

/// The two characters written for a byte are upper-case hexadecimal digits,
/// and read back as a base-16 number they give the byte.
pub proof fn lemma_hex2_reads_back(b: u8)
    ensures
        hex2(b).len() == 2,
        upper_hex_value(hex2(b)[0]) >= 0,
        upper_hex_value(hex2(b)[1]) >= 0,
        upper_hex_value(hex2(b)[0]) * 16 + upper_hex_value(hex2(b)[1]) == b as int,
{
    let hi = b as int / 16;
    let lo = b as int % 16;
    assert(hi * 16 + lo == b as int);
    assert(upper_hex_value(hex_digit_spec(hi)) == hi);
    assert(upper_hex_value(hex_digit_spec(lo)) == lo);
}

} // verus!

verus! {

/// The value of a decimal digit, or -1 for any other character.
pub open spec fn digit_value(c: char) -> int {
    let n = c as int;
    if 48 <= n && n <= 57 {
        n - 48
    } else {
        -1
    }
}

/// The value of the digits of `t`, or -1 when one is not a decimal digit.
pub open spec fn decimal_value(t: Seq<char>) -> int
    decreases t.len(),
{
    if t.len() == 0 {
        0
    } else {
        let rest = decimal_value(t.drop_last());
        let d = digit_value(t.last());
        if rest < 0 || d < 0 {
            -1
        } else {
            rest * 10 + d
        }
    }
}

/// The decimal text of a byte is one to three digits, with no leading zero
/// unless the byte is 0, and read back it gives the byte.
pub proof fn lemma_decimal_reads_back(b: u8)
    ensures
        1 <= decimal(b).len() <= 3,
        decimal(b).len() > 1 ==> decimal(b)[0] != '0',
        decimal_value(decimal(b)) == b as int,
{
    let t = decimal(b);
    reveal_with_fuel(decimal_value, 4);
    assert(decimal_value(Seq::<char>::empty()) == 0);
    if b < 10 {
        assert(t.drop_last() =~= Seq::<char>::empty());
    } else if b < 100 {
        assert(t.drop_last() =~= seq![(48 + b / 10) as char]);
        assert(t.drop_last().drop_last() =~= Seq::<char>::empty());
        assert(decimal_value(t.drop_last()) == b / 10);
        assert((b / 10) * 10 + b % 10 == b);
    } else {
        assert(t.drop_last() =~= seq![(48 + b / 100) as char, (48 + (b / 10) % 10) as char]);
        assert(t.drop_last().drop_last() =~= seq![(48 + b / 100) as char]);
        assert(t.drop_last().drop_last().drop_last() =~= Seq::<char>::empty());
        assert(decimal_value(t.drop_last().drop_last()) == b / 100);
        assert((b / 100) * 10 + (b / 10) % 10 == b / 10);
        assert(decimal_value(t.drop_last()) == b / 10);
        assert((b / 10) * 10 + b % 10 == b);
    }
}

} // verus!
