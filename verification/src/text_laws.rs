//! What the order of strings and numbers in digits promise.
use crate::text::{bytes_before, decimal, digit_char, hex16, hex_digits, text_before};
use vstd::prelude::*;
use vstd::utf8::*;

verus! {

proof fn lemma_common_start(start: Seq<u8>, a: Seq<u8>, b: Seq<u8>)
    ensures
        bytes_before(start + a, start + b) == bytes_before(a, b),
    decreases start.len(),
{
    if start.len() == 0 {
        assert(start + a =~= a);
        assert(start + b =~= b);
    } else {
        lemma_common_start(start.drop_first(), a, b);
        assert((start + a).drop_first() =~= start.drop_first() + a);
        assert((start + b).drop_first() =~= start.drop_first() + b);
    }
}

/// Strings are ordered by the first byte in which they differ; where one is the beginning of the
/// other, the shorter one comes first.
pub proof fn law_first_difference_decides(
    a: Seq<char>,
    b: Seq<char>,
    start: Seq<u8>,
    rest_a: Seq<u8>,
    rest_b: Seq<u8>,
)
    requires
        encode_utf8(a) == start + rest_a,
        encode_utf8(b) == start + rest_b,
    ensures
        rest_a.len() > 0 && rest_b.len() > 0 && rest_a[0] < rest_b[0] ==> text_before(a, b)
            && !text_before(b, a),
        rest_a.len() == 0 && rest_b.len() > 0 ==> text_before(a, b) && !text_before(b, a),
        rest_a.len() == 0 && rest_b.len() == 0 ==> !text_before(a, b),
{
    lemma_common_start(start, rest_a, rest_b);
    lemma_common_start(start, rest_b, rest_a);
}

/// The number that a digit stands for, in any base up to sixteen; any other character stands for
/// sixteen.
pub open spec fn digit_value(c: char) -> nat {
    if '0' <= c && c <= '9' {
        (c as nat - '0' as nat) as nat
    } else if 'a' <= c && c <= 'f' {
        (c as nat - 'a' as nat + 10) as nat
    } else {
        16
    }
}

/// The number that is written with these digits in a base.
pub open spec fn value_of(text: Seq<char>, base: nat) -> nat
    decreases text.len(),
{
    if text.len() == 0 {
        0
    } else {
        value_of(text.drop_last(), base) * base + digit_value(text.last())
    }
}

proof fn lemma_digit_value(d: nat)
    requires
        d < 16,
    ensures
        digit_value(digit_char(d)) == d,
{
    assert(digit_char(d) as u32 == if d < 10 {
        48 + d
    } else {
        87 + d
    });
}

/// A number that is written in decimal can be read again: it consists of the digits from zero to
/// nine, does not begin with a zero unless it is zero, and its value is the number.
pub proof fn law_decimal_can_be_read_again(n: nat)
    ensures
        value_of(decimal(n), 10) == n,
        decimal(n).len() > 0,
        forall|i: int| 0 <= i < decimal(n).len() ==> '0' <= #[trigger] decimal(n)[i] && decimal(
            n,
        )[i] <= '9',
        n > 0 ==> decimal(n)[0] != '0',
        n == 0 ==> decimal(n).len() == 1,
    decreases n,
{
    if n < 10 {
        lemma_digit_value(n);
        assert(decimal(n).drop_last() =~= Seq::empty());
        assert(value_of(decimal(n).drop_last(), 10) == 0);
        assert(decimal(n)[0] as u32 == 48 + n);
    } else {
        law_decimal_can_be_read_again(n / 10);
        lemma_digit_value(n % 10);
        assert(decimal(n).drop_last() =~= decimal(n / 10));
        assert(digit_char(n % 10) as u32 == 48 + n % 10);
        assert(decimal(n)[0] == decimal(n / 10)[0]);
    }
}

proof fn lemma_hex_value(n: nat, width: nat)
    requires
        n < vstd::arithmetic::power::pow(16, width),
    ensures
        value_of(hex_digits(n, width), 16) == n,
        hex_digits(n, width).len() == width,
        forall|i: int| 0 <= i < width ==> digit_value(#[trigger] hex_digits(n, width)[i]) < 16,
    decreases width,
{
    reveal(vstd::arithmetic::power::pow);
    if width > 0 {
        let w = (width - 1) as nat;
        lemma_hex_value(n / 16, w);
        lemma_digit_value(n % 16);
        assert(hex_digits(n, width).drop_last() =~= hex_digits(n / 16, w));
    }
}

/// A signature that is written out can be read again: it is sixteen digits, from zero to nine and
/// from `a` to `f`, and its value in base sixteen is the number.
pub proof fn law_hexadecimal_can_be_read_again(n: u64)
    ensures
        hex16(n).len() == 16,
        forall|i: int| 0 <= i < 16 ==> digit_value(#[trigger] hex16(n)[i]) < 16,
        value_of(hex16(n), 16) == n,
{
    assert(vstd::arithmetic::power::pow(16, 16) == u64::MAX + 1) by {
        reveal_with_fuel(vstd::arithmetic::power::pow, 17);
    }
    lemma_hex_value(n as nat, 16);
}

} // verus!
