//! Text: the order of strings, and numbers written out in digits.
use vstd::prelude::*;
use vstd::utf8::*;

verus! {

/// [`String::push`] appends one character.
pub assume_specification[ String::push ](s: &mut String, c: char)
    ensures
        final(s)@ == old(s)@.push(c),
;

// ---------------------------------------------------------------------------------------------
// Order
// ---------------------------------------------------------------------------------------------

/// Whether `a` comes before `b` byte by byte, a prefix before what it is a prefix of.
pub open spec fn bytes_before(a: Seq<u8>, b: Seq<u8>) -> bool
    decreases a.len(),
{
    if b.len() == 0 {
        false
    } else if a.len() == 0 {
        true
    } else if a[0] != b[0] {
        a[0] < b[0]
    } else {
        bytes_before(a.drop_first(), b.drop_first())
    }
}

/// The order of strings: that of their UTF-8 bytes.
pub open spec fn text_before(a: Seq<char>, b: Seq<char>) -> bool {
    bytes_before(encode_utf8(a), encode_utf8(b))
}

proof fn lemma_bytes_before_trans(a: Seq<u8>, b: Seq<u8>, c: Seq<u8>)
    requires
        bytes_before(a, b),
        bytes_before(b, c),
    ensures
        bytes_before(a, c),
    decreases a.len(),
{
    if a.len() > 0 && a[0] == b[0] && b[0] == c[0] {
        lemma_bytes_before_trans(a.drop_first(), b.drop_first(), c.drop_first());
    }
}

proof fn lemma_bytes_before_irreflexive(a: Seq<u8>)
    ensures
        !bytes_before(a, a),
    decreases a.len(),
{
    if a.len() > 0 {
        lemma_bytes_before_irreflexive(a.drop_first());
    }
}

proof fn lemma_bytes_before_total(a: Seq<u8>, b: Seq<u8>)
    requires
        a != b,
    ensures
        bytes_before(a, b) || bytes_before(b, a),
    decreases a.len(),
{
    if a.len() == 0 {
        assert(b.len() != 0) by {
            if b.len() == 0 {
                assert(a =~= b);
            }
        }
    } else if b.len() != 0 && a[0] == b[0] {
        if a.drop_first() == b.drop_first() {
            assert(a =~= seq![a[0]] + a.drop_first());
            assert(b =~= seq![b[0]] + b.drop_first());
        }
        lemma_bytes_before_total(a.drop_first(), b.drop_first());
    }
}

/// The order of strings is transitive.
pub proof fn lemma_text_before_trans(a: Seq<char>, b: Seq<char>, c: Seq<char>)
    requires
        text_before(a, b),
        text_before(b, c),
    ensures
        text_before(a, c),
{
    lemma_bytes_before_trans(encode_utf8(a), encode_utf8(b), encode_utf8(c));
}

/// No string comes before itself.
pub proof fn lemma_text_before_irreflexive(a: Seq<char>)
    ensures
        !text_before(a, a),
{
    lemma_bytes_before_irreflexive(encode_utf8(a));
}

/// Of two different strings one comes before the other.
pub proof fn lemma_text_before_total(a: Seq<char>, b: Seq<char>)
    requires
        a != b,
    ensures
        text_before(a, b) || text_before(b, a),
{
    broadcast use encode_utf8_decode_utf8;

    assert(decode_utf8(encode_utf8(a)) == a);
    assert(decode_utf8(encode_utf8(b)) == b);
    lemma_bytes_before_total(encode_utf8(a), encode_utf8(b));
}

/// Whether `a` comes before `b`.
pub fn is_before(a: &str, b: &str) -> (r: bool)
    ensures
        r == text_before(a@, b@),
{
    let x: &[u8] = a.as_bytes();
    let y: &[u8] = b.as_bytes();
    let mut i: usize = 0;
    assert(x@.skip(0) =~= x@);
    assert(y@.skip(0) =~= y@);
    while i < x.len() && i < y.len()
        invariant
            x@ == encode_utf8(a@),
            y@ == encode_utf8(b@),
            i <= x@.len(),
            i <= y@.len(),
            bytes_before(x@, y@) == bytes_before(x@.skip(i as int), y@.skip(i as int)),
        decreases x@.len() - i,
    {
        if x[i] != y[i] {
            return x[i] < y[i];
        }
        assert(x@.skip(i as int).drop_first() =~= x@.skip(i + 1));
        assert(y@.skip(i as int).drop_first() =~= y@.skip(i + 1));
        i = i + 1;
    }
    i < y.len()
}

/// Whether `a` and `b` are the same string.
pub fn same_text(a: &str, b: &str) -> (r: bool)
    ensures
        r == (a@ == b@),
{
    proof {
        if a@ == b@ {
            lemma_text_before_irreflexive(a@);
        } else {
            lemma_text_before_total(a@, b@);
        }
    }
    !is_before(a, b) && !is_before(b, a)
}

// ---------------------------------------------------------------------------------------------
// Digits
// ---------------------------------------------------------------------------------------------

/// The character that stands for a number below sixteen.
pub open spec fn digit_char(d: nat) -> char {
    if d < 10 {
        (48 + d) as u8 as char
    } else {
        (87 + d) as u8 as char
    }
}

fn digit(d: u8) -> (c: char)
    requires
        d < 16,
    ensures
        c == digit_char(d as nat),
{
    if d < 10 {
        (48 + d) as char
    } else {
        (87 + d) as char
    }
}

/// A number in decimal digits, without leading zeros.
pub open spec fn decimal(n: nat) -> Seq<char>
    decreases n,
{
    if n < 10 {
        seq![digit_char(n)]
    } else {
        decimal(n / 10).push(digit_char(n % 10))
    }
}

/// Writes a number in decimal digits.
pub fn decimal_text(n: u64) -> (text: String)
    ensures
        text@ == decimal(n as nat),
    decreases n,
{
    let mut text: String = if n < 10 {
        String::new()
    } else {
        decimal_text(n / 10)
    };
    text.push(digit((n % 10) as u8));
    assert(n < 10 ==> text@ =~= seq![digit_char(n as nat)]);
    text
}

/// The last `width` hexadecimal digits of a number, with leading zeros.
pub open spec fn hex_digits(n: nat, width: nat) -> Seq<char>
    decreases width,
{
    if width == 0 {
        Seq::empty()
    } else {
        hex_digits(n / 16, (width - 1) as nat).push(digit_char(n % 16))
    }
}

/// A number as sixteen hexadecimal digits in lower case.
pub open spec fn hex16(n: u64) -> Seq<char> {
    hex_digits(n as nat, 16)
}

fn write_hex(n: u64, width: usize) -> (text: String)
    ensures
        text@ == hex_digits(n as nat, width as nat),
    decreases width,
{
    if width == 0 {
        let text: String = String::new();
        assert(text@ =~= Seq::empty());
        text
    } else {
        let mut text: String = write_hex(n / 16, width - 1);
        text.push(digit((n % 16) as u8));
        text
    }
}

/// Writes a number as sixteen hexadecimal digits.
pub fn hex16_text(n: u64) -> (text: String)
    ensures
        text@ == hex16(n),
{
    write_hex(n, 16)
}

proof fn lemma_digit_char_injective(a: nat, b: nat)
    requires
        a < 16,
        b < 16,
        digit_char(a) == digit_char(b),
    ensures
        a == b,
{
    assert(digit_char(a) as u32 == digit_char(b) as u32);
}

proof fn lemma_hex_digits_injective(a: nat, b: nat, width: nat)
    requires
        hex_digits(a, width) == hex_digits(b, width),
        a < vstd::arithmetic::power::pow(16, width),
        b < vstd::arithmetic::power::pow(16, width),
    ensures
        a == b,
    decreases width,
{
    reveal(vstd::arithmetic::power::pow);
    if width > 0 {
        let w = (width - 1) as nat;
        let x = hex_digits(a / 16, w);
        let y = hex_digits(b / 16, w);
        assert(x.push(digit_char(a % 16)).drop_last() =~= x);
        assert(y.push(digit_char(b % 16)).drop_last() =~= y);
        assert(x.push(digit_char(a % 16)).last() == y.push(digit_char(b % 16)).last());
        lemma_digit_char_injective(a % 16, b % 16);
        lemma_hex_digits_injective(a / 16, b / 16, w);
    }
}

proof fn lemma_pow_16_16()
    ensures
        vstd::arithmetic::power::pow(16, 16) == u64::MAX + 1,
{
    reveal_with_fuel(vstd::arithmetic::power::pow, 17);
}

/// Two numbers with the same sixteen digits are the same number.
pub proof fn lemma_hex16_injective(a: u64, b: u64)
    requires
        hex16(a) == hex16(b),
    ensures
        a == b,
{
    lemma_pow_16_16();
    lemma_hex_digits_injective(a as nat, b as nat, 16);
}

/// Whether some number below sixteen is written as `c`.
pub open spec fn is_hex_char(c: char) -> bool {
    exists|d: nat| d < 16 && c == #[trigger] digit_char(d)
}

/// The number below sixteen that is written as `c`, if there is one.
fn hex_value(c: char) -> (r: Option<u8>)
    ensures
        r is Some <==> is_hex_char(c),
        r matches Some(d) ==> d < 16 && c == digit_char(d as nat),
{
    let code: u32 = c as u32;
    if 48 <= code && code < 58 {
        let d: u8 = (code - 48) as u8;
        assert(c == digit_char(d as nat));
        Some(d)
    } else if 97 <= code && code < 103 {
        let d: u8 = (code - 87) as u8;
        assert(c == digit_char(d as nat));
        Some(d)
    } else {
        assert forall|d: nat| d < 16 implies c != #[trigger] digit_char(d) by {
            assert(digit_char(d) as u32 == if d < 10 {
                48 + d
            } else {
                87 + d
            });
        }
        None
    }
}

proof fn lemma_hex_digits_shape(n: nat, width: nat)
    ensures
        hex_digits(n, width).len() == width,
        forall|i: int| 0 <= i < width ==> is_hex_char(#[trigger] hex_digits(n, width)[i]),
    decreases width,
{
    if width > 0 {
        lemma_hex_digits_shape(n / 16, (width - 1) as nat);
    }
}

proof fn lemma_hex_step(n: nat, d: nat, width: nat)
    requires
        d < 16,
        n < vstd::arithmetic::power::pow(16, width),
    ensures
        hex_digits(n * 16 + d, width + 1) == hex_digits(n, width).push(digit_char(d)),
        n * 16 + d < vstd::arithmetic::power::pow(16, width + 1),
{
    reveal(vstd::arithmetic::power::pow);
    assert((n * 16 + d) / 16 == n);
    assert((n * 16 + d) % 16 == d);
}

/// Reads sixteen hexadecimal digits in lower case: the inverse of [`hex16_text`].
pub fn parse_hex16(text: &str) -> (r: Option<u64>)
    ensures
        r matches Some(n) ==> text@ == hex16(n),
        r is None ==> forall|n: u64| text@ != #[trigger] hex16(n),
{
    proof {
        assert forall|n: u64| #[trigger] hex16(n).len() == 16 && forall|i: int|
            0 <= i < 16 ==> is_hex_char(#[trigger] hex16(n)[i]) by {
            lemma_hex_digits_shape(n as nat, 16);
        }
    }
    if text.unicode_len() != 16 {
        return None;
    }
    let mut n: u128 = 0;
    let mut i: usize = 0;
    assert(text@.take(0) =~= Seq::empty());
    proof {
        lemma_pow_16_16();
        reveal(vstd::arithmetic::power::pow);
    }
    while i < 16
        invariant
            i <= 16,
            text@.len() == 16,
            n < vstd::arithmetic::power::pow(16, i as nat),
            vstd::arithmetic::power::pow(16, 16) == u64::MAX + 1,
            text@.take(i as int) == hex_digits(n as nat, i as nat),
            forall|n: u64| #[trigger]
                hex16(n).len() == 16 && forall|i: int|
                    0 <= i < 16 ==> is_hex_char(#[trigger] hex16(n)[i]),
        decreases 16 - i,
    {
        proof {
            vstd::arithmetic::power::lemma_pow_increases(16, i as nat, 16);
        }
        match hex_value(text.get_char(i)) {
            Some(d) => {
                proof {
                    lemma_hex_step(n as nat, d as nat, i as nat);
                    assert(text@.take(i + 1) =~= text@.take(i as int).push(text@[i as int]));
                }
                n = n * 16 + d as u128;
            },
            None => {
                return None;
            },
        }
        i = i + 1;
    }
    assert(text@.take(16) =~= text@);
    Some(n as u64)
}

} // verus!
