//! Building text: decimal and hexadecimal numbers and human-readable sizes.

use vstd::prelude::*;
use vstd::arithmetic::div_mod::{lemma_div_denominator, lemma_fundamental_div_mod};

verus! {

/// Relies on String::push: it appends one char to the string.
#[verifier::external_body]
pub(crate) fn push_char(s: &mut String, c: char)
    ensures
        final(s)@ == old(s)@.push(c),
{
    s.push(c);
}

/// Appends the chars of `t` to `s`.
pub(crate) fn push_str(s: &mut String, t: &str)
    ensures
        final(s)@ == old(s)@ + t@,
{
    let n = t.unicode_len();
    let ghost start = s@;
    let mut i: usize = 0;
    while i < n
        invariant
            n == t@.len(),
            i <= n,
            s@ == start + t@.subrange(0, i as int),
        decreases n - i,
    {
        let c = t.get_char(i);
        push_char(s, c);
        assert(t@.subrange(0, i + 1) =~= t@.subrange(0, i as int).push(c));
        i = i + 1;
    }
    assert(t@.subrange(0, n as int) =~= t@);
}

pub open spec fn digit_char(d: nat) -> char {
    ((48 + d) as u8) as char
}

pub open spec fn hex_digit_char(d: nat) -> char {
    if d < 10 {
        ((48 + d) as u8) as char
    } else {
        ((55 + d) as u8) as char
    }
}

/// The decimal digits of `n`, without leading zeros.
pub open spec fn decimal(n: nat) -> Seq<char>
    decreases n,
{
    if n < 10 {
        seq![digit_char(n)]
    } else {
        decimal(n / 10).push(digit_char(n % 10))
    }
}

pub open spec fn pow16(k: nat) -> nat
    decreases k,
{
    if k == 0 {
        1
    } else {
        16 * pow16((k - 1) as nat)
    }
}

/// `v` as eight upper-case hexadecimal digits.
pub open spec fn hex8(v: u32) -> Seq<char> {
    Seq::new(8, |i: int| hex_digit_char((v as nat / pow16((7 - i) as nat)) % 16))
}

/// Appends the decimal digits of `n`.
pub fn push_decimal(s: &mut String, n: u64)
    ensures
        final(s)@ == old(s)@ + decimal(n as nat),
    decreases n,
{
    if n >= 10 {
        push_decimal(s, n / 10);
    }
    let d = (n % 10) as u8;
    push_char(s, (48 + d) as char);
    assert(s@ =~= old(s)@ + decimal(n as nat));
}

/// The decimal digits of `n` as a string.
pub fn decimal_string(n: u64) -> (r: String)
    ensures
        r@ == decimal(n as nat),
{
    let mut s = String::new();
    push_decimal(&mut s, n);
    assert(s@ =~= decimal(n as nat));
    s
}

/// Appends `v` as eight upper-case hexadecimal digits.
pub fn push_hex8(s: &mut String, v: u32)
    ensures
        final(s)@ == old(s)@ + hex8(v),
{
    let ghost start = s@;
    let mut i: usize = 0;
    let mut div: u32 = 0x1000_0000;
    proof {
        reveal_with_fuel(pow16, 8);
    }
    while i < 8
        invariant
            i <= 8,
            div as nat == pow16((7 - i) as nat) || (i == 8 && div == 0),
            s@ == start + hex8(v).subrange(0, i as int),
        decreases 8 - i,
    {
        reveal_with_fuel(pow16, 8);
        let d = ((v / div) % 16) as u8;
        let c = if d < 10 {
            (48 + d) as char
        } else {
            (55 + d) as char
        };
        push_char(s, c);
        assert(hex8(v).subrange(0, i + 1) =~= hex8(v).subrange(0, i as int).push(c));
        div = div / 16;
        i = i + 1;
    }
    assert(hex8(v).subrange(0, 8) =~= hex8(v));
}

/// `n / d` rounded to the nearest integer, a tie going to the even one.
pub open spec fn round_half_even(n: nat, d: nat) -> nat {
    let q = n / d;
    let r = n % d;
    if 2 * r > d || (2 * r == d && q % 2 == 1) {
        q + 1
    } else {
        q
    }
}

/// The spacing of double-precision floats near `n`: they have 53 significant bits.
pub open spec fn f64_unit(n: nat) -> nat
    decreases n,
{
    if n < 0x20_0000_0000_0000 {
        1
    } else {
        2 * f64_unit(n / 2)
    }
}

/// The double-precision float nearest to `n`, a tie going to the even one.
pub open spec fn as_f64(n: nat) -> nat {
    round_half_even(n, f64_unit(n)) * f64_unit(n)
}

pub open spec fn size_unit(n: u64) -> nat {
    if n >= 0x4000_0000 {
        0x4000_0000
    } else if n >= 0x10_0000 {
        0x10_0000
    } else {
        0x400
    }
}

pub open spec fn size_suffix(n: u64) -> Seq<char> {
    if n >= 0x4000_0000 {
        seq![' ', 'G', 'B']
    } else if n >= 0x10_0000 {
        seq![' ', 'M', 'B']
    } else {
        seq![' ', 'K', 'B']
    }
}

/// The size in the largest of KB, MB and GB that is not above it, in
/// hundredths: the float nearest to `n`, divided by the unit, rounded to two
/// decimals with ties to even.
pub open spec fn size_hundredths(n: u64) -> nat {
    round_half_even(as_f64(n as nat) * 100, size_unit(n))
}

/// `n` bytes for a reader: below 1024 the count and " B", else the size in
/// KB, MB or GB with two decimals.
pub open spec fn human_bytes(n: u64) -> Seq<char> {
    if n < 1024 {
        decimal(n as nat) + seq![' ', 'B']
    } else {
        let h = size_hundredths(n);
        decimal(h / 100) + seq!['.', digit_char((h / 10) % 10), digit_char(h % 10)] + size_suffix(n)
    }
}

fn round_half_even_u128(n: u128, d: u128) -> (r: u128)
    requires
        0 < d <= 0x1_0000_0000_0000_0000,
        n < 0x1_0000_0000_0000_0000_0000_0000,
    ensures
        r as nat == round_half_even(n as nat, d as nat),
        r as nat <= n as nat / d as nat + 1,
{
    let q = n / d;
    let r = n % d;
    if 2 * r > d || (2 * r == d && q % 2 == 1) {
        q + 1
    } else {
        q
    }
}

/// The double-precision float nearest to `n`, as an integer.
fn nearest_f64(n: u64) -> (r: u128)
    ensures
        r as nat == as_f64(n as nat),
        r <= n as nat + 0x1000,
{
    let mut m: u64 = n;
    let mut d: u64 = 1;
    while m >= 0x20_0000_0000_0000
        invariant
            d >= 1,
            m as nat == n as nat / d as nat,
            d * f64_unit(m as nat) == f64_unit(n as nat),
            m as nat * d as nat <= n as nat,
            d <= 0x1000,
        decreases m,
    {
        proof {
            lemma_div_denominator(n as int, d as int, 2);
            assert(f64_unit(m as nat) == 2 * f64_unit(m as nat / 2));
            let u = f64_unit(m as nat / 2);
            assert((d * 2) * u == d * (2 * u)) by (nonlinear_arith);
            lemma_fundamental_div_mod(m as int, 2);
            assert((m as nat / 2) * (d as nat * 2) <= m as nat * d as nat) by (nonlinear_arith)
                requires
                    m as nat == 2 * (m as nat / 2) + m as nat % 2,
                    m as nat % 2 >= 0,
            ;
            assert((d as nat * 2) * 0x10_0000_0000_0000 <= (m as nat / 2) * (d as nat * 2))
                by (nonlinear_arith)
                requires
                    m as nat / 2 >= 0x10_0000_0000_0000,
            ;
        }
        m = m / 2;
        d = d * 2;
    }
    let q = round_half_even_u128(n as u128, d as u128);
    proof {
        assert(f64_unit(m as nat) == 1);
        assert(d * f64_unit(m as nat) == d) by (nonlinear_arith)
            requires
                f64_unit(m as nat) == 1,
        ;
        lemma_fundamental_div_mod(n as int, d as int);
        assert(q * d <= n as nat + d as nat) by (nonlinear_arith)
            requires
                q <= n as nat / d as nat + 1,
                n as nat == d * (n as nat / d as nat) + n as nat % d as nat,
                n as nat % d as nat >= 0,
        ;
    }
    q * d as u128
}

/// Formats a byte count for a reader: "512 B", "1.50 KB", "1.00 GB".
pub fn format_size(bytes: u64) -> (r: String)
    ensures
        r@ == human_bytes(bytes),
{
    let mut s = String::new();
    if bytes < 1024 {
        push_decimal(&mut s, bytes);
        push_char(&mut s, ' ');
        push_char(&mut s, 'B');
        assert(s@ =~= human_bytes(bytes));
        return s;
    }
    let unit: u128 = if bytes >= 0x4000_0000 {
        0x4000_0000
    } else if bytes >= 0x10_0000 {
        0x10_0000
    } else {
        0x400
    };
    let x = nearest_f64(bytes);
    let h = round_half_even_u128(x * 100, unit);
    proof {
        assert(h as nat <= (x as nat * 100) / 0x400 + 1) by {
            vstd::arithmetic::div_mod::lemma_div_is_ordered_by_denominator(
                (x * 100) as int,
                0x400,
                unit as int,
            );
        }
        assert((x as nat * 100) / 0x400 <= 0x65_0000_0000_0000_0000nat / 0x400) by {
            vstd::arithmetic::div_mod::lemma_div_is_ordered(
                (x * 100) as int,
                0x65_0000_0000_0000_0000,
                0x400,
            );
        }
    }
    push_decimal(&mut s, (h / 100) as u64);
    push_char(&mut s, '.');
    push_char(&mut s, (48 + ((h / 10) % 10) as u8) as char);
    push_char(&mut s, (48 + (h % 10) as u8) as char);
    push_char(&mut s, ' ');
    if bytes >= 0x4000_0000 {
        push_char(&mut s, 'G');
    } else if bytes >= 0x10_0000 {
        push_char(&mut s, 'M');
    } else {
        push_char(&mut s, 'K');
    }
    push_char(&mut s, 'B');
    assert(s@ =~= human_bytes(bytes));
    s
}

} // verus!
