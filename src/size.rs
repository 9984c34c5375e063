//! Human-readable byte counts.
use vstd::prelude::*;
use vstd::arithmetic::div_mod::{lemma_fundamental_div_mod, lemma_fundamental_div_mod_converse};

verus! {

/// Bytes in one KiB.
pub const KIB: usize = 1024;

/// Bytes in one MiB.
pub const MIB: usize = 1048576;

/// Bytes in one GiB.
pub const GIB: usize = 1073741824;

/// The decimal digit character for `d < 10`.
pub open spec fn digit_char(d: nat) -> char {
    if d == 0 {
        '0'
    } else if d == 1 {
        '1'
    } else if d == 2 {
        '2'
    } else if d == 3 {
        '3'
    } else if d == 4 {
        '4'
    } else if d == 5 {
        '5'
    } else if d == 6 {
        '6'
    } else if d == 7 {
        '7'
    } else if d == 8 {
        '8'
    } else {
        '9'
    }
}

/// The decimal notation of `n`, without leading zeros.
pub open spec fn decimal(n: nat) -> Seq<char>
    decreases n,
{
    if n < 10 {
        seq![digit_char(n)]
    } else {
        decimal(n / 10).push(digit_char(n % 10))
    }
}

/// `n < 100` written with exactly two digits.
pub open spec fn two_digits(n: nat) -> Seq<char> {
    seq![digit_char(n / 10), digit_char(n % 10)]
}

/// `num / den` rounded to the nearest integer, ties to the even one.
pub open spec fn round_half_even(num: nat, den: nat) -> nat {
    let q = num / den;
    let r = num % den;
    if 2 * r > den || (2 * r == den && q % 2 == 1) {
        q + 1
    } else {
        q
    }
}

/// `size / unit` with two decimal places, followed by a space and `unit_name`.
pub open spec fn scaled_text(size: nat, unit: nat, unit_name: Seq<char>) -> Seq<char> {
    let h = round_half_even(size * 100, unit);
    decimal(h / 100) + seq!['.'] + two_digits(h % 100) + seq![' '] + unit_name
}

/// The text of a byte count in the largest unit that it reaches.
pub open spec fn size_text(size: nat) -> Seq<char> {
    if size >= GIB {
        scaled_text(size, GIB as nat, seq!['G', 'i', 'B'])
    } else if size >= MIB {
        scaled_text(size, MIB as nat, seq!['M', 'i', 'B'])
    } else if size >= KIB {
        scaled_text(size, KIB as nat, seq!['K', 'i', 'B'])
    } else {
        decimal(size) + seq![' ', 'B']
    }
}

/// The one-character string of the digit `d`.
fn digit_str(d: usize) -> (r: &'static str)
    requires
        d < 10,
    ensures
        r@ == seq![digit_char(d as nat)],
{
    if d == 0 {
        proof { reveal_strlit("0"); }
        "0"
    } else if d == 1 {
        proof { reveal_strlit("1"); }
        "1"
    } else if d == 2 {
        proof { reveal_strlit("2"); }
        "2"
    } else if d == 3 {
        proof { reveal_strlit("3"); }
        "3"
    } else if d == 4 {
        proof { reveal_strlit("4"); }
        "4"
    } else if d == 5 {
        proof { reveal_strlit("5"); }
        "5"
    } else if d == 6 {
        proof { reveal_strlit("6"); }
        "6"
    } else if d == 7 {
        proof { reveal_strlit("7"); }
        "7"
    } else if d == 8 {
        proof { reveal_strlit("8"); }
        "8"
    } else {
        proof { reveal_strlit("9"); }
        "9"
    }
}

/// Appends the decimal notation of `n` to `out`.
fn push_decimal(out: &mut String, n: usize)
    ensures
        final(out)@ == old(out)@ + decimal(n as nat),
    decreases n,
{
    if n >= 10 {
        push_decimal(out, n / 10);
    }
    out.append(digit_str(n % 10));
    assert(final(out)@ =~= old(out)@ + decimal(n as nat));
}

proof fn lemma_split_quotient(size: nat, unit: nat, whole: nat, rem: nat, frac: nat, r2: nat)
    requires
        unit > 0,
        size == whole * unit + rem,
        rem < unit,
        rem * 100 == frac * unit + r2,
        r2 < unit,
    ensures
        (size * 100) / unit == whole * 100 + frac,
        (size * 100) % unit == r2,
        frac < 100,
{
    assert(size * 100 == (whole * 100 + frac) * unit + r2) by (nonlinear_arith)
        requires
            size == whole * unit + rem,
            rem * 100 == frac * unit + r2,
    ;
    lemma_fundamental_div_mod_converse(
        (size * 100) as int,
        unit as int,
        (whole * 100 + frac) as int,
        r2 as int,
    );
    assert(frac < 100) by (nonlinear_arith)
        requires
            rem < unit,
            rem * 100 == frac * unit + r2,
            unit > 0,
    ;
}

/// The whole and hundredths parts of `size / unit`, ties rounded to even.
fn rounded_hundredths(size: usize, unit: usize) -> (r: (usize, usize))
    requires
        unit == KIB || unit == MIB || unit == GIB,
    ensures
        r.0 == round_half_even(size as nat * 100, unit as nat) / 100,
        r.1 == round_half_even(size as nat * 100, unit as nat) % 100,
{
    let whole = size / unit;
    let rem = (size % unit) as u64;
    let unit64 = unit as u64;
    assert(rem * 100 < 100 * GIB) by (nonlinear_arith)
        requires
            rem < unit,
            unit <= GIB,
    ;
    let frac = (rem * 100 / unit64) as usize;
    let r2 = rem * 100 % unit64;
    proof {
        lemma_fundamental_div_mod(size as int, unit as int);
        lemma_fundamental_div_mod((rem * 100) as int, unit as int);
        lemma_split_quotient(size as nat, unit as nat, whole as nat, rem as nat, frac as nat, r2 as nat);
    }
    let ghost q = size as nat * 100 / unit as nat;
    let ghost h = round_half_even(size as nat * 100, unit as nat);
    let mut h_whole = whole;
    let mut h_frac = frac;
    if r2 * 2 > unit64 || (r2 * 2 == unit64 && frac % 2 == 1) {
        if frac == 99 {
            h_whole = whole + 1;
            h_frac = 0;
        } else {
            h_frac = frac + 1;
        }
    }
    assert(h == h_whole * 100 + h_frac);
    proof {
        lemma_fundamental_div_mod_converse(h as int, 100, h_whole as int, h_frac as int);
    }
    (h_whole, h_frac)
}

/// Appends `size / unit` with two decimal places, ties rounded to even.
fn push_scaled(out: &mut String, size: usize, unit: usize)
    requires
        unit == KIB || unit == MIB || unit == GIB,
    ensures
        final(out)@ == old(out)@ + decimal(round_half_even(size as nat * 100, unit as nat) / 100)
            + seq!['.'] + two_digits(round_half_even(size as nat * 100, unit as nat) % 100),
{
    let (h_whole, h_frac) = rounded_hundredths(size, unit);
    push_decimal(out, h_whole);
    proof { reveal_strlit("."); }
    out.append(".");
    out.append(digit_str(h_frac / 10));
    out.append(digit_str(h_frac % 10));
    assert(final(out)@ =~= old(out)@ + decimal(h_whole as nat) + seq!['.'] + two_digits(h_frac as nat));
}

/// Formats a byte count in the largest of B, KiB, MiB and GiB that it reaches:
/// a whole number of bytes, or the quotient with two decimal places.
pub fn format_size(size: usize) -> (r: String)
    ensures
        r@ == size_text(size as nat),
{
    let mut out = String::new();
    if size >= GIB {
        push_scaled(&mut out, size, GIB);
        proof { reveal_strlit(" GiB"); }
        out.append(" GiB");
    } else if size >= MIB {
        push_scaled(&mut out, size, MIB);
        proof { reveal_strlit(" MiB"); }
        out.append(" MiB");
    } else if size >= KIB {
        push_scaled(&mut out, size, KIB);
        proof { reveal_strlit(" KiB"); }
        out.append(" KiB");
    } else {
        push_decimal(&mut out, size);
        proof { reveal_strlit(" B"); }
        out.append(" B");
    }
    assert(out@ =~= size_text(size as nat));
    out
}

} // verus!
