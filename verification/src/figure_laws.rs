//! How numbers are read and shown: the units of a typed size, and how close
//! what is shown is to what was counted.

use vstd::prelude::*;
use crate::figures;
use crate::figures::Decimal;
use crate::metrics::Fraction;
use crate::sizes;
use crate::sizes::SizeFault;
use crate::text;

verus! {

// ---------------------------------------------------------------------------
// Rounding
// ---------------------------------------------------------------------------

/// The nearest whole number is at most a half away; of two that are equally
/// near it is the even one.
pub proof fn rounding_goes_to_the_nearest(num: nat, den: nat)
    requires
        den > 0,
    ensures
        ({
            let n = figures::nearest(num, den);
            &&& 2 * (n * den) <= 2 * num + den
            &&& 2 * num <= 2 * (n * den) + den
            &&& 2 * (n * den) == 2 * num + den || 2 * num == 2 * (n * den) + den ==> n % 2 == 0
        }),
{
    let q = num / den;
    let r = num % den;
    vstd::arithmetic::div_mod::lemma_fundamental_div_mod(num as int, den as int);
    assert((q + 1) * den == q * den + den) by (nonlinear_arith);
    assert(den * q == q * den) by (nonlinear_arith);
    if figures::nearest(num, den) == q {
        assert(num == q * den + r);
    } else {
        assert(num == q * den + r);
    }
}

/// The powers of two.
pub proof fn powers_of_two(n: nat)
    ensures
        figures::two_to(n) == vstd::arithmetic::power2::pow2(n),
    decreases n,
{
    vstd::arithmetic::power2::lemma2_to64();
    if n > 0 {
        powers_of_two((n - 1) as nat);
        vstd::arithmetic::power2::lemma_pow2_unfold(n);
    }
}

/// A number of up to 53 bits is kept as it is; a longer one becomes the nearest
/// that has no more than 53 bits before the zeros behind them.
pub proof fn long_numbers_are_kept_to_53_bits(n: nat, k: nat)
    requires
        figures::two_to((52 + k) as nat) <= n < figures::two_to((53 + k) as nat),
    ensures
        k == 0 ==> figures::to_double(n) == n,
        k > 0 ==> ({
            let unit = figures::two_to(k);
            let d = figures::to_double(n);
            &&& d % unit == 0
            &&& 2 * d <= 2 * n + unit
            &&& 2 * n <= 2 * d + unit
        }),
{
    let b = figures::bit_count(n);
    figures::lemma_bit_count(n);
    figures::lemma_two_to_positive((52 + k) as nat);
    assert(b == 53 + k) by {
        if b < 53 + k {
            figures::lemma_two_to_monotone(b, (52 + k) as nat);
        } else if b > 53 + k {
            figures::lemma_two_to_monotone((53 + k) as nat, (b - 1) as nat);
        }
    }
    if k > 0 {
        let unit = figures::two_to(k);
        figures::lemma_two_to_positive(k);
        rounding_goes_to_the_nearest(n, unit);
        let m = figures::nearest(n, unit);
        vstd::arithmetic::div_mod::lemma_mod_multiples_basic(m as int, unit as int);
    }
}

/// A number below 2^53 is kept as it is.
pub proof fn short_numbers_are_kept(n: nat)
    requires
        n < 9007199254740992,
    ensures
        figures::to_double(n) == n,
{
    figures::lemma_two_to_values();
    figures::lemma_bit_count(n);
    let b = figures::bit_count(n);
    if b > 53 {
        figures::lemma_two_to_monotone(53, (b - 1) as nat);
    }
}

// ---------------------------------------------------------------------------
// Typed sizes
// ---------------------------------------------------------------------------

/// Whether a unit may follow: the text in front of it is a number, so it ends
/// in no letter of a unit.
pub open spec fn ends_in_no_unit(s: Seq<char>) -> bool {
    s.len() == 0 || (s.last() != 'T' && s.last() != 'G' && s.last() != 'M' && s.last() != 'B'
        && s.last() != 'i')
}

/// What a typed size means: `T`, `G` and `M`, with or without a `B`, are powers
/// of ten, `TiB`, `GiB` and `MiB` are powers of two, and a number alone is one
/// of bytes.
pub proof fn units_of_typed_sizes(n: Seq<char>)
    requires
        ends_in_no_unit(n),
    ensures
        sizes::parts(n) == (n, 1u64),
        sizes::parts(n + "M"@) == (n, 1_000_000u64),
        sizes::parts(n + "MB"@) == (n, 1_000_000u64),
        sizes::parts(n + "G"@) == (n, 1_000_000_000u64),
        sizes::parts(n + "GB"@) == (n, 1_000_000_000u64),
        sizes::parts(n + "T"@) == (n, 1_000_000_000_000u64),
        sizes::parts(n + "TB"@) == (n, 1_000_000_000_000u64),
        sizes::parts(n + "MiB"@) == (n, 1_048_576u64),
        sizes::parts(n + "GiB"@) == (n, 1_073_741_824u64),
        sizes::parts(n + "TiB"@) == (n, 1_099_511_627_776u64),
{
    reveal_strlit("M");
    reveal_strlit("MB");
    reveal_strlit("G");
    reveal_strlit("GB");
    reveal_strlit("T");
    reveal_strlit("TB");
    reveal_strlit("MiB");
    reveal_strlit("GiB");
    reveal_strlit("TiB");
    lemma_ends(n);
    lemma_ends(n + "M"@);
    lemma_ends(n + "MB"@);
    lemma_ends(n + "G"@);
    lemma_ends(n + "GB"@);
    lemma_ends(n + "T"@);
    lemma_ends(n + "TB"@);
    lemma_ends(n + "MiB"@);
    lemma_ends(n + "GiB"@);
    lemma_ends(n + "TiB"@);
    assert(sizes::but_last(n + "M"@, 1) =~= n);
    assert(sizes::but_last(n + "MB"@, 2) =~= n);
    assert(sizes::but_last(n + "G"@, 1) =~= n);
    assert(sizes::but_last(n + "GB"@, 2) =~= n);
    assert(sizes::but_last(n + "T"@, 1) =~= n);
    assert(sizes::but_last(n + "TB"@, 2) =~= n);
    assert(sizes::but_last(n + "MiB"@, 3) =~= n);
    assert(sizes::but_last(n + "GiB"@, 3) =~= n);
    assert(sizes::but_last(n + "TiB"@, 3) =~= n);
}

/// With which of the units a text ends, by its last characters.
proof fn lemma_ends(s: Seq<char>)
    ensures
        ({
            let k = s.len() as int;
            let one = |a: char| k >= 1 && s[k - 1] == a;
            let two = |a: char, b: char| k >= 2 && s[k - 2] == a && s[k - 1] == b;
            let three = |a: char, b: char, c: char|
                k >= 3 && s[k - 3] == a && s[k - 2] == b && s[k - 1] == c;
            &&& text::ends_with(s, "M"@) <==> one('M')
            &&& text::ends_with(s, "G"@) <==> one('G')
            &&& text::ends_with(s, "T"@) <==> one('T')
            &&& text::ends_with(s, "MB"@) <==> two('M', 'B')
            &&& text::ends_with(s, "GB"@) <==> two('G', 'B')
            &&& text::ends_with(s, "TB"@) <==> two('T', 'B')
            &&& text::ends_with(s, "MiB"@) <==> three('M', 'i', 'B')
            &&& text::ends_with(s, "GiB"@) <==> three('G', 'i', 'B')
            &&& text::ends_with(s, "TiB"@) <==> three('T', 'i', 'B')
        }),
{
    reveal_strlit("M");
    reveal_strlit("MB");
    reveal_strlit("G");
    reveal_strlit("GB");
    reveal_strlit("T");
    reveal_strlit("TB");
    reveal_strlit("MiB");
    reveal_strlit("GiB");
    reveal_strlit("TiB");
    let k = s.len() as int;
    if k >= 1 {
        let t = s.subrange(k - 1, k);
        assert(t[0] == s[k - 1]);
        assert(t =~= seq![s[k - 1]]);
        assert("M"@ =~= seq!['M']);
        assert("G"@ =~= seq!['G']);
        assert("T"@ =~= seq!['T']);
        assert(t == "M"@ ==> t[0] == "M"@[0]);
        assert(t == "G"@ ==> t[0] == "G"@[0]);
        assert(t == "T"@ ==> t[0] == "T"@[0]);
    }
    if k >= 2 {
        let t = s.subrange(k - 2, k);
        assert(t[0] == s[k - 2] && t[1] == s[k - 1]);
        assert(t =~= seq![s[k - 2], s[k - 1]]);
        assert("MB"@ =~= seq!['M', 'B']);
        assert("GB"@ =~= seq!['G', 'B']);
        assert("TB"@ =~= seq!['T', 'B']);
        assert(t == "MB"@ ==> t[0] == "MB"@[0] && t[1] == "MB"@[1]);
        assert(t == "GB"@ ==> t[0] == "GB"@[0] && t[1] == "GB"@[1]);
        assert(t == "TB"@ ==> t[0] == "TB"@[0] && t[1] == "TB"@[1]);
    }
    if k >= 3 {
        let t = s.subrange(k - 3, k);
        assert(t[0] == s[k - 3] && t[1] == s[k - 2] && t[2] == s[k - 1]);
        assert(t =~= seq![s[k - 3], s[k - 2], s[k - 1]]);
        assert("MiB"@ =~= seq!['M', 'i', 'B']);
        assert("GiB"@ =~= seq!['G', 'i', 'B']);
        assert("TiB"@ =~= seq!['T', 'i', 'B']);
        assert(t == "MiB"@ ==> t[0] == "MiB"@[0] && t[1] == "MiB"@[1] && t[2] == "MiB"@[2]);
        assert(t == "GiB"@ ==> t[0] == "GiB"@[0] && t[1] == "GiB"@[1] && t[2] == "GiB"@[2]);
        assert(t == "TiB"@ ==> t[0] == "TiB"@[0] && t[1] == "TiB"@[1] && t[2] == "TiB"@[2]);
    }
}

/// A whole number in its binary form, `m` times two to the power of `k`, times
/// the unit, is that many bytes, as long as the product is kept exactly and
/// fits; a fraction of a byte is dropped.
pub proof fn sizes_are_the_number_times_the_unit(bits: u64, unit: u64, m: nat, e: int)
    requires
        sizes::is_finite(bits),
        !sizes::is_negative(bits),
        sizes::decoded(bits) == (m, e),
        m * unit < 9007199254740992,
    ensures
        e >= 0 && m * unit * figures::two_to(e as nat) < 18446744073709551616 ==> sizes::bytes_of(
            bits,
            unit,
        ) == Ok::<nat, SizeFault>((m * unit * figures::two_to(e as nat)) as nat),
        e >= 0 && m * unit * figures::two_to(e as nat) >= 18446744073709551616 ==> sizes::bytes_of(
            bits,
            unit,
        ) == Err::<nat, SizeFault>(SizeFault::TooLarge),
        e < 0 ==> (sizes::bytes_of(bits, unit) matches Ok(n) && n * figures::two_to((-e) as nat)
            <= m * unit < (n + 1) * figures::two_to((-e) as nat)),
{
    short_numbers_are_kept((m * unit) as nat);
    if e < 0 {
        let d = figures::two_to((-e) as nat);
        let p = (m * unit) as nat;
        figures::lemma_two_to_positive((-e) as nat);
        vstd::arithmetic::div_mod::lemma_fundamental_div_mod(p as int, d as int);
        vstd::arithmetic::div_mod::lemma_mod_bound(p as int, d as int);
        let n = p / d;
        let r = p % d;
        assert(d * n == n * d) by (nonlinear_arith);
        assert((n + 1) * d == n * d + d) by (nonlinear_arith);
        assert(p == n * d + r);
        assert(n <= p) by (nonlinear_arith)
            requires
                n * d <= p,
                d >= 1,
                n >= 0,
        ;
    }
}

/// A number that is infinite or none, or below zero, is no size, whatever the
/// unit; text without a number is none either.
pub proof fn what_is_no_size(bits: u64, unit: u64, raw: Seq<char>)
    ensures
        (bits / 4503599627370496) % 2048 == 2047 ==> sizes::bytes_of(bits, unit) == Err::<
            nat,
            SizeFault,
        >(SizeFault::NotFinite),
        bits > 9223372036854775808 && (bits / 4503599627370496) % 2048 != 2047 ==> sizes::bytes_of(
            bits,
            unit,
        ) == Err::<nat, SizeFault>(SizeFault::Negative),
        sizes::size_of(raw, None) == Err::<nat, SizeFault>(SizeFault::NoNumber),
{
    let b = bits as nat;
    if bits > 9223372036854775808 && (bits / 4503599627370496) % 2048 != 2047 {
        assert(b / 9223372036854775808 == 1);
        if sizes::decoded(bits).0 == 0 {
            assert((b / 4503599627370496) % 2048 == 0);
            assert(b % 4503599627370496 == 0);
            assert(b / 4503599627370496 == 2048);
            assert(b == 9223372036854775808);
        }
    }
}

/// The parts of a number in its binary form: below the sign an exponent of
/// eleven bits and a fraction of 52, which has a one in front unless the
/// exponent is zero.
pub proof fn binary_numbers_have_an_exponent_and_a_fraction(exponent: nat, fraction: nat)
    requires
        exponent < 2048,
        fraction < 4503599627370496,
    ensures
        ({
            let bits = (exponent * 4503599627370496 + fraction) as u64;
            &&& exponent > 0 ==> sizes::decoded(bits) == ((fraction + 4503599627370496) as nat, (
            exponent - 1075) as int)
            &&& exponent == 0 ==> sizes::decoded(bits) == (fraction, -1074int)
            &&& !sizes::is_negative(bits)
            &&& sizes::is_finite(bits) <==> exponent < 2047
        }),
{
    let bits = (exponent * 4503599627370496 + fraction) as u64;
    let b = bits as nat;
    assert(b == exponent * 4503599627370496 + fraction);
    assert(b / 4503599627370496 == exponent);
    assert(b % 4503599627370496 == fraction);
    assert(exponent % 2048 == exponent);
    assert(b / 9223372036854775808 == 0);
}

// ---------------------------------------------------------------------------
// Shown sizes
// ---------------------------------------------------------------------------

/// The unit that a size is shown in: the largest that is not more than it.
pub proof fn sizes_are_shown_in_the_largest_unit(b: nat)
    requires
        b >= 1000,
    ensures
        ({
            let u = figures::unit_of(b);
            &&& b < 1_000_000 ==> u == (1_000nat, "KB"@)
            &&& 1_000_000 <= b < 1_000_000_000 ==> u == (1_000_000nat, "MB"@)
            &&& 1_000_000_000 <= b < 1_000_000_000_000 ==> u == (1_000_000_000nat, "GB"@)
            &&& 1_000_000_000_000 <= b < 1_000_000_000_000_000 ==> u == (1_000_000_000_000nat, "TB"@)
            &&& 1_000_000_000_000_000 <= b ==> u == (1_000_000_000_000_000nat, "PB"@)
        }),
{
}

/// A size is shown in whole bytes below a thousand; above, it is shown with one
/// decimal in its unit, and that figure is the nearest to the size: at most a
/// half of a tenth away, but for a millionth of that.
pub proof fn shown_sizes_are_accurate(bytes: nat) -> (tenths: nat)
    requires
        bytes <= u64::MAX,
    ensures
        figures::to_double(bytes) < 1000 ==> figures::bytes_text(bytes) == text::dec(bytes)
            + " B"@,
        figures::to_double(bytes) >= 1000 ==> ({
            let b = figures::to_double(bytes);
            let f = figures::unit_of(b).0;
            &&& figures::bytes_text(bytes) == text::dec(tenths / 10) + "."@ + text::dec(tenths % 10)
                + " "@ + figures::unit_of(b).1
            &&& 2_000_000 * (tenths * f) <= 20_000_000 * b + 1_000_001 * f
            &&& 20_000_000 * b <= 2_000_000 * (tenths * f) + 1_000_001 * f
        }),
{
    let b = figures::to_double(bytes);
    let f = figures::unit_of(b).0;
    let q = figures::quotient(b, f);
    let t = figures::scaled(10 * q.m, q);
    if b >= 1000 {
        figures::lemma_two_to_values();
        figures::lemma_to_double(bytes, 64);
        assert(f <= b);
        assert(b < f * 32768);
        assert(q.down == 0);
        assert(b * figures::two_to(0) == b) by {
            assert(figures::two_to(0) == 1);
            assert(b * 1 == b);
        }
        assert(figures::two_to(15) == 32768) by {
            reveal_with_fuel(figures::two_to, 16);
        }
        figures::lemma_halvings(b, f, 15);
        let u = figures::two_to(q.up);
        figures::lemma_two_to_monotone(q.up, 15);
        let h = figures::two_to(52);
        let num = b * h;
        let den = f * u;
        assert(den > 0) by (nonlinear_arith)
            requires
                f > 0,
                u >= 1,
                den == f * u,
        ;
        let m = q.m;
        assert(m == figures::nearest(num, den));
        rounding_goes_to_the_nearest(num, den);
        let w = 10 * m * u;
        assert(t == figures::nearest(w, h));
        rounding_goes_to_the_nearest(w, h);
        lemma_accuracy(b as int, f as int, u as int, h as int, m as int, t as int);
        assert(figures::bytes_text(bytes) =~= text::dec(t / 10) + "."@ + text::dec(t % 10) + " "@
            + figures::unit_of(b).1);
    }
    t
}

proof fn lemma_accuracy(b: int, f: int, u: int, h: int, m: int, t: int)
    requires
        f > 0,
        1 <= u <= 32768,
        h == 4503599627370496,
        2 * (m * (f * u)) <= 2 * (b * h) + f * u,
        2 * (b * h) <= 2 * (m * (f * u)) + f * u,
        2 * (t * h) <= 2 * (10 * m * u) + h,
        2 * (10 * m * u) <= 2 * (t * h) + h,
    ensures
        2_000_000 * (t * f) <= 20_000_000 * b + 1_000_001 * f,
        20_000_000 * b <= 2_000_000 * (t * f) + 1_000_001 * f,
{
    let w = m * u;
    let x = w * f;
    let y = t * f;
    assert(m * (f * u) == x) by (nonlinear_arith)
        requires
            w == m * u,
            x == w * f,
    ;
    assert(10 * m * u == 10 * w) by (nonlinear_arith)
        requires
            w == m * u,
    ;
    // Times f, and with y for t * f.
    assert(2 * (y * h) <= 20 * x + h * f) by (nonlinear_arith)
        requires
            2 * (t * h) <= 20 * w + h,
            f > 0,
            y == t * f,
            x == w * f,
    ;
    assert(20 * x <= 2 * (y * h) + h * f) by (nonlinear_arith)
        requires
            20 * w <= 2 * (t * h) + h,
            f > 0,
            y == t * f,
            x == w * f,
    ;
    assert(f * u <= 32768 * f) by (nonlinear_arith)
        requires
            1 <= u <= 32768,
            f > 0,
    ;
    assert(b * h == h * b) by (nonlinear_arith);
    assert(y * h == h * y) by (nonlinear_arith);
    assert(h * f == f * h) by (nonlinear_arith);
    assert(h * b == 4503599627370496 * b);
    assert(h * y == 4503599627370496 * y);
    assert(h * f == 4503599627370496 * f);
}

/// A share is shown as the nearest whole percent: at most a half of a percent
/// away from the hundredfold of the ratio, but for the ten-trillionth of it. Of
/// nothing, and out of nothing, it is zero.
pub proof fn percentages_are_accurate(f: Fraction)
    ensures
        f.numerator == 0 || f.denominator == 0 ==> figures::percent_of(f) == 0,
        f.numerator > 0 && f.denominator > 0 ==> ({
            let a = figures::to_double(f.numerator as nat);
            let b = figures::to_double(f.denominator as nat);
            let p = figures::percent_of(f);
            &&& 10_000_000_000_000 * (2 * (p * b)) <= 10_000_000_000_000 * (200 * a + b) + a
            &&& 10_000_000_000_000 * (200 * a) <= 10_000_000_000_000 * (2 * (p * b) + b) + a
        }),
{
    if f.numerator > 0 && f.denominator > 0 {
        let a = figures::to_double(f.numerator as nat);
        let b = figures::to_double(f.denominator as nat);
        figures::lemma_two_to_values();
        figures::lemma_to_double(f.numerator as nat, 64);
        figures::lemma_to_double(f.denominator as nat, 64);
        let q = figures::quotient(a, b);
        let top = figures::two_to(64);
        assert(b <= a * top) by (nonlinear_arith)
            requires
                b <= top,
                a >= 1,
        ;
        figures::lemma_doublings(a, b, 64);
        let d = figures::two_to(q.down);
        figures::lemma_two_to_positive(q.down);
        let grown = a * d;
        assert(figures::two_to(65) == 2 * top);
        assert(grown < b * figures::two_to(65)) by {
            if q.down == 0 {
                assert(a * 1 == a);
                assert(a < b * (2 * top)) by (nonlinear_arith)
                    requires
                        a <= top,
                        top > 0,
                        b >= 1,
                ;
            } else {
                assert(2 * b <= b * (2 * top)) by (nonlinear_arith)
                    requires
                        top >= 1,
                ;
            }
        }
        figures::lemma_halvings(grown, b, 65);
        let u = figures::two_to(q.up);
        figures::lemma_two_to_positive(q.up);
        let x = b * u;
        let h = figures::two_to(52);
        assert(x > 0) by (nonlinear_arith)
            requires
                x == b * u,
                b > 0,
                u > 0,
        ;
        rounding_goes_to_the_nearest(grown * h, x);
        assert(q.m == figures::nearest(grown * h, x));
        assert(grown * h <= (2 * h) * x) by (nonlinear_arith)
            requires
                grown < 2 * x,
        ;
        figures::lemma_nearest_at_most(grown * h, x, 2 * h);
        let t = figures::to_double(100 * q.m);
        lemma_hundredfold(q.m);
        let g = figures::two_to(52 + q.down);
        figures::lemma_two_to_adds(52, q.down);
        figures::lemma_two_to_positive(52 + q.down);
        let p = figures::percent_of(f);
        assert(p == figures::nearest(t * u, g));
        rounding_goes_to_the_nearest(t * u, g);
        lemma_percent(
            a as int,
            b as int,
            d as int,
            u as int,
            h as int,
            q.m as int,
            t as int,
            p as int,
        );
    }
}

/// A hundred times a number of 53 bits is kept to within 64.
proof fn lemma_hundredfold(m: nat)
    requires
        m <= 9007199254740992,
    ensures
        2 * figures::to_double(100 * m) <= 200 * m + 128,
        200 * m <= 2 * figures::to_double(100 * m) + 128,
{
    let n = 100 * m;
    let b = figures::bit_count(n);
    figures::lemma_bit_count(n);
    figures::lemma_two_to_values();
    figures::lemma_two_to_adds(53, 7);
    if b > 53 {
        if b > 60 {
            figures::lemma_two_to_monotone(60, (b - 1) as nat);
        }
        let unit = figures::two_to((b - 53) as nat);
        figures::lemma_two_to_monotone((b - 53) as nat, 7);
        rounding_goes_to_the_nearest(n, unit);
    }
}

proof fn lemma_percent(a: int, b: int, d: int, u: int, h: int, m: int, t: int, p: int)
    requires
        a > 0,
        b > 0,
        d >= 1,
        u >= 1,
        h == 4503599627370496,
        b * u <= a * d,
        2 * (m * (b * u)) <= 2 * (a * d * h) + b * u,
        2 * (a * d * h) <= 2 * (m * (b * u)) + b * u,
        2 * t <= 200 * m + 128,
        200 * m <= 2 * t + 128,
        2 * (p * (h * d)) <= 2 * (t * u) + h * d,
        2 * (t * u) <= 2 * (p * (h * d)) + h * d,
    ensures
        10_000_000_000_000 * (2 * (p * b)) <= 10_000_000_000_000 * (200 * a + b) + a,
        10_000_000_000_000 * (200 * a) <= 10_000_000_000_000 * (2 * (p * b) + b) + a,
{
    let x = b * u;
    let ad = a * d;
    let g = h * d;
    let mx = m * x;
    let tx = t * x;
    let s = p * g * b;
    assert(2 * tx <= 200 * mx + 128 * x && 200 * mx <= 2 * tx + 128 * x) by (nonlinear_arith)
        requires
            2 * t <= 200 * m + 128,
            200 * m <= 2 * t + 128,
            mx == m * x,
            tx == t * x,
            x >= 0,
    ;
    assert((t * u) * b == tx) by (nonlinear_arith)
        requires
            tx == t * x,
            x == b * u,
    ;
    let tu = t * u;
    let pg = p * g;
    assert(2 * s <= 2 * tx + g * b && 2 * tx <= 2 * s + g * b) by (nonlinear_arith)
        requires
            2 * pg <= 2 * tu + g,
            2 * tu <= 2 * pg + g,
            s == pg * b,
            tu * b == tx,
            b > 0,
    ;
    let adh = ad * h;
    assert(2 * s <= 200 * adh + g * b + 228 * ad);
    assert(200 * adh <= 2 * s + g * b + 228 * ad);
    // All of it is a multiple of d.
    let pb = p * b;
    assert(s == d * (h * pb)) by (nonlinear_arith)
        requires
            s == p * g * b,
            g == h * d,
            pb == p * b,
    ;
    assert(adh == d * (h * a)) by (nonlinear_arith)
        requires
            adh == ad * h,
            ad == a * d,
    ;
    assert(g * b == d * (h * b)) by (nonlinear_arith)
        requires
            g == h * d,
    ;
    assert(ad == d * a) by (nonlinear_arith)
        requires
            ad == a * d,
    ;
    assert(2 * (h * pb) <= 200 * (h * a) + h * b + 228 * a && 200 * (h * a) <= 2 * (h * pb) + h * b
        + 228 * a) by (nonlinear_arith)
        requires
            2 * (d * (h * pb)) <= 200 * (d * (h * a)) + d * (h * b) + 228 * (d * a),
            200 * (d * (h * a)) <= 2 * (d * (h * pb)) + d * (h * b) + 228 * (d * a),
            d >= 1,
    ;
    assert(h * pb == 4503599627370496 * pb);
    assert(h * a == 4503599627370496 * a);
    assert(h * b == 4503599627370496 * b);
}

// ---------------------------------------------------------------------------
// Shown decimals
// ---------------------------------------------------------------------------

/// A number with one decimal is shown with it behind a point, below zero with a
/// minus in front; rounded it is shown as the nearest whole number.
pub proof fn decimals_are_shown_with_one_digit(d: Decimal)
    ensures
        d.tenths >= 0 ==> figures::decimal_text(d) == text::dec((d.tenths / 10) as nat) + "."@
            + text::dec((d.tenths % 10) as nat),
        d.tenths < 0 ==> figures::decimal_text(d) == "-"@ + (text::dec((-d.tenths / 10) as nat) + "."@
            + text::dec((-d.tenths % 10) as nat)),
        d.tenths >= 0 ==> figures::rounded_text(d) == text::dec(
            figures::nearest(d.tenths as nat, 10),
        ),
        d.tenths < 0 ==> figures::rounded_text(d) == "-"@ + text::dec(
            figures::nearest((-d.tenths) as nat, 10),
        ),
{
    reveal_strlit("");
    let e = ""@;
    assert(e =~= Seq::<char>::empty());
    assert(e + figures::tenths_text(figures::size_of(d)) =~= figures::tenths_text(
        figures::size_of(d),
    ));
    let n = figures::nearest(figures::size_of(d), 10);
    assert(e + text::dec(n) =~= text::dec(n));
}

} // verus!
