//! Figures for people: byte counts in decimal units, percentages, and numbers
//! with one decimal.
//!
//! Byte counts and ratios are shown as a calculation in IEEE 754 binary64
//! shows them: each operand and each quotient or product is rounded to 53
//! significant bits, and the outcome is rounded to the decimals shown, ties
//! going to the even neighbour both times. Here that is done on integers.

use vstd::prelude::*;
use crate::metrics::Fraction;
use crate::text;

verus! {

// ---------------------------------------------------------------------------
// Rounding
// ---------------------------------------------------------------------------

/// `num / den` rounded to an integer, ties to the even one.
pub open spec fn nearest(num: nat, den: nat) -> nat {
    let q = num / den;
    let r = num % den;
    if 2 * r < den || (2 * r == den && q % 2 == 0) {
        q
    } else {
        q + 1
    }
}

/// Two to the power of `n`.
pub open spec fn two_to(n: nat) -> nat
    decreases n,
{
    if n == 0 {
        1
    } else {
        2 * two_to((n - 1) as nat)
    }
}

/// The number of binary digits of `n`.
pub open spec fn bit_count(n: nat) -> nat
    decreases n,
{
    if n == 0 {
        0
    } else {
        1 + bit_count(n / 2)
    }
}

/// `n` rounded to 53 significant bits.
pub open spec fn to_double(n: nat) -> nat {
    if bit_count(n) <= 53 {
        n
    } else {
        let unit = two_to((bit_count(n) - 53) as nat);
        nearest(n, unit) * unit
    }
}

/// How often `a` must be doubled to reach `b`.
pub open spec fn doublings(a: nat, b: nat) -> nat
    decreases
            if a < b {
                b - a
            } else {
                0
            },
    when a > 0
{
    if a >= b {
        0
    } else {
        1 + doublings(2 * a, b)
    }
}

/// How often `b` can be doubled without exceeding `a`.
pub open spec fn halvings(a: nat, b: nat) -> nat
    decreases
            if b <= a {
                a - b
            } else {
                0
            },
    when b > 0
{
    if 2 * b > a {
        0
    } else {
        1 + halvings(a, 2 * b)
    }
}

/// The quotient of two positive numbers with 53 significant bits, as a
/// mantissa and two exponents: it is `m * 2^up / 2^(52 + down)`.
pub struct Quotient {
    pub m: nat,
    pub up: nat,
    pub down: nat,
}

/// `a / b` rounded to 53 significant bits.
pub open spec fn quotient(a: nat, b: nat) -> Quotient {
    let down = doublings(a, b);
    let up = halvings(a * two_to(down), b);
    Quotient { m: nearest(a * two_to(down) * two_to(52), b * two_to(up)), up, down }
}

/// `factor` times a quotient, rounded to an integer.
pub open spec fn scaled(factor: nat, q: Quotient) -> nat {
    nearest(factor * two_to(q.up), two_to(52 + q.down))
}

// ---------------------------------------------------------------------------
// Texts
// ---------------------------------------------------------------------------

/// A number of tenths with its decimal point.
pub open spec fn tenths_text(tenths: nat) -> Seq<char> {
    text::dec(tenths / 10) + "."@ + text::dec(tenths % 10)
}

/// The unit in which a byte count is shown, and its name.
pub open spec fn unit_of(b: nat) -> (nat, Seq<char>) {
    if b >= 1_000_000_000_000_000 {
        (1_000_000_000_000_000, "PB"@)
    } else if b >= 1_000_000_000_000 {
        (1_000_000_000_000, "TB"@)
    } else if b >= 1_000_000_000 {
        (1_000_000_000, "GB"@)
    } else if b >= 1_000_000 {
        (1_000_000, "MB"@)
    } else {
        (1_000, "KB"@)
    }
}

/// A byte count in decimal units, e.g. `4.0 TB`.
pub open spec fn bytes_text(bytes: nat) -> Seq<char> {
    let b = to_double(bytes);
    if b < 1000 {
        text::dec(bytes) + " B"@
    } else {
        let unit = unit_of(b);
        let q = quotient(b, unit.0);
        tenths_text(scaled(10 * q.m, q)) + " "@ + unit.1
    }
}

/// The whole percent nearest to `f`.
pub open spec fn percent_of(f: Fraction) -> nat {
    if f.numerator == 0 || f.denominator == 0 {
        0
    } else {
        let q = quotient(to_double(f.numerator as nat), to_double(f.denominator as nat));
        scaled(to_double(100 * q.m), q)
    }
}

// ---------------------------------------------------------------------------
// Facts about powers of two and rounding
// ---------------------------------------------------------------------------

pub(crate) proof fn lemma_two_to_positive(n: nat)
    ensures
        two_to(n) >= 1,
    decreases n,
{
    if n > 0 {
        lemma_two_to_positive((n - 1) as nat);
    }
}

pub(crate) proof fn lemma_two_to_monotone(m: nat, n: nat)
    requires
        m <= n,
    ensures
        1 <= two_to(m) <= two_to(n),
    decreases n,
{
    lemma_two_to_positive(m);
    if m < n {
        lemma_two_to_monotone(m, (n - 1) as nat);
    }
}

pub(crate) proof fn lemma_two_to_adds(m: nat, n: nat)
    ensures
        two_to(m + n) == two_to(m) * two_to(n),
    decreases n,
{
    if n > 0 {
        lemma_two_to_adds(m, (n - 1) as nat);
        let x = two_to(m);
        let y = two_to((n - 1) as nat);
        assert(2 * (x * y) == x * (2 * y)) by (nonlinear_arith);
        assert(two_to(m + n) == 2 * two_to((m + n - 1) as nat));
        assert((m + n - 1) as nat == m + (n - 1) as nat);
    } else {
        assert(two_to(m) * 1 == two_to(m));
    }
}

pub(crate) proof fn lemma_two_to_values()
    ensures
        two_to(7) == 128,
        two_to(11) == 2048,
        two_to(52) == 4503599627370496,
        two_to(53) == 9007199254740992,
        two_to(64) == 18446744073709551616,
{
    reveal_with_fuel(two_to, 12);
    lemma_two_to_adds(11, 11);
    lemma_two_to_adds(22, 11);
    lemma_two_to_adds(33, 11);
    lemma_two_to_adds(44, 8);
    lemma_two_to_adds(44, 9);
    lemma_two_to_adds(53, 11);
}

/// The powers of two that bound sizes.
pub(crate) proof fn lemma_wide_values()
    ensures
        two_to(11) == 2048,
        two_to(52) == 4503599627370496,
        two_to(64) == 18446744073709551616,
        two_to(100) == 1267650600228229401496703205376,
{
    lemma_two_to_values();
    lemma_two_to_adds(11, 11);
    lemma_two_to_adds(22, 11);
    lemma_two_to_adds(33, 3);
    reveal_with_fuel(two_to, 4);
    assert(two_to(33) == 8589934592);
    assert(two_to(36) == 68719476736);
    lemma_two_to_adds(64, 36);
}

/// A quotient below a bound does not round beyond it.
pub(crate) proof fn lemma_nearest_at_most(num: nat, den: nat, bound: nat)
    requires
        den > 0,
        num <= bound * den,
    ensures
        nearest(num, den) <= bound,
{
    let q = num / den;
    let r = num % den;
    vstd::arithmetic::div_mod::lemma_fundamental_div_mod(num as int, den as int);
    assert(q <= bound) by (nonlinear_arith)
        requires
            num == den * q + r,
            num <= bound * den,
            r >= 0,
            den > 0,
    ;
    if q == bound {
        assert(r == 0) by (nonlinear_arith)
            requires
                num == den * q + r,
                num <= bound * den,
                r >= 0,
                q == bound,
        ;
    }
}

/// A number of `k` binary digits is below two to the `k`.
pub(crate) proof fn lemma_bit_count(n: nat)
    ensures
        n < two_to(bit_count(n)),
        n > 0 ==> two_to((bit_count(n) - 1) as nat) <= n,
    decreases n,
{
    if n > 0 {
        lemma_bit_count(n / 2);
        if n / 2 > 0 {
            let k = bit_count(n / 2);
            assert(two_to(k) == 2 * two_to((k - 1) as nat));
        }
    }
}

proof fn lemma_bit_count_at_most(n: nat, k: nat)
    requires
        n < two_to(k),
    ensures
        bit_count(n) <= k,
{
    lemma_bit_count(n);
    if bit_count(n) > k {
        lemma_two_to_monotone(k, (bit_count(n) - 1) as nat);
    }
}

/// Rounding to 53 bits stays within two to the number of bits.
pub(crate) proof fn lemma_to_double(n: nat, k: nat)
    requires
        n <= two_to(k),
        k >= 53,
    ensures
        to_double(n) <= two_to(k),
        n > 0 ==> to_double(n) > 0,
{
    lemma_bit_count(n);
    let b = bit_count(n);
    if b > 53 {
        let unit = two_to((b - 53) as nat);
        let m = nearest(n, unit);
        lemma_two_to_positive((b - 53) as nat);
        lemma_two_to_adds((b - 53) as nat, 53);
        lemma_two_to_adds((b - 53) as nat, 52);
        let half = two_to(52);
        let full = two_to(53);
        assert(n <= full * unit) by (nonlinear_arith)
            requires
                n < two_to(b),
                two_to(b) == unit * full,
        ;
        lemma_nearest_at_most(n, unit, full);
        assert(m * unit <= full * unit) by (nonlinear_arith)
            requires
                m <= full,
        ;
        assert(full * unit == unit * full) by (nonlinear_arith);
        // The quotient is at least two to the 52, so it does not vanish.
        vstd::arithmetic::div_mod::lemma_fundamental_div_mod(n as int, unit as int);
        let q = n / unit;
        let r = n % unit;
        assert(q >= 1) by (nonlinear_arith)
            requires
                n == unit * q + r,
                r < unit,
                n >= unit * half,
                half >= 1,
                unit >= 1,
        ;
        assert(m * unit > 0) by (nonlinear_arith)
            requires
                m >= 1,
                unit >= 1,
        ;
        if b <= k {
            lemma_two_to_monotone(b, k);
        } else {
            // Only the power of two itself has more digits.
            lemma_two_to_monotone(k, (b - 1) as nat);
            assert(n == two_to(k));
            assert(b == k + 1) by {
                if b > k + 1 {
                    lemma_two_to_monotone(k + 1, (b - 1) as nat);
                    lemma_two_to_positive(k);
                }
            }
            assert(n == unit * half);
            lemma_nearest_at_most(n, unit, half);
            assert(m * unit <= unit * half) by (nonlinear_arith)
                requires
                    m <= half,
            ;
        }
    }
}

pub(crate) proof fn lemma_doublings(a: nat, b: nat, k: nat)
    requires
        a > 0,
        b <= a * two_to(k),
    ensures
        doublings(a, b) <= k,
        b <= a * two_to(doublings(a, b)),
        doublings(a, b) > 0 ==> a * two_to(doublings(a, b)) < 2 * b,
    decreases k,
{
    if a < b {
        if k == 0 {
            assert(a * 1 == a);
        } else {
            let y = two_to((k - 1) as nat);
            assert(a * (2 * y) == (2 * a) * y) by (nonlinear_arith);
            lemma_doublings(2 * a, b, (k - 1) as nat);
            let d = doublings(2 * a, b);
            let z = two_to(d);
            assert(a * (2 * z) == (2 * a) * z) by (nonlinear_arith);
            if d == 0 {
                assert((2 * a) * 1 == 2 * a);
            }
        }
    } else {
        assert(a * 1 == a);
    }
}

pub(crate) proof fn lemma_halvings(a: nat, b: nat, k: nat)
    requires
        b > 0,
        b <= a,
        a < b * two_to(k),
    ensures
        halvings(a, b) < k,
        b * two_to(halvings(a, b)) <= a < 2 * (b * two_to(halvings(a, b))),
    decreases k,
{
    if k == 0 {
        assert(b * 1 == b);
    } else if 2 * b > a {
        assert(b * 1 == b);
    } else {
        let y = two_to((k - 1) as nat);
        assert(b * (2 * y) == (2 * b) * y) by (nonlinear_arith);
        lemma_halvings(a, 2 * b, (k - 1) as nat);
        let z = two_to(halvings(a, 2 * b));
        assert(b * (2 * z) == (2 * b) * z) by (nonlinear_arith);
    }
}

/// A count that rounds to less than a thousand is less than a thousand.
pub proof fn lemma_small_double(n: nat)
    requires
        to_double(n) < 1000,
    ensures
        n < 1000,
{
    lemma_bit_count(n);
    let b = bit_count(n);
    if b > 53 {
        let unit = two_to((b - 53) as nat);
        lemma_two_to_positive((b - 53) as nat);
        lemma_two_to_adds((b - 53) as nat, 52);
        lemma_two_to_values();
        vstd::arithmetic::div_mod::lemma_fundamental_div_mod(n as int, unit as int);
        let q = n / unit;
        let r = n % unit;
        let m = nearest(n, unit);
        assert(q >= 1000) by (nonlinear_arith)
            requires
                n == unit * q + r,
                r < unit,
                n >= unit * 4503599627370496,
                unit >= 1,
        ;
        assert(m * unit >= 1000) by (nonlinear_arith)
            requires
                m >= 1000,
                unit >= 1,
        ;
    }
}

/// A rounded quotient exceeds the quotient by less than one.
proof fn lemma_nearest_close(num: nat, den: nat)
    requires
        den > 0,
    ensures
        nearest(num, den) * den < num + den,
{
    vstd::arithmetic::div_mod::lemma_fundamental_div_mod(num as int, den as int);
    let q = num / den;
    let r = num % den;
    if nearest(num, den) == q {
        assert(q * den < num + den) by (nonlinear_arith)
            requires
                num == den * q + r,
                0 <= r,
                den > 0,
        ;
    } else {
        assert((q + 1) * den < num + den) by (nonlinear_arith)
            requires
                num == den * q + r,
                0 < r,
                den > 0,
        ;
    }
}

/// The number of tenths shown for a byte count has at most six digits.
pub proof fn lemma_shown_tenths(bytes: nat)
    requires
        bytes <= u64::MAX,
        to_double(bytes) >= 1000,
    ensures
        ({
            let b = to_double(bytes);
            let q = quotient(b, unit_of(b).0);
            scaled(10 * q.m, q) < 1000000
        }),
{
    lemma_two_to_values();
    lemma_to_double(bytes, 64);
    let b = to_double(bytes);
    let f = unit_of(b).0;
    let q = quotient(b, f);
    assert(f <= b);
    assert(b < f * 32768);
    assert(q.down == 0);
    assert(b * two_to(0) == b) by {
        assert(two_to(0) == 1);
        assert(b * 1 == b);
    }
    assert(two_to(15) == 32768) by {
        reveal_with_fuel(two_to, 16);
    }
    lemma_halvings(b, f, 15);
    let u = two_to(q.up);
    lemma_two_to_monotone(q.up, 15);
    let den = f * u;
    let num = b * two_to(52);
    assert(den > 0) by (nonlinear_arith)
        requires
            f > 0,
            u >= 1,
            den == f * u,
    ;
    lemma_nearest_close(num, den);
    let m = q.m;
    // m * f * u < b * 2^52 + f * u, so m * u is below (b / f + 1) * 2^52.
    let h = two_to(52);
    let w = m * u;
    assert(m * den == w * f) by (nonlinear_arith)
        requires
            den == f * u,
            w == m * u,
    ;
    assert(b * h <= (f * 32768) * h) by (nonlinear_arith)
        requires
            b < f * 32768,
            h > 0,
    ;
    assert(f * u <= f * 32768) by (nonlinear_arith)
        requires
            u <= 32768,
            f > 0,
    ;
    if w > 32769 * h {
        assert(w * f >= (32769 * h) * f + f) by (nonlinear_arith)
            requires
                w >= 32769 * h + 1,
                f > 0,
        ;
        assert((32769 * h) * f + f >= (f * 32768) * h + f * 32768) by (nonlinear_arith)
            requires
                h == 4503599627370496,
                f > 0,
        ;
    }
    assert(10 * m * u <= 327690 * h) by (nonlinear_arith)
        requires
            w <= 32769 * h,
            w == m * u,
    ;
    lemma_nearest_at_most(10 * m * u, h, 327690);
}

// ---------------------------------------------------------------------------
// Calculating
// ---------------------------------------------------------------------------

fn nearest_of(num: u128, den: u128) -> (r: u128)
    requires
        den > 0,
        den <= 0x4000_0000_0000_0000_0000_0000_0000_0000,
        num <= 0x4000_0000_0000_0000_0000_0000_0000_0000,
    ensures
        r == nearest(num as nat, den as nat),
{
    let q: u128 = num / den;
    let rest: u128 = num % den;
    proof {
        vstd::arithmetic::div_mod::lemma_fundamental_div_mod(num as int, den as int);
        assert(q <= num) by (nonlinear_arith)
            requires
                num == den * q + rest,
                den >= 1,
                rest >= 0,
                q >= 0,
        ;
    }
    if 2 * rest < den || (2 * rest == den && q % 2 == 0) {
        q
    } else {
        q + 1
    }
}

/// The number of binary digits of `n`.
fn bits_of(n: u128) -> (k: u32)
    requires
        n <= two_to(100),
    ensures
        k == bit_count(n as nat),
        k <= 101,
{
    proof {
        lemma_two_to_positive(100);
        lemma_bit_count_at_most(n as nat, 101);
    }
    let mut rest: u128 = n;
    let mut k: u32 = 0;
    while rest > 0
        invariant
            bit_count(n as nat) == k + bit_count(rest as nat),
            bit_count(n as nat) <= 101,
        decreases rest,
    {
        rest = rest / 2;
        k = k + 1;
    }
    k
}

/// Two to the power of `k`.
pub(crate) fn power(k: u32) -> (r: u128)
    requires
        k <= 126,
    ensures
        r == two_to(k as nat),
        0 < r <= 0x4000_0000_0000_0000_0000_0000_0000_0000,
{
    proof {
        lemma_two_to_values();
        lemma_two_to_adds(64, 53);
        lemma_two_to_adds(117, 9);
        reveal_with_fuel(two_to, 10);
        assert(two_to(9) == 512);
        assert(two_to(126) == 0x4000_0000_0000_0000_0000_0000_0000_0000);
        lemma_two_to_monotone(k as nat, 126);
    }
    let mut r: u128 = 1;
    let mut i: u32 = 0;
    while i < k
        invariant
            i <= k <= 126,
            r == two_to(i as nat),
            two_to(126) == 0x4000_0000_0000_0000_0000_0000_0000_0000,
        decreases k - i,
    {
        proof {
            lemma_two_to_monotone(i as nat, 126);
        }
        r = r * 2;
        i = i + 1;
    }
    r
}

/// `n` rounded to 53 significant bits.
fn double_of(n: u128) -> (r: u128)
    requires
        n <= two_to(64),
    ensures
        r == to_double(n as nat),
        r <= two_to(64),
        n > 0 ==> r > 0,
{
    proof {
        lemma_to_double(n as nat, 64);
        lemma_two_to_monotone(64, 100);
    }
    wide_double_of(n)
}

/// `n` rounded to 53 significant bits.
pub(crate) fn wide_double_of(n: u128) -> (r: u128)
    requires
        n <= two_to(100),
    ensures
        r == to_double(n as nat),
        r <= two_to(100),
{
    proof {
        lemma_wide_values();
        lemma_to_double(n as nat, 100);
    }
    let bits: u32 = bits_of(n);
    if bits <= 53 {
        n
    } else {
        let unit: u128 = power(bits - 53);
        nearest_of(n, unit) * unit
    }
}

/// A [`Quotient`] in machine numbers.
struct Parts {
    m: u128,
    up: u32,
    down: u32,
}

/// `a / b` rounded to 53 significant bits.
fn divide(a: u128, b: u128) -> (r: Parts)
    requires
        0 < a <= two_to(64),
        0 < b <= two_to(64),
    ensures
        ({
            let q = quotient(a as nat, b as nat);
            &&& r.m == q.m
            &&& r.up == q.up
            &&& r.down == q.down
        }),
        r.m <= two_to(53),
        r.down <= 64,
        r.up <= 64,
        b >= 1000 ==> r.up <= 54,
        b <= a ==> r.down == 0,
{
    proof {
        lemma_two_to_values();
        assert(b <= a as nat * two_to(64)) by (nonlinear_arith)
            requires
                b <= two_to(64),
                a >= 1,
        ;
        lemma_doublings(a as nat, b as nat, 64);
        assert(a as nat * 1 == a);
    }
    let mut x: u128 = a;
    let mut down: u32 = 0;
    while x < b
        invariant
            0 < a <= two_to(64),
            0 < b <= two_to(64),
            0 < x,
            down <= 64,
            two_to(64) == 18446744073709551616,
            x == a * two_to(down as nat),
            doublings(a as nat, b as nat) <= 64,
            doublings(a as nat, b as nat) == down + doublings(x as nat, b as nat),
        decreases doublings(x as nat, b as nat),
    {
        proof {
            let d = two_to(down as nat);
            assert(2 * (a * d) == a * (2 * d)) by (nonlinear_arith);
        }
        x = x * 2;
        down = down + 1;
    }
    let ghost wide = x as nat;
    proof {
        assert(x <= 2 * two_to(64));
        lemma_two_to_monotone(55, 64);
        assert(two_to(65) == 2 * two_to(64));
        assert(two_to(66) == 2 * two_to(65));
        assert(wide < b * two_to(66)) by (nonlinear_arith)
            requires
                wide <= 2 * two_to(64),
                two_to(66) == 4 * two_to(64),
                two_to(64) >= 1,
                b >= 1,
        {
            assert(b * two_to(66) >= two_to(66)) by (nonlinear_arith)
                requires
                    b >= 1,
            ;
        }
        lemma_halvings(wide, b as nat, 66);
        if b >= 1000 {
            lemma_two_to_adds(53, 2);
            assert(two_to(2) == 4) by {
                reveal_with_fuel(two_to, 3);
            }
            assert(two_to(55) == 36028797018963968);
            if b <= a {
                assert(wide == a);
                assert(wide < b * two_to(55)) by (nonlinear_arith)
                    requires
                        wide <= 18446744073709551616,
                        two_to(55) == 36028797018963968,
                        b >= 1000,
                ;
                lemma_halvings(wide, b as nat, 55);
            } else {
                assert(two_to(1) == 2) by {
                    reveal_with_fuel(two_to, 2);
                }
                assert(b * two_to(1) == 2 * b) by (nonlinear_arith)
                    requires
                        two_to(1) == 2,
                ;
                lemma_halvings(wide, b as nat, 1);
            }
        }
    }
    let mut y: u128 = b;
    let mut up: u32 = 0;
    proof {
        assert(b as nat * 1 == b);
    }
    while 2 * y <= x
        invariant
            0 < y <= x,
            wide == x,
            x <= 2 * two_to(64),
            0 < b,
            two_to(64) == 18446744073709551616,
            y == b * two_to(up as nat),
            halvings(wide, b as nat) < 66,
            halvings(wide, b as nat) == up + halvings(wide, y as nat),
        decreases x - y,
    {
        proof {
            let u = two_to(up as nat);
            assert(2 * (b * u) == b * (2 * u)) by (nonlinear_arith);
        }
        y = y * 2;
        up = up + 1;
    }
    assert(halvings(wide, y as nat) == 0);
    proof {
        // The two-to-the-65 doubling is out of reach: `y` would exceed `x`.
        if up == 65 {
            lemma_two_to_monotone(65, up as nat);
            assert(two_to(65) == 2 * two_to(64));
            assert(y >= two_to(65)) by (nonlinear_arith)
                requires
                    y == b * two_to(up as nat),
                    two_to(up as nat) == two_to(65),
                    b >= 1,
            ;
            if down > 0 {
                assert(x < 2 * b);
                assert(y >= 2 * b) by (nonlinear_arith)
                    requires
                        y == b * two_to(up as nat),
                        two_to(up as nat) >= 2,
                ;
            }
        }
        assert(x * two_to(52) <= two_to(53) * y) by (nonlinear_arith)
            requires
                x < 2 * y,
                two_to(52) == 4503599627370496,
                two_to(53) == 9007199254740992,
        ;
        lemma_nearest_at_most((x * two_to(52)) as nat, y as nat, two_to(53));
        assert(x * two_to(52) <= 0x4000_0000_0000_0000_0000_0000_0000_0000) by (nonlinear_arith)
            requires
                x <= 2 * 18446744073709551616,
                two_to(52) == 4503599627370496,
        ;
    }
    let m: u128 = nearest_of(x * 4503599627370496, y);
    Parts { m, up, down }
}

/// `factor` times a quotient, rounded to an integer.
fn scale(factor: u128, q: &Parts) -> (r: u128)
    requires
        factor <= two_to(60),
        q.up <= 64,
        q.down <= 64,
    ensures
        r == nearest(factor as nat * two_to(q.up as nat), two_to(52 + q.down as nat)),
{
    let up: u128 = power(q.up);
    let den: u128 = power(52 + q.down);
    proof {
        lemma_two_to_values();
        lemma_two_to_adds(53, 7);
        lemma_two_to_monotone(q.up as nat, 64);
        assert(factor * up <= 0x4000_0000_0000_0000_0000_0000_0000_0000) by (nonlinear_arith)
            requires
                factor <= 9007199254740992 * 128,
                up <= 18446744073709551616,
        ;
    }
    nearest_of(factor * up, den)
}

/// A number of tenths with its decimal point.
fn append_tenths(out: &mut String, tenths: u64)
    ensures
        final(out)@ == old(out)@ + tenths_text(tenths as nat),
{
    let ghost start = out@;
    text::append_decimal(out, tenths / 10);
    out.append(".");
    text::append_decimal(out, tenths % 10);
    assert(out@ =~= start + tenths_text(tenths as nat));
}

/// Format a byte count in decimal units, e.g. `4.0 TB`.
pub fn human_bytes(bytes: u64) -> (out: String)
    ensures
        out@ == bytes_text(bytes as nat),
{
    proof {
        lemma_two_to_values();
        lemma_two_to_adds(53, 7);
    }
    let b: u128 = double_of(bytes as u128);
    if b < 1000 {
        let mut out = text::decimal(bytes);
        out.append(" B");
        return out;
    }
    let (factor, name): (u128, &str) = if b >= 1_000_000_000_000_000 {
        (1_000_000_000_000_000, "PB")
    } else if b >= 1_000_000_000_000 {
        (1_000_000_000_000, "TB")
    } else if b >= 1_000_000_000 {
        (1_000_000_000, "GB")
    } else if b >= 1_000_000 {
        (1_000_000, "MB")
    } else {
        (1_000, "KB")
    };
    let q = divide(b, factor);
    let tenths: u128 = scale(10 * q.m, &q);
    proof {
        let num = 10 * q.m as nat * two_to(q.up as nat);
        lemma_two_to_monotone(q.up as nat, 54);
        lemma_two_to_adds(53, 1);
        reveal_with_fuel(two_to, 2);
        let u = two_to(q.up as nat);
        assert(10 * q.m as nat * u <= 20 * 18014398509481984 * two_to(52)) by (nonlinear_arith)
            requires
                q.m <= 9007199254740992,
                u <= 18014398509481984,
                two_to(52) == 4503599627370496,
        ;
        lemma_nearest_at_most(num, two_to(52), 20 * 18014398509481984);
    }
    let mut out = String::new();
    append_tenths(&mut out, tenths as u64);
    assert(out@ =~= tenths_text(tenths as nat));
    out.append(" ");
    out.append(name);
    out
}

/// The whole percent nearest to a ratio.
pub fn percent(f: Fraction) -> (r: u128)
    ensures
        r == percent_of(f),
{
    if f.numerator == 0 || f.denominator == 0 {
        return 0;
    }
    proof {
        lemma_two_to_values();
        lemma_two_to_adds(53, 7);
    }
    let q = divide(double_of(f.numerator as u128), double_of(f.denominator as u128));
    let hundredfold: u128 = double_of(100 * q.m);
    proof {
        lemma_to_double((100 * q.m) as nat, 60);
    }
    scale(hundredfold, &q)
}

// ---------------------------------------------------------------------------
// Numbers with one decimal
// ---------------------------------------------------------------------------

/// A number with one decimal, such as a progress percentage.
#[derive(Debug, Clone, Copy, PartialEq, Eq, Structural)]
pub struct Decimal {
    /// The number times ten.
    pub tenths: i64,
}

/// The size of a number without its sign.
pub open spec fn size_of(d: Decimal) -> nat {
    if d.tenths < 0 {
        (-d.tenths) as nat
    } else {
        d.tenths as nat
    }
}

/// The minus sign of a negative number.
pub open spec fn sign_of(d: Decimal) -> Seq<char> {
    if d.tenths < 0 {
        "-"@
    } else {
        ""@
    }
}

/// A number with its decimal.
pub open spec fn decimal_text(d: Decimal) -> Seq<char> {
    sign_of(d) + tenths_text(size_of(d))
}

/// A number rounded to an integer, ties to the even one.
pub open spec fn rounded_text(d: Decimal) -> Seq<char> {
    sign_of(d) + text::dec(nearest(size_of(d), 10))
}

fn sign(d: Decimal) -> (s: &'static str)
    ensures
        s@ == sign_of(d),
{
    if d.tenths < 0 {
        "-"
    } else {
        ""
    }
}

fn size(d: Decimal) -> (n: u64)
    ensures
        n == size_of(d),
{
    if d.tenths == i64::MIN {
        0x8000_0000_0000_0000
    } else if d.tenths < 0 {
        (-d.tenths) as u64
    } else {
        d.tenths as u64
    }
}

impl Decimal {
    /// The number with its decimal.
    pub fn to_text(self) -> (out: String)
        ensures
            out@ == decimal_text(self),
    {
        let mut out = sign(self).to_owned();
        append_tenths(&mut out, size(self));
        out
    }

    /// The number rounded to an integer, ties to the even one.
    pub fn rounded(self) -> (out: String)
        ensures
            out@ == rounded_text(self),
    {
        let mut out = sign(self).to_owned();
        out.append(text::wide_decimal(nearest_of(size(self) as u128, 10)).as_str());
        out
    }
}

} // verus!
