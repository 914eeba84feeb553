//! Disk sizes as they are typed: a decimal number and a unit.
//!
//! The number is read as an IEEE 754 binary64 value by the caller, who hands
//! over its bits; the multiplication by the unit, its rounding to 53
//! significant bits and the cut to whole bytes are done here on integers.

use vstd::prelude::*;
use crate::disk::Disk;
use crate::figures;
use crate::text;

verus! {

// ---------------------------------------------------------------------------
// Units
// ---------------------------------------------------------------------------

/// `s` without its last `n` characters.
pub open spec fn but_last(s: Seq<char>, n: nat) -> Seq<char> {
    s.subrange(0, s.len() - n)
}

/// A typed size cut into the text of its number and the bytes in its unit.
pub open spec fn parts(s: Seq<char>) -> (Seq<char>, u64) {
    if text::ends_with(s, "TiB"@) {
        (but_last(s, 3), 1_099_511_627_776)
    } else if text::ends_with(s, "GiB"@) {
        (but_last(s, 3), 1_073_741_824)
    } else if text::ends_with(s, "MiB"@) {
        (but_last(s, 3), 1_048_576)
    } else if text::ends_with(s, "TB"@) {
        (but_last(s, 2), 1_000_000_000_000)
    } else if text::ends_with(s, "T"@) {
        (but_last(s, 1), 1_000_000_000_000)
    } else if text::ends_with(s, "GB"@) {
        (but_last(s, 2), 1_000_000_000)
    } else if text::ends_with(s, "G"@) {
        (but_last(s, 1), 1_000_000_000)
    } else if text::ends_with(s, "MB"@) {
        (but_last(s, 2), 1_000_000)
    } else if text::ends_with(s, "M"@) {
        (but_last(s, 1), 1_000_000)
    } else {
        (s, 1)
    }
}

/// Cuts a typed size into the text of its number and the bytes in its unit;
/// without a unit it is in bytes. White space around the size and around the
/// number does not count.
pub fn size_parts(raw: &str) -> (r: (&str, u64))
    ensures
        r.0@ == text::trimmed(parts(text::trimmed(raw@)).0),
        r.1 == parts(text::trimmed(raw@)).1,
{
    proof {
        reveal_strlit("TiB");
        reveal_strlit("GiB");
        reveal_strlit("MiB");
        reveal_strlit("TB");
        reveal_strlit("T");
        reveal_strlit("GB");
        reveal_strlit("G");
        reveal_strlit("MB");
        reveal_strlit("M");
    }
    let s = text::trim(raw);
    let len: usize = s.unicode_len();
    if text::has_suffix(s, "TiB") {
        (text::trim(s.substring_char(0, len - 3)), 1_099_511_627_776)
    } else if text::has_suffix(s, "GiB") {
        (text::trim(s.substring_char(0, len - 3)), 1_073_741_824)
    } else if text::has_suffix(s, "MiB") {
        (text::trim(s.substring_char(0, len - 3)), 1_048_576)
    } else if text::has_suffix(s, "TB") {
        (text::trim(s.substring_char(0, len - 2)), 1_000_000_000_000)
    } else if text::has_suffix(s, "T") {
        (text::trim(s.substring_char(0, len - 1)), 1_000_000_000_000)
    } else if text::has_suffix(s, "GB") {
        (text::trim(s.substring_char(0, len - 2)), 1_000_000_000)
    } else if text::has_suffix(s, "G") {
        (text::trim(s.substring_char(0, len - 1)), 1_000_000_000)
    } else if text::has_suffix(s, "MB") {
        (text::trim(s.substring_char(0, len - 2)), 1_000_000)
    } else if text::has_suffix(s, "M") {
        (text::trim(s.substring_char(0, len - 1)), 1_000_000)
    } else {
        (text::trim(s), 1)
    }
}

// ---------------------------------------------------------------------------
// Numbers
// ---------------------------------------------------------------------------

/// What is wrong with a typed size.
#[derive(Debug, Clone, Copy, PartialEq, Eq, Structural)]
pub enum SizeFault {
    /// It has no number.
    NoNumber,
    /// Its number is infinite or no number.
    NotFinite,
    Negative,
    /// It does not fit in 64 bits.
    TooLarge,
}

/// The mantissa of a finite binary64 value, and its exponent to the base two.
pub open spec fn decoded(bits: u64) -> (nat, int) {
    let exponent = (bits as nat / 4503599627370496) % 2048;
    let fraction = bits as nat % 4503599627370496;
    if exponent == 0 {
        (fraction, -1074)
    } else {
        (fraction + 4503599627370496, exponent - 1075)
    }
}

/// Whether a binary64 value is neither infinite nor no number.
pub open spec fn is_finite(bits: u64) -> bool {
    (bits as nat / 4503599627370496) % 2048 != 2047
}

/// Whether a finite binary64 value is below zero.
pub open spec fn is_negative(bits: u64) -> bool {
    bits as nat / 9223372036854775808 == 1 && decoded(bits).0 != 0
}

/// The whole part of `m * 2^e`.
pub open spec fn whole(m: nat, e: int) -> nat {
    if e >= 0 {
        m * figures::two_to(e as nat)
    } else {
        m / figures::two_to((-e) as nat)
    }
}

/// The whole bytes in `number` units, or what is wrong with it; `number` is
/// the bits of a binary64 value. The product is rounded as binary64 rounds it.
pub open spec fn bytes_of(number: u64, unit: u64) -> Result<nat, SizeFault> {
    let d = decoded(number);
    let bytes = whole(figures::to_double(d.0 * unit as nat), d.1);
    if !is_finite(number) {
        Err(SizeFault::NotFinite)
    } else if is_negative(number) {
        Err(SizeFault::Negative)
    } else if bytes >= 18446744073709551616 {
        Err(SizeFault::TooLarge)
    } else {
        Ok(bytes)
    }
}

/// The whole bytes that a typed size stands for; `number` is the bits of its
/// number, where it has one.
pub open spec fn size_of(raw: Seq<char>, number: Option<u64>) -> Result<nat, SizeFault> {
    match number {
        Some(bits) => bytes_of(bits, parts(text::trimmed(raw)).1),
        None => Err(SizeFault::NoNumber),
    }
}

fn whole_of(m: u128, e: i32) -> (r: Option<u64>)
    requires
        m <= figures::two_to(100),
        -1074 <= e <= 972,
    ensures
        match r {
            Some(n) => n == whole(m as nat, e as int),
            None => whole(m as nat, e as int) >= 18446744073709551616,
        },
{
    proof {
        figures::lemma_wide_values();
    }
    if e >= 0 {
        let ghost p = figures::two_to(e as nat);
        proof {
            figures::lemma_two_to_monotone(0, e as nat);
            assert(m * p >= m) by (nonlinear_arith)
                requires
                    p >= 1,
            ;
        }
        if m == 0 {
            assert(0 * p == 0);
            return Some(0);
        }
        if m >= 18446744073709551616 {
            return None;
        }
        if e >= 64 {
            proof {
                figures::lemma_two_to_monotone(64, e as nat);
                assert(m * p >= 18446744073709551616) by (nonlinear_arith)
                    requires
                        m >= 1,
                        p >= 18446744073709551616,
                ;
            }
            return None;
        }
        let up: u128 = figures::power(e as u32);
        proof {
            figures::lemma_two_to_monotone(e as nat, 64);
            assert(m * up <= 18446744073709551615 * 18446744073709551616) by (nonlinear_arith)
                requires
                    m <= 18446744073709551615,
                    up <= 18446744073709551616,
            ;
        }
        let n: u128 = m * up;
        if n >= 18446744073709551616 {
            None
        } else {
            Some(n as u64)
        }
    } else {
        let down: u32 = (0 - e) as u32;
        let ghost p = figures::two_to(down as nat);
        if down > 126 {
            proof {
                figures::lemma_two_to_monotone(101, down as nat);
                figures::lemma_two_to_adds(100, 1);
                reveal_with_fuel(figures::two_to, 2);
                assert(figures::two_to(1) == 2);
                vstd::arithmetic::div_mod::lemma_basic_div(m as int, p as int);
            }
            return Some(0);
        }
        let n: u128 = m / figures::power(down);
        if n >= 18446744073709551616 {
            None
        } else {
            Some(n as u64)
        }
    }
}

fn in_bytes(number: u64, unit: u64) -> (r: Result<u64, SizeFault>)
    requires
        unit <= 1_099_511_627_776,
    ensures
        match bytes_of(number, unit) {
            Ok(n) => r matches Ok(b) && b == n,
            Err(f) => r == Err::<u64, SizeFault>(f),
        },
{
    let exponent: u64 = (number / 4503599627370496) % 2048;
    let fraction: u64 = number % 4503599627370496;
    if exponent == 2047 {
        return Err(SizeFault::NotFinite);
    }
    let mantissa: u64 = if exponent == 0 {
        fraction
    } else {
        fraction + 4503599627370496
    };
    let e: i32 = if exponent == 0 {
        -1074
    } else {
        exponent as i32 - 1075
    };
    if number / 9223372036854775808 == 1 && mantissa != 0 {
        return Err(SizeFault::Negative);
    }
    proof {
        figures::lemma_wide_values();
        assert(mantissa * unit <= 9007199254740992 * 1_099_511_627_776) by (nonlinear_arith)
            requires
                mantissa <= 9007199254740992,
                unit <= 1_099_511_627_776,
        ;
    }
    let product: u128 = mantissa as u128 * unit as u128;
    match whole_of(figures::wide_double_of(product), e) {
        Some(n) => Ok(n),
        None => Err(SizeFault::TooLarge),
    }
}

/// The whole bytes that a typed size stands for. `number` is the bits of the
/// binary64 value of the number that [`size_parts`] cuts out, where it is one.
pub fn parse_size(raw: &str, number: Option<u64>) -> (r: Result<u64, SizeFault>)
    ensures
        match size_of(raw@, number) {
            Ok(n) => r matches Ok(b) && b == n,
            Err(f) => r == Err::<u64, SizeFault>(f),
        },
{
    let unit: u64 = size_parts(raw).1;
    match number {
        Some(bits) => in_bytes(bits, unit),
        None => Err(SizeFault::NoNumber),
    }
}

/// The sentence about a size that does not stand for a number of bytes.
pub open spec fn fault_text(raw: Seq<char>, fault: SizeFault) -> Seq<char> {
    let s = text::trimmed(raw);
    match fault {
        SizeFault::NoNumber => "invalid size `"@ + s + "`"@,
        SizeFault::NotFinite => "size `"@ + s + "` is not a finite number"@,
        SizeFault::Negative => "size `"@ + s + "` is negative"@,
        SizeFault::TooLarge => "size `"@ + s + "` is too large"@,
    }
}

/// The sentence about a size that does not stand for a number of bytes.
pub fn size_message(raw: &str, fault: SizeFault) -> (out: String)
    ensures
        out@ == fault_text(raw@, fault),
{
    let mut out = match fault {
        SizeFault::NoNumber => "invalid size `".to_owned(),
        _ => "size `".to_owned(),
    };
    out.append(text::trim(raw));
    match fault {
        SizeFault::NoNumber => {
            out.append("`");
        },
        SizeFault::NotFinite => {
            out.append("` is not a finite number");
        },
        SizeFault::Negative => {
            out.append("` is negative");
        },
        SizeFault::TooLarge => {
            out.append("` is too large");
        },
    }
    out
}

// ---------------------------------------------------------------------------
// Disks to try out
// ---------------------------------------------------------------------------

/// Where the disks of a layout to try out come from.
#[derive(Debug, Clone, Copy, PartialEq, Eq, Structural)]
pub enum DiskSource {
    /// From sizes that were typed.
    Sizes,
    /// From disks of the host.
    Host,
}

/// Where the disks of a layout to try out come from: typed sizes go first.
pub fn disk_source(sizes: &[String], disks: &[String]) -> (r: Result<DiskSource, String>)
    ensures
        if sizes@.len() > 0 {
            r == Ok::<DiskSource, String>(DiskSource::Sizes)
        } else if disks@.len() > 0 {
            r == Ok::<DiskSource, String>(DiskSource::Host)
        } else {
            r matches Err(m) && m@ == "provide either --sizes or --disks"@
        },
{
    if sizes.len() > 0 {
        Ok(DiskSource::Sizes)
    } else if disks.len() > 0 {
        Ok(DiskSource::Host)
    } else {
        Err("provide either --sizes or --disks".to_owned())
    }
}

/// The name of the disk that stands for the `i`th size.
pub open spec fn disk_name(i: nat) -> Seq<char> {
    "disk"@ + text::dec(i)
}

/// The first size that does not stand for a number of bytes, and why.
pub open spec fn first_fault(raws: Seq<Seq<char>>, numbers: Seq<Option<u64>>) -> Option<
    (int, SizeFault),
>
    decreases raws.len(),
{
    if raws.len() == 0 {
        None
    } else {
        match first_fault(raws.drop_last(), numbers) {
            Some(f) => Some(f),
            None => match size_of(raws.last(), numbers[raws.len() - 1]) {
                Err(f) => Some((raws.len() - 1, f)),
                Ok(_) => None,
            },
        }
    }
}

/// Disks of the given sizes, numbered from zero. The first size that does not
/// stand for a number of bytes is the error. `numbers` holds, for each size,
/// what [`parse_size`] takes.
pub fn sized_disks(raws: &[String], numbers: &[Option<u64>]) -> (r: Result<Vec<Disk>, String>)
    requires
        numbers@.len() == raws@.len(),
    ensures
        match first_fault(text::views(raws@), numbers@) {
            Some((i, f)) => r matches Err(m) && m@ == fault_text(raws@[i]@, f),
            None => r matches Ok(disks) && disks@.len() == raws@.len() && forall|i: int|
                0 <= i < raws@.len() ==> (#[trigger] disks@[i]).id@ == disk_name(i as nat)
                    && size_of(raws@[i]@, numbers@[i]) == Ok::<nat, SizeFault>(
                    disks@[i].size_bytes as nat,
                ),
        },
{
    let ghost all = text::views(raws@);
    let mut disks: Vec<Disk> = Vec::new();
    let mut i: usize = 0;
    assert(all.take(0) =~= Seq::empty());
    while i < raws.len()
        invariant
            i <= raws.len(),
            numbers@.len() == raws@.len(),
            all == text::views(raws@),
            first_fault(all.take(i as int), numbers@) is None,
            disks@.len() == i,
            forall|k: int|
                0 <= k < i ==> (#[trigger] disks@[k]).id@ == disk_name(k as nat) && size_of(
                    raws@[k]@,
                    numbers@[k],
                ) == Ok::<nat, SizeFault>(disks@[k].size_bytes as nat),
        decreases raws.len() - i,
    {
        let ghost more = all.take(i + 1);
        proof {
            assert(more.drop_last() =~= all.take(i as int));
            assert(more.last() == raws@[i as int]@);
        }
        match parse_size(raws[i].as_str(), numbers[i]) {
            Ok(bytes) => {
                let mut name = "disk".to_owned();
                text::append_decimal(&mut name, i as u64);
                disks.push(Disk::new(name, bytes));
            },
            Err(f) => {
                proof {
                    lemma_first_fault_stays(all, numbers@, i + 1);
                }
                return Err(size_message(raws[i].as_str(), f));
            },
        }
        i = i + 1;
    }
    assert(all.take(i as int) =~= all);
    Ok(disks)
}

proof fn lemma_first_fault_stays(raws: Seq<Seq<char>>, numbers: Seq<Option<u64>>, n: int)
    requires
        0 <= n <= raws.len(),
        first_fault(raws.take(n), numbers) is Some,
    ensures
        first_fault(raws, numbers) == first_fault(raws.take(n), numbers),
    decreases raws.len() - n,
{
    if n < raws.len() {
        assert(raws.take(n + 1).drop_last() =~= raws.take(n));
        lemma_first_fault_stays(raws, numbers, n + 1);
    } else {
        assert(raws.take(n) =~= raws);
    }
}

} // verus!
