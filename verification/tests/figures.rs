//! Byte counts, percentages and decimals, held against the floating point of
//! the machine.

use shr_rs::figures::{human_bytes, percent, Decimal};
use shr_rs::sizes::{disk_source, parse_size, size_message, size_parts, sized_disks, DiskSource, SizeFault};
use shr_rs::watch::watch_progress_bar;
use shr_rs::Fraction;

/// A fixed sequence of numbers of all magnitudes.
fn numbers() -> Vec<u64> {
    let mut list: Vec<u64> = vec![0, 1, 999, 1000, 1049, 1050, 1051, 999_949, 999_950, 999_999, u64::MAX];
    for k in 0..64u32 {
        let p = 1u64 << k;
        list.push(p);
        list.push(p - 1);
        list.push(p + (p >> 1));
    }
    let mut seed: u64 = 0x9E37_79B9_7F4A_7C15;
    for n in 0..2000u32 {
        seed ^= seed << 13;
        seed ^= seed >> 7;
        seed ^= seed << 17;
        list.push(seed >> (n % 60));
    }
    for k in 3..19u32 {
        let p = 10u64.pow(k);
        for d in [0u64, 1, p / 20, p / 20 + 1, p / 2, 3 * (p / 20)] {
            list.push(p + d);
            list.push(p - d / 2 - 1);
        }
    }
    list
}

fn float_bytes(bytes: u64) -> String {
    let units: [(&str, f64); 5] = [("PB", 1e15), ("TB", 1e12), ("GB", 1e9), ("MB", 1e6), ("KB", 1e3)];
    let b = bytes as f64;
    for (unit, factor) in units {
        if b >= factor {
            return format!("{:.1} {}", b / factor, unit);
        }
    }
    format!("{bytes} B")
}

#[test]
fn byte_counts_are_shown_as_floating_point_shows_them() {
    for n in numbers() {
        assert_eq!(human_bytes(n), float_bytes(n), "{n}");
    }
    assert_eq!(human_bytes(u64::MAX), "18446.7 PB");
    assert_eq!(human_bytes(999), "999 B");
    assert_eq!(human_bytes(1000), "1.0 KB");
}

#[test]
fn percentages_are_shown_as_floating_point_shows_them() {
    let list = numbers();
    for i in 0..list.len() - 1 {
        let (a, b) = (list[i], list[i + 1]);
        if b == 0 {
            continue;
        }
        let ratio = a as f64 / b as f64;
        let f = Fraction { numerator: a, denominator: b };
        if ratio * 100.0 < 1e18 {
            assert_eq!(percent(f).to_string(), format!("{:.0}", ratio * 100.0), "{a}/{b}");
        }
    }
    assert_eq!(percent(Fraction { numerator: 0, denominator: 0 }), 0);
    assert_eq!(percent(Fraction { numerator: 3, denominator: 8 }), 38);
}

#[test]
fn decimals_are_shown_with_one_digit_or_none() {
    for tenths in -2000i64..2000 {
        let value = tenths as f64 / 10.0;
        let d = Decimal { tenths };
        if tenths != 0 {
            assert_eq!(d.to_text(), format!("{value:.1}"));
        }
        if tenths > 0 {
            assert_eq!(d.rounded(), format!("{value:.0}"));
        }
    }
    assert_eq!(Decimal { tenths: 425 }.to_text(), "42.5");
    assert_eq!(Decimal { tenths: 425 }.rounded(), "42");
    assert_eq!(Decimal { tenths: 435 }.rounded(), "44");
}

#[test]
fn progress_bars_fill_as_floating_point_fills_them() {
    for tenths in -50i64..1100 {
        let p = tenths as f64 / 10.0;
        let filled = ((p.clamp(0.0, 100.0) / 100.0) * 20.0).round() as usize;
        let expected: String = (0..20).map(|i| if i < filled.min(20) { '#' } else { '.' }).collect();
        assert_eq!(watch_progress_bar(Some(Decimal { tenths })), expected, "{p}");
    }
    assert_eq!(watch_progress_bar(None), " ".repeat(20));
}

fn float_size(s: &str) -> Result<u64, SizeFault> {
    let s = s.trim();
    let (num, mult): (&str, u64) = if let Some(n) = s.strip_suffix("TiB") {
        (n, 1u64 << 40)
    } else if let Some(n) = s.strip_suffix("GiB") {
        (n, 1u64 << 30)
    } else if let Some(n) = s.strip_suffix("MiB") {
        (n, 1u64 << 20)
    } else if let Some(n) = s.strip_suffix("TB").or_else(|| s.strip_suffix('T')) {
        (n, 1_000_000_000_000)
    } else if let Some(n) = s.strip_suffix("GB").or_else(|| s.strip_suffix('G')) {
        (n, 1_000_000_000)
    } else if let Some(n) = s.strip_suffix("MB").or_else(|| s.strip_suffix('M')) {
        (n, 1_000_000)
    } else {
        (s, 1)
    };
    let value: f64 = num.trim().parse().map_err(|_| SizeFault::NoNumber)?;
    if !value.is_finite() {
        return Err(SizeFault::NotFinite);
    }
    if value < 0.0 {
        return Err(SizeFault::Negative);
    }
    let bytes = value * mult as f64;
    if bytes >= u64::MAX as f64 {
        return Err(SizeFault::TooLarge);
    }
    Ok(bytes as u64)
}

fn library_size(s: &str) -> Result<u64, SizeFault> {
    let number: Option<f64> = size_parts(s).0.parse().ok();
    parse_size(s, number.map(|v| v.to_bits()))
}

#[test]
fn sizes_are_read_as_floating_point_reads_them() {
    let numbers = [
        "4", "0", "-0", "0.1", "1.5", "3.3333333333333335", "123456789.987654321", "1e3", "1e-9", "1e300",
        "1e-320", "5e-324", "18446744073709551615", "18446744073709549568", "16777215.999999999", "9007199254740993",
        "0.30000000000000004", "-1", "-1e-300", "inf", "-inf", "nan", "abc", "", "1 2", "16777216", "18446744.073709551",
    ];
    let units = ["", "B", "TiB", "GiB", "MiB", "TB", "T", "GB", "G", "MB", "M", " TB", "K", " GiB "];
    for n in numbers {
        for u in units {
            let s = format!(" {n}{u}");
            assert_eq!(library_size(&s), float_size(&s), "{s}");
        }
    }
    let mut seed: u64 = 0xD1B5_4A32_D192_ED03;
    for k in 0..3000u32 {
        seed ^= seed << 13;
        seed ^= seed >> 7;
        seed ^= seed << 17;
        let s = format!("{}.{}{}", seed % 100_000, seed >> 20, units[(k % 14) as usize]);
        assert_eq!(library_size(&s), float_size(&s), "{s}");
        // Any bits at all.
        let v = f64::from_bits(seed);
        let bytes = v * 1_000_000.0;
        let expected = if !v.is_finite() {
            Err(SizeFault::NotFinite)
        } else if v < 0.0 {
            Err(SizeFault::Negative)
        } else if bytes >= u64::MAX as f64 {
            Err(SizeFault::TooLarge)
        } else {
            Ok(bytes as u64)
        };
        assert_eq!(parse_size("M", Some(seed)), expected, "{v}");
    }
    assert_eq!(library_size("4TB"), Ok(4_000_000_000_000));
    assert_eq!(library_size("1.5 TiB"), Ok(1_649_267_441_664));
}

#[test]
fn a_bad_size_is_named() {
    assert_eq!(size_message(" x ", SizeFault::NoNumber), "invalid size `x`");
    assert_eq!(size_message("infT", SizeFault::NotFinite), "size `infT` is not a finite number");
    assert_eq!(size_message("-1", SizeFault::Negative), "size `-1` is negative");
    assert_eq!(size_message("9e99", SizeFault::TooLarge), "size `9e99` is too large");
}

#[test]
fn disks_to_try_out_are_numbered() {
    let texts = vec!["4TB".to_string(), "6TB".to_string()];
    let numbers = vec![Some(4.0f64.to_bits()), Some(6.0f64.to_bits())];
    let disks = sized_disks(&texts, &numbers).unwrap();
    assert_eq!(disks.len(), 2);
    assert_eq!(disks[0].id.as_str(), "disk0");
    assert_eq!(disks[0].size_bytes, 4_000_000_000_000);
    assert_eq!(disks[1].id.as_str(), "disk1");
    assert_eq!(disks[1].size_bytes, 6_000_000_000_000);
    // The first that is wrong is the one that is told.
    let texts = vec!["4TB".to_string(), "-6TB".to_string(), "x".to_string()];
    let numbers = vec![Some(4.0f64.to_bits()), Some((-6.0f64).to_bits()), None];
    assert_eq!(sized_disks(&texts, &numbers), Err("size `-6TB` is negative".to_string()));
}

#[test]
fn typed_sizes_go_before_disks_of_the_host() {
    let some = vec!["x".to_string()];
    assert_eq!(disk_source(&some, &some), Ok(DiskSource::Sizes));
    assert_eq!(disk_source(&[], &some), Ok(DiskSource::Host));
    assert_eq!(disk_source(&[], &[]), Err("provide either --sizes or --disks".to_string()));
}
