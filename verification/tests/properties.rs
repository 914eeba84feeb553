//! The promises of the planner, held on every small set of disks.

use shr_rs::{plan_initial, Disk, PlannerInput, RedundancyMode};

const TB: u64 = 1_000_000_000_000;

/// Size lists of `2..=7` disks with `1..=20` TB each, from a fixed sequence.
fn samples() -> Vec<Vec<u64>> {
    let mut seed: u64 = 0x2545_F491_4F6C_DD1D;
    let mut lists: Vec<Vec<u64>> = Vec::new();
    for n in 0..400usize {
        let len = 2 + n % 6;
        let mut list: Vec<u64> = Vec::new();
        for _ in 0..len {
            seed ^= seed << 13;
            seed ^= seed >> 7;
            seed ^= seed << 17;
            list.push(1 + seed % 20);
        }
        lists.push(list);
    }
    lists
}

fn disks(sizes: &[u64]) -> Vec<Disk> {
    sizes
        .iter()
        .enumerate()
        .map(|(i, s)| Disk::new(format!("d{i}"), s * TB))
        .collect()
}

#[test]
fn bands_are_wellformed() {
    for sizes in samples() {
        for mode in [RedundancyMode::Shr, RedundancyMode::Shr2] {
            if sizes.len() < mode.min_initial_disks() {
                continue;
            }
            let out = plan_initial(&PlannerInput::exact(disks(&sizes), mode)).unwrap();
            for b in &out.bands {
                assert!(b.members().len() >= mode.min_members_per_band());
                assert_eq!(mode.pick_level(b.members().len()), Some(b.level()));
                assert!(b.usable_bytes() <= b.raw_bytes());
            }
            let raw_in_bands: u64 = out.bands.iter().map(|b| b.raw_bytes()).sum();
            assert_eq!(
                out.metrics.total_usable + out.metrics.redundancy_overhead,
                raw_in_bands
            );
            assert_eq!(
                out.metrics.total_usable
                    + out.metrics.redundancy_overhead
                    + out.metrics.stranded_bytes,
                out.metrics.total_raw
            );
            let waste = out.metrics.waste_ratio;
            assert!(waste.numerator <= waste.denominator);
        }
    }
}

#[test]
fn bands_survive_configured_disk_loss() {
    for sizes in samples() {
        for mode in [RedundancyMode::Shr, RedundancyMode::Shr2] {
            if sizes.len() < mode.min_initial_disks() {
                continue;
            }
            let out = plan_initial(&PlannerInput::exact(disks(&sizes), mode)).unwrap();
            let ft = mode.fault_tolerance() as usize;
            for b in &out.bands {
                let victims: Vec<_> = b.members().iter().take(ft).cloned().collect();
                assert!(b.is_recoverable_without(&victims));
                let last: Vec<_> = b.members().iter().rev().take(ft).cloned().collect();
                assert!(b.is_recoverable_without(&last));
            }
        }
    }
}

#[test]
fn bands_tile_each_disk_from_its_start() {
    for sizes in samples() {
        let out = match plan_initial(&PlannerInput::exact(disks(&sizes), RedundancyMode::Shr)) {
            Ok(out) => out,
            Err(_) => continue,
        };
        let mut end: u64 = 0;
        for (i, b) in out.bands.iter().enumerate() {
            assert_eq!(b.band_index() as usize, i);
            assert_eq!(b.offset(), end);
            end = b.end();
            for (k, s) in sizes.iter().enumerate() {
                let name = format!("d{k}");
                let member = b.members().iter().any(|m| m.as_str() == name);
                assert_eq!(member, s * TB >= b.end());
            }
        }
    }
}
