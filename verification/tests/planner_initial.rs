//! Planning the initial layout of a fresh group.

use shr_rs::{
    plan_initial, Disk, DiskId, Fraction, PlanError, PlannerInput, PlannerWarning, RaidLevel,
    RedundancyMode,
};

const TB: u64 = 1_000_000_000_000;

fn disks(sizes: &[u64]) -> Vec<Disk> {
    sizes
        .iter()
        .enumerate()
        .map(|(i, s)| Disk::new(format!("d{i}"), *s))
        .collect()
}

fn plan(sizes: &[u64], mode: RedundancyMode) -> shr_rs::PlannerOutput {
    plan_initial(&PlannerInput::exact(disks(sizes), mode)).expect("plan should succeed")
}

#[test]
fn shr_2disk_equal_is_raid1() {
    let out = plan(&[4 * TB, 4 * TB], RedundancyMode::Shr);
    assert_eq!(out.bands.len(), 1);
    assert_eq!(out.bands[0].level(), RaidLevel::Raid1);
    assert_eq!(out.bands[0].members().len(), 2);
    assert_eq!(out.metrics.total_usable, 4 * TB);
    assert!(out.unusable_per_disk.is_empty());
}

#[test]
fn shr_3disk_equal_is_raid5() {
    let out = plan(&[4 * TB, 4 * TB, 4 * TB], RedundancyMode::Shr);
    assert_eq!(out.bands.len(), 1);
    assert_eq!(out.bands[0].level(), RaidLevel::Raid5);
    assert_eq!(out.bands[0].members().len(), 3);
    // RAID5 over 3 members => 2 members' worth of data.
    assert_eq!(out.metrics.total_usable, 8 * TB);
}

#[test]
fn shr_4disk_3346_is_raid5_plus_raid1() {
    let out = plan(&[3 * TB, 3 * TB, 4 * TB, 6 * TB], RedundancyMode::Shr);
    assert_eq!(out.bands.len(), 2);

    let b0 = &out.bands[0];
    assert_eq!(b0.level(), RaidLevel::Raid5);
    assert_eq!(b0.members().len(), 4);
    assert_eq!(b0.size(), 3 * TB);

    let b1 = &out.bands[1];
    assert_eq!(b1.level(), RaidLevel::Raid1);
    assert_eq!(b1.members().len(), 2);
    assert_eq!(b1.size(), TB);

    // The lone 6 TB disk strands 2 TB (6 - 3 in band0 - 1 in band1).
    let six_tb = out.unusable_per_disk.iter().find(|e| e.1 == 2 * TB);
    assert!(six_tb.is_some(), "expected a disk with 2 TB unusable");

    // band0: 3*(4-1)=9 TB usable; band1: 1 TB usable => 10 TB total.
    assert_eq!(out.metrics.total_usable, 10 * TB);
    // Overhead: band0 3 TB parity + band1 1 TB mirror = 4 TB.
    assert_eq!(out.metrics.redundancy_overhead, 4 * TB);
}

#[test]
fn shr_2disk_unequal_strands_tail() {
    let out = plan(&[4 * TB, 6 * TB], RedundancyMode::Shr);
    assert_eq!(out.bands.len(), 1);
    assert_eq!(out.bands[0].level(), RaidLevel::Raid1);
    assert_eq!(out.bands[0].size(), 4 * TB);
    assert_eq!(out.metrics.total_usable, 4 * TB);
    assert_eq!(out.unusable_per_disk.iter().map(|e| e.1).sum::<u64>(), 2 * TB);
}

#[test]
fn shr2_4disk_equal_is_raid6() {
    let out = plan(&[4 * TB, 4 * TB, 4 * TB, 4 * TB], RedundancyMode::Shr2);
    assert_eq!(out.bands.len(), 1);
    assert_eq!(out.bands[0].level(), RaidLevel::Raid6);
    assert_eq!(out.bands[0].members().len(), 4);
    // RAID6 over 4 => 2 members' worth of data.
    assert_eq!(out.metrics.total_usable, 8 * TB);
}

#[test]
fn shr2_5disk_strict_strands_upper_slice() {
    // [4,4,4,4,6]: band0 = 4 TB x5 RAID6; the top 2 TB on the 6 TB disk has
    // only one member, which strict SHR-2 cannot make redundant.
    let out = plan(
        &[4 * TB, 4 * TB, 4 * TB, 4 * TB, 6 * TB],
        RedundancyMode::Shr2,
    );
    assert_eq!(out.bands.len(), 1);
    assert_eq!(out.bands[0].level(), RaidLevel::Raid6);
    assert_eq!(out.bands[0].members().len(), 5);
    // 4*(5-2) = 12 TB usable.
    assert_eq!(out.metrics.total_usable, 12 * TB);
    assert_eq!(out.unusable_per_disk.iter().map(|e| e.1).sum::<u64>(), 2 * TB);
}

#[test]
fn shr2_three_disks_is_too_few() {
    let err = plan_initial(&PlannerInput::exact(
        disks(&[4 * TB, 4 * TB, 4 * TB]),
        RedundancyMode::Shr2,
    ))
    .unwrap_err();
    assert!(matches!(err, PlanError::TooFewDisks { got: 3, min: 4 }));
}

#[test]
fn shr_one_disk_is_too_few() {
    let err =
        plan_initial(&PlannerInput::exact(disks(&[4 * TB]), RedundancyMode::Shr)).unwrap_err();
    assert!(matches!(err, PlanError::TooFewDisks { got: 1, min: 2 }));
}

#[test]
fn reserves_and_alignment_shrink_usable() {
    // With production defaults, usable size is below raw and 4 GiB-aligned.
    let out = plan_initial(&PlannerInput::new(
        disks(&[4 * TB, 4 * TB]),
        RedundancyMode::Shr,
    ))
    .unwrap();
    assert_eq!(out.bands.len(), 1);
    let band = &out.bands[0];
    assert!(band.size() < 4 * TB);
    assert_eq!(band.size() % DEFAULT_ALIGN, 0);
}

#[test]
fn all_zero_disks_have_no_redundant_capacity() {
    let err = plan_initial(&PlannerInput::exact(disks(&[0, 0]), RedundancyMode::Shr)).unwrap_err();
    assert!(matches!(err, PlanError::NoRedundantCapacity), "got {err:?}");
}

#[test]
fn sub_alignment_disks_have_no_redundant_capacity() {
    // Four disks smaller than the reserved head alone: nothing usable remains,
    // so the count check passes but no band can form.
    let tiny = 1024 * 1024; // 1 MiB
    let err = plan_initial(&PlannerInput::new(
        disks(&[tiny, tiny, tiny, tiny]),
        RedundancyMode::Shr2,
    ))
    .unwrap_err();
    assert!(matches!(err, PlanError::NoRedundantCapacity), "got {err:?}");
}

const DEFAULT_ALIGN: u64 = 4 * 1024 * 1024 * 1024;

#[test]
fn more_than_256_bands_is_rejected_not_wrapped() {
    // N disks of distinct sizes make N-1 redundant bands, the topmost slice
    // having a single member. 258 of them are one band more than an index of
    // 8 bits can tell apart.
    let sizes: Vec<u64> = (1..=258).collect();
    let err = plan_initial(&PlannerInput::exact(disks(&sizes), RedundancyMode::Shr)).unwrap_err();
    assert!(
        matches!(err, PlanError::TooManyBands { .. }),
        "got {err:?}"
    );
}

#[test]
fn the_largest_layout_that_can_be_indexed_is_planned() {
    let sizes: Vec<u64> = (1..=257).collect();
    let out = plan(&sizes, RedundancyMode::Shr);
    assert_eq!(out.bands.len(), 256);
    assert_eq!(out.bands[255].band_index(), 255);
    assert_eq!(out.bands[255].end(), 256);
}

#[test]
fn planning_errors_tell_what_is_wrong() {
    assert_eq!(
        PlanError::TooFewDisks { got: 1, min: 2 }.message(),
        "too few disks: got 1, mode requires at least 2"
    );
    assert_eq!(
        PlanError::NoRedundantCapacity.message(),
        "no redundant band could be formed from the given disks"
    );
    assert_eq!(
        PlanError::TooManyBands { index: 256 }.message(),
        "layout would need band_index 256, which does not fit in u8 (max 255)"
    );
    assert_eq!(
        PlanError::InvalidSnapshot("x".to_string()).message(),
        "invalid current layout snapshot: x"
    );
    assert_eq!(PlanError::UnsafeExpansion("y".to_string()).message(), "expansion would be unsafe: y");
    assert_eq!(PlanError::LayoutVersionOverflow.message(), "layout version would overflow u64");
    let err = plan_initial(&PlannerInput::exact(
        vec![Disk::new("a", TB), Disk::new("a", TB)],
        RedundancyMode::Shr,
    ))
    .unwrap_err();
    assert_eq!(err.message(), "a disk appears twice in one band (single point of failure)");
}

#[test]
fn a_layout_does_not_depend_on_the_order_of_the_disks() {
    let a = plan_initial(&PlannerInput::exact(
        vec![Disk::new("x", 3 * TB), Disk::new("y", 5 * TB), Disk::new("z", 4 * TB)],
        RedundancyMode::Shr,
    ))
    .unwrap();
    let b = plan_initial(&PlannerInput::exact(
        vec![Disk::new("z", 4 * TB), Disk::new("x", 3 * TB), Disk::new("y", 5 * TB)],
        RedundancyMode::Shr,
    ))
    .unwrap();
    assert_eq!(a.bands, b.bands);
    assert_eq!(a.unusable_per_disk, b.unusable_per_disk);
    assert_eq!(a.metrics, b.metrics);
    assert_eq!(a.warnings, b.warnings);
    let members: Vec<&str> = a.bands[0].members().iter().map(|m| m.as_str()).collect();
    assert_eq!(members, vec!["x", "z", "y"]);
}

#[test]
fn stranded_capacity_is_warned_of() {
    let out = plan(&[4 * TB, 4 * TB, 4 * TB, 4 * TB, 6 * TB, 6 * TB], RedundancyMode::Shr2);
    assert_eq!(
        out.warnings,
        vec![
            PlannerWarning::TooFewForBand { offset: 4 * TB, size: 2 * TB, members: 2, needed: 4 },
            PlannerWarning::UnusableTail { disk: DiskId::new("d4"), bytes: 2 * TB },
            PlannerWarning::UnusableTail { disk: DiskId::new("d5"), bytes: 2 * TB },
        ]
    );
    assert_eq!(out.metrics.stranded_bytes, 4 * TB);
    assert_eq!(out.metrics.waste_ratio, Fraction::of(4 * TB, 28 * TB));
    assert_eq!(out.metrics.utilization.len(), 6);
    assert_eq!(out.metrics.utilization[4], (DiskId::new("d4"), Fraction::of(4 * TB, 6 * TB)));
    // A disk alone at the top has a tail, and no slice that others share.
    let out = plan(&[4 * TB, 6 * TB], RedundancyMode::Shr);
    assert_eq!(
        out.warnings,
        vec![PlannerWarning::UnusableTail { disk: DiskId::new("d1"), bytes: 2 * TB }]
    );
}

#[test]
fn a_copied_input_keeps_everything_of_its_disks() {
    let input = PlannerInput::new(
        vec![Disk::new("a", 5).with_meta("S1", "M1"), Disk::new("b", 7).with_meta("S2", "M2")],
        RedundancyMode::Shr,
    );
    let copy = input.clone();
    assert_eq!(copy.disks, input.disks);
    assert_eq!(copy.disks[1].serial, "S2");
    assert_eq!(copy.disks[0].model, "M1");
    assert_eq!(copy.reserved_head, input.reserved_head);
}
