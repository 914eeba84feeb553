//! The invariant of a redundant band: neither of its two constructors lets one
//! come into being that could not lose a disk.

use shr_rs::{BandError, DiskId, RaidLevel, RedundancyMode, RedundantBand, RedundantBandRaw};

fn ids(n: usize) -> Vec<DiskId> {
    (0..n).map(|i| DiskId::new(format!("d{i}"))).collect()
}

fn level_of(name: &str) -> RaidLevel {
    match name {
        "raid1" => RaidLevel::Raid1,
        "raid5" => RaidLevel::Raid5,
        "raid6" => RaidLevel::Raid6,
        other => panic!("unknown level {other}"),
    }
}

/// A band from its JSON form, through the checked constructor.
fn parse(json: &str) -> Result<RedundantBand, BandError> {
    let v: serde_json::Value = serde_json::from_str(json).unwrap();
    let members: Vec<DiskId> = v["members"]
        .as_array()
        .unwrap()
        .iter()
        .map(|m| DiskId::new(m.as_str().unwrap()))
        .collect();
    RedundantBand::try_from(RedundantBandRaw {
        band_index: v["band_index"].as_u64().unwrap() as u8,
        offset: v["offset"].as_u64().unwrap(),
        size: v["size"].as_u64().unwrap(),
        members,
        level: level_of(v["level"].as_str().unwrap()),
    })
}

/// The JSON form of a band.
fn print(band: &RedundantBand) -> String {
    let mut map = serde_json::Map::new();
    map.insert("band_index".to_string(), serde_json::Value::from(band.band_index()));
    map.insert("offset".to_string(), serde_json::Value::from(band.offset()));
    map.insert("size".to_string(), serde_json::Value::from(band.size()));
    let members: Vec<String> = band.members().iter().map(|m| m.as_str().to_string()).collect();
    map.insert("members".to_string(), serde_json::Value::from(members));
    map.insert("level".to_string(), serde_json::Value::from(band.level().word()));
    serde_json::Value::Object(map).to_string()
}

#[test]
fn new_rejects_duplicate_member() {
    let dup = vec![DiskId::new("d0"), DiskId::new("d0")];
    let err = RedundantBand::new(0, 0, 1000, dup, RaidLevel::Raid1, RedundancyMode::Shr).unwrap_err();
    assert_eq!(err, BandError::DuplicateMember);
}

#[test]
fn new_rejects_too_few_members_for_mode() {
    let err = RedundantBand::new(0, 0, 1000, ids(2), RaidLevel::Raid6, RedundancyMode::Shr2).unwrap_err();
    assert!(matches!(err, BandError::InsufficientForMode { got: 2, min: 4 }));
}

#[test]
fn new_rejects_level_mismatch() {
    // 3 disks in SHR would be RAID5, not RAID1.
    let err = RedundantBand::new(0, 0, 1000, ids(3), RaidLevel::Raid1, RedundancyMode::Shr).unwrap_err();
    assert!(matches!(
        err,
        BandError::LevelMismatch { expected: RaidLevel::Raid5, got: RaidLevel::Raid1 }
    ));
}

#[test]
fn new_rejects_zero_size() {
    let err = RedundantBand::new(0, 0, 0, ids(2), RaidLevel::Raid1, RedundancyMode::Shr).unwrap_err();
    assert_eq!(err, BandError::ZeroSize);
}

#[test]
fn deserialize_rejects_band_below_the_levels_own_floor() {
    let json = r#"{"band_index":0,"offset":0,"size":1000,"members":["d0"],"level":"raid5"}"#;
    let parsed = parse(json);
    assert!(
        parsed.is_err(),
        "forged 1-member RAID5 (below RAID5's own 3-member floor) should fail to deserialize"
    );
}

#[test]
fn deserialize_accepts_a_mode_inconsistent_band() {
    // A per-band payload has no mode to check against; the snapshot check does.
    let json = r#"{"band_index":0,"offset":0,"size":1000,"members":["d0","d1","d2"],"level":"raid5"}"#;
    let parsed = parse(json);
    assert!(
        parsed.is_ok(),
        "structurally-valid RAID5 band deserializes regardless of any array mode: {parsed:?}"
    );
}

#[test]
fn deserialize_rejects_zero_size_band() {
    let json = r#"{"band_index":0,"offset":0,"size":0,"members":["d0","d1"],"level":"raid1"}"#;
    let parsed = parse(json);
    assert!(parsed.is_err(), "zero-size band should fail to deserialize");
}

#[test]
fn valid_band_round_trips_through_serde() {
    let band = RedundantBand::new(0, 0, 1000, ids(3), RaidLevel::Raid5, RedundancyMode::Shr).unwrap();
    let json = print(&band);
    let back = parse(&json).unwrap();
    assert_eq!(band, back);
}

#[test]
fn band_errors_tell_what_is_wrong() {
    assert_eq!(
        BandError::InsufficientForMode { got: 2, min: 4 }.message(),
        "band has 2 members but mode requires at least 4"
    );
    let err = RedundantBand::from_parts(0, 0, 1000, ids(2), RaidLevel::Raid6).unwrap_err();
    assert_eq!(err, BandError::InsufficientForLevel { got: 2, min: 4, level: RaidLevel::Raid6 });
    assert_eq!(err.message(), "Raid6 needs at least 4 members, got 2");
    assert_eq!(
        BandError::NoLevelAvailable(1).message(),
        "no redundant RAID level is available for 1 members in this mode"
    );
    assert_eq!(
        BandError::LevelMismatch { expected: RaidLevel::Raid5, got: RaidLevel::Raid1 }.message(),
        "level mismatch: expected Raid5 for this member count, got Raid1"
    );
    assert_eq!(
        BandError::DuplicateMember.message(),
        "a disk appears twice in one band (single point of failure)"
    );
    assert_eq!(BandError::ZeroSize.message(), "band size must be greater than zero");
}

#[test]
fn a_band_survives_exactly_its_tolerance() {
    let raid6 = RedundantBand::new(0, 0, 1000, ids(5), RaidLevel::Raid6, RedundancyMode::Shr2).unwrap();
    assert_eq!(raid6.usable_bytes(), 3000);
    assert_eq!(raid6.raw_bytes(), 5000);
    assert!(raid6.is_recoverable_without(&ids(2)));
    assert!(!raid6.is_recoverable_without(&ids(3)));
    // A disk named twice is lost once, and a stranger is no loss at all.
    assert!(raid6.is_recoverable_without(&[DiskId::new("d0"), DiskId::new("d0"), DiskId::new("d1")]));
    assert!(raid6.is_recoverable_without(&[DiskId::new("d0"), DiskId::new("x"), DiskId::new("y")]));
    let raid5 = RedundantBand::new(0, 0, 1000, ids(3), RaidLevel::Raid5, RedundancyMode::Shr).unwrap();
    assert!(raid5.is_recoverable_without(&ids(1)));
    assert!(!raid5.is_recoverable_without(&ids(2)));
    assert!(raid5.contains(&DiskId::new("d2")));
    assert!(!raid5.contains(&DiskId::new("d3")));
    assert_eq!(raid5.end(), 1000);
}

#[test]
fn losing_many_members_at_once_is_not_taken_for_a_small_loss() {
    // 257 losses are far beyond what any level tolerates.
    let band = RedundantBand::from_parts(0, 0, 1, ids(300), RaidLevel::Raid5).unwrap();
    assert!(!band.is_recoverable_without(&ids(257)));
    assert!(!band.is_recoverable_without(&ids(256)));
    assert!(band.is_recoverable_without(&ids(1)));
}

#[test]
fn levels_and_modes_follow_the_member_count() {
    assert_eq!(RedundancyMode::Shr.pick_level(1), None);
    assert_eq!(RedundancyMode::Shr.pick_level(2), Some(RaidLevel::Raid1));
    assert_eq!(RedundancyMode::Shr.pick_level(3), Some(RaidLevel::Raid5));
    assert_eq!(RedundancyMode::Shr2.pick_level(3), None);
    assert_eq!(RedundancyMode::Shr2.pick_level(4), Some(RaidLevel::Raid6));
    assert_eq!(RaidLevel::Raid1.data_members(2), 1);
    assert_eq!(RaidLevel::Raid5.data_members(4), 3);
    assert_eq!(RaidLevel::Raid6.data_members(6), 4);
    assert_eq!(RaidLevel::Raid1.min_members(), 2);
    assert_eq!(RaidLevel::Raid5.min_members(), 3);
    assert_eq!(RaidLevel::Raid6.min_members(), 4);
    assert_eq!(RaidLevel::Raid1.fault_tolerance(), 1);
    assert_eq!(RaidLevel::Raid6.fault_tolerance(), 2);
    assert!(RaidLevel::Raid1.rank() < RaidLevel::Raid5.rank());
    assert!(RaidLevel::Raid5.rank() < RaidLevel::Raid6.rank());
    assert_eq!(RedundancyMode::Shr.min_initial_disks(), 2);
    assert_eq!(RedundancyMode::Shr2.min_initial_disks(), 4);
    assert_eq!(RedundancyMode::Shr.min_members_per_band(), 2);
    assert_eq!(RedundancyMode::Shr2.min_members_per_band(), 4);
    assert_eq!(RedundancyMode::Shr.fault_tolerance(), 1);
    assert_eq!(RedundancyMode::Shr2.fault_tolerance(), 2);
}

#[test]
fn the_short_name_is_what_follows_the_last_underscore() {
    assert_eq!(DiskId::new("ata-WDC_WD40EFRX_WD-WCC7K1ABCDEF").short(), "WD-WCC7K1ABCDEF");
    assert_eq!(DiskId::from("sdb").short(), "sdb");
    assert_eq!(DiskId::from("a_".to_string()).short(), "");
    assert_eq!(DiskId::from("sdb".to_string()), DiskId::new("sdb"));
}
