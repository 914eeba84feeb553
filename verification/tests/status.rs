//! Status reports from what is observed on a host and what is recorded of it.

use serde_json::Value;
use shr_rs::figures::Decimal;
use shr_rs::inventory::{
    ArrayState, BlockDevice, ChunkUsage, DiskFacts, Inventory, MdArray, MdMember, MdSync, SmartInfo,
    StateBand, StateDisk, StateFile, StateFilesystem, StateScrubResult, SyncLimits,
};
use shr_rs::json::Json;
use shr_rs::ops::{
    array_needs_attention, fs_usage_input, fs_usage_map, member_belongs, resolve_pending_removal,
};
use shr_rs::render::{
    render_disk_list, render_fs_df, render_plan, render_status, render_status_detail,
    render_status_watch_frame, WatchFrameMeta,
};
use shr_rs::preflight::{render_preflight, WritePreflight};
use shr_rs::report_json::{fs_df_json, plan_json, status_json};
use shr_rs::shown::{checks_shown, inventory_shown, plan_shown, status_shown, usage_shown};
use shr_rs::{
    build_fs_df, build_plan_report, build_status, system_disk_aliases, Answer, Disk, FsUsageInput,
    GroupStatus,
    Health, PlanError, RedundancyMode, ScrubOutcome, ShrError, SmartState,
};

const TB: u64 = 1_000_000_000_000;

/// The same value for the JSON library.
fn value(j: &Json) -> Value {
    match j {
        Json::Null => Value::Null,
        Json::Bool(b) => Value::Bool(*b),
        Json::Number(n) => Value::from(*n),
        Json::Literal(s) => serde_json::from_str(s).unwrap(),
        Json::Quotient(n, d) => Value::from(*n as f64 / *d as f64),
        Json::Text(s) => Value::from(s.as_str()),
        Json::List(l) => Value::Array(l.iter().map(value).collect()),
        Json::Object(fields) => {
            let mut map = serde_json::Map::new();
            for (k, v) in fields {
                assert!(map.insert(k.clone(), value(v)).is_none(), "the key {k} occurs twice");
            }
            Value::Object(map)
        }
    }
}

fn unknown_smart() -> SmartInfo {
    SmartInfo {
        has_warning: false,
        is_unknown: true,
        temperature_c: None,
        power_on_hours: None,
        pending_sectors: None,
        reallocated_sectors: None,
        uncorrectable_sectors: None,
        nvme_critical_warning: None,
    }
}

fn disk(name: &str, id: Option<&str>, size: u64, smart: SmartInfo) -> DiskFacts {
    DiskFacts {
        name: name.to_string(),
        id: id.map(|s| s.to_string()),
        size: Some(size),
        model: None,
        serial: None,
        rotational: None,
        smart,
        is_system: false,
        system_mounts: vec![],
    }
}

fn partition(name: &str, partuuid: Option<&str>) -> BlockDevice {
    BlockDevice {
        name: name.to_string(),
        partuuid: partuuid.map(|s| s.to_string()),
        children: vec![],
    }
}

fn device(name: &str, children: Vec<BlockDevice>) -> BlockDevice {
    BlockDevice { name: name.to_string(), partuuid: None, children }
}

fn md_member(name: &str, role: u32, faulty: bool, spare: bool) -> MdMember {
    MdMember {
        name: name.to_string(),
        role: Some(role),
        faulty,
        spare,
        write_mostly: false,
        replacement: false,
    }
}

fn raid1(sync: Option<MdSync>) -> MdArray {
    MdArray {
        name: "md0".to_string(),
        level: Some("raid1".to_string()),
        state: "active".to_string(),
        read_only: false,
        degraded: false,
        raid_disks: Some(2),
        active_disks: Some(2),
        members: vec![md_member("sda1", 0, false, false), md_member("sdb1", 1, false, false)],
        sync,
    }
}

fn two_disks(array: MdArray) -> Inventory {
    let smart_a = SmartInfo { is_unknown: false, temperature_c: Some(38), ..unknown_smart() };
    let smart_b = SmartInfo {
        has_warning: true,
        is_unknown: false,
        temperature_c: Some(40),
        pending_sectors: Some(1),
        ..unknown_smart()
    };
    Inventory {
        disks: vec![
            disk("sda", Some("ata-WD_A"), 4 * TB, smart_a),
            disk("sdb", Some("ata-WD_B"), 4 * TB, smart_b),
        ],
        devices: vec![
            device("sda", vec![partition("sda1", None)]),
            device("sdb", vec![partition("sdb1", None)]),
        ],
        arrays: vec![array],
        sync_limits: vec![],
    }
}

fn inventory() -> Inventory {
    two_disks(raid1(None))
}

fn inventory_with_recovery() -> Inventory {
    two_disks(raid1(Some(MdSync {
        action: "recovery".to_string(),
        percent: Some(Decimal { tenths: 150 }),
        finish_min: Some(Decimal { tenths: 450 }),
    })))
}

fn plain(disks: Vec<DiskFacts>, arrays: Vec<MdArray>) -> Inventory {
    Inventory { disks, devices: vec![], arrays, sync_limits: vec![] }
}

#[test]
fn status_composes_disks_arrays_and_membership() {
    let report = build_status(&inventory(), None);

    assert_eq!(report.health, Health::Healthy);
    assert_eq!(report.disks.len(), 2);

    let sda = report.disks.iter().find(|d| d.name == "sda").unwrap();
    assert_eq!(sda.arrays, vec!["md0"]);
    assert_eq!(sda.smart.state, SmartState::Good);
    assert_eq!(sda.smart.temperature_c, Some(38));
    assert_eq!(sda.id.as_deref(), Some("ata-WD_A"));
    assert!(!sda.system_disk);

    let sdb = report.disks.iter().find(|d| d.name == "sdb").unwrap();
    assert_eq!(sdb.smart.state, SmartState::Warning); // pending sector
    assert_eq!(sdb.id.as_deref(), Some("ata-WD_B"));

    assert_eq!(report.arrays.len(), 1);
    let md0 = &report.arrays[0];
    assert_eq!(md0.name, "md0");
    assert_eq!(md0.level.as_deref(), Some("raid1"));
    assert!(!md0.degraded);
    assert_eq!(md0.members, vec!["sda1", "sdb1"]);
}

fn host_with_system_disk() -> Inventory {
    let mut sda = disk("sda", Some("ata-WDC_SYS"), 500_000_000_000, unknown_smart());
    sda.is_system = true;
    sda.system_mounts = vec!["/".to_string()];
    let sdb = disk("sdb", Some("ata-DATA"), 4_000_000_000_000, unknown_smart());
    plain(vec![sda, sdb], vec![])
}

#[test]
fn status_marks_system_disks() {
    let report = build_status(&host_with_system_disk(), None);
    let sda = report.disks.iter().find(|d| d.name == "sda").unwrap();
    assert!(sda.system_disk);
    assert_eq!(sda.system_mounts, vec!["/".to_string()]);
    let sdb = report.disks.iter().find(|d| d.name == "sdb").unwrap();
    assert!(!sdb.system_disk);
}

#[test]
fn status_serializes_to_json() {
    let report = build_status(&inventory(), None);
    let json = value(&status_json(&report));
    assert_eq!(json["health"], "healthy");
    assert_eq!(json["disks"][0]["arrays"][0], "md0");
    assert!(json["arrays"][0]["members"].is_array());
}

#[test]
fn status_report_state_path_defaults_to_none_and_is_omitted_from_json() {
    let report = build_status(&inventory(), None);
    assert_eq!(report.state_path, None);
    let json = value(&status_json(&report));
    assert!(
        json.get("state_path").is_none(),
        "state_path key must be omitted, not null, when unknown: {json}"
    );
}

#[test]
fn status_report_state_path_serializes_verbatim_when_the_caller_set_one() {
    let mut report = build_status(&inventory(), None);
    report.state_path = Some("/var/lib/shr-rs/state.toml".to_string());
    let json = value(&status_json(&report));
    assert_eq!(json["state_path"], "/var/lib/shr-rs/state.toml");
}

#[test]
fn status_json_has_schema_version_and_smart_detail() {
    let json = value(&status_json(&build_status(&inventory(), None)));
    assert_eq!(json["schema_version"], 2);
    let disks = json["disks"].as_array().unwrap();
    let sdb = disks.iter().find(|d| d["name"] == "sdb").unwrap();
    assert_eq!(sdb["smart"]["pending_sectors"], 1);
}

#[test]
fn unknown_facts_of_a_disk_are_null_or_left_out() {
    let mut disks = host_with_system_disk().disks;
    disks[1].id = None;
    disks[1].smart.temperature_c = Some(-3);
    let report = build_status(&plain(disks, vec![]), None);
    let json = value(&status_json(&report));
    assert_eq!(json["health"], "unknown");
    assert_eq!(json["disks"][0]["id"], "ata-WDC_SYS");
    assert_eq!(json["disks"][0]["system_mounts"][0], "/");
    assert_eq!(json["disks"][0]["smart"]["state"], "unknown");
    assert_eq!(json["disks"][1]["smart"]["temperature_c"], -3);
    let sdb = json["disks"][1].as_object().unwrap();
    assert!(!sdb.contains_key("id"));
    assert!(!sdb.contains_key("system_mounts"));
    assert_eq!(sdb["model"], Value::Null);
    assert_eq!(sdb["rotational"], Value::Null);
    assert_eq!(sdb["system_disk"], false);
}

#[test]
fn a_band_in_json_tells_what_is_known_of_it() {
    let report = build_status(&inventory_with_recovery(), Some(&recorded(vec![sample_group("shr1")])));
    let json = value(&status_json(&report));
    let band = &json["groups"][0]["bands"][0];
    assert_eq!(band["index"], 0);
    assert_eq!(band["md_uuid"], "12345678:9abcdef0:12345678:9abcdef0");
    assert_eq!(band["members"][1], "sdb1");
    assert_eq!(band["member_states"][1]["role"], 1);
    assert_eq!(band["sync"]["action"], "recovery");
    assert_eq!(band["sync"]["percent"], 15.0);
    assert_eq!(band["sync"]["finish_min"], 45.0);
    assert_eq!(band["scrub_in_progress"], false);
    // The second band has no live array.
    let gone = json["groups"][0]["bands"][1].as_object().unwrap();
    for key in ["members", "member_states", "sync", "last_scrub", "sync_speed_kb", "sync_priority"] {
        assert!(!gone.contains_key(key), "{key} must be left out");
    }
}

#[test]
fn inactive_array_is_not_healthy() {
    let array = MdArray {
        name: "md0".to_string(),
        level: None,
        state: "inactive".to_string(),
        read_only: false,
        degraded: false,
        raid_disks: None,
        active_disks: None,
        members: vec![md_member("sda1", 0, false, true), md_member("sdb1", 1, false, true)],
        sync: None,
    };
    let inv = plain(
        vec![disk("sda", None, TB, unknown_smart()), disk("sdb", None, TB, unknown_smart())],
        vec![array],
    );
    let report = build_status(&inv, None);
    assert_eq!(report.health, Health::Degraded);
}

#[test]
fn read_only_array_is_not_healthy() {
    let mut array = raid1(None);
    array.read_only = true;
    let report = build_status(&two_disks(array), None);
    assert_eq!(report.health, Health::Degraded);
    assert!(report.arrays[0].read_only);
}

#[test]
fn impossible_three_member_raid6_is_not_healthy() {
    let array = MdArray {
        name: "md0".to_string(),
        level: Some("raid6".to_string()),
        state: "active".to_string(),
        read_only: false,
        degraded: false,
        raid_disks: Some(3),
        active_disks: Some(3),
        members: vec![
            md_member("sda1", 0, false, false),
            md_member("sdb1", 1, false, false),
            md_member("sdc1", 2, false, false),
        ],
        sync: None,
    };
    assert!(array_needs_attention(&array));
    let inv = plain(
        vec![
            disk("sda", None, TB, unknown_smart()),
            disk("sdb", None, TB, unknown_smart()),
            disk("sdc", None, TB, unknown_smart()),
        ],
        vec![array],
    );
    let report = build_status(&inv, None);
    assert_eq!(report.health, Health::Degraded);
}

#[test]
fn status_renders_without_panic() {
    let text = render_status(&build_status(&inventory(), None));
    assert!(text.contains("HEALTHY"));
    assert!(text.contains("md0"));
}

#[test]
fn no_array_is_unknown_health() {
    let inv = plain(vec![disk("sdz", None, TB, unknown_smart())], vec![]);
    let report = build_status(&inv, None);
    assert_eq!(report.health, Health::Unknown);
    // A disk with no SMART data reports Unknown, not a good state.
    assert_eq!(report.disks[0].smart.state, SmartState::Unknown);
}

#[test]
fn plan_report_reflects_shr_layout() {
    let disks = vec![Disk::new("d0", 4 * TB), Disk::new("d1", 4 * TB), Disk::new("d2", 6 * TB)];
    let report = build_plan_report(RedundancyMode::Shr, disks).unwrap();

    assert_eq!(report.mode, "shr");
    assert_eq!(report.bands.len(), 1);
    assert_eq!(report.bands[0].level, "raid5");
    assert_eq!(report.bands[0].members.len(), 3);
    // The 6 TB disk strands ~2 TB.
    assert_eq!(report.unusable_per_disk.len(), 1);
    assert!(report.metrics.total_usable > 0);

    let whole = value(&plan_json(&report));
    let json = serde_json::to_string(&whole).unwrap();
    assert!(json.contains("\"raid5\""));
    assert_eq!(whole["bands"][0]["index"], 0);
    assert_eq!(whole["metrics"]["total_raw"], 14 * TB);
    assert!(whole["metrics"]["waste_ratio"].as_f64().unwrap() > 0.14);
    assert!(whole["metrics"]["waste_ratio"].as_f64().unwrap() < 0.15);
    assert_eq!(whole["unusable_per_disk"]["d2"], report.unusable_per_disk[0].1);
    assert!(whole["metrics"]["utilization"]["d0"].as_f64().unwrap() > 0.99);

    let text = render_plan(&report);
    assert!(text.contains("band0"));
    assert!(text.contains("raid5"));
}

#[test]
fn system_disk_aliases_include_kernel_name_and_by_id_but_not_data_disks() {
    let aliases = system_disk_aliases(&host_with_system_disk().disks);

    assert!(aliases.contains(&"sda".to_string()));
    assert!(aliases.contains(&"ata-WDC_SYS".to_string()));
    assert!(!aliases.contains(&"sdb".to_string()));
    assert!(!aliases.contains(&"ata-DATA".to_string()));
}

#[test]
fn system_disk_aliases_scan_the_whole_host_not_just_requested_targets() {
    // No disk is asked for here; the system's own must show up all the same.
    let aliases = system_disk_aliases(&host_with_system_disk().disks);
    assert!(aliases.contains(&"sda".to_string()));
    assert!(aliases.contains(&"ata-WDC_SYS".to_string()));
    assert_eq!(aliases.len(), 2);
}

#[test]
fn plan_rejects_too_few_disks() {
    let err = build_plan_report(RedundancyMode::Shr2, vec![Disk::new("d0", 4 * TB)]);
    assert!(err.is_err());
    match err {
        Err(ShrError::Plan(e)) => assert_eq!(e, PlanError::TooFewDisks { got: 1, min: 4 }),
        other => panic!("unexpected {other:?}"),
    }
}

fn recorded_band(index: u8, md_name: &str, md_uuid: &str, usable_bytes: u64, resize_pending: bool) -> StateBand {
    StateBand {
        index,
        level: "raid1".to_string(),
        md_name: md_name.to_string(),
        md_uuid: Some(md_uuid.to_string()),
        usable_bytes,
        resize_pending,
        last_scrub: None,
        scrub_in_progress: false,
        pending_member_removal: None,
        sync_priority: None,
        sync_capability_kb: None,
        sync_capability_observed_at: None,
        last_throttle_decision: None,
        last_throttle_reason: None,
        last_throttle_speed_kb: None,
    }
}

fn sample_group(name: &str) -> ArrayState {
    ArrayState {
        name: name.to_string(),
        mode: "shr".to_string(),
        layout_version: 3,
        disks: vec![
            StateDisk { id: "ata-WD_A".to_string(), size_bytes: 4 * TB },
            StateDisk { id: "ata-WD_B".to_string(), size_bytes: 6 * TB },
        ],
        bands: vec![
            recorded_band(0, "md0", "12345678:9abcdef0:12345678:9abcdef0", 4 * TB, false),
            recorded_band(1, "md1", "87654321:0fedcba9:87654321:0fedcba9", 2 * TB, true),
        ],
        filesystem: StateFilesystem {
            fs_uuid: Some("11111111-2222-4333-8444-555555555555".to_string()),
            mount_point: "/mnt/shr_data".to_string(),
            vg_name: "shr_vg".to_string(),
            lv_name: "data".to_string(),
            compression: "zstd:3".to_string(),
        },
        expansion_in_progress: false,
    }
}

fn recorded(groups: Vec<ArrayState>) -> StateFile {
    StateFile { groups, saved_speed_limit_max_kb: None }
}

#[test]
fn status_has_no_groups_when_state_toml_does_not_exist() {
    let report = build_status(&inventory(), None);
    assert_eq!(report.groups, vec![]);
    assert_eq!(report.disks.len(), 2);
    assert_eq!(report.arrays.len(), 1);
}

#[test]
fn status_projects_state_toml_groups_alongside_live_inventory() {
    let state = recorded(vec![sample_group("shr1"), sample_group("shr2-hetero")]);
    let report = build_status(&inventory(), Some(&state));

    assert_eq!(report.disks.len(), 2);
    assert_eq!(report.arrays.len(), 1);

    assert_eq!(report.groups.len(), 2);
    let shr1 = &report.groups[0];
    assert_eq!(shr1.name, "shr1");
    assert_eq!(shr1.mode, "shr");
    assert_eq!(shr1.layout_version, 3);
    assert_eq!(shr1.mount_point, "/mnt/shr_data");
    assert_eq!(shr1.fs_uuid.as_deref(), Some("11111111-2222-4333-8444-555555555555"));
    // Sum of both bands' usable_bytes (4 TB + 2 TB), not just the first band.
    assert_eq!(shr1.usable_bytes, 6 * TB);
    // band1 has resize_pending: true -- the group-level flag must surface it.
    assert!(shr1.resize_pending);
    assert_eq!(shr1.disks, vec!["ata-WD_A".to_string(), "ata-WD_B".to_string()]);

    assert_eq!(shr1.bands.len(), 2);
    assert_eq!(shr1.bands[0].index, 0);
    assert_eq!(shr1.bands[0].level, "raid1");
    assert_eq!(shr1.bands[0].md_name, "md0");
    assert_eq!(shr1.bands[0].usable_bytes, 4 * TB);
    assert!(!shr1.bands[0].resize_pending);
    assert_eq!(shr1.bands[1].usable_bytes, 2 * TB);
    assert!(shr1.bands[1].resize_pending);

    assert_eq!(report.groups[1].name, "shr2-hetero");

    let json = value(&status_json(&report));
    assert_eq!(json["schema_version"], 2);
    assert_eq!(json["groups"][0]["name"], "shr1");
    assert_eq!(json["groups"][0]["mode"], "shr");
    assert_eq!(json["groups"][0]["resize_pending"], true);
    assert_eq!(json["groups"][0]["bands"][1]["resize_pending"], true);
}

#[test]
fn health_is_not_healthy_when_one_of_two_groups_is_entirely_unassembled() {
    let mut live_group = sample_group("shr1");
    live_group.bands.truncate(1);

    let mut gone_group = sample_group("shr-gone");
    gone_group.bands.truncate(1);
    gone_group.bands[0].md_name = "md9".to_string();

    let state = recorded(vec![live_group, gone_group]);
    let report = build_status(&inventory(), Some(&state));

    assert!(
        report.groups[1].bands[0].members.is_empty(),
        "sanity: shr-gone's band really has no live array"
    );
    assert_ne!(
        report.health,
        Health::Healthy,
        "shr-gone has no live array at all -- health must not be Healthy: {:?}",
        report.health
    );
}

#[test]
fn status_renders_groups_without_panic_and_shows_unfinished_expansion() {
    let state = recorded(vec![sample_group("shr1")]);
    let report = build_status(&inventory(), Some(&state));
    let text = render_status(&report);
    assert!(text.contains("shr1"));
    assert!(text.contains("expansion unfinished"));
}

#[test]
fn status_band_detail_correlates_live_sync_and_members_by_md_name() {
    let mut g = sample_group("shr1");
    g.bands[0].last_scrub = Some(StateScrubResult {
        finished_at: "2026-07-01T00:00:00Z".to_string(),
        outcome: ScrubOutcome::Completed,
        error_count: 0,
    });
    g.bands[0].scrub_in_progress = false;
    g.bands[1].scrub_in_progress = true;

    let state = recorded(vec![g]);
    let report = build_status(&inventory_with_recovery(), Some(&state));

    let band0 = &report.groups[0].bands[0];
    assert_eq!(band0.members, vec!["sda1".to_string(), "sdb1".to_string()]);
    let sync = band0.sync.as_ref().expect("live mdstat recovery progress");
    assert_eq!(sync.action, "recovery");
    assert_eq!(sync.percent, Some(Decimal { tenths: 150 }));
    assert_eq!(sync.finish_min, Some(Decimal { tenths: 450 }));
    let scrub = band0.last_scrub.as_ref().expect("scrub history carried through from state.toml");
    assert_eq!(scrub.error_count, 0);
    assert!(!band0.scrub_in_progress);

    let band1 = &report.groups[0].bands[1];
    assert!(band1.members.is_empty(), "no live array named md1 exists");
    assert!(band1.sync.is_none());
    assert!(band1.last_scrub.is_none());
    assert!(band1.scrub_in_progress);
}

fn raid5_with_faulty() -> MdArray {
    MdArray {
        name: "md0".to_string(),
        level: Some("raid5".to_string()),
        state: "active".to_string(),
        read_only: false,
        degraded: true,
        raid_disks: Some(3),
        active_disks: Some(2),
        members: vec![
            md_member("sda1", 0, false, false),
            md_member("sdb1", 1, false, false),
            md_member("sdc1", 2, true, false),
        ],
        sync: None,
    }
}

#[test]
fn status_flags_a_faulty_member_on_array_status_without_dropping_it_from_members() {
    let report = build_status(&two_disks(raid5_with_faulty()), None);
    let md0 = &report.arrays[0];

    assert_eq!(md0.members, vec!["sda1".to_string(), "sdb1".to_string(), "sdc1".to_string()]);

    let faulty = md0.member_states.iter().find(|m| m.name == "sdc1").expect("faulty member present");
    assert!(faulty.faulty);
    assert!(!faulty.spare);
    assert_eq!(faulty.role, Some(2));

    let healthy = md0.member_states.iter().find(|m| m.name == "sda1").expect("healthy member present");
    assert!(!healthy.faulty);
    assert!(!healthy.spare);
}

#[test]
fn status_propagates_faulty_member_state_onto_the_matching_group_band() {
    let state = recorded(vec![sample_group("shr1")]);
    let report = build_status(&two_disks(raid5_with_faulty()), Some(&state));

    let band0 = &report.groups[0].bands[0];
    let faulty =
        band0.member_states.iter().find(|m| m.name == "sdc1").expect("band carries member_states too");
    assert!(faulty.faulty);
}

#[test]
fn group_band_status_mirrors_md_uuid_from_state_toml() {
    let state = recorded(vec![sample_group("shr1")]);
    let report = build_status(&inventory(), Some(&state));
    assert_eq!(
        report.groups[0].bands[0].md_uuid.as_deref(),
        Some("12345678:9abcdef0:12345678:9abcdef0")
    );
    assert_eq!(
        report.groups[0].bands[1].md_uuid.as_deref(),
        Some("87654321:0fedcba9:87654321:0fedcba9")
    );
}

#[test]
fn group_status_carries_vg_name_lv_name_and_compression_from_state_toml() {
    let state = recorded(vec![sample_group("shr1")]);
    let report = build_status(&inventory(), Some(&state));
    let g = &report.groups[0];
    assert_eq!(g.vg_name, "shr_vg");
    assert_eq!(g.lv_name, "data");
    assert_eq!(g.compression, "zstd:3");
}

#[test]
fn status_detail_renders_correlated_band_without_panic() {
    let state = recorded(vec![sample_group("shr1")]);
    let report = build_status(&inventory_with_recovery(), Some(&state));
    let text = render_status_detail(&report);
    assert!(text.contains("md0"));
    assert!(text.contains("recovery"));
    assert!(text.contains("no live mdadm array")); // band1 (md1)
}

#[test]
fn status_watch_frame_renders_live_recovery_progress_without_panic() {
    let report = build_status(&inventory_with_recovery(), None);
    let meta = WatchFrameMeta { width: 72, max_height: 20 };
    let text = render_status_watch_frame(&report, &meta);
    assert_eq!(text.lines().count(), meta.max_height);
    assert!(text.contains("recovery"));
}

#[test]
fn fs_df_uses_group_usable_bytes_and_marks_unknown_usage_as_unknown() {
    let state = recorded(vec![sample_group("shr1")]);
    let report = build_status(&inventory(), Some(&state));

    let df = build_fs_df(&report.groups, &vec![]);
    assert_eq!(df.groups.len(), 1);
    assert_eq!(df.groups[0].name, "shr1");
    assert_eq!(df.groups[0].usable_bytes, report.groups[0].usable_bytes);
    assert!(df.groups[0].data_used_bytes.is_none());
    assert!(df.groups[0].unallocated_bytes.is_none());

    let text = render_fs_df(&df);
    assert!(text.contains("shr1"));
    assert!(text.contains('?'));

    let json = value(&fs_df_json(&df));
    assert_eq!(json["schema_version"], 2);
    assert_eq!(json["groups"][0]["mount_point"], "/mnt/shr_data");
    assert_eq!(json["groups"][0]["usable_bytes"], report.groups[0].usable_bytes);
    assert_eq!(json["groups"][0]["data_used_bytes"], Value::Null);
}

fn shown_text(a: &Answer) -> String {
    match a {
        Answer::Text(s) => s.clone(),
        other => panic!("expected text, got {other:?}"),
    }
}

fn shown_json(a: &Answer) -> Value {
    match a {
        Answer::Pretty(j) => value(j),
        other => panic!("expected indented JSON, got {other:?}"),
    }
}

#[test]
fn reports_are_shown_as_text_or_as_json() {
    let state = recorded(vec![sample_group("shr1")]);
    let report = build_status(&inventory(), Some(&state));
    assert_eq!(shown_text(&status_shown(false, false, None, &report)), render_status(&report));
    assert_eq!(shown_text(&status_shown(false, true, None, &report)), render_status_detail(&report));
    assert_eq!(
        status_shown(true, true, Some(&state), &report),
        status_shown(true, false, Some(&state), &report)
    );
    assert_eq!(shown_json(&status_shown(true, false, None, &report)), value(&status_json(&report)));

    assert_eq!(shown_text(&inventory_shown(false, &report)), render_disk_list(&report));
    assert_eq!(shown_json(&inventory_shown(true, &report))[1]["name"], "sdb");

    let df = build_fs_df(&report.groups, &vec![]);
    assert_eq!(shown_text(&usage_shown(false, &df)), render_fs_df(&df));
    assert_eq!(shown_json(&usage_shown(true, &df)), value(&fs_df_json(&df)));

    let disks = vec![Disk::new("d0", 4 * TB), Disk::new("d1", 4 * TB)];
    let plan = build_plan_report(RedundancyMode::Shr, disks).unwrap();
    assert_eq!(shown_text(&plan_shown(false, &plan)), render_plan(&plan));
    assert_eq!(shown_json(&plan_shown(true, &plan)), value(&plan_json(&plan)));

    let checks = WritePreflight { ok: true, targets: vec![], blockers: vec![], warnings: vec![] };
    assert_eq!(shown_text(&checks_shown(false, &checks, Json::Null)), render_preflight(&checks));
    assert_eq!(shown_json(&checks_shown(true, &checks, Json::Bool(true))), Value::Bool(true));
}

fn replace_pending() -> Inventory {
    let mut inv = two_disks(raid5_with_faulty());
    inv.devices.push(device(
        "sdc",
        vec![partition("sdc1", Some("AAAAAAAA-BBBB-CCCC-DDDD-EEEEEEEEEEEE"))],
    ));
    inv
}

#[test]
fn status_resolves_pending_member_removal_to_the_kernel_name_member_states_uses() {
    let mut g = sample_group("shr1");
    // Lowercase on purpose: the two sources need not share letter case.
    g.bands[0].pending_member_removal =
        Some("/dev/disk/by-partuuid/aaaaaaaa-bbbb-cccc-dddd-eeeeeeeeeeee".to_string());
    let state = recorded(vec![g]);

    let report = build_status(&replace_pending(), Some(&state));
    let band0 = &report.groups[0].bands[0];

    assert_eq!(band0.pending_member_removal.as_deref(), Some("sdc1"));
    let flagged = band0
        .member_states
        .iter()
        .find(|m| Some(m.name.as_str()) == band0.pending_member_removal.as_deref())
        .expect("the resolved name must match a real member_states entry, not just any string");
    assert!(flagged.faulty, "the correlated member is the one mdstat actually marks (F)");

    let json = value(&status_json(&report));
    assert_eq!(json["groups"][0]["bands"][0]["pending_member_removal"], "sdc1");
}

#[test]
fn status_falls_back_to_the_raw_partuuid_path_when_it_cannot_be_resolved() {
    let mut g = sample_group("shr1");
    g.bands[0].pending_member_removal =
        Some("/dev/disk/by-partuuid/00000000-0000-0000-0000-000000000000".to_string());
    let state = recorded(vec![g]);

    let report = build_status(&inventory(), Some(&state));
    let band0 = &report.groups[0].bands[0];
    assert_eq!(
        band0.pending_member_removal.as_deref(),
        Some("/dev/disk/by-partuuid/00000000-0000-0000-0000-000000000000")
    );
}

#[test]
fn status_reports_no_pending_removal_and_omits_the_json_key_when_state_has_none() {
    let report = build_status(&inventory(), Some(&recorded(vec![sample_group("shr1")])));
    let band0 = &report.groups[0].bands[0];
    assert_eq!(band0.pending_member_removal, None);

    let json = value(&status_json(&report));
    assert!(
        json["groups"][0]["bands"][0].get("pending_member_removal").is_none(),
        "key must be omitted, not null, when nothing is pending: {json}"
    );
}

#[test]
fn status_detail_explains_a_pending_removal_next_to_the_faulty_member() {
    let mut g = sample_group("shr1");
    g.bands[0].pending_member_removal =
        Some("/dev/disk/by-partuuid/AAAAAAAA-BBBB-CCCC-DDDD-EEEEEEEEEEEE".to_string());
    let state = recorded(vec![g]);
    let report = build_status(&replace_pending(), Some(&state));

    let text = render_status_detail(&report);
    assert!(text.contains("sdc1(F)"), "{text}");
    assert!(
        text.contains("pending-removal: sdc1"),
        "must name which member, not just say something is pending: {text}"
    );
    assert!(
        text.to_lowercase().contains("not a new fault") || text.to_lowercase().contains("not new"),
        "must explain the benign case in-line, not just flag it: {text}"
    );
}

#[test]
fn a_pending_removal_that_is_no_partition_path_stays_as_it_is() {
    let devices = replace_pending().devices;
    assert_eq!(resolve_pending_removal(&devices, &"sdc1".to_string()), "sdc1");
    assert_eq!(
        resolve_pending_removal(
            &devices,
            &"/dev/disk/by-partuuid/AAAAAAAA-BBBB-CCCC-DDDD-EEEEEEEEEEEE".to_string()
        ),
        "sdc1"
    );
}

#[test]
fn speed_limits_in_force_are_told_per_band() {
    let mut inv = inventory_with_recovery();
    inv.sync_limits = vec![(
        "md0".to_string(),
        SyncLimits { speed_kb: Some(12_345), min_kb: Some(1_000), max_kb: Some(200_000) },
    )];
    let mut g = sample_group("shr1");
    g.bands[0].sync_priority = Some("balanced".to_string());
    let report = build_status(&inv, Some(&recorded(vec![g])));
    let band0 = &report.groups[0].bands[0];
    assert_eq!(band0.sync_speed_kb, Some(12_345));
    assert_eq!(band0.sync_speed_min_kb, Some(1_000));
    assert_eq!(band0.sync_speed_max_kb, Some(200_000));
    assert_eq!(band0.sync_priority.as_deref(), Some("balanced"));
    assert_eq!(report.groups[0].bands[1].sync_speed_kb, None);
}

#[test]
fn member_belongs_partition_naming_and_collisions() {
    assert!(member_belongs("sda1", "sda"));
    assert!(member_belongs("sda", "sda")); // whole-disk member
    assert!(!member_belongs("sdb1", "sda"));
    assert!(!member_belongs("sdcd1", "sdc")); // sdcd1 is not a partition of sdc
    assert!(member_belongs("nvme0n1p1", "nvme0n1"));
    assert!(!member_belongs("nvme0n10p1", "nvme0n1")); // prefix collision avoided
    assert!(member_belongs("mmcblk0p2", "mmcblk0"));
    assert!(!member_belongs("dm-10", "dm-1")); // prefix collision avoided
    // Empty names never match.
    assert!(!member_belongs("", ""));
    assert!(!member_belongs("1", ""));
    assert!(!member_belongs("", "sda"));
}

fn group(name: &str, usable_bytes: u64) -> GroupStatus {
    GroupStatus {
        name: name.to_string(),
        mode: "shr".to_string(),
        layout_version: 1,
        mount_point: format!("/mnt/{name}"),
        fs_uuid: None,
        vg_name: "shr_vg".to_string(),
        lv_name: "data".to_string(),
        compression: "zstd:3".to_string(),
        usable_bytes,
        resize_pending: false,
        disks: vec![],
        bands: vec![],
    }
}

#[test]
fn build_fs_df_carries_the_known_usable_bytes_through_untouched() {
    let groups = vec![group("g1", 4_000_000_000_000)];
    let report = build_fs_df(&groups, &vec![]);
    assert_eq!(report.groups.len(), 1);
    assert_eq!(report.groups[0].name, "g1");
    assert_eq!(report.groups[0].mount_point, "/mnt/g1");
    assert_eq!(report.groups[0].usable_bytes, 4_000_000_000_000);
}

#[test]
fn build_fs_df_reports_none_rather_than_a_fabricated_number_when_usage_is_missing() {
    let groups = vec![group("g1", 4_000_000_000_000)];
    let report = build_fs_df(&groups, &vec![]);
    let row = &report.groups[0];
    assert_eq!(row.data_used_bytes, None);
    assert_eq!(row.data_total_bytes, None);
    assert_eq!(row.metadata_used_bytes, None);
    assert_eq!(row.metadata_total_bytes, None);
    assert_eq!(row.unallocated_bytes, None);
    assert_eq!(row.statvfs_avail_bytes, None);
}

#[test]
fn build_fs_df_passes_through_supplied_usage_by_group_name() {
    let groups = vec![group("g1", 4_000_000_000_000), group("g2", 8_000_000_000_000)];
    let usage = vec![(
        "g1".to_string(),
        FsUsageInput {
            data_used_bytes: Some(1_000_000_000_000),
            data_total_bytes: Some(4_000_000_000_000),
            metadata_used_bytes: Some(1_000_000_000),
            metadata_total_bytes: Some(2_000_000_000),
            unallocated_bytes: Some(2_000_000_000_000),
            statvfs_avail_bytes: Some(1_900_000_000_000),
        },
    )];
    // g2 deliberately has no entry -- must not borrow g1's numbers.
    let report = build_fs_df(&groups, &usage);

    let g1 = report.groups.iter().find(|g| g.name == "g1").unwrap();
    assert_eq!(g1.data_used_bytes, Some(1_000_000_000_000));
    assert_eq!(g1.unallocated_bytes, Some(2_000_000_000_000));

    let g2 = report.groups.iter().find(|g| g.name == "g2").unwrap();
    assert_eq!(g2.data_used_bytes, None);
    assert_eq!(g2.usable_bytes, 8_000_000_000_000);
}

#[test]
fn fs_usage_map_never_fabricates_a_figure_when_the_underlying_command_fails() {
    // Commands that failed leave nothing that could be read.
    let mut g = group("default", 8_000_000_000_000);
    g.mount_point = "/mnt/shr_data".to_string();
    let groups = vec![g];
    let usage = fs_usage_map(&groups, &[(None, None)]);
    let df = build_fs_df(&groups, &usage);
    assert_eq!(df.groups.len(), 1);
    assert_eq!(df.groups[0].usable_bytes, 8_000_000_000_000);
    assert_eq!(df.groups[0].data_used_bytes, None);
    assert_eq!(df.groups[0].unallocated_bytes, None);
    assert_eq!(df.groups[0].statvfs_avail_bytes, None);

    let rendered = render_fs_df(&df);
    assert!(rendered.contains("default"), "{rendered}");
    assert!(rendered.contains('?'), "{rendered}");
}

#[test]
fn what_a_filesystem_tells_is_passed_on_figure_by_figure() {
    let chunks = ChunkUsage {
        data_used_bytes: Some(1),
        data_total_bytes: Some(2),
        metadata_used_bytes: Some(3),
        metadata_total_bytes: None,
        unallocated_bytes: Some(5),
    };
    let usage = fs_usage_input(Some(chunks), Some(6));
    assert_eq!(
        usage,
        FsUsageInput {
            data_used_bytes: Some(1),
            data_total_bytes: Some(2),
            metadata_used_bytes: Some(3),
            metadata_total_bytes: None,
            unallocated_bytes: Some(5),
            statvfs_avail_bytes: Some(6),
        }
    );
    let groups = vec![group("a", 1), group("b", 2)];
    let map = fs_usage_map(&groups, &[(None, Some(7)), (Some(chunks), None)]);
    assert_eq!(map[0].0, "a");
    assert_eq!(map[0].1, FsUsageInput { statvfs_avail_bytes: Some(7), ..FsUsageInput::default() });
    assert_eq!(map[1].0, "b");
    assert_eq!(map[1].1, FsUsageInput { statvfs_avail_bytes: None, ..usage });
}
