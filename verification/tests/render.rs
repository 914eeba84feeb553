//! The reports as people see them.

use shr_rs::diagram::disk_bar;
use shr_rs::figures::Decimal;
use shr_rs::plan_view::capacity_bar;
use shr_rs::render::{
    annotated_members, human_bytes, join_bounded, render_disk_list, render_fs_df, render_layout_diagram,
    render_plan, render_status, render_status_detail, render_status_watch_frame, WatchFrameMeta,
};
use shr_rs::{
    plan_initial, ArrayStatus, BandReport, Disk, DiskStatus, Fraction, FsDfReport, GroupBandStatus,
    GroupDfStatus, GroupStatus, Health, MemberStatus, MetricsReport, PlanReport, PlannerInput,
    PlannerOutput, RedundancyMode, ScrubOutcome, ScrubSummary, SmartState, SmartSummary, StatusReport,
    SyncSummary,
};

fn concat(parts: &[&str]) -> String {
    parts.concat()
}

fn status_fixture() -> StatusReport {
    StatusReport {
        schema_version: 2,
        health: Health::Degraded,
        disks: vec![DiskStatus {
            name: "sdb".to_string(),
            id: Some("ata-DISK1".to_string()),
            size: Some(4_000_000_000_000),
            model: Some("WD Red Plus".to_string()),
            serial: Some("WD-SERIAL-B".to_string()),
            rotational: Some(true),
            smart: SmartSummary {
                state: SmartState::Warning,
                temperature_c: Some(38),
                power_on_hours: Some(1000),
                pending_sectors: Some(1),
                reallocated_sectors: Some(0),
                uncorrectable_sectors: Some(0),
                nvme_critical_warning: None,
            },
            arrays: vec!["md0".to_string()],
            system_disk: false,
            system_mounts: vec![],
        }],
        arrays: vec![ArrayStatus {
            name: "md0".to_string(),
            level: Some("raid5".to_string()),
            state: "clean".to_string(),
            read_only: false,
            degraded: true,
            raid_disks: Some(3),
            active_disks: Some(2),
            members: vec!["sdb1".to_string(), "sdc1".to_string()],
            member_states: vec![healthy_member("sdb1", 0), healthy_member("sdc1", 1)],
            sync: Some(SyncSummary {
                action: "recover".to_string(),
                percent: Some(Decimal { tenths: 425 }),
                finish_min: Some(Decimal { tenths: 123 }),
            }),
        }],
        groups: vec![GroupStatus {
            name: "default".to_string(),
            mode: "shr".to_string(),
            layout_version: 1,
            mount_point: "/mnt/shr_data".to_string(),
            fs_uuid: Some("11111111-2222-3333-4444-555555555555".to_string()),
            vg_name: "shr_vg".to_string(),
            lv_name: "data".to_string(),
            compression: "zstd:3".to_string(),
            usable_bytes: 8_000_000_000_000,
            resize_pending: true,
            disks: vec!["ata-DISK1".to_string()],
            bands: vec![GroupBandStatus {
                index: 0,
                level: "raid5".to_string(),
                md_name: "md0".to_string(),
                md_uuid: Some("12345678:9abcdef0:12345678:9abcdef0".to_string()),
                usable_bytes: 8_000_000_000_000,
                resize_pending: true,
                members: vec!["sdb1".to_string(), "sdc1".to_string()],
                member_states: vec![healthy_member("sdb1", 0), healthy_member("sdc1", 1)],
                sync: None,
                last_scrub: None,
                scrub_in_progress: false,
                pending_member_removal: None,
                ..Default::default()
            }],
        }],
        state_path: None,
    }
}

fn healthy_member(name: &str, role: u32) -> MemberStatus {
    MemberStatus {
        name: name.to_string(),
        role: Some(role),
        faulty: false,
        spare: false,
        write_mostly: false,
        replacement: false,
    }
}

#[test]
fn render_status_snapshot() {
    assert_eq!(
        render_status(&status_fixture()),
        concat(&[
            "SHR-RS status: ▲ DEGRADED\n",
            "\n",
            "Disks (1):  NODE            SIZE  MODEL                   SMART     TEMP    ARRAYS\n",
            "             sdb           4.0 TB  WD Red Plus             WARN      38C     md0\n",
            "\n",
            "Arrays (1): NAME    LEVEL   STATE     DISKS   PROGRESS\n",
            "             md0     raid5   clean,degraded2/3     recover 42.5%\n",
            "\n",
            "Groups (1): NAME      MODE    DISKS   USABLE    MOUNT\n",
            "             default   shr     1       8.0 TB    /mnt/shr_data [expansion unfinished]\n",
            "                 band0  raid5   md0               8.0 TB [expansion unfinished]\n",
        ])
    );
}

#[test]
fn render_disk_list_snapshot() {
    assert_eq!(
        render_disk_list(&status_fixture()),
        concat(&[
            "Disks (1):  NODE      ID                              SIZE  MODEL                   SERIAL          ROTA  SYSTEM  ARRAYS\n",
            "             sdb       ata-DISK1                     4.0 TB  WD Red Plus             WD-SERIAL-B     HDD   -       md0\n",
        ])
    );
}

fn plan_fixture() -> PlanReport {
    let utilization = vec![
        ("ata-DISK1".to_string(), Fraction { numerator: 1, denominator: 1 }),
        ("ata-DISK2".to_string(), Fraction { numerator: 1, denominator: 1 }),
    ];
    let unusable_per_disk = vec![("ata-DISK3".to_string(), 500_000_000_000)];
    PlanReport {
        schema_version: 2,
        mode: "shr".to_string(),
        bands: vec![BandReport {
            index: 0,
            level: "raid5".to_string(),
            size: 4_000_000_000_000,
            members: vec![
                "ata-DISK1".to_string(),
                "ata-DISK2".to_string(),
                "ata-DISK3".to_string(),
            ],
            usable: 8_000_000_000_000,
            raw: 12_000_000_000_000,
        }],
        metrics: MetricsReport {
            total_usable: 8_000_000_000_000,
            total_raw: 12_000_000_000_000,
            redundancy_overhead: 4_000_000_000_000,
            stranded_bytes: 500_000_000_000,
            waste_ratio: Fraction { numerator: 3, denominator: 8 },
            utilization,
        },
        unusable_per_disk,
        warnings: vec!["ata-DISK3: 500000000000 B stranded (no redundancy)".to_string()],
    }
}

#[test]
fn render_plan_snapshot() {
    assert_eq!(
        render_plan(&plan_fixture()),
        concat(&[
            "Planned layout (mode: shr, DRY RUN)\n",
            "\n",
            "  BAND   LEVEL         SLICE MEMBERS      USABLE\n",
            "  band0  raid5        4.0 TB       3      8.0 TB\n",
            "\n",
            "  Usable 8.0 TB   Parity 4.0 TB   Stranded 500.0 GB   Raw 12.0 TB\n",
            "  [##########################++++++++++++++]  (38% wasted)\n",
            "\n",
            "  ! ata-DISK3: 500000000000 B stranded (no redundancy)\n",
        ])
    );
}

#[test]
fn capacity_bar_is_always_exactly_width() {
    for (u, p, s, t) in [(8, 4, 2, 14), (1, 1, 1, 3), (0, 0, 0, 0), (100, 0, 0, 100)] {
        assert_eq!(capacity_bar(u, p, s, t, 40).chars().count(), 40);
    }
}

#[test]
fn capacity_bar_segments_are_monotonic() {
    let bar = capacity_bar(8, 4, 2, 14, 40);
    let order = |c: char| match c {
        '#' => 0,
        '+' => 1,
        '.' => 2,
        _ => 3,
    };
    let ranks: Vec<u8> = bar.chars().map(order).collect();
    assert!(ranks.windows(2).all(|w| w[0] <= w[1]), "bar not monotonic: {bar}");
}

#[test]
fn human_bytes_units_and_extremes() {
    assert_eq!(human_bytes(4_000_000_000_000), "4.0 TB");
    assert_eq!(human_bytes(512_000_000_000), "512.0 GB");
    assert_eq!(human_bytes(0), "0 B");
    let _ = human_bytes(u64::MAX); // must not panic
}


const TB: u64 = 1_000_000_000_000;

fn heterogeneous_layout() -> (Vec<Disk>, PlannerOutput) {
    let disks = vec![
        Disk::new("ata-WDC_BIG1", 8 * TB),
        Disk::new("ata-WDC_BIG2", 8 * TB),
        Disk::new("ata-WDC_SMALL1", 4 * TB),
        Disk::new("ata-WDC_SMALL2", 4 * TB),
    ];
    let out = plan_initial(&PlannerInput::exact(disks.clone(), RedundancyMode::Shr)).unwrap();
    (disks, out)
}

#[test]
fn render_layout_diagram_heterogeneous_snapshot() {
    let (disks, out) = heterogeneous_layout();
    assert_eq!(out.bands.len(), 2, "expected two tiers, got {:#?}", out.bands);
    assert_eq!(
        render_layout_diagram(&disks, &out),
        concat(&[
            "Layout diagram (DRY RUN)\n",
            "\n",
            "  # data   + parity   . stranded (no redundancy)   ~ reserved/alignment\n",
            "\n",
            "  BIG1              8.0 TB  [###############+++++##########++++++++++]\n",
            "  BIG2              8.0 TB  [###############+++++##########++++++++++]\n",
            "  SMALL1            4.0 TB  [###############+++++                    ]\n",
            "  SMALL2            4.0 TB  [###############+++++                    ]\n",
            "\n",
            "  band0  raid5  members: SMALL1, SMALL2, BIG1, BIG2\n",
            "  band1  raid1  members: BIG1, BIG2\n",
        ])
    );
}

#[test]
fn render_layout_diagram_marks_reserved_slack_from_real_reserves() {
    let disks = vec![Disk::new("d0", 1000), Disk::new("d1", 1000)];
    let input = PlannerInput {
        disks: disks.clone(),
        mode: RedundancyMode::Shr,
        band_alignment: 1,
        reserved_head: 100,
        reserved_tail: 0,
    };
    let out = plan_initial(&input).unwrap();
    assert_eq!(out.bands[0].size(), 900);
    assert!(out.unusable_per_disk.is_empty());

    let text = render_layout_diagram(&disks, &out);
    let bar_line = text
        .lines()
        .find(|l| l.trim_start().starts_with("d0"))
        .expect("d0 row present");
    let bar = bar_line.split('[').nth(1).unwrap().trim_end_matches(']');
    assert!(!bar[..36].contains('~'), "bar: {bar}");
    assert!(bar[36..].chars().all(|c| c == '~'), "bar: {bar}");
}

#[test]
fn render_layout_diagram_line_width_is_bounded() {
    let mut disks: Vec<Disk> = (0..8)
        .map(|i| Disk::new(format!("d{i}"), (i as u64 + 1) * TB))
        .collect();
    disks.push(Disk::new(
        "ata-WDC_WD80EFZZ-68BTXN0_A_VERY_LONG_SERIAL_NUMBER_THAT_KEEPS_GOING_ON_AND_ON",
        9 * TB,
    ));
    let out = plan_initial(&PlannerInput::exact(disks.clone(), RedundancyMode::Shr)).unwrap();

    let text = render_layout_diagram(&disks, &out);
    const MAX_LINE_WIDTH: usize = 100;
    for line in text.lines() {
        assert!(
            line.chars().count() <= MAX_LINE_WIDTH,
            "line exceeds {MAX_LINE_WIDTH} columns ({} chars): {line:?}",
            line.chars().count()
        );
    }
}


fn status_detail_fixture() -> StatusReport {
    StatusReport {
        schema_version: 2,
        health: Health::Degraded,
        disks: vec![
            DiskStatus {
                name: "sdb".to_string(),
                id: Some("ata-DISK1".to_string()),
                size: Some(4_000_000_000_000),
                model: Some("WD Red Plus".to_string()),
                serial: Some("WD-SERIAL-B".to_string()),
                rotational: Some(true),
                smart: SmartSummary {
                    state: SmartState::Warning,
                    temperature_c: Some(38),
                    power_on_hours: Some(10_000),
                    pending_sectors: Some(1),
                    reallocated_sectors: Some(0),
                    uncorrectable_sectors: Some(0),
                    nvme_critical_warning: None,
                },
                arrays: vec!["md0".to_string()],
                system_disk: false,
                system_mounts: vec![],
            },
            DiskStatus {
                name: "sdc".to_string(),
                id: Some("ata-DISK2".to_string()),
                size: Some(8_000_000_000_000),
                model: Some("Seagate Exos X18 A Very Long Model String".to_string()),
                serial: Some("SEAGATE-SERIAL-C-LONG-ENOUGH-TO-TRUNCATE".to_string()),
                rotational: Some(true),
                smart: SmartSummary {
                    state: SmartState::Good,
                    temperature_c: Some(35),
                    power_on_hours: Some(500),
                    pending_sectors: Some(0),
                    reallocated_sectors: Some(0),
                    uncorrectable_sectors: Some(0),
                    nvme_critical_warning: None,
                },
                arrays: vec!["md1".to_string()],
                system_disk: false,
                system_mounts: vec![],
            },
            DiskStatus {
                name: "sdd".to_string(),
                id: Some("ata-DISK3".to_string()),
                size: Some(2_000_000_000_000),
                model: Some("Spare".to_string()),
                serial: Some("SPARE-D".to_string()),
                rotational: Some(false),
                smart: SmartSummary {
                    state: SmartState::Unknown,
                    temperature_c: None,
                    power_on_hours: None,
                    pending_sectors: None,
                    reallocated_sectors: None,
                    uncorrectable_sectors: None,
                    nvme_critical_warning: None,
                },
                arrays: vec![],
                system_disk: false,
                system_mounts: vec![],
            },
        ],
        arrays: vec![],
        groups: vec![GroupStatus {
            name: "default".to_string(),
            mode: "shr".to_string(),
            layout_version: 2,
            mount_point: "/mnt/shr_data".to_string(),
            fs_uuid: Some("11111111-2222-3333-4444-555555555555".to_string()),
            vg_name: "shr_vg".to_string(),
            lv_name: "data".to_string(),
            compression: "zstd:3".to_string(),
            usable_bytes: 12_000_000_000_000,
            resize_pending: true,
            disks: vec!["ata-DISK1".to_string(), "ata-DISK2".to_string()],
            bands: vec![
                GroupBandStatus {
                    index: 0,
                    level: "raid5".to_string(),
                    md_name: "md0".to_string(),
                    md_uuid: Some("12345678:9abcdef0:12345678:9abcdef0".to_string()),
                    usable_bytes: 8_000_000_000_000,
                    resize_pending: false,
                    members: vec!["sdb1".to_string(), "sdc1".to_string()],
                    member_states: vec![healthy_member("sdb1", 0), healthy_member("sdc1", 1)],
                    sync: Some(SyncSummary {
                        action: "recover".to_string(),
                        percent: Some(Decimal { tenths: 425 }),
                        finish_min: Some(Decimal { tenths: 123 }),
                    }),
                    last_scrub: Some(ScrubSummary {
                        finished_at: "2026-07-01T00:00:00Z".to_string(),
                        outcome: ScrubOutcome::Completed,
                        error_count: 0,
                    }),
                    scrub_in_progress: false,
                    pending_member_removal: None,
                    ..Default::default()
                },
                GroupBandStatus {
                    index: 1,
                    level: "raid1".to_string(),
                    md_name: "md1".to_string(),
                    md_uuid: None,
                    usable_bytes: 4_000_000_000_000,
                    resize_pending: true,
                    members: vec!["sdd1".to_string()],
                    member_states: vec![MemberStatus {
                        name: "sdd1".to_string(),
                        role: Some(1),
                        faulty: true,
                        spare: false,
                        write_mostly: false,
                        replacement: false,
                    }],
                    sync: None,
                    last_scrub: Some(ScrubSummary {
                        finished_at: "2026-06-15T12:00:00Z".to_string(),
                        outcome: ScrubOutcome::Failed,
                        error_count: 3,
                    }),
                    scrub_in_progress: true,
                    pending_member_removal: Some("sdd1".to_string()),
                    ..Default::default()
                },
            ],
        }],
        state_path: None,
    }
}

#[test]
fn render_status_detail_snapshot() {
    assert_eq!(
        render_status_detail(&status_detail_fixture()),
        concat(&[
            "SHR-RS status (detail): DEGRADED\n",
            "\n",
            "Disks (3):\n",
            "  NODE            SIZE  MODEL               SERIAL          SMART TEMP    POWERON  PEND REALLOC  UNCORR\n",
            "  sdb           4.0 TB  WD Red Plus         WD-SERIAL-B     WARN  38C      10000h     1       0       0\n",
            "  sdc           8.0 TB  Seagate Exos X18 A >SEAGATE-SERIAL->ok    35C        500h     0       0       0\n",
            "  sdd           2.0 TB  Spare               SPARE-D         ?     -             ?     ?       ?       ?\n",
            "\n",
            "Groups (1):\n",
            "  default (mode=shr, disks=2, compression=zstd:3) -> /mnt/shr_data\n",
            "    band0  raid5  md0             8.0 TB  members: sdb1, sdc1  [recover 42.5%, finish ~12.3 min]  last scrub completed at 2026-07-01T00:00:00Z (0 errors)\n",
            "    band1  raid1  md1             4.0 TB [expansion unfinished]  members: sdd1(F)  [idle]  scrub running; last scrub FAILED at 2026-06-15T12:00:00Z (3 errors)  pending-removal: sdd1 (its replace copy is still finishing -- not a new fault)\n",
            "\n",
            "Unassigned disks (1): 2.0 TB not backing any array\n",
            "    sdd       2.0 TB\n",
        ])
    );
}

#[test]
fn render_status_detail_lists_unassigned_disks() {
    let text = render_status_detail(&status_detail_fixture());
    assert!(text.contains("Unassigned disks (1)"), "{text}");
    assert!(text.contains("sdd"), "{text}");
}

#[test]
fn render_status_detail_shows_scrub_history_and_in_progress() {
    let text = render_status_detail(&status_detail_fixture());
    assert!(text.contains("last scrub completed"), "{text}");
    assert!(text.contains("last scrub FAILED"), "{text}");
    assert!(text.contains("scrub running"), "{text}");
}

#[test]
fn render_status_detail_shows_compression() {
    let text = render_status_detail(&status_detail_fixture());
    assert!(text.contains("compression=zstd:3"), "{text}");
}

#[test]
fn render_status_detail_marks_a_faulty_member_distinguishably() {
    let text = render_status_detail(&status_detail_fixture());
    assert!(text.contains("sdd1(F)"), "{text}");
}

#[test]
fn render_status_detail_names_the_pending_removal_and_explains_it() {
    let text = render_status_detail(&status_detail_fixture());
    assert!(text.contains("pending-removal: sdd1"), "{text}");
    assert!(text.to_lowercase().contains("not a new fault"), "{text}");
}

#[test]
fn render_status_detail_omits_pending_removal_text_when_none_is_pending() {
    let text = render_status_detail(&status_detail_fixture());
    let band0_line = text
        .lines()
        .find(|l| l.contains("md0"))
        .expect("band0 row present");
    assert!(!band0_line.contains("pending-removal"), "{band0_line}");
}

#[test]
fn render_status_detail_marks_write_mostly_and_replacement_members() {
    let mut r = status_detail_fixture();
    r.groups[0].bands[0].members = vec!["sdb1".to_string(), "sdc1".to_string()];
    r.groups[0].bands[0].member_states = vec![
        healthy_member("sdb1", 0),
        MemberStatus {
            name: "sdc1".to_string(),
            role: Some(1),
            faulty: false,
            spare: false,
            write_mostly: true,
            replacement: true,
        },
    ];
    let text = render_status_detail(&r);
    assert!(text.contains("sdc1(W)(R)"), "{text}");
}

#[test]
fn render_status_detail_band_with_no_live_array_says_so_not_idle() {
    let mut r = status_detail_fixture();
    r.groups[0].bands[1].members.clear();
    let text = render_status_detail(&r);
    assert!(text.contains("no live mdadm array"), "{text}");
}

#[test]
fn render_status_band_with_no_live_array_says_so() {
    let mut r = status_fixture();
    r.groups[0].bands[0].members.clear();
    let text = render_status(&r);
    assert!(text.contains("no live mdadm array"), "{text}");
}


fn watch_fixture() -> StatusReport {
    StatusReport {
        schema_version: 2,
        health: Health::Degraded,
        disks: vec![],
        arrays: vec![
            ArrayStatus {
                name: "md0".to_string(),
                level: Some("raid5".to_string()),
                state: "clean".to_string(),
                read_only: false,
                degraded: true,
                raid_disks: Some(3),
                active_disks: Some(2),
                members: vec!["sdb1".to_string(), "sdc1".to_string()],
                member_states: vec![healthy_member("sdb1", 0), healthy_member("sdc1", 1)],
                sync: Some(SyncSummary {
                    action: "recover".to_string(),
                    percent: Some(Decimal { tenths: 425 }),
                    finish_min: Some(Decimal { tenths: 123 }),
                }),
            },
            ArrayStatus {
                name: "md1".to_string(),
                level: Some("raid1".to_string()),
                state: "clean".to_string(),
                read_only: false,
                degraded: false,
                raid_disks: Some(2),
                active_disks: Some(2),
                members: vec!["sdd1".to_string(), "sde1".to_string()],
                member_states: vec![healthy_member("sdd1", 0), healthy_member("sde1", 1)],
                sync: None,
            },
        ],
        groups: vec![],
        state_path: None,
    }
}

#[test]
fn render_status_watch_frame_snapshot() {
    let meta = WatchFrameMeta {
        width: 72,
        max_height: 12,
    };
    assert_eq!(
        render_status_watch_frame(&watch_fixture(), &meta),
        concat(&[
            "SHR-RS status (watch): DEGRADED                                         \n",
            "                                                                        \n",
            "Arrays (2):                                                             \n",
            "  md0     [#########...........] recover 42.5%, finish ~12.3m           \n",
            "  md1     [                    ] idle                                   \n",
            "                                                                        \n",
            "                                                                        \n",
            "                                                                        \n",
            "                                                                        \n",
            "                                                                        \n",
            "                                                                        \n",
            "                                                                        ",
        ])
    );
}

#[test]
fn watch_frame_height_is_always_exactly_max_height() {
    for meta in [
        WatchFrameMeta {
            width: 60,
            max_height: 3,
        },
        WatchFrameMeta {
            width: 60,
            max_height: 40,
        },
    ] {
        let text = render_status_watch_frame(&watch_fixture(), &meta);
        assert_eq!(text.lines().count(), meta.max_height, "meta={meta:?}: {text}");
    }
}

#[test]
fn watch_frame_width_is_always_exactly_meta_width() {
    let meta = WatchFrameMeta {
        width: 50,
        max_height: 10,
    };
    let text = render_status_watch_frame(&watch_fixture(), &meta);
    for line in text.lines() {
        assert_eq!(line.chars().count(), meta.width, "line: {line:?}");
    }
}

#[test]
fn watch_frame_is_idempotent_for_the_same_input() {
    let meta = WatchFrameMeta {
        width: 64,
        max_height: 16,
    };
    let a = render_status_watch_frame(&watch_fixture(), &meta);
    let b = render_status_watch_frame(&watch_fixture(), &meta);
    assert_eq!(a, b);
}

#[test]
fn watch_frame_reflects_content_changes() {
    let meta = WatchFrameMeta {
        width: 64,
        max_height: 16,
    };
    let mut changed = watch_fixture();
    changed.arrays[0].sync.as_mut().unwrap().percent = Some(Decimal { tenths: 999 });
    let a = render_status_watch_frame(&watch_fixture(), &meta);
    let b = render_status_watch_frame(&changed, &meta);
    assert_ne!(a, b);
}


fn fs_df_fixture() -> FsDfReport {
    FsDfReport {
        schema_version: 2,
        groups: vec![
            GroupDfStatus {
                name: "default".to_string(),
                mount_point: "/mnt/shr_data".to_string(),
                usable_bytes: 8_000_000_000_000,
                data_used_bytes: Some(3_000_000_000_000),
                data_total_bytes: Some(8_000_000_000_000),
                metadata_used_bytes: Some(10_000_000_000),
                metadata_total_bytes: Some(20_000_000_000),
                unallocated_bytes: Some(5_000_000_000_000),
                statvfs_avail_bytes: Some(4_900_000_000_000),
            },
            GroupDfStatus {
                name: "fresh-group-with-a-long-name".to_string(),
                mount_point: "/mnt/shr_fresh_group_mountpoint".to_string(),
                usable_bytes: 4_000_000_000_000,
                data_used_bytes: None,
                data_total_bytes: None,
                metadata_used_bytes: None,
                metadata_total_bytes: None,
                unallocated_bytes: None,
                statvfs_avail_bytes: None,
            },
        ],
    }
}

#[test]
fn render_fs_df_snapshot() {
    assert_eq!(
        render_fs_df(&fs_df_fixture()),
        concat(&[
            "Filesystem capacity\n",
            "\n",
            "  NOTE: Btrfs allocates data/metadata chunks separately from a plain\n",
            "  df's view -- DF-AVAIL below can read more optimistic or pessimistic\n",
            "  than reality. UNALLOC (raw space not yet claimed by any chunk) is\n",
            "  the more trustworthy free-space signal when known.\n",
            "\n",
            "  GROUP     MOUNT                 USABLE     DATA (used/total)     META (used/total)   UNALLOC  DF-AVAIL\n",
            "  default   /mnt/shr_data         8.0 TB         3.0 TB/8.0 TB       10.0 GB/20.0 GB    5.0 TB    4.9 TB\n",
            "  fresh-gro>/mnt/shr_fresh_gr>    4.0 TB                   ?/?                   ?/?         ?         ?\n",
        ])
    );
}

#[test]
fn render_fs_df_never_fabricates_unknown_values() {
    let text = render_fs_df(&fs_df_fixture());
    let row = text
        .lines()
        .find(|l| l.contains("fresh-gro"))
        .expect("row for the group with no live usage data is present");
    assert!(row.contains('?'), "{row}");
}

#[test]
fn members_carry_their_marks() {
    let member = |name: &str, faulty: bool, spare: bool, write_mostly: bool, replacement: bool| MemberStatus {
        name: name.to_string(),
        role: None,
        faulty,
        spare,
        write_mostly,
        replacement,
    };
    let names: Vec<String> = ["a", "b", "c", "d", "e"].iter().map(|s| s.to_string()).collect();
    let states = vec![
        member("a", true, true, false, false),
        member("b", false, true, false, false),
        member("c", false, false, true, true),
        member("d", false, false, false, false),
    ];
    assert_eq!(
        annotated_members(&names, &states),
        vec!["a(F)", "b(S)", "c(W)(R)", "d", "e"]
    );
}

#[test]
fn a_healthy_and_an_unknown_host_say_so() {
    let mut r = watch_fixture();
    r.arrays.clear();
    r.health = Health::Healthy;
    assert!(render_status(&r).starts_with("SHR-RS status: ● HEALTHY\n"));
    assert!(render_status_detail(&r).starts_with("SHR-RS status (detail): HEALTHY\n"));
    r.health = Health::Unknown;
    assert!(render_status(&r).starts_with("SHR-RS status: ○ UNKNOWN (no RAID array found)\n"));
    let frame = render_status_watch_frame(&r, &WatchFrameMeta { width: 30, max_height: 4 });
    assert_eq!(
        frame,
        concat(&[
            "SHR-RS status (watch): UNKNOW>\n",
            "                              \n",
            "No arrays.                    \n",
            "                              ",
        ])
    );
}

#[test]
fn a_frame_that_is_too_short_tells_how_much_it_hides() {
    let frame = render_status_watch_frame(&watch_fixture(), &WatchFrameMeta { width: 60, max_height: 3 });
    let last = frame.lines().last().unwrap();
    assert_eq!(last.trim_end(), "... +3 more line(s), resize terminal for full detail");
    assert_eq!(render_status_watch_frame(&watch_fixture(), &WatchFrameMeta { width: 60, max_height: 0 }), "");
}

#[test]
fn a_long_member_list_is_cut_with_a_count() {
    let disks: Vec<Disk> = (0..9).map(|i| Disk::new(format!("disk-number-{i}"), 1000)).collect();
    let out = plan_initial(&PlannerInput::exact(disks.clone(), RedundancyMode::Shr)).unwrap();
    let text = render_layout_diagram(&disks, &out);
    assert!(
        text.contains("members: disk-number-0, disk-number-1 +7 more\n"),
        "{text}"
    );
}

fn listed(items: &[&str], width: usize) -> String {
    join_bounded(&items.iter().map(|s| s.to_string()).collect(), width)
}

#[test]
fn a_list_that_fits_is_never_cut() {
    assert_eq!(listed(&["ab", "cd"], 6), "ab, cd");
    assert_eq!(listed(&["ab", "cd"], 5), "ab +1 more");
    assert_eq!(listed(&["ab", "cd", "ef"], 10), "ab, cd, ef");
    assert_eq!(listed(&["abcdefgh", "cd", "ef", "gh"], 20), "abcdefgh, cd, ef, gh");
    assert_eq!(listed(&["abcdefgh", "cd", "ef", "gh"], 19), "abcdefgh +3 more");
    assert_eq!(listed(&["abcdefgh", "cd", "ef", "ghijkl"], 20), "abcdefgh, cd +2 more");
    // One item is shown however narrow it gets, and one alone is never cut.
    assert_eq!(listed(&["ab", "cd"], 0), "ab +1 more");
    assert_eq!(listed(&["abcdef"], 3), "abcdef");
    assert_eq!(listed(&[], 0), "");
}

#[test]
fn eight_short_members_are_all_named() {
    let disks: Vec<Disk> = (0..8).map(|i| Disk::new(format!("sda{i}"), 1000)).collect();
    let out = plan_initial(&PlannerInput::exact(disks.clone(), RedundancyMode::Shr)).unwrap();
    let text = render_layout_diagram(&disks, &out);
    assert!(
        text.contains("members: sda0, sda1, sda2, sda3, sda4, sda5, sda6, sda7\n"),
        "{text}"
    );
}

#[test]
fn a_bar_can_be_as_wide_as_one_likes() {
    let disks: Vec<Disk> = vec![Disk::new("a", 1000), Disk::new("b", 1000)];
    let out = plan_initial(&PlannerInput::exact(disks.clone(), RedundancyMode::Shr)).unwrap();
    let cols = disk_bar(&disks[0], &out, 1000, 1_000_002);
    assert_eq!(cols.len(), 1_000_002);
    assert_eq!(cols[500_000], '#');
    assert_eq!(cols[500_001], '+');
    // A scale shorter than the disk cuts the bar at its end.
    assert_eq!(disk_bar(&disks[0], &out, 250, 4), vec!['#', '#', '#', '#']);
}
