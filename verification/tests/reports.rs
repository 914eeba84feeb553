//! What commands print, for machines and for people.

use serde_json::Value;
use shr_rs::answers::{
    created, daemon_started, daemon_tick, daemon_tick_report_json, destroyed, expanded, failed, groups_listed,
    health_check_report_json, health_checked, note, notes, recompress_report_json, recompressed, replaced,
    resolve_group_name_for_report, schedule_install_report_json, schedule_installed, scrub_action_report_json,
    scrub_cancelled, scrub_failure, scrub_reported, scrub_start_report_json, scrub_started, smart_failure,
    smart_reported, snapshot_create_report_json, snapshot_created, snapshots_off, snapshots_taken, throttle_tick_report_json,
    throttled, tick_skipped, tick_skipped_report_json, Answer, DAEMON_HELP,
};
use shr_rs::confirm::render_planned_commands_text;
use shr_rs::dry_run::{
    create_dry_run_text, destroy_dry_run_json, dry_run_layout_diagram_text, expand_dry_run_layout_diagram_text,
    expand_dry_run_text, merge_planned_commands, parse_redundancy_mode, DiagramError,
};
use shr_rs::inventory::{ArrayState, StateBand, StateDisk, StateFile, StateFilesystem};
use shr_rs::json::Json;
use shr_rs::reconcile::{
    describe_reconcile_action, reconcile_lines, reconcile_notes, reconcile_report_json, reconciled, ReconcileAction,
    ReconcileOutcome,
};
use shr_rs::{Disk, DiskStatus, PlanError, ProgressUpdate, RedundancyMode, SmartState, SmartSummary};

/// The same value for the JSON library, through its text form.
fn parsed(j: &Json) -> Value {
    let text = value(j).to_string();
    serde_json::from_str(&text).unwrap()
}

fn value(j: &Json) -> Value {
    match j {
        Json::Null => Value::Null,
        Json::Bool(b) => Value::Bool(*b),
        Json::Number(n) => Value::from(*n),
        Json::Literal(s) => serde_json::from_str(s).unwrap(),
        Json::Quotient(n, d) => Value::from(*n as f64 / *d as f64),
        Json::Text(s) => Value::from(s.as_str()),
        Json::List(l) => Value::Array(l.iter().map(value).collect()),
        Json::Object(fields) => {
            let mut map = serde_json::Map::new();
            for (k, v) in fields {
                map.insert(k.clone(), value(v));
            }
            Value::Object(map)
        }
    }
}

fn text(s: &str) -> Json {
    Json::Text(s.to_string())
}

fn object(fields: Vec<(&str, Json)>) -> Json {
    Json::Object(fields.into_iter().map(|(k, v)| (k.to_string(), v)).collect())
}

fn lines(a: &Answer) -> Vec<String> {
    match a {
        Answer::Lines(l) => l.clone(),
        other => panic!("expected lines, got {other:?}"),
    }
}

fn compact(a: &Answer) -> Value {
    match a {
        Answer::Compact(j) => parsed(j),
        other => panic!("expected one line of JSON, got {other:?}"),
    }
}

fn pretty(a: &Answer) -> Value {
    match a {
        Answer::Pretty(j) => parsed(j),
        other => panic!("expected indented JSON, got {other:?}"),
    }
}

fn array_of(items: &[&str]) -> Value {
    Value::Array(items.iter().map(|s| Value::from(*s)).collect())
}

fn expand_state_fixture(mode: &str) -> ArrayState {
    ArrayState {
        name: "shr1".to_string(),
        mode: mode.to_string(),
        layout_version: 1,
        disks: vec![
            StateDisk { id: "ata-DISK1".to_string(), size_bytes: 4_000_000_000_000 },
            StateDisk { id: "ata-DISK2".to_string(), size_bytes: 4_000_000_000_000 },
        ],
        bands: vec![],
        filesystem: StateFilesystem {
            fs_uuid: None,
            mount_point: "/mnt/shr_data".to_string(),
            vg_name: "shr_vg".to_string(),
            lv_name: "data".to_string(),
            compression: "zstd:3".to_string(),
        },
        expansion_in_progress: false,
    }
}

fn band(index: u8, resize_pending: bool) -> StateBand {
    StateBand {
        index,
        level: "raid5".to_string(),
        md_name: format!("md{index}"),
        md_uuid: None,
        usable_bytes: 1,
        resize_pending,
        last_scrub: None,
        scrub_in_progress: false,
        pending_member_removal: None,
        sync_priority: None,
        sync_capability_kb: None,
        sync_capability_observed_at: None,
        last_throttle_decision: None,
        last_throttle_reason: None,
        last_throttle_speed_kb: None,
    }
}

fn recorded(groups: Vec<ArrayState>) -> StateFile {
    StateFile { groups, saved_speed_limit_max_kb: None }
}

#[test]
fn scrub_action_report_json_parses_back_with_group_and_status() {
    let v = parsed(&scrub_action_report_json("mygroup", "started"));
    assert_eq!(v["group"], "mygroup");
    assert_eq!(v["status"], "started");

    let v = parsed(&scrub_action_report_json("mygroup", "cancelled"));
    assert_eq!(v["status"], "cancelled");
}

#[test]
fn the_priority_of_a_scrub_is_told_only_where_one_was_given() {
    let v = parsed(&scrub_start_report_json("g", Some("max")));
    assert_eq!(v["priority"], "max");
    assert_eq!(v["status"], "started");
    let v = parsed(&scrub_start_report_json("g", None));
    assert!(v.get("priority").is_none());
}

#[test]
fn tick_skipped_report_json_adds_skipped_without_dropping_the_arms_own_keys() {
    let v = parsed(&tick_skipped_report_json(throttle_tick_report_json(0)));
    assert_eq!(v["bands_ticked"], 0);
    assert_eq!(v["skipped"], true);

    let v = parsed(&tick_skipped_report_json(health_check_report_json()));
    assert_eq!(v["ok"], true);
    assert_eq!(v["skipped"], true);

    // Set once, even where it was set before; and on nothing at all.
    let v = tick_skipped_report_json(object(vec![("skipped", Json::Bool(false)), ("a", Json::Number(1))]));
    assert_eq!(v, object(vec![("a", Json::Number(1)), ("skipped", Json::Bool(true))]));
    assert_eq!(tick_skipped_report_json(Json::Null), object(vec![("skipped", Json::Bool(true))]));
}

#[test]
fn a_skipped_run_names_the_lock() {
    assert_eq!(
        lines(&tick_skipped(false, health_check_report_json())),
        vec![
            "another shr-rs command is working on the state file right now; skipping this run \
             (lock: /var/lib/shr-rs/.shr-rs.lock)"
        ]
    );
    assert_eq!(compact(&tick_skipped(true, throttle_tick_report_json(0)))["skipped"], true);
}

#[test]
fn recompress_report_json_parses_back_with_group_and_compression() {
    let v = parsed(&recompress_report_json("mygroup", "zstd:5"));
    assert_eq!(v["group"], "mygroup");
    assert_eq!(v["compression"], "zstd:5");
    assert_eq!(v["status"], "started");
}

#[test]
fn snapshot_create_report_json_parses_back_with_group_and_name() {
    let v = parsed(&snapshot_create_report_json("mygroup", "before-upgrade"));
    assert_eq!(v["group"], "mygroup");
    assert_eq!(v["name"], "before-upgrade");
    assert_eq!(v["status"], "created");
}

#[test]
fn schedule_install_report_json_parses_back_with_both_counts() {
    let v = parsed(&schedule_install_report_json(4, 1));
    assert_eq!(v["installed_timers"], 4);
    assert_eq!(v["pruned"], 1);
}

#[test]
fn daemon_tick_report_json_parses_back_with_per_group_fields_and_the_empty_case() {
    let group = expand_state_fixture("shr");
    let v = parsed(&daemon_tick_report_json(std::slice::from_ref(&group)));
    assert_eq!(v["groups"][0]["name"], group.name.as_str());
    assert_eq!(v["groups"][0]["mode"], group.mode.as_str());
    assert_eq!(v["groups"][0]["layout_version"], group.layout_version);
    assert_eq!(v["groups"][0]["disks"], group.disks.len());

    let empty = parsed(&daemon_tick_report_json(&[]));
    assert_eq!(empty["groups"], array_of(&[]));
}

#[test]
fn resolve_group_name_for_report_prefers_an_explicit_name_over_state_toml() {
    assert_eq!(resolve_group_name_for_report(None, Some("explicit")), "explicit");
    let state = recorded(vec![expand_state_fixture("shr")]);
    assert_eq!(resolve_group_name_for_report(Some(&state), Some("explicit")), "explicit");
}

#[test]
fn resolve_group_name_for_report_falls_back_to_the_sole_group_in_state_toml() {
    let state = recorded(vec![expand_state_fixture("shr")]);
    assert_eq!(resolve_group_name_for_report(Some(&state), None), "shr1");
}

#[test]
fn resolve_group_name_for_report_defaults_to_empty_string_with_no_state_and_no_name() {
    assert_eq!(resolve_group_name_for_report(None, None), "");
    assert_eq!(resolve_group_name_for_report(Some(&recorded(vec![])), None), "");
}

#[test]
fn scrub_start_and_cancel_handlers_branch_on_cli_json_without_losing_their_human_text() {
    assert_eq!(compact(&scrub_started(true, "g", None)), parsed(&scrub_start_report_json("g", None)));
    assert_eq!(
        compact(&scrub_started(true, "g", Some("background"))),
        parsed(&scrub_start_report_json("g", Some("background")))
    );
    assert_eq!(lines(&scrub_started(false, "g", None)), vec!["scrub started"]);
    assert_eq!(
        lines(&scrub_started(false, "g", Some("background"))),
        vec!["scrub started (priority background)"]
    );
    assert_eq!(
        compact(&scrub_cancelled(true, "g")),
        parsed(&scrub_action_report_json("g", "cancelled"))
    );
    assert_eq!(lines(&scrub_cancelled(false, "g")), vec!["scrub cancelled"]);
}

#[test]
fn recompress_handler_branches_on_cli_json_without_losing_its_human_text() {
    assert_eq!(
        compact(&recompressed(true, "g", "zstd:5")),
        parsed(&recompress_report_json("g", "zstd:5"))
    );
    assert_eq!(lines(&recompressed(false, "g", "zstd:5")), vec!["recompress started at zstd:5"]);
}

#[test]
fn snapshot_create_handler_branches_on_cli_json_without_losing_its_human_text() {
    assert_eq!(
        compact(&snapshot_created(true, "g", "s")),
        parsed(&snapshot_create_report_json("g", "s"))
    );
    assert_eq!(lines(&snapshot_created(false, "g", "s")), vec!["snapshot `s` created"]);
}

#[test]
fn schedule_install_handler_branches_on_cli_json_without_losing_its_human_text() {
    assert_eq!(compact(&schedule_installed(true, 4, 1)), parsed(&schedule_install_report_json(4, 1)));
    assert_eq!(
        lines(&schedule_installed(false, 4, 1)),
        vec!["installed and enabled 4 timer unit(s); pruned 1 orphaned unit file(s)"]
    );
}

#[test]
fn daemon_help_text_says_it_is_not_a_monitoring_daemon_and_names_schedule_install() {
    let doc = DAEMON_HELP;
    assert!(doc.to_lowercase().contains("not a monitoring daemon"), "{doc}");
    assert!(doc.contains("schedule install"), "{doc}");
}

#[test]
fn daemon_handler_runtime_banner_says_it_is_not_a_monitoring_daemon_and_names_schedule_install() {
    let banner = daemon_started(false, "/var/lib/shr-rs/state.toml").unwrap();
    assert!(banner.to_lowercase().contains("not a monitoring daemon"), "{banner}");
    assert!(banner.to_lowercase().contains("schedule install"), "{banner}");
    assert!(!banner.contains("Starting shr-rs daemon (monitoring"), "{banner}");
    assert!(banner.contains("/var/lib/shr-rs/state.toml"), "{banner}");
}

#[test]
fn daemon_handler_emits_ndjson_under_cli_json_and_keeps_its_tick_text_otherwise() {
    assert_eq!(daemon_started(true, "/x"), None);
    let groups = vec![expand_state_fixture("shr")];
    assert_eq!(compact(&daemon_tick(true, &groups)), parsed(&daemon_tick_report_json(&groups)));
    assert_eq!(compact(&daemon_tick(true, &[])), parsed(&daemon_tick_report_json(&[])));
    assert_eq!(
        lines(&daemon_tick(false, &groups)),
        vec!["[status] group shr1: mode: shr, layout 1, disks: 2"]
    );
    assert_eq!(
        lines(&daemon_tick(false, &[])),
        vec!["[status] No storage group configured yet."]
    );
}

#[test]
fn merge_planned_commands_adds_the_array_in_call_order_without_losing_state_fields() {
    let state = object(vec![("mode", text("shr")), ("layout_version", Json::Number(1))]);
    let commands = vec![
        "parted /dev/sdb mkpart primary 1MiB 100%".to_string(),
        "mdadm --create /dev/md0".to_string(),
    ];

    let merged = parsed(&merge_planned_commands(state, &commands));

    assert_eq!(merged["mode"], "shr");
    assert_eq!(merged["layout_version"], 1);
    assert_eq!(
        merged["planned_commands"],
        array_of(&["parted /dev/sdb mkpart primary 1MiB 100%", "mdadm --create /dev/md0"])
    );
}

#[test]
fn merge_planned_commands_with_no_commands_yields_an_empty_array_not_a_missing_field() {
    let state = object(vec![("mode", text("shr"))]);
    let merged = parsed(&merge_planned_commands(state, &[]));
    assert_eq!(merged["planned_commands"], array_of(&[]));
    // What is no object is left alone.
    assert_eq!(merge_planned_commands(text("x"), &[]), text("x"));
}

#[test]
fn render_planned_commands_text_lists_each_command_in_order_on_its_own_line() {
    let commands = vec!["parted ...".to_string(), "mdadm --create ...".to_string()];
    let out = render_planned_commands_text(&commands);
    let parted_pos = out.find("parted ...").unwrap();
    let mdadm_pos = out.find("mdadm --create ...").unwrap();
    assert!(parted_pos < mdadm_pos, "commands must appear in execution order");
    assert_eq!(out, "Planned commands:\n  parted ...\n  mdadm --create ...\n");
}

#[test]
fn dry_run_layout_diagram_text_renders_bands_for_the_exact_disks_passed_in() {
    let disks = vec![
        Disk::new("ata-DISK1", 4_000_000_000_000),
        Disk::new("ata-DISK2", 4_000_000_000_000),
        Disk::new("ata-DISK3", 4_000_000_000_000),
    ];
    let out = dry_run_layout_diagram_text(&disks, RedundancyMode::Shr).unwrap();
    assert!(out.contains("Layout diagram (DRY RUN)"), "{out}");
    assert!(out.contains("band0"), "{out}");
}

#[test]
fn expand_dry_run_layout_diagram_text_covers_every_disk_state_already_has() {
    let state = expand_state_fixture("shr");
    let out = expand_dry_run_layout_diagram_text(&state).unwrap();
    assert!(out.contains("Layout diagram (DRY RUN)"), "{out}");
    assert!(out.contains("band0"), "{out}");
}

#[test]
fn expand_dry_run_layout_diagram_text_rejects_an_unknown_mode_string_instead_of_guessing() {
    let state = expand_state_fixture("bogus");
    let err = expand_dry_run_layout_diagram_text(&state).unwrap_err();
    assert!(err.message().contains("bogus"), "{err:?}");
    assert_eq!(err.message(), "unknown redundancy mode `bogus` in the shr-rs configuration");
}

#[test]
fn a_group_without_a_layout_has_no_diagram() {
    let mut state = expand_state_fixture("shr2");
    let err = expand_dry_run_layout_diagram_text(&state).unwrap_err();
    assert_eq!(err, DiagramError::Plan(PlanError::TooFewDisks { got: 2, min: 4 }));
    assert_eq!(err.message(), "too few disks: got 2, mode requires at least 4");
    state.mode = "shr".to_string();
    assert!(expand_dry_run_layout_diagram_text(&state).is_ok());
    assert_eq!(parse_redundancy_mode(RedundancyMode::Shr2.word()), Ok(RedundancyMode::Shr2));
    assert_eq!(parse_redundancy_mode(RedundancyMode::Shr.word()), Ok(RedundancyMode::Shr));
}

#[test]
fn dry_runs_tell_the_group_the_commands_and_the_layout() {
    let group = expand_state_fixture("shr");
    let commands = vec!["a".to_string(), "b".to_string()];
    assert_eq!(
        create_dry_run_text(&group, &commands, "DIAGRAM\n"),
        "Dry run -- array would be created. Name: shr1, Mode: shr, Version: 1\n\
         Planned commands:\n  a\n  b\nDIAGRAM\n"
    );
    assert_eq!(
        expand_dry_run_text(&group, &[], "DIAGRAM\n"),
        "Dry run -- array would be expanded. Name: shr1, Layout Version: 1\n\
         Planned commands:\nDIAGRAM\n"
    );
    let v = parsed(&destroy_dry_run_json(&commands, true));
    assert_eq!(v["planned_commands"], array_of(&["a", "b"]));
    assert_eq!(v["zero_superblocks"], true);
}

#[test]
fn a_failure_is_told_in_the_form_that_was_asked_for() {
    assert_eq!(lines(&failed(false, "no")), vec!["error: no"]);
    assert_eq!(compact(&failed(true, "no"))["error"], "no");
}

#[test]
fn errors_that_a_scrub_found_fail_the_command_of_a_person() {
    assert_eq!(
        lines(&scrub_reported(false, "g", true, 0)),
        vec!["group `g`: running -- 0 error(s) found"]
    );
    assert_eq!(
        lines(&scrub_reported(false, "g", false, 3)),
        vec!["group `g`: finished -- 3 error(s) found"]
    );
    let v = compact(&scrub_reported(true, "g", true, 3));
    assert_eq!(v["group"], "g");
    assert_eq!(v["running"], true);
    assert_eq!(v["error_count"], 3);
    assert_eq!(scrub_failure(false, "g", 0), None);
    assert_eq!(scrub_failure(true, "g", 3), None);
    assert_eq!(scrub_failure(false, "g", 3), Some("scrub found 3 error(s) in group `g`".to_string()));
}

#[test]
fn timers_tell_what_they_did() {
    assert_eq!(lines(&throttled(false, 2)), vec!["ticked 2 syncing band(s)"]);
    assert_eq!(compact(&throttled(true, 2))["bands_ticked"], 2);
    assert_eq!(lines(&health_checked(false)), vec!["health check complete"]);
    assert_eq!(compact(&health_checked(true))["ok"], true);
    assert_eq!(
        lines(&snapshots_off(false)),
        vec!["snapshot automation is disabled in policy.toml; nothing to do"]
    );
    let v = compact(&snapshots_off(true));
    assert_eq!(v["ok"], true);
    assert_eq!(v["enabled"], false);
    assert_eq!(v["snapshots"], array_of(&[]));
    assert_eq!(
        lines(&snapshots_taken(false, vec![])),
        vec!["no storage group found; nothing to snapshot yet"]
    );
    assert_eq!(lines(&snapshots_taken(false, vec!["x".to_string()])), vec!["x"]);
    let v = compact(&snapshots_taken(true, vec!["x".to_string()]));
    assert_eq!(v["enabled"], true);
    assert_eq!(v["snapshots"], array_of(&["x"]));
}

#[test]
fn groups_are_listed_one_by_one() {
    let mut busy = expand_state_fixture("shr2");
    busy.name = "two".to_string();
    busy.bands = vec![band(0, false)];
    busy.expansion_in_progress = true;
    let groups = vec![expand_state_fixture("shr"), busy];
    assert_eq!(
        lines(&groups_listed(false, &groups, Json::Null)),
        vec![
            "shr1  mode=shr  disks=2  bands=0  mount=/mnt/shr_data",
            "two  mode=shr2  disks=2  bands=1  mount=/mnt/shr_data  [expansion in progress]",
        ]
    );
    assert_eq!(lines(&groups_listed(false, &[], Json::Null)), vec!["No groups."]);
    assert_eq!(pretty(&groups_listed(true, &groups, text("state"))), Value::from("state"));
}

fn disk(name: &str, state: SmartState, temperature_c: Option<i64>, sectors: Option<u64>) -> DiskStatus {
    DiskStatus {
        name: name.to_string(),
        id: None,
        size: None,
        model: None,
        serial: None,
        rotational: None,
        smart: SmartSummary {
            state,
            temperature_c,
            power_on_hours: None,
            pending_sectors: sectors,
            reallocated_sectors: sectors,
            uncorrectable_sectors: None,
            nvme_critical_warning: None,
        },
        arrays: vec![],
        system_disk: false,
        system_mounts: vec![],
    }
}

#[test]
fn the_health_report_fails_where_a_disk_has_a_problem() {
    let good = vec![
        disk("sda", SmartState::Good, Some(38), Some(0)),
        disk("sdb", SmartState::Unknown, None, None),
    ];
    assert_eq!(
        lines(&smart_reported(false, &good)),
        vec![
            "sda  health=ok  temp=38C  reallocated-sectors=0  pending-sectors=0",
            "sdb  health=unknown  temp=unknown  reallocated-sectors=unknown  pending-sectors=unknown",
        ]
    );
    assert_eq!(smart_failure(&good), None);
    let bad = vec![disk("sda", SmartState::Warning, Some(-5), Some(7))];
    assert_eq!(
        lines(&smart_reported(false, &bad)),
        vec!["sda  health=warning  temp=-5C  reallocated-sectors=7  pending-sectors=7"]
    );
    assert_eq!(smart_failure(&bad), Some("one or more disks report a SMART warning".to_string()));
    let json = pretty(&smart_reported(true, &bad));
    assert_eq!(json[0]["name"], "sda");
    assert_eq!(json[0]["smart"]["state"], "warning");
    assert_eq!(json[0]["smart"]["temperature_c"], -5);
}

#[test]
fn changes_to_a_group_are_told() {
    let group = expand_state_fixture("shr");
    assert_eq!(
        lines(&created(false, &group, Json::Null)),
        vec!["Storage group `shr1` created (shr), mounted at /mnt/shr_data."]
    );
    assert_eq!(
        lines(&expanded(false, &group, Json::Null)),
        vec!["Array expanded successfully! Name: shr1, Layout Version: 1"]
    );
    assert_eq!(
        lines(&replaced(false, "old", "new", "shr1", Json::Null)),
        vec!["disk `old` replaced with `new` in group `shr1`"]
    );
    assert_eq!(lines(&destroyed(false, "shr1")), vec!["group `shr1` destroyed"]);
    assert_eq!(pretty(&destroyed(true, "shr1"))["destroyed"], "shr1");
    assert_eq!(pretty(&created(true, &group, text("s"))), Value::from("s"));
    assert_eq!(pretty(&expanded(true, &group, text("s"))), Value::from("s"));
    assert_eq!(pretty(&replaced(true, "o", "n", "g", text("s"))), Value::from("s"));
}

#[test]
fn progress_is_noted_without_its_percentage() {
    let u = ProgressUpdate {
        operation: "reconcile".to_string(),
        stage: "resize".to_string(),
        percent: None,
        message: "done".to_string(),
    };
    assert_eq!(note(&u), "[reconcile] resize: done");
    let updates = vec![u];
    assert_eq!(notes(&updates), vec!["[reconcile] resize: done"]);
    let outcome = Some(ReconcileOutcome { performed: vec![], state: recorded(vec![]) });
    assert_eq!(reconcile_notes(false, &outcome, &updates), vec!["[reconcile] resize: done"]);
    assert!(reconcile_notes(true, &outcome, &updates).is_empty());
    assert!(reconcile_notes(false, &None, &updates).is_empty());
}

fn actions() -> Vec<ReconcileAction> {
    vec![
        ReconcileAction::MemberRemoved {
            group: "g".to_string(),
            band_index: 0,
            md_name: "md0".to_string(),
            member_path: "/dev/loop12p1".to_string(),
        },
        ReconcileAction::ResizeCompleted {
            group: "g".to_string(),
            band_index: 1,
            md_name: "md1".to_string(),
        },
        ReconcileAction::ScrubSelfHealed {
            group: "g".to_string(),
            band_index: 2,
            md_name: "md2".to_string(),
            error_count: 5,
        },
        ReconcileAction::SpeedLimitRestored { speed_kb: 200_000 },
    ]
}

#[test]
fn what_reconcile_did_is_told_sentence_by_sentence() {
    let told: Vec<String> = actions().iter().map(describe_reconcile_action).collect();
    assert_eq!(
        told,
        vec![
            "Group `g` band 0 (md0): removed the old disk `/dev/loop12p1` -- its replacement had finished syncing.",
            "Group `g` band 1 (md1): finished growing the storage onto the new space -- its RAID rebuild had completed.",
            "Group `g` band 2 (md2): a scheduled error check had finished on its own; recorded the result (5 error(s)).",
            "Restored the system's RAID speed limit to 200000 KB/s -- the rebuild or error check that had lowered it has finished.",
        ]
    );
}

#[test]
fn reconcile_claims_to_have_nothing_left_only_when_that_is_so() {
    let idle = ReconcileOutcome { performed: vec![], state: recorded(vec![expand_state_fixture("shr")]) };
    assert_eq!(reconcile_lines(&idle), vec!["Nothing left to finish."]);

    let mut first = expand_state_fixture("shr");
    first.bands = vec![band(0, false), band(1, true)];
    let mut second = expand_state_fixture("shr");
    second.name = "shr2".to_string();
    second.bands = vec![band(0, true)];
    let pending = ReconcileOutcome { performed: vec![], state: recorded(vec![first, second]) };
    assert_eq!(
        reconcile_lines(&pending),
        vec!["Still rebuilding, so the expansion stays unfinished for now: `shr1` band 1, `shr2` band 0."]
    );

    let done = ReconcileOutcome { performed: actions(), state: recorded(vec![]) };
    let told = reconcile_lines(&done);
    assert_eq!(told.len(), 4);
    assert!(!told.contains(&"Nothing left to finish.".to_string()));
}

#[test]
fn reconcile_reports_the_same_facts_as_json() {
    let v = parsed(&reconcile_report_json(&actions(), text("the state")));
    assert_eq!(v["state"], "the state");
    let performed = v["performed"].as_array().unwrap();
    assert_eq!(performed.len(), 4);
    assert_eq!(performed[0]["kind"], "member_removed");
    assert_eq!(performed[0]["group"], "g");
    assert_eq!(performed[0]["band_index"], 0);
    assert_eq!(performed[0]["md_name"], "md0");
    assert_eq!(performed[0]["member_path"], "/dev/loop12p1");
    assert_eq!(performed[1]["kind"], "resize_completed");
    assert_eq!(performed[1]["band_index"], 1);
    assert_eq!(performed[2]["kind"], "scrub_self_healed");
    assert_eq!(performed[2]["error_count"], 5);
    assert_eq!(performed[3]["kind"], "speed_limit_restored");
    assert_eq!(performed[3]["speed_kb"], 200_000);
    assert!(performed[3].get("group").is_none());
}

#[test]
fn reconcile_without_a_group_says_so() {
    assert_eq!(lines(&reconciled(false, &None, Json::Null)), vec!["No storage group found."]);
    assert_eq!(pretty(&reconciled(true, &None, Json::Null))["error"], "no active array");
    let outcome = Some(ReconcileOutcome { performed: vec![], state: recorded(vec![]) });
    assert_eq!(lines(&reconciled(false, &outcome, Json::Null)), vec!["Nothing left to finish."]);
    assert_eq!(pretty(&reconciled(true, &outcome, text("s")))["state"], "s");
}
