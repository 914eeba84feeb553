//! The course of commands, and what they ask before they do anything.

use shr_rs::confirm::{
    confirmation_prompt, markers_prompt, recompress_planned_commands, require_typed_confirmation,
    resolve_zero_superblocks,
};
use shr_rs::inventory::{ArrayState, StateFile, StateFilesystem};
use shr_rs::paths::{FSTAB_PATH, MDADM_CONF_PATH, STATE_PATH, SYSTEMD_UNIT_DIR};
use shr_rs::preflight::{
    accept_disk, clean_disk_name, format_blockers, kernel_name, preflight_failure, render_preflight, Blocker,
    Target, WritePreflight,
};
use shr_rs::status::{
    attach_state_path, show_status, stale_speed_limit_warning, state_load_ctx, watch_allowed,
    watch_frame_meta_from,
};
use shr_rs::render::{render_status, render_status_detail};
use shr_rs::workflow::{
    advance, begin, can_go, conf_paths, engine_setup, Next, Operation, Outcome, Progress, Session, Stage, Step,
};
use shr_rs::{GroupBandStatus, GroupStatus, Health, StatusReport, SyncSummary};

fn session(operation: Operation) -> Session {
    Session {
        operation,
        json: false,
        dry_run: false,
        yes: false,
        can_prompt: false,
        on_terminal: true,
        zero: false,
        no_zero: false,
        snapshots_enabled: false,
    }
}

fn step(next: Next) -> Step {
    match next {
        Next::Go(s) => s,
        other => panic!("expected to go on, got {other:?}"),
    }
}

fn failure(next: Next) -> String {
    match next {
        Next::Fail(why) => why,
        other => panic!("expected a failure, got {other:?}"),
    }
}

/// Runs a command, each stage going as `react` says, and returns the stages
/// that it came through and how it ended.
fn run(s: &Session, react: &dyn Fn(&Step) -> Outcome) -> (Vec<Stage>, Result<(), String>) {
    let mut stages: Vec<Stage> = Vec::new();
    let mut next = begin(s);
    for _ in 0..40 {
        match next {
            Next::Go(at) => {
                stages.push(at.stage);
                let outcome = react(&at);
                next = advance(s, at, outcome);
            }
            Next::Finish => return (stages, Ok(())),
            Next::Fail(why) => return (stages, Err(why)),
        }
    }
    panic!("the command does not end: {stages:?}");
}

/// Everything goes well, and the operator types `typed`.
fn smooth(typed: &'static str) -> impl Fn(&Step) -> Outcome {
    move |at: &Step| match at.stage {
        Stage::Preview | Stage::LoadState => Outcome::Named("shr1".to_string()),
        Stage::Confirm | Stage::DecideMarkers => Outcome::Typed(typed.to_string()),
        _ => Outcome::Done,
    }
}

const ALL: [Operation; 23] = [
    Operation::Status,
    Operation::Watch,
    Operation::Plan,
    Operation::CheckDisks,
    Operation::Create,
    Operation::Expand,
    Operation::Daemon,
    Operation::Reconcile,
    Operation::Destroy,
    Operation::Groups,
    Operation::ScrubStart,
    Operation::ScrubStatus,
    Operation::ScrubCancel,
    Operation::Recompress,
    Operation::SnapshotCreate,
    Operation::Usage,
    Operation::DiskList,
    Operation::DiskHealth,
    Operation::ReplaceDisk,
    Operation::ScheduleInstall,
    Operation::ThrottleTick,
    Operation::HealthTick,
    Operation::SnapshotTick,
];

#[test]
fn production_engine_points_conf_paths_at_the_real_etc_locations() {
    let paths = conf_paths(Operation::Recompress).unwrap();
    assert_eq!(paths.mdadm_conf, MDADM_CONF_PATH);
    assert_eq!(paths.fstab, FSTAB_PATH);
    assert_eq!(paths.unit_dir, SYSTEMD_UNIT_DIR);
    assert_eq!(MDADM_CONF_PATH, "/etc/mdadm.conf");
    assert_eq!(FSTAB_PATH, "/etc/fstab");
    assert_eq!(SYSTEMD_UNIT_DIR, "/etc/systemd/system");
    assert_eq!(conf_paths(Operation::ScrubStart), None);
}

#[test]
fn every_handler_that_writes_managed_configs_builds_its_engine_via_production_engine() {
    let writers = [
        Operation::Create,
        Operation::Expand,
        Operation::Reconcile,
        Operation::Recompress,
        Operation::ReplaceDisk,
        Operation::Destroy,
    ];
    let mut checked = 0;
    for op in ALL {
        assert_eq!(engine_setup(op).production, writers.contains(&op), "{op:?}");
        if engine_setup(op).production {
            checked += 1;
        }
    }
    assert_eq!(checked, writers.len());
}

#[test]
fn every_long_running_handler_wires_a_progress_sink_and_the_multi_hour_ones_stream_it() {
    for op in ALL {
        let expected = match op {
            Operation::Create | Operation::Expand => Progress::Streamed,
            Operation::Reconcile | Operation::ReplaceDisk => Progress::Collected,
            _ => Progress::Silent,
        };
        assert_eq!(engine_setup(op).progress, expected, "{op:?}");
    }
}

#[test]
fn only_reconcile_leaves_the_confirmation_to_the_engine() {
    for op in ALL {
        assert_eq!(engine_setup(op).confirmed, op != Operation::Reconcile, "{op:?}");
    }
    assert!(engine_setup(Operation::ScrubStatus).notifies);
    assert!(engine_setup(Operation::HealthTick).notifies);
    assert!(!engine_setup(Operation::SnapshotCreate).notifies);
    assert!(!engine_setup(Operation::ThrottleTick).notifies);
}

#[test]
fn recompress_handler_is_gated_by_require_typed_confirmation_before_the_real_engine_call() {
    let mut s = session(Operation::Recompress);
    s.can_prompt = true;
    let (stages, end) = run(&s, &smooth("shr1\n"));
    assert_eq!(end, Ok(()));
    let confirm_pos = stages.iter().position(|x| *x == Stage::Confirm).unwrap();
    let engine_pos = stages.iter().position(|x| *x == Stage::Execute).unwrap();
    assert!(confirm_pos < engine_pos);

    let (stages, end) = run(&s, &smooth("other\n"));
    assert!(!stages.contains(&Stage::Execute));
    assert_eq!(
        end,
        Err("recompress of group `shr1` cancelled: confirmation text did not match".to_string())
    );
}

#[test]
fn the_periodic_tick_handlers_take_the_state_lock_and_skip_rather_than_fail() {
    for op in [Operation::ThrottleTick, Operation::HealthTick] {
        let s = session(op);
        let (stages, end) = run(&s, &smooth(""));
        assert_eq!(stages, vec![Stage::Lock, Stage::Execute, Stage::Report]);
        assert_eq!(end, Ok(()));
        let busy = |at: &Step| match at.stage {
            Stage::Lock => Outcome::Busy,
            _ => Outcome::Done,
        };
        let (stages, end) = run(&s, &busy);
        assert_eq!(stages, vec![Stage::Lock, Stage::SkipReport]);
        assert_eq!(end, Ok(()));
    }
}

#[test]
fn the_snapshot_tick_does_not_take_a_write_lock_it_does_not_need() {
    let mut s = session(Operation::SnapshotTick);
    s.snapshots_enabled = true;
    let (stages, end) = run(&s, &smooth(""));
    assert_eq!(stages, vec![Stage::Execute, Stage::Report]);
    assert_eq!(end, Ok(()));
    // Switched off in the policy: nothing is done at all.
    s.snapshots_enabled = false;
    let (stages, end) = run(&s, &smooth(""));
    assert_eq!(stages, vec![Stage::SkipReport]);
    assert_eq!(end, Ok(()));
}

#[test]
fn a_command_that_finds_the_lock_held_fails() {
    for op in [Operation::Create, Operation::Expand, Operation::Reconcile, Operation::ScrubStart] {
        let busy = |at: &Step| match at.stage {
            Stage::Lock => Outcome::Busy,
            Stage::Preview => Outcome::Named("g".to_string()),
            _ => Outcome::Done,
        };
        let (stages, end) = run(&session(op), &busy);
        assert_eq!(stages.last(), Some(&Stage::Lock));
        assert_eq!(
            end,
            Err(
                "another shr-rs create/expand/reconcile is already running (lock: \
                 /var/lib/shr-rs/.shr-rs.lock)"
                    .to_string()
            )
        );
    }
}

#[test]
fn a_dry_run_neither_locks_nor_executes() {
    for op in [Operation::Create, Operation::Expand, Operation::Destroy] {
        for can_prompt in [false, true] {
            let mut s = session(op);
            s.dry_run = true;
            s.can_prompt = can_prompt;
            s.zero = true;
            let (stages, end) = run(&s, &smooth("no\n"));
            assert_eq!(stages.last(), Some(&Stage::DryRunReport));
            assert!(!stages.contains(&Stage::Lock));
            assert!(!stages.contains(&Stage::Execute));
            assert!(!stages.contains(&Stage::Confirm));
            assert_eq!(end, Ok(()));
        }
    }
}

#[test]
fn creating_comes_through_every_check_in_order() {
    let mut s = session(Operation::Create);
    s.can_prompt = true;
    let (stages, end) = run(&s, &smooth("shr1\r\n"));
    assert_eq!(
        stages,
        vec![
            Stage::ResolveDisks,
            Stage::Preflight,
            Stage::ListSystemDisks,
            Stage::Preview,
            Stage::Confirm,
            Stage::Lock,
            Stage::Execute,
            Stage::Report,
        ]
    );
    assert_eq!(end, Ok(()));
    s.yes = true;
    let (stages, _) = run(&s, &smooth(""));
    assert!(!stages.contains(&Stage::Confirm));
    assert!(stages.contains(&Stage::Execute));
}

#[test]
fn blocked_disks_stop_all_but_a_dry_run() {
    let blocked = |at: &Step| match at.stage {
        Stage::Preflight => Outcome::Blocked,
        Stage::Preview => Outcome::Named("g".to_string()),
        _ => Outcome::Done,
    };
    for op in [Operation::Create, Operation::Expand] {
        let mut s = session(op);
        let (stages, end) = run(&s, &blocked);
        assert_eq!(stages.last(), Some(&Stage::Preflight));
        assert_eq!(end, Err("safety checks failed: these disks are not safe to use".to_string()));
        s.dry_run = true;
        assert_eq!(run(&s, &blocked).1, Ok(()));
    }
    // The checks alone always come to their report.
    let (stages, end) = run(&session(Operation::CheckDisks), &blocked);
    assert_eq!(stages, vec![Stage::ResolveDisks, Stage::Preflight, Stage::Report]);
    assert_eq!(end, Ok(()));
    assert_eq!(preflight_failure(true, false), None);
    assert_eq!(preflight_failure(false, true), None);
    assert_eq!(
        preflight_failure(false, false),
        Some("safety checks failed: these disks are not safe to use".to_string())
    );
}

#[test]
fn destroying_asks_about_the_markers_first_and_remembers_the_answer() {
    let mut s = session(Operation::Destroy);
    s.can_prompt = true;
    assert_eq!(step(begin(&s)).stage, Stage::DecideMarkers);
    let at = step(advance(&s, step(begin(&s)), Outcome::Typed("yes\n".to_string())));
    assert_eq!(at.stage, Stage::Preview);
    assert!(at.erase);
    let at = step(advance(&s, step(begin(&s)), Outcome::Typed("n\n".to_string())));
    assert!(!at.erase);
    let why = failure(advance(&s, step(begin(&s)), Outcome::Typed("maybe\n".to_string())));
    assert!(why.contains("got `maybe`"), "{why}");
    let at = step(advance(&s, at, Outcome::Named("shr1".to_string())));
    assert_eq!(at.stage, Stage::Confirm);
    assert_eq!(at.group, "shr1");
    let at = step(advance(&s, at, Outcome::Typed("shr1\n".to_string())));
    assert_eq!(at.stage, Stage::Lock);
    assert!(!at.erase);
    // A script has to decide beforehand.
    s.can_prompt = false;
    assert!(failure(begin(&s)).contains("explicit decision"));
    s.no_zero = true;
    assert_eq!(step(begin(&s)).stage, Stage::Preview);
    s.zero = true;
    assert!(failure(begin(&s)).contains("cannot both be given"));
}

#[test]
fn a_disk_is_not_replaced_without_consent() {
    let mut s = session(Operation::ReplaceDisk);
    s.can_prompt = true;
    assert_eq!(
        failure(begin(&s)),
        "refusing to replace a disk without --yes: re-run with --yes to confirm"
    );
    s.yes = true;
    let (stages, end) = run(&s, &smooth(""));
    assert_eq!(
        stages,
        vec![Stage::ResolveDisks, Stage::ListSystemDisks, Stage::Lock, Stage::Execute, Stage::Report]
    );
    assert_eq!(end, Ok(()));
}

#[test]
fn commands_that_only_read_take_no_lock() {
    let cases = [
        (Operation::Status, vec![Stage::LoadState, Stage::Inspect, Stage::Report]),
        (Operation::Usage, vec![Stage::LoadState, Stage::Inspect, Stage::Report]),
        (Operation::DiskList, vec![Stage::LoadState, Stage::Inspect, Stage::Report]),
        (Operation::DiskHealth, vec![Stage::LoadState, Stage::Inspect, Stage::Report]),
        (Operation::Groups, vec![Stage::LoadState, Stage::Report]),
        (Operation::Plan, vec![Stage::ResolveDisks, Stage::Lay, Stage::Report]),
        (Operation::ScrubStatus, vec![Stage::Execute, Stage::Report]),
        (Operation::ScheduleInstall, vec![Stage::LoadState, Stage::Execute, Stage::Report]),
    ];
    for (op, expected) in cases {
        let (stages, end) = run(&session(op), &smooth(""));
        assert_eq!(stages, expected, "{op:?}");
        assert_eq!(end, Ok(()));
    }
}

#[test]
fn a_failure_on_the_way_ends_a_command_with_its_reason() {
    for op in ALL {
        if op == Operation::Daemon || op == Operation::Watch {
            continue;
        }
        let mut s = session(op);
        s.zero = true;
        s.snapshots_enabled = true;
        let fail = |_: &Step| Outcome::Failed("broken".to_string());
        assert_eq!(run(&s, &fail).1, Err("broken".to_string()), "{op:?}");
    }
}

#[test]
fn the_loops_go_round() {
    let s = session(Operation::Daemon);
    let at = step(begin(&s));
    assert_eq!(at.stage, Stage::LoadState);
    // A state that cannot be read does not end the loop.
    let at = step(advance(&s, at, Outcome::Failed("gone".to_string())));
    assert_eq!(at.stage, Stage::Report);
    let at = step(advance(&s, at, Outcome::Done));
    assert_eq!(at.stage, Stage::Sleep);
    let at = step(advance(&s, at, Outcome::Done));
    assert_eq!(at.stage, Stage::LoadState);

    let s = session(Operation::Watch);
    let at = step(begin(&s));
    assert_eq!(at.stage, Stage::Measure);
    let at = step(advance(&s, at, Outcome::Done));
    assert_eq!(at.stage, Stage::LoadState);
    assert_eq!(failure(advance(&s, at, Outcome::Failed("gone".to_string()))), "gone");
}

#[test]
fn status_watch_with_json_is_rejected_before_touching_the_system() {
    let mut s = session(Operation::Watch);
    s.json = true;
    let err = failure(begin(&s));
    assert!(err.contains("--json"), "{err}");
    assert!(err.contains("--watch"), "{err}");
    assert_eq!(watch_allowed(true, true), Err(err));
}

#[test]
fn status_watch_without_json_rejects_a_non_terminal_stdout_instead_of_looping_forever() {
    let mut s = session(Operation::Watch);
    s.on_terminal = false;
    let err = failure(begin(&s));
    assert!(err.contains("real terminal"), "{err}");
    assert_eq!(watch_allowed(false, true), Ok(()));
}

#[test]
fn watch_frame_meta_reserves_one_row_so_the_frames_trailing_newline_cannot_scroll() {
    let meta = watch_frame_meta_from(100, 24);
    assert_eq!(meta.width, 100);
    assert_eq!(meta.max_height, 23);
}

#[test]
fn watch_frame_meta_never_reports_a_zero_height_even_at_a_one_row_terminal() {
    let meta = watch_frame_meta_from(80, 1);
    assert_eq!(meta.max_height, 1);
    assert_eq!(watch_frame_meta_from(80, 0).max_height, 1);
}

#[test]
fn require_typed_confirmation_auto_approves_with_yes_without_touching_stdin() {
    assert_eq!(confirmation_prompt("shr1", &[], true, "create", true), None);
    require_typed_confirmation("shr1", true, "create", true, "").unwrap();
}

#[test]
fn require_typed_confirmation_auto_approves_when_not_an_interactive_terminal() {
    assert_eq!(confirmation_prompt("shr1", &[], false, "create", false), None);
    require_typed_confirmation("shr1", false, "create", false, "").unwrap();
}

#[test]
fn require_typed_confirmation_rejects_a_mismatched_typed_name_in_an_interactive_terminal() {
    let err =
        require_typed_confirmation("shr1", false, "create", true, "definitely-not-the-group-name\n").unwrap_err();
    assert!(err.contains("cancelled"), "{err}");
}

#[test]
fn require_typed_confirmation_rejects_empty_input_in_an_interactive_terminal() {
    let err = require_typed_confirmation("shr1", false, "create", true, "\n").unwrap_err();
    assert!(err.contains("cancelled"), "{err}");
}

#[test]
fn require_typed_confirmation_proceeds_when_the_typed_name_matches_exactly() {
    require_typed_confirmation("shr1", false, "create", true, "shr1\n").unwrap();
}

#[test]
fn require_typed_confirmation_treats_a_trailing_crlf_as_insignificant_but_not_inner_whitespace() {
    require_typed_confirmation("shr1", false, "create", true, "shr1\r\n").unwrap();
    let err = require_typed_confirmation("shr1", false, "create", true, " shr1\n").unwrap_err();
    assert!(err.contains("cancelled"), "{err}");
}

#[test]
fn the_operator_sees_the_commands_before_typing_the_name() {
    let commands = vec!["wipefs /dev/sdb".to_string()];
    assert_eq!(
        confirmation_prompt("shr1", &commands, false, "destroy", true).unwrap(),
        "Planned commands:\n  wipefs /dev/sdb\n\
         This will make real, IRREVERSIBLE changes to group `shr1` (destroy) -- it cannot be undone once started.\n\
         Type the group name (`shr1`) to confirm, anything else cancels: "
    );
}

#[test]
fn zero_superblocks_flags_are_taken_at_face_value_without_touching_stdin() {
    assert!(resolve_zero_superblocks(true, false, false, true, "").unwrap());
    assert!(!resolve_zero_superblocks(false, true, false, true, "").unwrap());
    assert_eq!(markers_prompt(true, false, false, true), None);
    assert_eq!(markers_prompt(false, true, false, true), None);
}

#[test]
fn destroy_refuses_to_pick_a_superblock_default_for_a_script() {
    let msg = resolve_zero_superblocks(false, false, true, true, "").unwrap_err();
    assert!(msg.contains("--zero-superblocks"), "{msg}");
    assert!(msg.contains("--no-zero-superblocks"), "{msg}");

    let err = resolve_zero_superblocks(false, false, false, false, "").unwrap_err();
    assert!(err.contains("explicit decision"), "{err}");
    assert_eq!(markers_prompt(false, false, false, false), None);
}

#[test]
fn destroy_asks_the_operator_when_neither_flag_is_given_in_a_terminal() {
    assert_eq!(
        markers_prompt(false, false, false, true).unwrap(),
        "Erase the RAID markers on these disks as well?\n  \
         yes -- the disks are left completely blank\n  \
         no  -- the markers stay, so the old arrangement can still be pieced back together by hand\n\
         Type `yes` or `no`: "
    );
    assert!(resolve_zero_superblocks(false, false, false, true, "yes\n").unwrap());
    assert!(!resolve_zero_superblocks(false, false, false, true, "no\n").unwrap());
    // Short forms, and a trailing CRLF, are accepted the same way.
    assert!(!resolve_zero_superblocks(false, false, false, true, "n\r\n").unwrap());
}

#[test]
fn destroy_cancels_rather_than_guessing_at_an_unrecognized_answer() {
    let err = resolve_zero_superblocks(false, false, false, true, "maybe\n").unwrap_err();
    assert!(err.contains("cancelled"), "{err}");
    let err = resolve_zero_superblocks(false, false, false, true, "\n").unwrap_err();
    assert!(err.contains("cancelled"), "{err}");
}

#[test]
fn destroy_rejects_both_superblock_flags_at_once() {
    assert!(resolve_zero_superblocks(true, true, false, true, "").is_err());
}

fn group(name: &str, mount: &str) -> ArrayState {
    ArrayState {
        name: name.to_string(),
        mode: "shr".to_string(),
        layout_version: 1,
        disks: vec![],
        bands: vec![],
        filesystem: StateFilesystem {
            fs_uuid: None,
            mount_point: mount.to_string(),
            vg_name: "vg".to_string(),
            lv_name: "lv".to_string(),
            compression: "zstd:3".to_string(),
        },
        expansion_in_progress: false,
    }
}

#[test]
fn a_recompression_is_explained_for_the_group_that_is_meant() {
    let state = StateFile {
        groups: vec![group("a", "/mnt/a"), group("b", "/mnt/b")],
        saved_speed_limit_max_kb: None,
    };
    let plan = recompress_planned_commands(Some(&state), Some("b"), "b", "zstd:9");
    assert_eq!(plan.len(), 3);
    assert_eq!(plan[0], "mount -o remount,compress=zstd:9 /mnt/b");
    assert!(plan[1].starts_with("btrfs filesystem defragment -r /mnt/b  (rewrites EVERY file's"), "{}", plan[1]);
    assert_eq!(plan[2], "update `compress=` in /etc/fstab for group `b`");
    let plan = recompress_planned_commands(Some(&state), None, "a", "lzo");
    assert_eq!(plan[0], "mount -o remount,compress=lzo /mnt/a");
    assert!(recompress_planned_commands(Some(&state), Some("c"), "c", "lzo").is_empty());
    assert!(recompress_planned_commands(None, None, "", "lzo").is_empty());
}

fn empty_status_report() -> StatusReport {
    StatusReport {
        schema_version: shr_rs::report::SCHEMA_VERSION,
        health: Health::Unknown,
        disks: vec![],
        arrays: vec![],
        groups: vec![],
        state_path: None,
    }
}

#[test]
fn attach_state_path_stamps_the_real_cli_constant_not_a_placeholder() {
    let report = attach_state_path(empty_status_report());
    assert_eq!(report.state_path.as_deref(), Some(STATE_PATH));
    assert_eq!(STATE_PATH, "/var/lib/shr-rs/state.toml");
    assert_eq!(state_load_ctx(), "reading the shr-rs configuration (/var/lib/shr-rs/state.toml)");
}

#[test]
fn attach_state_path_never_touches_the_rest_of_the_report() {
    let mut report = empty_status_report();
    report.health = Health::Degraded;
    let stamped = attach_state_path(report);
    assert_eq!(stamped.health, Health::Degraded);
}

#[test]
fn a_speed_limit_left_behind_is_warned_of_only_when_nothing_syncs() {
    let mut report = empty_status_report();
    let saved = StateFile { groups: vec![], saved_speed_limit_max_kb: Some(200_000) };
    assert_eq!(
        stale_speed_limit_warning(Some(&saved), &report).unwrap(),
        "warning: shr-rs still holds the host-wide sync speed limit (200000 KB/s was here before), \
         but nothing is syncing -- run `shr-rs reconcile` to put it back"
    );
    let none = StateFile { groups: vec![], saved_speed_limit_max_kb: None };
    assert_eq!(stale_speed_limit_warning(Some(&none), &report), None);
    assert_eq!(stale_speed_limit_warning(None, &report), None);
    report.groups = vec![GroupStatus {
        name: "g".to_string(),
        mode: "shr".to_string(),
        layout_version: 1,
        mount_point: "/mnt".to_string(),
        fs_uuid: None,
        vg_name: "vg".to_string(),
        lv_name: "lv".to_string(),
        compression: "zstd:3".to_string(),
        usable_bytes: 0,
        resize_pending: false,
        disks: vec![],
        bands: vec![GroupBandStatus {
            sync: Some(SyncSummary { action: "check".to_string(), percent: None, finish_min: None }),
            ..Default::default()
        }],
    }];
    assert_eq!(stale_speed_limit_warning(Some(&saved), &report), None);
}

#[test]
fn the_warning_about_a_speed_limit_follows_the_status() {
    let report = empty_status_report();
    let saved = StateFile { groups: vec![], saved_speed_limit_max_kb: Some(7) };
    let warning = stale_speed_limit_warning(Some(&saved), &report).unwrap();
    assert_eq!(
        show_status(false, Some(&saved), &report),
        format!("{}{warning}\n", render_status(&report))
    );
    assert_eq!(
        show_status(true, Some(&saved), &report),
        format!("{}{warning}\n", render_status_detail(&report))
    );
    assert_eq!(show_status(false, None, &report), render_status(&report));
    assert_eq!(show_status(true, None, &report), render_status_detail(&report));
}

fn blocker(text: &str, has_content: bool) -> Blocker {
    Blocker { text: text.to_string(), has_content }
}

#[test]
fn the_safety_checks_are_told_disk_by_disk() {
    let report = WritePreflight {
        ok: false,
        targets: vec![
            Target {
                kernel_name: "sda".to_string(),
                id: Some("ata-A".to_string()),
                system_disk: true,
                has_content: true,
                system_mounts: vec!["/".to_string(), "/boot".to_string()],
            },
            Target {
                kernel_name: "sdb".to_string(),
                id: None,
                system_disk: false,
                has_content: false,
                system_mounts: vec![],
            },
        ],
        blockers: vec![blocker("sda is a system disk", false), blocker("sda has content", true)],
        warnings: vec!["slow".to_string()],
    };
    assert_eq!(
        render_preflight(&report),
        "SHR-RS preflight: BLOCKED\n  sda  id=ata-A  system=true  content=true\n    mounts: /, /boot\n  \
         sdb  id=(no stable id)  system=false  content=false\n  BLOCK: sda is a system disk\n  \
         BLOCK: sda has content\n  WARN:  slow\n  \
         (pass --force-content to reuse a disk with existing content anyway)\n"
    );
    let fine = WritePreflight { ok: true, targets: vec![], blockers: vec![], warnings: vec![] };
    assert_eq!(render_preflight(&fine), "SHR-RS preflight: OK\n");
}

#[test]
fn a_blocked_disk_is_refused_with_all_that_blocks_it() {
    let blockers = vec![blocker("a", false), blocker("b", true)];
    assert_eq!(format_blockers(&blockers), "a; b");
    assert_eq!(accept_disk(&blockers), Err("a; b".to_string()));
    assert_eq!(accept_disk(&[]), Ok(()));
}

#[test]
fn disks_are_named_with_or_without_their_directory() {
    assert_eq!(clean_disk_name("  /dev/disk/by-id/ata-X "), "ata-X");
    assert_eq!(clean_disk_name("sdb"), "sdb");
    assert_eq!(clean_disk_name("/dev/sdb"), "/dev/sdb");
    let disks = vec!["sda".to_string(), "sdb".to_string()];
    let lost: Result<String, String> = Err("no stable id".to_string());
    assert_eq!(kernel_name(Ok("sdc".to_string()), None, &disks), Ok("sdc".to_string()));
    assert_eq!(kernel_name(lost.clone(), Some("/dev/sdb"), &disks), Ok("sdb".to_string()));
    assert_eq!(kernel_name(lost.clone(), Some(" sdb "), &disks), Ok("sdb".to_string()));
    assert_eq!(kernel_name(lost.clone(), Some("/dev/sdz"), &disks), lost.clone());
    assert_eq!(kernel_name(lost.clone(), None, &disks), lost);
}

#[test]
fn a_stage_can_only_go_its_own_ways() {
    assert!(can_go(Stage::Lock, &Outcome::Busy));
    assert!(!can_go(Stage::Execute, &Outcome::Busy));
    assert!(can_go(Stage::Confirm, &Outcome::Typed("g".to_string())));
    assert!(!can_go(Stage::Confirm, &Outcome::Done));
    assert!(!can_go(Stage::DecideMarkers, &Outcome::Done));
    assert!(can_go(Stage::Preview, &Outcome::Named("g".to_string())));
    assert!(!can_go(Stage::Report, &Outcome::Named("g".to_string())));
    assert!(!can_go(Stage::Inspect, &Outcome::Blocked));
    assert!(can_go(Stage::Report, &Outcome::Failed("why".to_string())));
}
