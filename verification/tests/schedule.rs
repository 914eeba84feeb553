//! Installing the background schedule on a pretended host.

use shr_rs::schedule::{name_of, names_timer, scrub_profile, Installer, Reply, Task};

const DIR: &str = "/units";

/// A host: which unit files it has, which of them carry the ownership marker,
/// and which command fails.
struct Host {
    files: Vec<String>,
    owned: Vec<String>,
    lookalikes: Vec<String>,
    groups: Vec<String>,
    snapshots: bool,
    fail: Option<String>,
    commands: Vec<String>,
}

fn path(name: &str) -> String {
    format!("{DIR}/{name}")
}

impl Host {
    fn new(groups: &[&str], fail: Option<&str>) -> Host {
        Host {
            files: vec![],
            owned: vec![],
            lookalikes: vec![],
            groups: groups.iter().map(|s| s.to_string()).collect(),
            snapshots: false,
            fail: fail.map(|s| s.to_string()),
            commands: vec![],
        }
    }

    fn leave_over(&mut self, names: &[&str]) {
        for n in names {
            self.files.push(path(n));
            self.owned.push(path(n));
        }
    }

    fn has(&self, name: &str) -> bool {
        self.files.contains(&path(name))
    }

    fn ran(&self, command: &str) -> bool {
        self.commands.iter().any(|c| c == command)
    }

    fn systemctl(&mut self, args: &str) -> Reply {
        let command = format!("systemctl {args}");
        self.commands.push(command.clone());
        match &self.fail {
            Some(trigger) if command.contains(trigger.as_str()) => {
                Reply::Failed("exit code 5: Unit file has no installation config".to_string())
            }
            _ => Reply::Done,
        }
    }

    fn write(&mut self, names: &[String]) -> Reply {
        let paths: Vec<String> = names.iter().map(|n| path(n)).collect();
        for p in &paths {
            if !self.files.contains(p) {
                self.files.push(p.clone());
            }
        }
        Reply::Units(paths)
    }

    fn perform(&mut self, task: &Task) -> Reply {
        match task {
            Task::ScanOrphans => Reply::Orphans {
                owned: self
                    .owned
                    .iter()
                    .filter(|p| p.contains("shr-rs-scrub-"))
                    .cloned()
                    .collect(),
                lookalikes: self.lookalikes.clone(),
            },
            Task::Disable(p) => self.systemctl(&format!("disable --now {}", name_of(p))),
            Task::Remove(p) => {
                let before = self.files.len();
                self.files.retain(|f| f != p);
                if self.files.len() < before {
                    Reply::Done
                } else {
                    Reply::Absent
                }
            }
            Task::WriteScrubUnits => {
                let names: Vec<String> = self
                    .groups
                    .iter()
                    .flat_map(|g| {
                        vec![format!("shr-rs-scrub-{g}.service"), format!("shr-rs-scrub-{g}.timer")]
                    })
                    .collect();
                self.write(&names)
            }
            Task::WriteThrottleUnit => self.write(&[
                "shr-rs-throttle-tick.service".to_string(),
                "shr-rs-throttle-tick.timer".to_string(),
            ]),
            Task::WriteHealthUnit => self.write(&[
                "shr-rs-health-check.service".to_string(),
                "shr-rs-health-check.timer".to_string(),
            ]),
            Task::WriteSnapshotUnit => self.write(&[
                "shr-rs-snapshot-auto.service".to_string(),
                "shr-rs-snapshot-auto.timer".to_string(),
            ]),
            Task::LookForSnapshotUnit => {
                Reply::Owned(self.owned.contains(&path("shr-rs-snapshot-auto.timer")))
            }
            Task::Reload => self.systemctl("daemon-reload"),
            Task::Enable(p) => self.systemctl(&format!("enable --now {}", name_of(p))),
        }
    }

    fn install(&mut self) -> Result<(usize, usize, Vec<String>), String> {
        let mut installer = Installer::new(DIR, self.snapshots);
        loop {
            let reply = match installer.task() {
                Some(task) => self.perform(task),
                None => return Ok(installer.outcome()),
            };
            installer = installer.reply(reply)?;
        }
    }
}

#[test]
fn install_schedule_units_prunes_orphan_and_still_installs_when_systemctl_disable_fails() {
    let mut host = Host::new(&["shr1"], Some("disable --now shr-rs-scrub-gone.timer"));
    host.leave_over(&["shr-rs-scrub-gone.service", "shr-rs-scrub-gone.timer"]);

    let (installed, pruned, warnings) = host.install().unwrap();

    assert!(!host.has("shr-rs-scrub-gone.service"), "orphaned service must still be deleted");
    assert!(!host.has("shr-rs-scrub-gone.timer"), "orphaned timer must still be deleted");
    assert_eq!(pruned, 2, "both orphan files (service+timer) counted as pruned");
    assert!(
        warnings
            .iter()
            .any(|w| w.contains("shr-rs-scrub-gone.timer") && w.contains("disable")),
        "a failed disable must be reported by name: {warnings:?}"
    );
    assert!(
        host.has("shr-rs-scrub-shr1.service") && host.has("shr-rs-scrub-shr1.timer"),
        "this run's own unit must still be written"
    );
    assert_eq!(installed, 3, "this run's timers must all still be counted as installed");
    assert!(host.ran("systemctl disable --now shr-rs-scrub-gone.timer"));
    assert!(host.ran("systemctl daemon-reload"));
    assert!(host.ran("systemctl enable --now shr-rs-scrub-shr1.timer"));
    assert!(host.ran("systemctl enable --now shr-rs-throttle-tick.timer"));
    assert!(host.ran("systemctl enable --now shr-rs-health-check.timer"));
    assert_eq!(
        warnings,
        vec![
            "warning: `systemctl disable --now shr-rs-scrub-gone.timer` failed (exit code 5: Unit file has no \
             installation config) -- removing the unit file anyway so it stops being reported as orphaned on \
             the next run"
        ]
    );
}

#[test]
fn install_schedule_units_prunes_orphan_normally_when_systemctl_disable_succeeds() {
    let mut host = Host::new(&["shr1"], None);
    host.leave_over(&["shr-rs-scrub-gone.service", "shr-rs-scrub-gone.timer"]);

    let (installed, pruned, warnings) = host.install().unwrap();

    assert!(!host.has("shr-rs-scrub-gone.service") && !host.has("shr-rs-scrub-gone.timer"));
    assert_eq!(pruned, 2);
    assert_eq!(installed, 3);
    assert!(host.has("shr-rs-scrub-shr1.service") && host.has("shr-rs-scrub-shr1.timer"));
    assert!(host.ran("systemctl disable --now shr-rs-scrub-gone.timer"));
    assert!(warnings.is_empty(), "a healthy run must not warn about anything: {warnings:?}");
    // A service is never disabled, only its timer.
    assert!(!host.ran("systemctl disable --now shr-rs-scrub-gone.service"));
}

#[test]
fn install_schedule_units_prunes_disabled_snapshot_timer_even_when_disable_fails() {
    let mut host = Host::new(&["shr1"], Some("disable --now shr-rs-snapshot-auto.timer"));
    host.leave_over(&["shr-rs-snapshot-auto.timer", "shr-rs-snapshot-auto.service"]);

    let (installed, pruned, warnings) = host.install().unwrap();

    assert!(!host.has("shr-rs-snapshot-auto.timer") && !host.has("shr-rs-snapshot-auto.service"));
    assert_eq!(pruned, 2);
    assert_eq!(installed, 3);
    assert!(host.has("shr-rs-scrub-shr1.service") && host.has("shr-rs-scrub-shr1.timer"));
    assert!(
        warnings
            .iter()
            .any(|w| w.contains("shr-rs-snapshot-auto.timer") && w.contains("disable")),
        "a failed disable at the snapshot prune site must also be reported: {warnings:?}"
    );
}

#[test]
fn install_schedule_units_warns_about_an_unowned_lookalike_and_leaves_it_on_disk() {
    let mut host = Host::new(&["shr1"], None);
    host.files.push(path("shr-rs-scrub-handwritten.timer"));
    host.lookalikes.push(path("shr-rs-scrub-handwritten.timer"));

    let (_installed, pruned, warnings) = host.install().unwrap();

    assert!(host.has("shr-rs-scrub-handwritten.timer"), "an unowned lookalike must never be deleted");
    assert_eq!(pruned, 0, "an unowned lookalike must not be counted as pruned");
    assert!(
        warnings
            .iter()
            .any(|w| w.contains("shr-rs-scrub-handwritten.timer") && w.contains("hand-written")),
        "the unowned lookalike must be reported by name: {warnings:?}"
    );
    assert!(!host.ran("systemctl disable --now shr-rs-scrub-handwritten.timer"));
}

#[test]
fn warnings_about_disables_come_before_those_about_lookalikes() {
    let mut host = Host::new(&[], Some("disable --now"));
    host.leave_over(&["shr-rs-scrub-gone.timer"]);
    host.lookalikes.push(path("shr-rs-scrub-mine.timer"));
    let (installed, pruned, warnings) = host.install().unwrap();
    assert_eq!((installed, pruned), (2, 1));
    assert_eq!(warnings.len(), 2);
    assert!(warnings[0].contains("shr-rs-scrub-gone.timer"));
    assert!(warnings[1].contains("/units/shr-rs-scrub-mine.timer"));
}

#[test]
fn snapshots_that_are_enabled_get_their_timer() {
    let mut host = Host::new(&["a", "b"], None);
    host.snapshots = true;
    let (installed, pruned, _) = host.install().unwrap();
    assert_eq!((installed, pruned), (5, 0));
    assert!(host.ran("systemctl enable --now shr-rs-snapshot-auto.timer"));
    assert_eq!(host.commands[0], "systemctl daemon-reload");
}

#[test]
fn any_other_failure_stops_the_installation() {
    let mut host = Host::new(&["a"], Some("daemon-reload"));
    assert_eq!(
        host.install(),
        Err("systemctl daemon-reload: exit code 5: Unit file has no installation config".to_string())
    );
    assert_eq!(host.commands.len(), 1);
    let mut host = Host::new(&["a"], Some("enable --now shr-rs-throttle"));
    let err = host.install().unwrap_err();
    assert!(err.starts_with("systemctl enable --now shr-rs-throttle-tick.timer: "), "{err}");
    let broken = Installer::new(DIR, false).reply(Reply::Failed("denied".to_string())).unwrap_err();
    assert_eq!(broken, "scanning for orphaned scrub timer units: denied");
}

#[test]
fn only_the_extension_makes_a_timer() {
    assert!(names_timer("/units/a.timer"));
    assert!(names_timer("a.b.timer"));
    assert!(!names_timer("/units/a.service"));
    assert!(!names_timer("/units/.timer"));
    assert!(!names_timer("/units.timer/a"));
    assert!(!names_timer("timer"));
    assert_eq!(name_of("/units/a.timer"), "a.timer");
    assert_eq!(name_of("a"), "a");
    for path in ["a/", "a//", "a/.", "a/./", "/units/a/", "x/../a"] {
        assert_eq!(name_of(path), "a", "{path}");
    }
    for path in ["", "/", "//", ".", "./", "./.", "/.", "..", "a/..", "a/../"] {
        assert_eq!(name_of(path), "", "{path}");
    }
    assert!(names_timer("x.timer/"));
    assert!(names_timer("/units/x.timer/."));
    assert!(names_timer("..timer"));
    assert!(!names_timer("x.timer/.."));
}

#[test]
fn names_are_those_of_the_path_library() {
    let paths = [
        "", "/", ".", "..", "a", "a/", "a/.", "a/..", "./a", "/a.timer", "a.timer//", "a.timer/./.",
        ".timer", "..timer", "a..timer", "x/.timer/", "a.timer/b", "a.timer.", "...", "a/...", "/.a",
    ];
    for path in paths {
        let p = std::path::Path::new(path);
        let name = p.file_name().and_then(|n| n.to_str()).unwrap_or_default();
        assert_eq!(name_of(path), name, "{path}");
        let timer = p.extension().and_then(|e| e.to_str()) == Some("timer");
        assert_eq!(names_timer(path), timer, "{path}");
    }
}

#[test]
fn the_snapshot_units_are_looked_for_in_the_unit_directory() {
    for dir in ["/units", "/units/", "", "rel"] {
        let mut installer = Installer::new(dir, false);
        while !matches!(installer.task(), Some(Task::LookForSnapshotUnit)) {
            let reply = match installer.task() {
                Some(Task::ScanOrphans) => Reply::Orphans { owned: vec![], lookalikes: vec![] },
                _ => Reply::Units(vec![]),
            };
            installer = installer.reply(reply).unwrap();
        }
        let installer = installer.reply(Reply::Owned(true)).unwrap();
        let expected = std::path::Path::new(dir).join("shr-rs-snapshot-auto.timer");
        assert_eq!(
            installer.task(),
            Some(&Task::Disable(expected.to_str().unwrap().to_string())),
            "{dir}"
        );
    }
}

#[test]
fn a_profile_that_was_given_wins_over_the_policy() {
    assert_eq!(scrub_profile(Some("max"), Some("background")).as_deref(), Some("max"));
    assert_eq!(scrub_profile(None, Some("background")).as_deref(), Some("background"));
    assert_eq!(scrub_profile(None, None), None);
}

#[test]
fn a_task_accepts_its_own_replies_alone() {
    let installer = Installer::new(DIR, true);
    assert!(installer.accepts(&Reply::Orphans { owned: vec![], lookalikes: vec![] }));
    assert!(installer.accepts(&Reply::Failed("why".to_string())));
    assert!(!installer.accepts(&Reply::Done));
    assert!(!installer.accepts(&Reply::Units(vec![])));
    let orphans = Reply::Orphans { owned: vec![path("shr-rs-scrub-a.service")], lookalikes: vec![] };
    let installer = installer.reply(orphans).unwrap();
    assert!(installer.accepts(&Reply::Absent));
    assert!(installer.accepts(&Reply::Done));
    assert!(!installer.accepts(&Reply::Owned(true)));
}
