//! Installing the background schedule: which left-over unit files go, which
//! units are written and enabled, and what a failure on the way means.
//!
//! The installer holds an agenda. Whoever runs it does the task at its front
//! and hands back how that went. Only one kind of task may fail without
//! stopping the rest: disabling a unit whose file is about to go. Were it
//! otherwise, one broken left-over would keep every later run from arming the
//! timers.

use vstd::prelude::*;
use crate::text;

verus! {

// ---------------------------------------------------------------------------
// Units
// ---------------------------------------------------------------------------

/// A path without what makes no difference at its end: slashes, and `.` as a
/// part of its own.
pub open spec fn bare(path: Seq<char>) -> Seq<char>
    decreases path.len(),
{
    if path.len() > 0 && (path.last() == '/' || text::ends_with(path, "/."@)) {
        bare(path.drop_last())
    } else {
        path
    }
}

/// What stands behind the last slash.
pub open spec fn last_part(path: Seq<char>) -> Seq<char>
    decreases path.len(),
{
    if path.len() == 0 {
        path
    } else if path.last() == '/' {
        Seq::empty()
    } else {
        last_part(path.drop_last()).push(path.last())
    }
}

/// The name of the file that a path leads to; empty where the path ends in no
/// name, but in the root, in `.` or in `..`.
pub open spec fn unit_name(path: Seq<char>) -> Seq<char> {
    let part = last_part(bare(path));
    if part == "."@ || part == ".."@ {
        Seq::empty()
    } else {
        part
    }
}

/// Whether a path is that of a timer unit.
pub open spec fn is_timer(path: Seq<char>) -> bool {
    unit_name(path).len() > 6 && text::ends_with(unit_name(path), ".timer"@)
}

fn bare_path(path: &str) -> (r: &str)
    ensures
        r@ == bare(path@),
{
    let mut to: usize = path.unicode_len();
    assert(path@.subrange(0, to as int) =~= path@);
    while to > 0 && (path.get_char(to - 1) == '/' || text::has_suffix(
        path.substring_char(0, to),
        "/.",
    ))
        invariant
            to <= path@.len(),
            bare(path@) == bare(path@.subrange(0, to as int)),
        decreases to,
    {
        assert(path@.subrange(0, to as int).drop_last() =~= path@.subrange(0, to - 1));
        to = to - 1;
    }
    path.substring_char(0, to)
}

fn part_behind(path: &str) -> (r: &str)
    ensures
        r@ == last_part(path@),
{
    let len: usize = path.unicode_len();
    let mut from: usize = len;
    assert(path@.subrange(0, len as int) =~= path@);
    assert(path@.subrange(len as int, len as int) =~= Seq::empty());
    assert(last_part(path@) =~= last_part(path@) + Seq::<char>::empty());
    while from > 0 && path.get_char(from - 1) != '/'
        invariant
            len == path@.len(),
            from <= len,
            last_part(path@) == last_part(path@.subrange(0, from as int)) + path@.subrange(
                from as int,
                len as int,
            ),
        decreases from,
    {
        proof {
            let head = path@.subrange(0, from as int);
            assert(head.drop_last() =~= path@.subrange(0, from - 1));
            assert(head.last() == path@[from - 1]);
            assert(last_part(head.drop_last()).push(head.last()) + path@.subrange(
                from as int,
                len as int,
            ) =~= last_part(path@.subrange(0, from - 1)) + path@.subrange(from - 1, len as int));
        }
        from = from - 1;
    }
    proof {
        let head = path@.subrange(0, from as int);
        assert(last_part(head) =~= Seq::empty()) by {
            if from > 0 {
                assert(head.last() == path@[from - 1]);
            }
        }
        assert(Seq::<char>::empty() + path@.subrange(from as int, len as int) =~= path@.subrange(
            from as int,
            len as int,
        ));
    }
    path.substring_char(from, len)
}

/// The name of the file that a path leads to; empty where the path ends in no
/// name, but in the root, in `.` or in `..`.
pub fn name_of(path: &str) -> (r: &str)
    ensures
        r@ == unit_name(path@),
{
    let part = part_behind(bare_path(path));
    if text::same(part, ".") || text::same(part, "..") {
        let none = part.substring_char(0, 0);
        assert(none@ =~= Seq::empty());
        none
    } else {
        part
    }
}

/// Whether a path is that of a timer unit.
pub fn names_timer(path: &str) -> (r: bool)
    ensures
        r == is_timer(path@),
{
    let name = name_of(path);
    name.unicode_len() > 6 && text::has_suffix(name, ".timer")
}

/// The paths of timer units among `paths`, in their order.
pub open spec fn timers(paths: Seq<Seq<char>>) -> Seq<Seq<char>>
    decreases paths.len(),
{
    if paths.len() == 0 {
        Seq::empty()
    } else if is_timer(paths.last()) {
        timers(paths.drop_last()).push(paths.last())
    } else {
        timers(paths.drop_last())
    }
}

// ---------------------------------------------------------------------------
// Tasks and replies
// ---------------------------------------------------------------------------

/// Something to be done on the host.
#[derive(Debug, PartialEq, Eq)]
pub enum Task {
    /// Look for unit files of groups that are gone.
    ScanOrphans,
    /// Disable and stop the unit with this path.
    Disable(String),
    /// Remove the unit file at this path.
    Remove(String),
    /// Write the units that check each group for errors.
    WriteScrubUnits,
    /// Write the units that adapt the speed of syncs.
    WriteThrottleUnit,
    /// Write the units that look for trouble.
    WriteHealthUnit,
    /// Write the units that take snapshots.
    WriteSnapshotUnit,
    /// Look whether an earlier run left its snapshot timer.
    LookForSnapshotUnit,
    /// Have the service manager read its units anew.
    Reload,
    /// Enable and start the unit with this path.
    Enable(String),
}

/// The model of a [`Task`].
pub enum TaskView {
    ScanOrphans,
    Disable(Seq<char>),
    Remove(Seq<char>),
    WriteScrubUnits,
    WriteThrottleUnit,
    WriteHealthUnit,
    WriteSnapshotUnit,
    LookForSnapshotUnit,
    Reload,
    Enable(Seq<char>),
}

impl View for Task {
    type V = TaskView;

    open spec fn view(&self) -> TaskView {
        match *self {
            Task::ScanOrphans => TaskView::ScanOrphans,
            Task::Disable(p) => TaskView::Disable(p@),
            Task::Remove(p) => TaskView::Remove(p@),
            Task::WriteScrubUnits => TaskView::WriteScrubUnits,
            Task::WriteThrottleUnit => TaskView::WriteThrottleUnit,
            Task::WriteHealthUnit => TaskView::WriteHealthUnit,
            Task::WriteSnapshotUnit => TaskView::WriteSnapshotUnit,
            Task::LookForSnapshotUnit => TaskView::LookForSnapshotUnit,
            Task::Reload => TaskView::Reload,
            Task::Enable(p) => TaskView::Enable(p@),
        }
    }
}

/// The models of a list of tasks.
pub open spec fn task_views(list: Seq<Task>) -> Seq<TaskView> {
    list.map_values(|t: Task| t@)
}

/// How a task went.
#[derive(Debug, PartialEq, Eq)]
pub enum Reply {
    Done,
    /// There was no such file to remove.
    Absent,
    /// Which unit files of groups that are gone were found: those that carry
    /// the ownership marker, and those that only look like it.
    Orphans { owned: Vec<String>, lookalikes: Vec<String> },
    /// Which unit files were written.
    Units(Vec<String>),
    /// Whether the unit is there and carries the ownership marker.
    Owned(bool),
    /// It failed; why.
    Failed(String),
}

/// The model of a [`Reply`].
pub enum ReplyView {
    Done,
    Absent,
    Orphans { owned: Seq<Seq<char>>, lookalikes: Seq<Seq<char>> },
    Units(Seq<Seq<char>>),
    Owned(bool),
    Failed(Seq<char>),
}

impl View for Reply {
    type V = ReplyView;

    open spec fn view(&self) -> ReplyView {
        match *self {
            Reply::Done => ReplyView::Done,
            Reply::Absent => ReplyView::Absent,
            Reply::Orphans { owned, lookalikes } => ReplyView::Orphans {
                owned: text::views(owned@),
                lookalikes: text::views(lookalikes@),
            },
            Reply::Units(list) => ReplyView::Units(text::views(list@)),
            Reply::Owned(b) => ReplyView::Owned(b),
            Reply::Failed(why) => ReplyView::Failed(why@),
        }
    }
}

/// Whether a task writes units.
pub open spec fn writes_units(t: TaskView) -> bool {
    t is WriteScrubUnits || t is WriteThrottleUnit || t is WriteHealthUnit || t is WriteSnapshotUnit
}

/// Whether a task can go that way.
pub open spec fn fits(t: TaskView, r: ReplyView) -> bool {
    match r {
        ReplyView::Done => t is Disable || t is Remove || t is Reload || t is Enable,
        ReplyView::Absent => t is Remove,
        ReplyView::Orphans { owned, lookalikes } => t is ScanOrphans,
        ReplyView::Units(_) => writes_units(t),
        ReplyView::Owned(_) => t is LookForSnapshotUnit,
        ReplyView::Failed(_) => !(t is LookForSnapshotUnit),
    }
}

// ---------------------------------------------------------------------------
// The model of an installation
// ---------------------------------------------------------------------------

/// How far an installation is.
#[verifier::ext_equal]
pub struct InstallView {
    /// What is left to be done, the next task first.
    pub agenda: Seq<TaskView>,
    /// The directory that the units go to.
    pub unit_dir: Seq<char>,
    /// The unit files that were written, in the order in which they were.
    pub units: Seq<Seq<char>>,
    /// The unit files that were removed.
    pub removed: Seq<Seq<char>>,
    /// The unit files that only look like left-overs, until they are told.
    pub lookalikes: Seq<Seq<char>>,
    /// What the operator is warned of.
    pub warnings: Seq<Seq<char>>,
}

/// The warning about a unit that could not be disabled.
pub open spec fn disable_warning_text(name: Seq<char>, why: Seq<char>) -> Seq<char> {
    "warning: `systemctl disable --now "@ + name + "` failed ("@ + why
        + ") -- removing the unit file anyway so it stops being reported as "@
        + "orphaned on the next run"@
}

fn disable_warning(name: &str, why: &str) -> (out: String)
    ensures
        out@ == disable_warning_text(name@, why@),
{
    let mut out = "warning: `systemctl disable --now ".to_owned();
    out.append(name);
    out.append("` failed (");
    out.append(why);
    out.append(") -- removing the unit file anyway so it stops being reported as ");
    out.append("orphaned on the next run");
    out
}

/// The warning about a unit file that only looks like a left-over.
pub open spec fn lookalike_warning_text(path: Seq<char>) -> Seq<char> {
    "warning: `"@ + path
        + "` looks like a shr-rs error-check unit for a group that no longer "@
        + "exists, but carries no shr-rs ownership marker -- left untouched (looks "@
        + "hand-written)"@
}

fn lookalike_warning(path: &str) -> (out: String)
    ensures
        out@ == lookalike_warning_text(path@),
{
    let mut out = "warning: `".to_owned();
    out.append(path);
    out.append("` looks like a shr-rs error-check unit for a group that no longer ");
    out.append("exists, but carries no shr-rs ownership marker -- left untouched (looks ");
    out.append("hand-written)");
    out
}

/// The warnings about unit files that only look like left-overs.
pub open spec fn lookalike_warnings(paths: Seq<Seq<char>>) -> Seq<Seq<char>> {
    paths.map_values(|p: Seq<char>| lookalike_warning_text(p))
}

/// The tasks that rid the host of one unit file: a timer is disabled first; a
/// service never was enabled.
pub open spec fn prune_one(path: Seq<char>) -> Seq<TaskView> {
    if is_timer(path) {
        seq![TaskView::Disable(path), TaskView::Remove(path)]
    } else {
        seq![TaskView::Remove(path)]
    }
}

/// The tasks that rid the host of unit files, one after the other.
pub open spec fn prune_all(paths: Seq<Seq<char>>) -> Seq<TaskView>
    decreases paths.len(),
{
    if paths.len() == 0 {
        Seq::empty()
    } else {
        prune_all(paths.drop_last()) + prune_one(paths.last())
    }
}

/// The tasks that enable the timers among the units.
pub open spec fn enable_all(units: Seq<Seq<char>>) -> Seq<TaskView> {
    timers(units).map_values(|p: Seq<char>| TaskView::Enable(p))
}

/// The path of the file `name` in the directory `dir`.
pub open spec fn within(dir: Seq<char>, name: Seq<char>) -> Seq<char> {
    if dir.len() == 0 || dir.last() == '/' {
        dir + name
    } else {
        dir + "/"@ + name
    }
}

fn path_within(dir: &str, name: &str) -> (out: String)
    ensures
        out@ == within(dir@, name@),
{
    let mut out = dir.to_owned();
    let len: usize = dir.unicode_len();
    if len > 0 && dir.get_char(len - 1) != '/' {
        out.append("/");
    }
    out.append(name);
    out
}

/// The path of the snapshot timer, and of its service.
pub open spec fn snapshot_paths(unit_dir: Seq<char>) -> Seq<Seq<char>> {
    seq![
        within(unit_dir, "shr-rs-snapshot-auto.timer"@),
        within(unit_dir, "shr-rs-snapshot-auto.service"@),
    ]
}

/// The first agenda.
pub open spec fn opening(snapshots_enabled: bool) -> Seq<TaskView> {
    seq![
        TaskView::ScanOrphans,
        TaskView::WriteScrubUnits,
        TaskView::WriteThrottleUnit,
        TaskView::WriteHealthUnit,
        if snapshots_enabled {
            TaskView::WriteSnapshotUnit
        } else {
            TaskView::LookForSnapshotUnit
        },
        TaskView::Reload,
    ]
}

/// How an installation begins.
pub open spec fn begun(unit_dir: Seq<char>, snapshots_enabled: bool) -> InstallView {
    InstallView {
        agenda: opening(snapshots_enabled),
        unit_dir,
        units: Seq::empty(),
        removed: Seq::empty(),
        lookalikes: Seq::empty(),
        warnings: Seq::empty(),
    }
}

/// What was being done when a task failed.
pub open spec fn context(t: TaskView) -> Seq<char> {
    match t {
        TaskView::ScanOrphans => "scanning for orphaned scrub timer units"@,
        TaskView::Disable(p) => "systemctl disable --now "@ + unit_name(p),
        TaskView::Remove(p) => "removing "@ + p,
        TaskView::WriteScrubUnits => "writing scrub timer units"@,
        TaskView::WriteThrottleUnit => "writing throttle timer unit"@,
        TaskView::WriteHealthUnit => "writing health check timer unit"@,
        TaskView::WriteSnapshotUnit => "writing snapshot automation timer unit"@,
        TaskView::LookForSnapshotUnit => ""@,
        TaskView::Reload => "systemctl daemon-reload"@,
        TaskView::Enable(p) => "systemctl enable --now "@ + unit_name(p),
    }
}

/// How an installation goes on, by how the task at the front went; or the
/// sentence with which it fails.
pub open spec fn step(s: InstallView, r: ReplyView) -> Result<InstallView, Seq<char>> {
    let t = s.agenda[0];
    let rest = s.agenda.subrange(1, s.agenda.len() as int);
    // What looks like a left-over is told when the left-overs are dealt with.
    let told = if t is WriteScrubUnits {
        s.warnings + lookalike_warnings(s.lookalikes)
    } else {
        s.warnings
    };
    match r {
        ReplyView::Failed(why) => match t {
            TaskView::Disable(p) => Ok(
                InstallView {
                    agenda: rest,
                    warnings: s.warnings.push(disable_warning_text(unit_name(p), why)),
                    ..s
                },
            ),
            _ => Err(context(t) + ": "@ + why),
        },
        ReplyView::Done => match t {
            TaskView::Remove(p) => Ok(InstallView { agenda: rest, removed: s.removed.push(p), ..s }),
            TaskView::Reload => Ok(InstallView { agenda: enable_all(s.units) + rest, ..s }),
            _ => Ok(InstallView { agenda: rest, ..s }),
        },
        ReplyView::Absent => Ok(InstallView { agenda: rest, ..s }),
        ReplyView::Orphans { owned, lookalikes } => Ok(
            InstallView { agenda: prune_all(owned) + rest, lookalikes, ..s },
        ),
        ReplyView::Units(list) => Ok(
            InstallView { agenda: rest, units: s.units + list, warnings: told, ..s },
        ),
        ReplyView::Owned(there) => Ok(
            InstallView {
                agenda: if there {
                    prune_all(snapshot_paths(s.unit_dir)) + rest
                } else {
                    rest
                },
                ..s
            },
        ),
    }
}

/// The speed profile that scheduled error checks run under: the one that was
/// given for the installation or, where none was, the policy's.
pub fn scrub_profile(given: Option<&str>, policy: Option<&str>) -> (r: Option<String>)
    ensures
        match (r, if given is Some { given } else { policy }) {
            (Some(p), Some(q)) => p@ == q@,
            (None, None) => true,
            _ => false,
        },
{
    match given {
        Some(p) => Some(p.to_owned()),
        None => match policy {
            Some(p) => Some(p.to_owned()),
            None => None,
        },
    }
}

// ---------------------------------------------------------------------------
// Running it
// ---------------------------------------------------------------------------

/// An installation under way.
#[derive(Debug)]
pub struct Installer {
    agenda: Vec<Task>,
    unit_dir: String,
    units: Vec<String>,
    removed: Vec<String>,
    lookalikes: Vec<String>,
    warnings: Vec<String>,
}

impl View for Installer {
    type V = InstallView;

    closed spec fn view(&self) -> InstallView {
        InstallView {
            agenda: task_views(self.agenda@),
            unit_dir: self.unit_dir@,
            units: text::views(self.units@),
            removed: text::views(self.removed@),
            lookalikes: text::views(self.lookalikes@),
            warnings: text::views(self.warnings@),
        }
    }
}

fn plan_task(list: &mut Vec<Task>, t: Task)
    ensures
        task_views(final(list)@) == task_views(old(list)@).push(t@),
{
    let ghost start = list@;
    list.push(t);
    assert(task_views(list@) =~= task_views(start).push(t@));
}

fn join_tasks(list: &mut Vec<Task>, more: &mut Vec<Task>)
    ensures
        task_views(final(list)@) == task_views(old(list)@) + task_views(old(more)@),
{
    let ghost start = (list@, more@);
    list.append(more);
    assert(list@ =~= start.0 + start.1);
    assert(task_views(list@) =~= task_views(start.0) + task_views(start.1));
}

fn prune_tasks(paths: &Vec<String>) -> (r: Vec<Task>)
    ensures
        task_views(r@) == prune_all(text::views(paths@)),
{
    let ghost all = text::views(paths@);
    let mut r: Vec<Task> = Vec::new();
    let mut i: usize = 0;
    assert(all.take(0) =~= Seq::empty());
    assert(task_views(r@) =~= Seq::empty());
    while i < paths.len()
        invariant
            i <= paths.len(),
            all == text::views(paths@),
            task_views(r@) == prune_all(all.take(i as int)),
        decreases paths.len() - i,
    {
        let ghost so_far = task_views(r@);
        let path = &paths[i];
        proof {
            let more = all.take(i + 1);
            assert(more.drop_last() =~= all.take(i as int));
            assert(more.last() == path@);
        }
        if names_timer(path.as_str()) {
            plan_task(&mut r, Task::Disable(path.clone()));
        }
        plan_task(&mut r, Task::Remove(path.clone()));
        assert(task_views(r@) =~= so_far + prune_one(path@));
        i = i + 1;
    }
    assert(all.take(i as int) =~= all);
    r
}

fn enable_tasks(units: &Vec<String>) -> (r: Vec<Task>)
    ensures
        task_views(r@) == enable_all(text::views(units@)),
{
    let ghost all = text::views(units@);
    let mut r: Vec<Task> = Vec::new();
    let mut i: usize = 0;
    assert(all.take(0) =~= Seq::empty());
    assert(task_views(r@) =~= enable_all(Seq::empty()));
    while i < units.len()
        invariant
            i <= units.len(),
            all == text::views(units@),
            task_views(r@) == enable_all(all.take(i as int)),
        decreases units.len() - i,
    {
        let path = &units[i];
        let ghost more = all.take(i + 1);
        proof {
            assert(more.drop_last() =~= all.take(i as int));
            assert(more.last() == path@);
        }
        if names_timer(path.as_str()) {
            plan_task(&mut r, Task::Enable(path.clone()));
            assert(enable_all(more) =~= enable_all(more.drop_last()).push(
                TaskView::Enable(path@),
            ));
        } else {
            assert(enable_all(more) =~= enable_all(more.drop_last()));
        }
        i = i + 1;
    }
    assert(all.take(i as int) =~= all);
    r
}

fn task_context(t: &Task) -> (out: String)
    ensures
        out@ == context(t@),
{
    match t {
        Task::ScanOrphans => "scanning for orphaned scrub timer units".to_owned(),
        Task::Disable(p) => {
            let mut out = "systemctl disable --now ".to_owned();
            out.append(name_of(p.as_str()));
            out
        },
        Task::Remove(p) => {
            let mut out = "removing ".to_owned();
            out.append(p.as_str());
            out
        },
        Task::WriteScrubUnits => "writing scrub timer units".to_owned(),
        Task::WriteThrottleUnit => "writing throttle timer unit".to_owned(),
        Task::WriteHealthUnit => "writing health check timer unit".to_owned(),
        Task::WriteSnapshotUnit => "writing snapshot automation timer unit".to_owned(),
        Task::LookForSnapshotUnit => "".to_owned(),
        Task::Reload => "systemctl daemon-reload".to_owned(),
        Task::Enable(p) => {
            let mut out = "systemctl enable --now ".to_owned();
            out.append(name_of(p.as_str()));
            out
        },
    }
}

fn snapshot_units(unit_dir: &String) -> (r: Vec<String>)
    ensures
        text::views(r@) == snapshot_paths(unit_dir@),
{
    let timer = path_within(unit_dir.as_str(), "shr-rs-snapshot-auto.timer");
    let service = path_within(unit_dir.as_str(), "shr-rs-snapshot-auto.service");
    let mut r: Vec<String> = Vec::new();
    assert(text::views(r@) =~= Seq::empty());
    text::add_line(&mut r, timer);
    text::add_line(&mut r, service);
    assert(text::views(r@) =~= snapshot_paths(unit_dir@));
    r
}

fn add_lookalikes(warnings: &mut Vec<String>, paths: &Vec<String>)
    ensures
        text::views(final(warnings)@) == text::views(old(warnings)@) + lookalike_warnings(
            text::views(paths@),
        ),
{
    let ghost start = text::views(warnings@);
    let ghost all = lookalike_warnings(text::views(paths@));
    let mut i: usize = 0;
    assert(start + all.take(0) =~= start);
    while i < paths.len()
        invariant
            i <= paths.len(),
            all == lookalike_warnings(text::views(paths@)),
            text::views(warnings@) == start + all.take(i as int),
        decreases paths.len() - i,
    {
        text::add_line(warnings, lookalike_warning(paths[i].as_str()));
        assert(start + all.take(i + 1) =~= (start + all.take(i as int)).push(all[i as int]));
        i = i + 1;
    }
    assert(all.take(i as int) =~= all);
}

impl Installer {
    /// An installation that has not begun. Snapshots are taken by a timer only
    /// where the policy says so; otherwise the timer of an earlier run goes.
    pub fn new(unit_dir: &str, snapshots_enabled: bool) -> (r: Self)
        ensures
            r@ == begun(unit_dir@, snapshots_enabled),
    {
        let mut agenda: Vec<Task> = Vec::new();
        assert(task_views(agenda@) =~= Seq::empty());
        plan_task(&mut agenda, Task::ScanOrphans);
        plan_task(&mut agenda, Task::WriteScrubUnits);
        plan_task(&mut agenda, Task::WriteThrottleUnit);
        plan_task(&mut agenda, Task::WriteHealthUnit);
        if snapshots_enabled {
            plan_task(&mut agenda, Task::WriteSnapshotUnit);
        } else {
            plan_task(&mut agenda, Task::LookForSnapshotUnit);
        }
        plan_task(&mut agenda, Task::Reload);
        let r = Installer {
            agenda,
            unit_dir: unit_dir.to_owned(),
            units: Vec::new(),
            removed: Vec::new(),
            lookalikes: Vec::new(),
            warnings: Vec::new(),
        };
        assert(r@ =~= begun(unit_dir@, snapshots_enabled));
        r
    }

    /// What is to be done next; nothing where the installation is done.
    pub fn task(&self) -> (r: Option<&Task>)
        ensures
            match r {
                Some(t) => self@.agenda.len() > 0 && t@ == self@.agenda[0],
                None => self@.agenda.len() == 0,
            },
    {
        if self.agenda.len() == 0 {
            None
        } else {
            Some(&self.agenda[0])
        }
    }

    /// Whether there is a task, and it can go that way.
    pub fn accepts(&self, reply: &Reply) -> (r: bool)
        ensures
            r == (self@.agenda.len() > 0 && fits(self@.agenda[0], reply@)),
    {
        match self.task() {
            Some(task) => match reply {
                Reply::Done => matches!(
                    task,
                    Task::Disable(_) | Task::Remove(_) | Task::Reload | Task::Enable(_)
                ),
                Reply::Absent => matches!(task, Task::Remove(_)),
                Reply::Orphans { owned: _, lookalikes: _ } => matches!(task, Task::ScanOrphans),
                Reply::Units(_) => matches!(
                    task,
                    Task::WriteScrubUnits
                    | Task::WriteThrottleUnit
                    | Task::WriteHealthUnit
                    | Task::WriteSnapshotUnit
                ),
                Reply::Owned(_) => matches!(task, Task::LookForSnapshotUnit),
                Reply::Failed(_) => !matches!(task, Task::LookForSnapshotUnit),
            },
            None => false,
        }
    }

    /// Goes on, by how the task at the front went.
    pub fn reply(self, reply: Reply) -> (r: Result<Installer, String>)
        requires
            self@.agenda.len() > 0,
            fits(self@.agenda[0], reply@),
        ensures
            match (r, step(self@, reply@)) {
                (Ok(i), Ok(v)) => i@ == v,
                (Err(m), Err(why)) => m@ == why,
                _ => false,
            },
    {
        let ghost before = self@;
        let ghost wanted = step(self@, reply@);
        let mut s = self;
        let ghost all = s.agenda@;
        let t = s.agenda.remove(0);
        proof {
            assert(t@ == before.agenda[0]);
            assert(task_views(s.agenda@) =~= before.agenda.subrange(
                1,
                before.agenda.len() as int,
            ));
        }
        match reply {
            Reply::Failed(why) => match t {
                Task::Disable(p) => {
                    let w = disable_warning(name_of(p.as_str()), why.as_str());
                    text::add_line(&mut s.warnings, w);
                    assert(s@ =~= wanted->Ok_0);
                    Ok(s)
                },
                other => {
                    let mut m = task_context(&other);
                    m.append(": ");
                    m.append(why.as_str());
                    Err(m)
                },
            },
            Reply::Done => match t {
                Task::Remove(p) => {
                    text::add_line(&mut s.removed, p);
                    assert(s@ =~= wanted->Ok_0);
                    Ok(s)
                },
                Task::Reload => {
                    let mut agenda = enable_tasks(&s.units);
                    join_tasks(&mut agenda, &mut s.agenda);
                    s.agenda = agenda;
                    assert(s@ =~= wanted->Ok_0);
                    Ok(s)
                },
                _ => {
                    assert(s@ =~= wanted->Ok_0);
                    Ok(s)
                },
            },
            Reply::Absent => {
                assert(s@ =~= wanted->Ok_0);
                Ok(s)
            },
            Reply::Orphans { owned, lookalikes } => {
                let mut agenda = prune_tasks(&owned);
                join_tasks(&mut agenda, &mut s.agenda);
                s.agenda = agenda;
                s.lookalikes = lookalikes;
                assert(s@ =~= wanted->Ok_0);
                Ok(s)
            },
            Reply::Units(list) => {
                let mut list = list;
                if let Task::WriteScrubUnits = t {
                    add_lookalikes(&mut s.warnings, &s.lookalikes);
                }
                text::add_lines(&mut s.units, &mut list);
                assert(s@ =~= wanted->Ok_0);
                Ok(s)
            },
            Reply::Owned(there) => {
                if there {
                    let mut agenda = prune_tasks(&snapshot_units(&s.unit_dir));
                    join_tasks(&mut agenda, &mut s.agenda);
                    s.agenda = agenda;
                }
                assert(s@ =~= wanted->Ok_0);
                Ok(s)
            },
        }
    }

    /// What came out: how many timers were installed, how many left-over unit
    /// files were removed, and what to warn the operator of.
    pub fn outcome(self) -> (r: (usize, usize, Vec<String>))
        ensures
            r.0 == timers(self@.units).len(),
            r.1 == self@.removed.len(),
            text::views(r.2@) == self@.warnings,
    {
        let ghost all = text::views(self.units@);
        let mut count: usize = 0;
        let mut i: usize = 0;
        assert(all.take(0) =~= Seq::empty());
        while i < self.units.len()
            invariant
                i <= self.units.len(),
                all == text::views(self.units@),
                count == timers(all.take(i as int)).len(),
                count <= i,
            decreases self.units.len() - i,
        {
            proof {
                let more = all.take(i + 1);
                assert(more.drop_last() =~= all.take(i as int));
                assert(more.last() == self.units@[i as int]@);
            }
            if names_timer(self.units[i].as_str()) {
                count = count + 1;
            }
            i = i + 1;
        }
        assert(all.take(i as int) =~= all);
        (count, self.removed.len(), self.warnings)
    }
}

} // verus!
