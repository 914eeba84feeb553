//! The course of every command, as a machine from stage to stage.
//!
//! The machine decides what is to be done next; whoever runs it does that, and
//! hands back how it went. Reading, writing, asking and waiting all happen
//! outside. What may not happen is stated here once: nothing irreversible
//! without consent, nothing under a dry run, and the work of creating,
//! expanding, destroying, reconciling, starting an error check, replacing a
//! disk, adapting the speed of syncs and looking for trouble only under the
//! lock on the recorded state.

use vstd::prelude::*;
use crate::confirm;
use crate::paths::{FSTAB_PATH, MDADM_CONF_PATH, STATE_LOCK_PATH, SYSTEMD_UNIT_DIR};
use crate::preflight;
use crate::status;

verus! {

// ---------------------------------------------------------------------------
// Commands, stages and outcomes
// ---------------------------------------------------------------------------

/// A command.
#[derive(Debug, Clone, Copy, PartialEq, Eq, Structural)]
pub enum Operation {
    /// Show disks, arrays and groups.
    Status,
    /// Show them, redrawn in place.
    Watch,
    /// Try out a layout.
    Plan,
    /// Run the safety checks alone.
    CheckDisks,
    Create,
    Expand,
    /// Tell the state every few seconds.
    Daemon,
    Reconcile,
    Destroy,
    /// List the groups.
    Groups,
    ScrubStart,
    ScrubStatus,
    ScrubCancel,
    Recompress,
    SnapshotCreate,
    /// Show how full the filesystems are.
    Usage,
    DiskList,
    DiskHealth,
    ReplaceDisk,
    ScheduleInstall,
    /// The timer that adapts the speed of running syncs.
    ThrottleTick,
    /// The timer that looks for trouble.
    HealthTick,
    /// The timer that takes snapshots.
    SnapshotTick,
}

/// One invocation of a command.
#[derive(Debug, Clone, Copy, PartialEq, Eq, Structural)]
pub struct Session {
    pub operation: Operation,
    /// Whether the output is JSON.
    pub json: bool,
    /// Whether only what would be done is to be told.
    pub dry_run: bool,
    /// Whether consent was given on the command line.
    pub yes: bool,
    /// Whether somebody sits at the terminal who can answer.
    pub can_prompt: bool,
    /// Whether the output goes to a terminal.
    pub on_terminal: bool,
    /// Whether the RAID markers are to be erased.
    pub zero: bool,
    /// Whether the RAID markers are to stay.
    pub no_zero: bool,
    /// Whether the policy has snapshots taken by the timer.
    pub snapshots_enabled: bool,
}

/// What is to be done next.
#[derive(Debug, Clone, Copy, PartialEq, Eq, Structural)]
pub enum Stage {
    /// Measure the terminal.
    Measure,
    /// Read the recorded state.
    LoadState,
    /// Observe the host.
    Inspect,
    /// Look up the disks that were named.
    ResolveDisks,
    /// Work out a layout.
    Lay,
    /// Run the safety checks.
    Preflight,
    /// Find the disks that the system itself lives on.
    ListSystemDisks,
    /// Ask about the RAID markers.
    DecideMarkers,
    /// Work out the commands that would run.
    Preview,
    /// Tell what would be done.
    DryRunReport,
    /// Ask for the group's name.
    Confirm,
    /// Take the lock on the state, without waiting for it.
    Lock,
    /// Do it.
    Execute,
    /// Tell that there was nothing to do, or that it was left for later.
    SkipReport,
    /// Tell what was done.
    Report,
    /// Wait.
    Sleep,
}

/// How a stage went.
#[derive(Debug, PartialEq, Eq)]
pub enum Outcome {
    Done,
    /// It went well, and the name of the group that it is about is settled.
    Named(String),
    /// The disks did not pass the safety checks.
    Blocked,
    /// Another command holds the lock.
    Busy,
    /// What the operator typed.
    Typed(String),
    /// It failed; why.
    Failed(String),
}

/// The model of an [`Outcome`].
pub enum OutcomeView {
    Done,
    Named(Seq<char>),
    Blocked,
    Busy,
    Typed(Seq<char>),
    Failed(Seq<char>),
}

impl View for Outcome {
    type V = OutcomeView;

    open spec fn view(&self) -> OutcomeView {
        match *self {
            Outcome::Done => OutcomeView::Done,
            Outcome::Named(s) => OutcomeView::Named(s@),
            Outcome::Blocked => OutcomeView::Blocked,
            Outcome::Busy => OutcomeView::Busy,
            Outcome::Typed(s) => OutcomeView::Typed(s@),
            Outcome::Failed(s) => OutcomeView::Failed(s@),
        }
    }
}

/// Whether a stage can go that way.
pub open spec fn fits(stage: Stage, o: OutcomeView) -> bool {
    match o {
        OutcomeView::Failed(_) => true,
        OutcomeView::Named(_) => stage == Stage::Preview || stage == Stage::LoadState,
        OutcomeView::Blocked => stage == Stage::Preflight,
        OutcomeView::Busy => stage == Stage::Lock,
        OutcomeView::Typed(_) => stage == Stage::Confirm || stage == Stage::DecideMarkers,
        OutcomeView::Done => stage != Stage::Confirm && stage != Stage::DecideMarkers,
    }
}

/// Where a command stands.
#[derive(Debug, PartialEq, Eq)]
pub struct Step {
    pub stage: Stage,
    /// The name of the group that it is about, once that is settled.
    pub group: String,
    /// Whether the RAID markers go too, once that is decided.
    pub erase: bool,
}

/// The model of a [`Step`].
pub struct StepView {
    pub stage: Stage,
    pub group: Seq<char>,
    pub erase: bool,
}

impl View for Step {
    type V = StepView;

    open spec fn view(&self) -> StepView {
        StepView { stage: self.stage, group: self.group@, erase: self.erase }
    }
}

/// How a command goes on.
#[derive(Debug, PartialEq, Eq)]
pub enum Next {
    Go(Step),
    /// It has succeeded.
    Finish,
    /// It has failed; the sentence that tells why.
    Fail(String),
}

/// The model of a [`Next`].
pub enum NextView {
    Go(StepView),
    Finish,
    Fail(Seq<char>),
}

impl View for Next {
    type V = NextView;

    open spec fn view(&self) -> NextView {
        match *self {
            Next::Go(s) => NextView::Go(s@),
            Next::Finish => NextView::Finish,
            Next::Fail(s) => NextView::Fail(s@),
        }
    }
}

// ---------------------------------------------------------------------------
// What kind of command it is
// ---------------------------------------------------------------------------

/// Whether the group's name has to be typed before the command does anything.
pub open spec fn is_gated(op: Operation) -> bool {
    op == Operation::Create || op == Operation::Expand || op == Operation::Destroy || op
        == Operation::Recompress
}

/// Whether a timer runs the command.
pub open spec fn is_tick(op: Operation) -> bool {
    op == Operation::ThrottleTick || op == Operation::HealthTick || op == Operation::SnapshotTick
}

/// Whether the command takes the lock on the state. Recompressing records the
/// new setting without it.
pub open spec fn locks(op: Operation) -> bool {
    op == Operation::Create || op == Operation::Expand || op == Operation::Destroy || op
        == Operation::Reconcile || op == Operation::ScrubStart || op == Operation::ReplaceDisk
        || op == Operation::ThrottleTick || op == Operation::HealthTick
}

/// Whether the command goes on until it is interrupted.
pub open spec fn loops(op: Operation) -> bool {
    op == Operation::Daemon || op == Operation::Watch
}

/// Whether the command has a dry run.
pub open spec fn has_dry_run(op: Operation) -> bool {
    op == Operation::Create || op == Operation::Expand || op == Operation::Destroy
}

/// Whether the operator has to be asked before anything irreversible.
pub open spec fn must_ask(s: Session) -> bool {
    confirm::must_ask(s.yes, s.can_prompt)
}

/// The sentence about a lock that another command holds.
pub open spec fn busy_text() -> Seq<char> {
    "another shr-rs create/expand/reconcile is already running (lock: "@ + STATE_LOCK_PATH@ + ")"@
}

/// The sentence about a disk that would be replaced without consent.
pub open spec fn replace_refused_text() -> Seq<char> {
    "refusing to replace a disk without --yes: re-run with --yes to confirm"@
}

/// The name of a gated command in sentences about it.
pub open spec fn operation_word(op: Operation) -> Seq<char> {
    match op {
        Operation::Create => "create"@,
        Operation::Expand => "expand"@,
        Operation::Destroy => "destroy"@,
        Operation::Recompress => "recompress"@,
        _ => ""@,
    }
}

// ---------------------------------------------------------------------------
// The course
// ---------------------------------------------------------------------------

/// A step without a group.
pub open spec fn at(stage: Stage) -> NextView {
    NextView::Go(StepView { stage, group: ""@, erase: false })
}

/// The same command at another stage.
pub open spec fn moved(step: StepView, stage: Stage) -> NextView {
    NextView::Go(StepView { stage, group: step.group, erase: step.erase })
}

/// On to destroying, once the decision about the markers is there.
pub open spec fn decided(d: confirm::MarkerDecision) -> NextView {
    match d {
        confirm::MarkerDecision::Erase => NextView::Go(
            StepView { stage: Stage::Preview, group: ""@, erase: true },
        ),
        confirm::MarkerDecision::Leave => at(Stage::Preview),
        confirm::MarkerDecision::Contradiction => NextView::Fail(confirm::contradiction_text()),
        confirm::MarkerDecision::Undecided => NextView::Fail(confirm::undecided_text()),
        confirm::MarkerDecision::Unclear(answer) => NextView::Fail(confirm::unclear_text(answer)),
    }
}

/// How a command begins.
pub open spec fn first(s: Session) -> NextView {
    match s.operation {
        Operation::Watch => if s.json {
            NextView::Fail(status::watch_json_text())
        } else if !s.on_terminal {
            NextView::Fail(status::watch_redirected_text())
        } else {
            at(Stage::Measure)
        },
        Operation::Status | Operation::Usage | Operation::DiskList | Operation::DiskHealth
        | Operation::Groups | Operation::ScheduleInstall | Operation::Daemon
        | Operation::Recompress => at(Stage::LoadState),
        Operation::Plan | Operation::CheckDisks | Operation::Create | Operation::Expand =>
            at(Stage::ResolveDisks),
        Operation::ReplaceDisk => if must_ask(s) {
            NextView::Fail(replace_refused_text())
        } else {
            at(Stage::ResolveDisks)
        },
        Operation::Destroy => if !s.zero && !s.no_zero && must_ask(s) {
            at(Stage::DecideMarkers)
        } else {
            decided(confirm::marker_decision(s.zero, s.no_zero, s.yes, s.can_prompt, ""@))
        },
        Operation::Reconcile | Operation::ScrubStart | Operation::ThrottleTick
        | Operation::HealthTick => at(Stage::Lock),
        Operation::ScrubStatus | Operation::ScrubCancel | Operation::SnapshotCreate =>
            at(Stage::Execute),
        Operation::SnapshotTick => if s.snapshots_enabled {
            at(Stage::Execute)
        } else {
            at(Stage::SkipReport)
        },
    }
}

/// The stage behind the confirmation.
pub open spec fn confirmed_stage(op: Operation) -> Stage {
    if op == Operation::Recompress {
        Stage::Execute
    } else {
        Stage::Lock
    }
}

/// On to the confirmation or, where none is needed, past it.
pub open spec fn gate(s: Session, step: StepView) -> NextView {
    if must_ask(s) {
        moved(step, Stage::Confirm)
    } else {
        moved(step, confirmed_stage(s.operation))
    }
}

/// How a command goes on where a stage went well; `step` already has the name
/// that the stage settled.
pub open spec fn after(s: Session, step: StepView) -> NextView {
    match step.stage {
        Stage::Measure => moved(step, Stage::LoadState),
        Stage::LoadState => match s.operation {
            Operation::Groups | Operation::Daemon => moved(step, Stage::Report),
            Operation::ScheduleInstall => moved(step, Stage::Execute),
            Operation::Recompress => gate(s, step),
            _ => moved(step, Stage::Inspect),
        },
        Stage::Inspect | Stage::Lay | Stage::Execute => moved(step, Stage::Report),
        Stage::ResolveDisks => match s.operation {
            Operation::Plan => moved(step, Stage::Lay),
            Operation::ReplaceDisk => moved(step, Stage::ListSystemDisks),
            _ => moved(step, Stage::Preflight),
        },
        Stage::Preflight => if s.operation == Operation::CheckDisks {
            moved(step, Stage::Report)
        } else {
            moved(step, Stage::ListSystemDisks)
        },
        Stage::ListSystemDisks => if s.operation == Operation::ReplaceDisk {
            moved(step, Stage::Lock)
        } else {
            moved(step, Stage::Preview)
        },
        Stage::DecideMarkers => moved(step, Stage::Preview),
        Stage::Preview => if s.dry_run {
            moved(step, Stage::DryRunReport)
        } else {
            gate(s, step)
        },
        Stage::Confirm => moved(step, confirmed_stage(s.operation)),
        Stage::Lock => moved(step, Stage::Execute),
        Stage::Report => if loops(s.operation) {
            moved(step, Stage::Sleep)
        } else {
            NextView::Finish
        },
        Stage::Sleep => moved(step, Stage::LoadState),
        Stage::DryRunReport | Stage::SkipReport => NextView::Finish,
    }
}

/// How a command goes on, by how its stage went.
pub open spec fn next(s: Session, step: StepView, o: OutcomeView) -> NextView {
    match o {
        OutcomeView::Failed(why) => if s.operation == Operation::Daemon && step.stage
            == Stage::LoadState {
            // The loop tells a state that cannot be read as one without groups.
            after(s, step)
        } else {
            NextView::Fail(why)
        },
        OutcomeView::Busy => if is_tick(s.operation) {
            moved(step, Stage::SkipReport)
        } else {
            NextView::Fail(busy_text())
        },
        OutcomeView::Blocked => if s.operation == Operation::CheckDisks || s.dry_run {
            after(s, step)
        } else {
            NextView::Fail(preflight::unsafe_disks_text())
        },
        OutcomeView::Typed(line) => if step.stage == Stage::DecideMarkers {
            decided(confirm::marker_decision(s.zero, s.no_zero, s.yes, s.can_prompt, line))
        } else if !must_ask(s) || confirm::without_line_end(line) == step.group {
            after(s, step)
        } else {
            NextView::Fail(confirm::mismatch_text(step.group, operation_word(s.operation)))
        },
        OutcomeView::Named(name) => after(
            s,
            StepView { stage: step.stage, group: name, erase: step.erase },
        ),
        OutcomeView::Done => after(s, step),
    }
}

// ---------------------------------------------------------------------------
// Running it
// ---------------------------------------------------------------------------

fn start_at(stage: Stage) -> (r: Next)
    ensures
        r@ == at(stage),
{
    Next::Go(Step { stage, group: "".to_owned(), erase: false })
}

fn move_to(step: Step, stage: Stage) -> (r: Next)
    ensures
        r@ == moved(step@, stage),
{
    Next::Go(Step { stage, group: step.group, erase: step.erase })
}

fn decide(s: &Session, line: &str) -> (r: Next)
    ensures
        r@ == decided(
            confirm::marker_decision(s.zero, s.no_zero, s.yes, s.can_prompt, line@),
        ),
{
    match confirm::resolve_zero_superblocks(s.zero, s.no_zero, s.yes, s.can_prompt, line) {
        Ok(erase) => if erase {
            Next::Go(Step { stage: Stage::Preview, group: "".to_owned(), erase: true })
        } else {
            start_at(Stage::Preview)
        },
        Err(why) => Next::Fail(why),
    }
}

/// How a command begins.
pub fn begin(s: &Session) -> (r: Next)
    ensures
        r@ == first(*s),
{
    match s.operation {
        Operation::Watch => match status::watch_allowed(s.json, s.on_terminal) {
            Ok(_) => start_at(Stage::Measure),
            Err(why) => Next::Fail(why),
        },
        Operation::Status | Operation::Usage | Operation::DiskList | Operation::DiskHealth
        | Operation::Groups | Operation::ScheduleInstall | Operation::Daemon
        | Operation::Recompress => start_at(Stage::LoadState),
        Operation::Plan | Operation::CheckDisks | Operation::Create | Operation::Expand =>
            start_at(Stage::ResolveDisks),
        Operation::ReplaceDisk => if !s.yes && s.can_prompt {
            Next::Fail(
                "refusing to replace a disk without --yes: re-run with --yes to confirm".to_owned(),
            )
        } else {
            start_at(Stage::ResolveDisks)
        },
        Operation::Destroy => if !s.zero && !s.no_zero && !s.yes && s.can_prompt {
            start_at(Stage::DecideMarkers)
        } else {
            decide(s, "")
        },
        Operation::Reconcile | Operation::ScrubStart | Operation::ThrottleTick
        | Operation::HealthTick => start_at(Stage::Lock),
        Operation::ScrubStatus | Operation::ScrubCancel | Operation::SnapshotCreate =>
            start_at(Stage::Execute),
        Operation::SnapshotTick => if s.snapshots_enabled {
            start_at(Stage::Execute)
        } else {
            start_at(Stage::SkipReport)
        },
    }
}

fn past_gate(op: Operation) -> (r: Stage)
    ensures
        r == confirmed_stage(op),
{
    match op {
        Operation::Recompress => Stage::Execute,
        _ => Stage::Lock,
    }
}

fn to_gate(s: &Session, step: Step) -> (r: Next)
    ensures
        r@ == gate(*s, step@),
{
    if !s.yes && s.can_prompt {
        move_to(step, Stage::Confirm)
    } else {
        move_to(step, past_gate(s.operation))
    }
}

fn go_on(s: &Session, step: Step) -> (r: Next)
    ensures
        r@ == after(*s, step@),
{
    match step.stage {
        Stage::Measure => move_to(step, Stage::LoadState),
        Stage::LoadState => match s.operation {
            Operation::Groups | Operation::Daemon => move_to(step, Stage::Report),
            Operation::ScheduleInstall => move_to(step, Stage::Execute),
            Operation::Recompress => to_gate(s, step),
            _ => move_to(step, Stage::Inspect),
        },
        Stage::Inspect | Stage::Lay | Stage::Execute => move_to(step, Stage::Report),
        Stage::ResolveDisks => match s.operation {
            Operation::Plan => move_to(step, Stage::Lay),
            Operation::ReplaceDisk => move_to(step, Stage::ListSystemDisks),
            _ => move_to(step, Stage::Preflight),
        },
        Stage::Preflight => match s.operation {
            Operation::CheckDisks => move_to(step, Stage::Report),
            _ => move_to(step, Stage::ListSystemDisks),
        },
        Stage::ListSystemDisks => match s.operation {
            Operation::ReplaceDisk => move_to(step, Stage::Lock),
            _ => move_to(step, Stage::Preview),
        },
        Stage::DecideMarkers => move_to(step, Stage::Preview),
        Stage::Preview => if s.dry_run {
            move_to(step, Stage::DryRunReport)
        } else {
            to_gate(s, step)
        },
        Stage::Confirm => move_to(step, past_gate(s.operation)),
        Stage::Lock => move_to(step, Stage::Execute),
        Stage::Report => match s.operation {
            Operation::Daemon | Operation::Watch => move_to(step, Stage::Sleep),
            _ => Next::Finish,
        },
        Stage::Sleep => move_to(step, Stage::LoadState),
        Stage::DryRunReport | Stage::SkipReport => Next::Finish,
    }
}

/// The name of a gated command in sentences about it.
pub fn word_for(op: Operation) -> (r: &'static str)
    ensures
        r@ == operation_word(op),
{
    match op {
        Operation::Create => "create",
        Operation::Expand => "expand",
        Operation::Destroy => "destroy",
        Operation::Recompress => "recompress",
        _ => "",
    }
}

/// Whether a stage can go that way.
pub fn can_go(stage: Stage, outcome: &Outcome) -> (r: bool)
    ensures
        r == fits(stage, outcome@),
{
    match outcome {
        Outcome::Failed(_) => true,
        Outcome::Named(_) => matches!(stage, Stage::Preview | Stage::LoadState),
        Outcome::Blocked => matches!(stage, Stage::Preflight),
        Outcome::Busy => matches!(stage, Stage::Lock),
        Outcome::Typed(_) => matches!(stage, Stage::Confirm | Stage::DecideMarkers),
        Outcome::Done => !matches!(stage, Stage::Confirm | Stage::DecideMarkers),
    }
}

/// How a command goes on, by how its stage went.
pub fn advance(s: &Session, step: Step, outcome: Outcome) -> (r: Next)
    requires
        fits(step.stage, outcome@),
    ensures
        r@ == next(*s, step@, outcome@),
{
    match outcome {
        Outcome::Failed(why) => match (s.operation, step.stage) {
            (Operation::Daemon, Stage::LoadState) => go_on(s, step),
            _ => Next::Fail(why),
        },
        Outcome::Busy => match s.operation {
            Operation::ThrottleTick | Operation::HealthTick | Operation::SnapshotTick => move_to(
                step,
                Stage::SkipReport,
            ),
            _ => {
                let mut why =
                    "another shr-rs create/expand/reconcile is already running (lock: ".to_owned();
                why.append(STATE_LOCK_PATH);
                why.append(")");
                Next::Fail(why)
            },
        },
        Outcome::Blocked => match s.operation {
            Operation::CheckDisks => go_on(s, step),
            _ => if s.dry_run {
                go_on(s, step)
            } else {
                Next::Fail("safety checks failed: these disks are not safe to use".to_owned())
            },
        },
        Outcome::Typed(line) => match step.stage {
            Stage::DecideMarkers => decide(s, line.as_str()),
            _ => match confirm::require_typed_confirmation(
                step.group.as_str(),
                s.yes,
                word_for(s.operation),
                s.can_prompt,
                line.as_str(),
            ) {
                Ok(_) => go_on(s, step),
                Err(why) => Next::Fail(why),
            },
        },
        Outcome::Named(name) => go_on(
            s,
            Step { stage: step.stage, group: name, erase: step.erase },
        ),
        Outcome::Done => go_on(s, step),
    }
}

// ---------------------------------------------------------------------------
// How the engine is set up
// ---------------------------------------------------------------------------

/// How progress reaches the operator.
#[derive(Debug, Clone, Copy, PartialEq, Eq, Structural)]
pub enum Progress {
    /// Line by line, while the work goes on.
    Streamed,
    /// All at once, when the work has ended.
    Collected,
    Silent,
}

/// How the engine that does a command's work is set up.
#[derive(Debug, Clone, Copy, PartialEq, Eq, Structural)]
pub struct EngineSetup {
    /// Whether it writes the configuration files of the host itself.
    pub production: bool,
    /// Whether the command stands in for the engine's own confirmation.
    pub confirmed: bool,
    /// Whether it sends notifications.
    pub notifies: bool,
    pub progress: Progress,
}

/// Whether the command's work writes configuration files of the host.
pub open spec fn writes_config(op: Operation) -> bool {
    op == Operation::Create || op == Operation::Expand || op == Operation::Reconcile || op
        == Operation::Recompress || op == Operation::ReplaceDisk || op == Operation::Destroy
}

/// How the engine is set up for a command.
pub open spec fn setup_of(op: Operation) -> EngineSetup {
    EngineSetup {
        production: writes_config(op),
        confirmed: op != Operation::Reconcile,
        notifies: writes_config(op) || op == Operation::ScrubStart || op == Operation::ScrubStatus
            || op == Operation::ScrubCancel || op == Operation::HealthTick,
        progress: if op == Operation::Create || op == Operation::Expand {
            Progress::Streamed
        } else if op == Operation::Reconcile || op == Operation::ReplaceDisk {
            Progress::Collected
        } else {
            Progress::Silent
        },
    }
}

/// How the engine is set up for a command: one that writes configuration
/// always writes the files of the host, and one that can run for hours tells
/// its progress while it runs.
pub fn engine_setup(op: Operation) -> (r: EngineSetup)
    ensures
        r == setup_of(op),
{
    let production = match op {
        Operation::Create | Operation::Expand | Operation::Reconcile | Operation::Recompress
        | Operation::ReplaceDisk | Operation::Destroy => true,
        _ => false,
    };
    let notifies = match op {
        Operation::ScrubStart | Operation::ScrubStatus | Operation::ScrubCancel
        | Operation::HealthTick => true,
        _ => production,
    };
    let confirmed = match op {
        Operation::Reconcile => false,
        _ => true,
    };
    let progress = match op {
        Operation::Create | Operation::Expand => Progress::Streamed,
        Operation::Reconcile | Operation::ReplaceDisk => Progress::Collected,
        _ => Progress::Silent,
    };
    EngineSetup { production, confirmed, notifies, progress }
}

/// The configuration files of the host, and the directory of its units.
#[derive(Debug, Clone, Copy, PartialEq, Eq)]
pub struct ConfPaths {
    pub mdadm_conf: &'static str,
    pub fstab: &'static str,
    pub unit_dir: &'static str,
}

/// The configuration that a command's work writes: for every command that
/// writes any, the files of the host itself.
pub fn conf_paths(op: Operation) -> (r: Option<ConfPaths>)
    ensures
        r is Some <==> setup_of(op).production,
        r matches Some(p) ==> p.mdadm_conf@ == MDADM_CONF_PATH@ && p.fstab@ == FSTAB_PATH@
            && p.unit_dir@ == SYSTEMD_UNIT_DIR@,
{
    if engine_setup(op).production {
        Some(
            ConfPaths {
                mdadm_conf: MDADM_CONF_PATH,
                fstab: FSTAB_PATH,
                unit_dir: SYSTEMD_UNIT_DIR,
            },
        )
    } else {
        None
    }
}

} // verus!
