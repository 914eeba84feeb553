//! The course of every command, told stage by stage: where it leads when all
//! goes well, where it ends when something does not, and what it carries along.

use vstd::prelude::*;
use crate::text;
use crate::workflow;
use crate::workflow::{NextView, Operation, OutcomeView, Session, Stage, StepView};
use crate::workflow_laws;

verus! {

// ---------------------------------------------------------------------------
// What is carried along
// ---------------------------------------------------------------------------

/// Whether what was typed says that the RAID markers are to go.
pub open spec fn says_yes(line: Seq<char>) -> bool {
    text::trimmed(line) == "yes"@ || text::trimmed(line) == "y"@
}

/// Whether what was typed says that the RAID markers are to stay.
pub open spec fn says_no(line: Seq<char>) -> bool {
    text::trimmed(line) == "no"@ || text::trimmed(line) == "n"@
}

/// Whether the operator asked for the RAID markers to be erased: by the flag
/// or, where neither flag was given, by answering yes to the question.
pub open spec fn asked_to_erase(
    s: Session,
    steps: Seq<StepView>,
    outcomes: Seq<OutcomeView>,
) -> bool {
    s.zero || (!s.no_zero && exists|i: int|
        0 <= i < outcomes.len() && steps[i].stage == Stage::DecideMarkers && (
        #[trigger] outcomes[i] matches OutcomeView::Typed(line) && says_yes(line)))
}

/// From the preview to the report, a command to destroy a group has the markers
/// erased exactly when the operator asked for it.
pub proof fn markers_go_exactly_when_asked(
    s: Session,
    steps: Seq<StepView>,
    outcomes: Seq<OutcomeView>,
    i: int,
)
    requires
        workflow_laws::is_run(s, steps, outcomes),
        s.operation == Operation::Destroy,
        0 <= i < steps.len(),
        steps[i].stage != Stage::DecideMarkers,
    ensures
        steps[i].erase <==> asked_to_erase(s, steps, outcomes),
    decreases i,
{
    if i == 0 {
        assert forall|k: int|
            0 <= k < outcomes.len() && steps[k].stage == Stage::DecideMarkers implies !(
        #[trigger] outcomes[k] matches OutcomeView::Typed(line) && says_yes(line)) by {
            lemma_asked_at_the_start_only(s, steps, outcomes, k);
        }
    } else {
        let o = outcomes[i - 1];
        assert(workflow::next(s, steps[i - 1], o) == NextView::Go(steps[i - 1 + 1]));
        if steps[i - 1].stage == Stage::DecideMarkers {
            lemma_asked_at_the_start_only(s, steps, outcomes, i - 1);
            assert forall|k: int|
                0 <= k < outcomes.len() && steps[k].stage == Stage::DecideMarkers implies k == 0 by {
                lemma_asked_at_the_start_only(s, steps, outcomes, k);
            }
            assert(outcomes[0] == o);
        } else {
            markers_go_exactly_when_asked(s, steps, outcomes, i - 1);
        }
    }
}

proof fn lemma_asked_at_the_start_only(
    s: Session,
    steps: Seq<StepView>,
    outcomes: Seq<OutcomeView>,
    k: int,
)
    requires
        workflow_laws::is_run(s, steps, outcomes),
        0 <= k < steps.len(),
        steps[k].stage == Stage::DecideMarkers,
    ensures
        k == 0,
        !s.zero,
        !s.no_zero,
    decreases k,
{
    if k > 0 {
        let o = outcomes[k - 1];
        assert(workflow::next(s, steps[k - 1], o) == NextView::Go(steps[k - 1 + 1]));
    }
}

/// No other command erases RAID markers.
pub proof fn no_other_command_erases_markers(
    s: Session,
    steps: Seq<StepView>,
    outcomes: Seq<OutcomeView>,
    i: int,
)
    requires
        workflow_laws::is_run(s, steps, outcomes),
        s.operation != Operation::Destroy,
        0 <= i < steps.len(),
    ensures
        !steps[i].erase,
        steps[i].stage != Stage::DecideMarkers,
    decreases i,
{
    if i > 0 {
        let o = outcomes[i - 1];
        assert(workflow::next(s, steps[i - 1], o) == NextView::Go(steps[i - 1 + 1]));
        no_other_command_erases_markers(s, steps, outcomes, i - 1);
    }
}

/// Once the name of the group is settled, every later step is about that group.
pub proof fn the_settled_group_is_kept(
    s: Session,
    steps: Seq<StepView>,
    outcomes: Seq<OutcomeView>,
    i: int,
    j: int,
)
    requires
        workflow_laws::is_run(s, steps, outcomes),
        0 <= i < j < steps.len(),
        outcomes[i] is Named,
        forall|k: int| i < k < j ==> !((#[trigger] outcomes[k]) is Named),
    ensures
        steps[j].group == outcomes[i]->Named_0,
    decreases j,
{
    let o = outcomes[j - 1];
    assert(workflow::next(s, steps[j - 1], o) == NextView::Go(steps[j - 1 + 1]));
    if i < j - 1 {
        the_settled_group_is_kept(s, steps, outcomes, i, j - 1);
        if steps[j - 1].stage == Stage::DecideMarkers {
            lemma_asked_at_the_start_only(s, steps, outcomes, j - 1);
        }
    }
}

// ---------------------------------------------------------------------------
// The courses
// ---------------------------------------------------------------------------

/// The stages behind the preview of a command that changes a group.
pub open spec fn behind_the_preview(s: Session) -> Seq<Stage> {
    if s.dry_run {
        seq![Stage::DryRunReport]
    } else if !s.yes && s.can_prompt {
        seq![Stage::Confirm, Stage::Lock, Stage::Execute, Stage::Report]
    } else {
        seq![Stage::Lock, Stage::Execute, Stage::Report]
    }
}

/// The stages of a command that comes to an end, from the first to the last.
pub open spec fn course(s: Session) -> Seq<Stage> {
    match s.operation {
        Operation::Status | Operation::Usage | Operation::DiskList | Operation::DiskHealth => seq![
            Stage::LoadState,
            Stage::Inspect,
            Stage::Report,
        ],
        Operation::Groups => seq![Stage::LoadState, Stage::Report],
        Operation::ScheduleInstall => seq![Stage::LoadState, Stage::Execute, Stage::Report],
        Operation::Plan => seq![Stage::ResolveDisks, Stage::Lay, Stage::Report],
        Operation::CheckDisks => seq![Stage::ResolveDisks, Stage::Preflight, Stage::Report],
        Operation::Create | Operation::Expand => seq![
            Stage::ResolveDisks,
            Stage::Preflight,
            Stage::ListSystemDisks,
            Stage::Preview,
        ] + behind_the_preview(s),
        Operation::Destroy => if !s.zero && !s.no_zero {
            seq![Stage::DecideMarkers, Stage::Preview] + behind_the_preview(s)
        } else {
            seq![Stage::Preview] + behind_the_preview(s)
        },
        Operation::Recompress => if !s.yes && s.can_prompt {
            seq![Stage::LoadState, Stage::Confirm, Stage::Execute, Stage::Report]
        } else {
            seq![Stage::LoadState, Stage::Execute, Stage::Report]
        },
        Operation::ReplaceDisk => seq![
            Stage::ResolveDisks,
            Stage::ListSystemDisks,
            Stage::Lock,
            Stage::Execute,
            Stage::Report,
        ],
        Operation::Reconcile | Operation::ScrubStart | Operation::ThrottleTick
        | Operation::HealthTick => seq![Stage::Lock, Stage::Execute, Stage::Report],
        Operation::ScrubStatus | Operation::ScrubCancel | Operation::SnapshotCreate => seq![
            Stage::Execute,
            Stage::Report,
        ],
        Operation::SnapshotTick => if s.snapshots_enabled {
            seq![Stage::Execute, Stage::Report]
        } else {
            seq![Stage::SkipReport]
        },
        Operation::Watch => seq![
            Stage::Measure,
            Stage::LoadState,
            Stage::Inspect,
            Stage::Report,
            Stage::Sleep,
        ],
        Operation::Daemon => seq![Stage::LoadState, Stage::Report, Stage::Sleep],
    }
}

/// Whether a command is refused before it does anything at all.
pub open spec fn is_refused(s: Session) -> bool {
    match s.operation {
        Operation::Watch => s.json || !s.on_terminal,
        Operation::ReplaceDisk => !s.yes && s.can_prompt,
        Operation::Destroy => (s.zero && s.no_zero) || (!s.zero && !s.no_zero && (s.yes
            || !s.can_prompt)),
        _ => false,
    }
}

/// A command begins with the first stage of its course, about no group yet,
/// unless it is refused.
pub proof fn commands_begin_their_course_or_are_refused(s: Session)
    ensures
        is_refused(s) ==> workflow::first(s) is Fail,
        is_refused(s) && s.operation == Operation::ReplaceDisk ==> workflow::first(s)
            == NextView::Fail(
            "refusing to replace a disk without --yes: re-run with --yes to confirm"@,
        ),
        s.operation == Operation::Destroy && s.zero && s.no_zero ==> workflow::first(s)
            == NextView::Fail("--zero-superblocks and --no-zero-superblocks cannot both be given"@),
        !is_refused(s) ==> (workflow::first(s) matches NextView::Go(step) && step.stage == course(
            s,
        )[0] && step.group == ""@ && (step.erase <==> s.operation == Operation::Destroy && s.zero)),
{
}

/// Whether a stage went well: it was done, with or without a name that it
/// settled, or the question that it asked was answered well.
pub open spec fn went_well(s: Session, step: StepView, o: OutcomeView) -> bool {
    match o {
        OutcomeView::Done | OutcomeView::Named(_) => true,
        OutcomeView::Typed(line) => if step.stage == Stage::Confirm {
            s.yes || !s.can_prompt || typed_name(line) == step.group
        } else {
            says_yes(line) || says_no(line)
        },
        OutcomeView::Blocked => s.operation == Operation::CheckDisks || s.dry_run,
        OutcomeView::Failed(_) => s.operation == Operation::Daemon && step.stage
            == Stage::LoadState,
        OutcomeView::Busy => false,
    }
}

/// What was typed, without the line ends behind it.
pub open spec fn typed_name(line: Seq<char>) -> Seq<char> {
    crate::confirm::without_line_end(line)
}

/// A stage of the course that went well leads to the next one; behind the last
/// stage a command that comes to an end has succeeded, and one that goes on
/// until it is interrupted begins again.
pub proof fn what_goes_well_follows_the_course(
    s: Session,
    step: StepView,
    o: OutcomeView,
    i: int,
)
    requires
        !is_refused(s),
        0 <= i < course(s).len(),
        step.stage == course(s)[i],
        workflow::fits(step.stage, o),
        went_well(s, step, o),
    ensures
        i + 1 < course(s).len() ==> (workflow::next(s, step, o) matches NextView::Go(t) && t.stage
            == course(s)[i + 1]),
        i + 1 == course(s).len() && s.operation != Operation::Watch && s.operation
            != Operation::Daemon ==> workflow::next(s, step, o) == NextView::Finish,
        i + 1 == course(s).len() && (s.operation == Operation::Watch || s.operation
            == Operation::Daemon) ==> (workflow::next(s, step, o) matches NextView::Go(t) && t.stage
            == Stage::LoadState),
{
}

/// A stage that did not go well ends the command with an error: the one that
/// it met, or the one about the lock, the disks, the name or the answer. Only a
/// timer that finds the lock held goes on to tell that it leaves its work.
pub proof fn what_goes_wrong_ends_the_command(s: Session, step: StepView, o: OutcomeView)
    requires
        workflow::fits(step.stage, o),
        !went_well(s, step, o),
        step.stage == Stage::DecideMarkers ==> !s.zero && !s.no_zero && !s.yes && s.can_prompt,
    ensures
        o matches OutcomeView::Failed(why) ==> workflow::next(s, step, o) == NextView::Fail(why),
        o is Busy && s.operation != Operation::ThrottleTick && s.operation != Operation::HealthTick
            && s.operation != Operation::SnapshotTick ==> workflow::next(s, step, o)
            == NextView::Fail(
            "another shr-rs create/expand/reconcile is already running (lock: "@
                + "/var/lib/shr-rs/.shr-rs.lock"@ + ")"@,
        ),
        o is Busy && (s.operation == Operation::ThrottleTick || s.operation == Operation::HealthTick
            || s.operation == Operation::SnapshotTick) ==> (workflow::next(s, step, o) matches
            NextView::Go(t) && t.stage == Stage::SkipReport),
        o is Blocked ==> workflow::next(s, step, o) == NextView::Fail(
            "safety checks failed: these disks are not safe to use"@,
        ),
        o is Typed ==> workflow::next(s, step, o) is Fail,
{
}

/// A run keeps to its course: the steps of a command that comes to an end are
/// the stages of the course in their order, but for a timer that found the lock
/// held and tells so.
pub proof fn runs_keep_to_the_course(
    s: Session,
    steps: Seq<StepView>,
    outcomes: Seq<OutcomeView>,
    i: int,
)
    requires
        workflow_laws::is_run(s, steps, outcomes),
        s.operation != Operation::Watch,
        s.operation != Operation::Daemon,
        0 <= i < steps.len(),
    ensures
        (i < course(s).len() && steps[i].stage == course(s)[i]) || (i == 1 && outcomes[0] is Busy
            && steps[0].stage == Stage::Lock && steps[1].stage == Stage::SkipReport && (s.operation
            == Operation::ThrottleTick || s.operation == Operation::HealthTick)),
        !is_refused(s),
    decreases i,
{
    commands_begin_their_course_or_are_refused(s);
    if i > 0 {
        runs_keep_to_the_course(s, steps, outcomes, i - 1);
        let o = outcomes[i - 1];
        assert(workflow::fits(steps[i - 1].stage, o));
        assert(workflow::next(s, steps[i - 1], o) == NextView::Go(steps[i - 1 + 1]));
        if i - 1 < course(s).len() && steps[i - 1].stage == course(s)[i - 1] {
            if went_well(s, steps[i - 1], o) {
                what_goes_well_follows_the_course(s, steps[i - 1], o, i - 1);
            } else {
                what_goes_wrong_ends_the_command(s, steps[i - 1], o);
            }
        }
    }
}

// ---------------------------------------------------------------------------
// What can be met, and how the engine is set up
// ---------------------------------------------------------------------------

/// A stage can fail whatever it is; a name is settled by reading the state or
/// by the preview, only the safety checks can block, only the lock can be held,
/// and the two questions, and nothing else, are answered by what is typed.
pub proof fn outcomes_belong_to_their_stages(stage: Stage, text: Seq<char>)
    ensures
        workflow::fits(stage, OutcomeView::Failed(text)),
        workflow::fits(stage, OutcomeView::Named(text)) <==> stage == Stage::LoadState || stage
            == Stage::Preview,
        workflow::fits(stage, OutcomeView::Blocked) <==> stage == Stage::Preflight,
        workflow::fits(stage, OutcomeView::Busy) <==> stage == Stage::Lock,
        workflow::fits(stage, OutcomeView::Typed(text)) <==> stage == Stage::Confirm || stage
            == Stage::DecideMarkers,
        workflow::fits(stage, OutcomeView::Done) <==> stage != Stage::Confirm && stage
            != Stage::DecideMarkers,
{
}

/// The commands that write configuration write the files of the host; all of
/// them but the one that finishes what others began stand in for the engine's
/// own question; the long ones tell their progress.
pub proof fn each_command_sets_up_its_engine(op: Operation)
    ensures
        ({
            let e = workflow::setup_of(op);
            let writes = op == Operation::Create || op == Operation::Expand || op
                == Operation::Destroy || op == Operation::Reconcile || op == Operation::ReplaceDisk
                || op == Operation::Recompress;
            let scrubs = op == Operation::ScrubStart || op == Operation::ScrubStatus || op
                == Operation::ScrubCancel;
            &&& e.production <==> writes
            &&& e.confirmed <==> op != Operation::Reconcile
            &&& e.notifies <==> writes || scrubs || op == Operation::HealthTick
            &&& e.progress == workflow::Progress::Streamed <==> op == Operation::Create || op
                == Operation::Expand
            &&& e.progress == workflow::Progress::Collected <==> op == Operation::Reconcile || op
                == Operation::ReplaceDisk
        }),
{
}

} // verus!
