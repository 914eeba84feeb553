//! What holds of every run of every command, whatever happens on the way.

use vstd::prelude::*;
use crate::confirm;
use crate::workflow;
use crate::workflow::{NextView, Operation, OutcomeView, Session, Stage, StepView};

verus! {

/// A run of a command so far: the steps that it took, and how each but the
/// last went.
pub open spec fn is_run(s: Session, steps: Seq<StepView>, outcomes: Seq<OutcomeView>) -> bool {
    &&& steps.len() == outcomes.len() + 1
    &&& workflow::first(s) == NextView::Go(steps[0])
    &&& forall|i: int|
        #![trigger outcomes[i]]
        0 <= i < outcomes.len() ==> workflow::fits(steps[i].stage, outcomes[i]) && workflow::next(
            s,
            steps[i],
            outcomes[i],
        ) == NextView::Go(steps[i + 1])
}

/// The step before the last one, and how it went.
proof fn lemma_last_move(s: Session, steps: Seq<StepView>, outcomes: Seq<OutcomeView>)
    requires
        is_run(s, steps, outcomes),
    ensures
        steps.len() == 1 ==> workflow::first(s) == NextView::Go(steps.last()),
        steps.len() > 1 ==> {
            let n = outcomes.len() - 1;
            &&& workflow::fits(steps[n].stage, outcomes[n])
            &&& workflow::next(s, steps[n], outcomes[n]) == NextView::Go(steps.last())
            &&& is_run(s, steps.drop_last(), outcomes.drop_last())
            &&& steps.drop_last().last() == steps[n]
        },
{
    if steps.len() > 1 {
        let n = outcomes.len() - 1;
        assert(outcomes[n] == outcomes.last());
        let shorter = outcomes.drop_last();
        assert forall|i: int| #![trigger shorter[i]] 0 <= i < shorter.len() implies workflow::fits(
            steps.drop_last()[i].stage,
            shorter[i],
        ) && workflow::next(s, steps.drop_last()[i], shorter[i]) == NextView::Go(
            steps.drop_last()[i + 1],
        ) by {
            assert(shorter[i] == outcomes[i]);
        }
    }
}

/// Whether the name of `group` was typed in the course of a run.
pub open spec fn was_confirmed(
    steps: Seq<StepView>,
    outcomes: Seq<OutcomeView>,
    group: Seq<char>,
) -> bool {
    exists|i: int|
        0 <= i < outcomes.len() && steps[i].stage == Stage::Confirm && (
        #[trigger] outcomes[i] matches OutcomeView::Typed(line) && confirm::without_line_end(line)
            == group)
}

/// Whether a run got the lock on the state.
pub open spec fn was_locked(steps: Seq<StepView>, outcomes: Seq<OutcomeView>) -> bool {
    exists|i: int|
        0 <= i < outcomes.len() && steps[i].stage == Stage::Lock && #[trigger] outcomes[i]
            == OutcomeView::Done
}

/// Whether the disks of a run passed the safety checks.
pub open spec fn was_checked(steps: Seq<StepView>, outcomes: Seq<OutcomeView>) -> bool {
    exists|i: int|
        0 <= i < outcomes.len() && steps[i].stage == Stage::Preflight && #[trigger] outcomes[i]
            == OutcomeView::Done
}

/// Creating, expanding, destroying, reconciling, starting an error check,
/// replacing a disk, adapting the speed of syncs and looking for trouble do
/// their work only once they have the lock on the recorded state.
pub proof fn work_is_done_under_the_lock(
    s: Session,
    steps: Seq<StepView>,
    outcomes: Seq<OutcomeView>,
)
    requires
        is_run(s, steps, outcomes),
        workflow::locks(s.operation),
        steps.last().stage == Stage::Execute,
    ensures
        was_locked(steps, outcomes),
{
    lemma_last_move(s, steps, outcomes);
    let n = outcomes.len() - 1;
    assert(steps[n].stage == Stage::Lock && outcomes[n] == OutcomeView::Done);
}

/// Nothing irreversible is done without consent: where somebody can be asked
/// and has not consented beforehand, a gated command does its work only after
/// the exact name of the group that it works on was typed.
pub proof fn nothing_irreversible_without_the_typed_name(
    s: Session,
    steps: Seq<StepView>,
    outcomes: Seq<OutcomeView>,
)
    requires
        is_run(s, steps, outcomes),
        workflow::is_gated(s.operation),
        workflow::must_ask(s),
        steps.last().stage == Stage::Execute,
    ensures
        was_confirmed(steps, outcomes, steps.last().group),
{
    lemma_last_move(s, steps, outcomes);
    let n = outcomes.len() - 1;
    if s.operation == Operation::Recompress {
        assert(steps[n].stage == Stage::Confirm);
        assert(outcomes[n] matches OutcomeView::Typed(line) && confirm::without_line_end(line)
            == steps[n].group);
    } else {
        assert(steps[n].stage == Stage::Lock);
        lemma_last_move(s, steps.drop_last(), outcomes.drop_last());
        let m = n - 1;
        assert(outcomes.drop_last()[m] == outcomes[m]);
        assert(steps.drop_last()[m] == steps[m]);
        assert(steps[m].stage == Stage::Confirm);
        assert(outcomes[m] matches OutcomeView::Typed(line) && confirm::without_line_end(line)
            == steps[m].group);
    }
}

/// A disk is never replaced without consent where somebody could have been
/// asked for it.
pub proof fn no_disk_is_replaced_unasked(s: Session)
    requires
        s.operation == Operation::ReplaceDisk,
        workflow::must_ask(s),
    ensures
        workflow::first(s) == NextView::Fail(workflow::replace_refused_text()),
{
}

/// A dry run takes no lock, asks for no name and does nothing.
pub proof fn dry_runs_do_nothing(s: Session, steps: Seq<StepView>, outcomes: Seq<OutcomeView>)
    requires
        is_run(s, steps, outcomes),
        workflow::has_dry_run(s.operation),
        s.dry_run,
    ensures
        forall|i: int|
            0 <= i < steps.len() ==> (#[trigger] steps[i]).stage != Stage::Execute && steps[i].stage
                != Stage::Lock && steps[i].stage != Stage::Confirm,
    decreases steps.len(),
{
    lemma_last_move(s, steps, outcomes);
    if steps.len() > 1 {
        dry_runs_do_nothing(s, steps.drop_last(), outcomes.drop_last());
        let n = outcomes.len() - 1;
        assert(steps.drop_last()[n] == steps[n]);
        assert forall|i: int| 0 <= i < steps.len() implies (#[trigger] steps[i]).stage
            != Stage::Execute && steps[i].stage != Stage::Lock && steps[i].stage
            != Stage::Confirm by {
            if i < n + 1 {
                assert(steps.drop_last()[i] == steps[i]);
            }
        }
    }
}

/// A group is created or expanded only on disks that passed the safety checks.
pub proof fn blocked_disks_are_never_written(
    s: Session,
    steps: Seq<StepView>,
    outcomes: Seq<OutcomeView>,
)
    requires
        is_run(s, steps, outcomes),
        s.operation == Operation::Create || s.operation == Operation::Expand,
        steps.last().stage == Stage::Execute,
    ensures
        was_checked(steps, outcomes),
{
    assert(!s.dry_run) by {
        if s.dry_run {
            dry_runs_do_nothing(s, steps, outcomes);
            assert(steps[steps.len() - 1] == steps.last());
        }
    }
    lemma_checked_behind(s, steps, outcomes);
}

/// Every stage behind the safety checks comes after they were passed.
proof fn lemma_checked_behind(s: Session, steps: Seq<StepView>, outcomes: Seq<OutcomeView>)
    requires
        is_run(s, steps, outcomes),
        s.operation == Operation::Create || s.operation == Operation::Expand,
        !s.dry_run,
        steps.last().stage != Stage::ResolveDisks,
        steps.last().stage != Stage::Preflight,
    ensures
        was_checked(steps, outcomes),
    decreases steps.len(),
{
    lemma_last_move(s, steps, outcomes);
    let n = outcomes.len() - 1;
    if steps[n].stage == Stage::Preflight {
        assert(outcomes[n] == OutcomeView::Done);
    } else {
        assert(steps[n].stage != Stage::ResolveDisks);
        lemma_checked_behind(s, steps.drop_last(), outcomes.drop_last());
        let i = choose|i: int|
            0 <= i < outcomes.drop_last().len() && steps.drop_last()[i].stage == Stage::Preflight
                && #[trigger] outcomes.drop_last()[i] == OutcomeView::Done;
        assert(steps.drop_last()[i] == steps[i]);
        assert(outcomes[i] == OutcomeView::Done);
    }
}

/// A timer that finds the lock held leaves its work for the next time and ends
/// well; any other command fails at once, without waiting.
pub proof fn contention_fails_commands_but_not_timers(s: Session, step: StepView)
    requires
        step.stage == Stage::Lock,
    ensures
        workflow::is_tick(s.operation) ==> {
            &&& workflow::next(s, step, OutcomeView::Busy) == workflow::moved(
                step,
                Stage::SkipReport,
            )
            &&& workflow::next(
                s,
                StepView { stage: Stage::SkipReport, ..step },
                OutcomeView::Done,
            ) == NextView::Finish
        },
        !workflow::is_tick(s.operation) ==> workflow::next(s, step, OutcomeView::Busy)
            == NextView::Fail(workflow::busy_text()),
{
}

/// No command takes the lock but those that hold it while they work: not the
/// ones that only read, nor the snapshot timer, which an expansion would
/// otherwise hold up for hours.
pub proof fn no_other_command_takes_the_lock(s: Session, steps: Seq<StepView>, outcomes: Seq<OutcomeView>)
    requires
        is_run(s, steps, outcomes),
        !workflow::locks(s.operation),
    ensures
        forall|i: int| 0 <= i < steps.len() ==> (#[trigger] steps[i]).stage != Stage::Lock,
    decreases steps.len(),
{
    lemma_stays_on_course(s, steps, outcomes);
}

/// The stages that a command without the lock can come through.
spec fn on_course(op: Operation, stage: Stage) -> bool {
    match op {
        Operation::Plan => stage == Stage::ResolveDisks || stage == Stage::Lay || stage
            == Stage::Report,
        Operation::CheckDisks => stage == Stage::ResolveDisks || stage == Stage::Preflight || stage
            == Stage::Report,
        _ => stage == Stage::Measure || stage == Stage::LoadState || stage == Stage::Inspect
            || stage == Stage::Confirm || stage == Stage::Execute || stage == Stage::SkipReport
            || stage == Stage::Report || stage == Stage::Sleep,
    }
}

proof fn lemma_stays_on_course(s: Session, steps: Seq<StepView>, outcomes: Seq<OutcomeView>)
    requires
        is_run(s, steps, outcomes),
        !workflow::locks(s.operation),
    ensures
        forall|i: int| 0 <= i < steps.len() ==> on_course(s.operation, (#[trigger] steps[i]).stage),
        steps.last().stage == Stage::Confirm ==> s.operation == Operation::Recompress,
    decreases steps.len(),
{
    lemma_last_move(s, steps, outcomes);
    if steps.len() > 1 {
        lemma_stays_on_course(s, steps.drop_last(), outcomes.drop_last());
        let n = outcomes.len() - 1;
        assert(steps.drop_last()[n] == steps[n]);
        assert forall|i: int| 0 <= i < steps.len() implies on_course(
            s.operation,
            (#[trigger] steps[i]).stage,
        ) by {
            if i < n + 1 {
                assert(steps.drop_last()[i] == steps[i]);
            }
        }
    }
}

/// How far along a stage is.
spec fn rank(stage: Stage) -> nat {
    match stage {
        Stage::Measure => 0,
        Stage::LoadState => 1,
        Stage::Inspect => 2,
        Stage::ResolveDisks => 3,
        Stage::Lay => 4,
        Stage::Preflight => 5,
        Stage::ListSystemDisks => 6,
        Stage::DecideMarkers => 7,
        Stage::Preview => 8,
        Stage::DryRunReport => 9,
        Stage::Confirm => 10,
        Stage::Lock => 11,
        Stage::Execute => 12,
        Stage::SkipReport => 13,
        Stage::Report => 14,
        Stage::Sleep => 15,
    }
}

/// Every command but the two that go on until they are interrupted comes to an
/// end: it has fewer than sixteen steps.
pub proof fn commands_come_to_an_end(
    s: Session,
    steps: Seq<StepView>,
    outcomes: Seq<OutcomeView>,
)
    requires
        is_run(s, steps, outcomes),
        !workflow::loops(s.operation),
    ensures
        steps.len() < 16,
{
    lemma_ranks_rise(s, steps, outcomes);
}

proof fn lemma_ranks_rise(s: Session, steps: Seq<StepView>, outcomes: Seq<OutcomeView>)
    requires
        is_run(s, steps, outcomes),
        !workflow::loops(s.operation),
    ensures
        steps.len() <= rank(steps.last().stage) + 1,
        steps.last().stage != Stage::Sleep,
    decreases steps.len(),
{
    lemma_last_move(s, steps, outcomes);
    if steps.len() > 1 {
        lemma_ranks_rise(s, steps.drop_last(), outcomes.drop_last());
    }
}

/// Work that writes configuration always goes to the files of the host, and
/// work that can take hours is told while it goes on.
pub proof fn config_writers_write_the_real_files(op: Operation)
    ensures
        workflow::writes_config(op) <==> workflow::setup_of(op).production,
        workflow::writes_config(op) ==> workflow::setup_of(op).notifies,
        workflow::setup_of(op).progress == workflow::Progress::Streamed <==> op
            == Operation::Create || op == Operation::Expand,
{
}

} // verus!
