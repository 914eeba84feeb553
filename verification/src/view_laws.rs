//! What is reasoned about is what is there: the model of a value has its fields
//! under their own names, and the model of a list has its items in their places.

use vstd::prelude::*;
use crate::band;
use crate::band::{RedundantBand, RedundantBandRaw};
use crate::disk;
use crate::disk::{Disk, DiskId};
use crate::expansion::{ExpansionPlan, ExpansionStep, LayoutSnapshot, StepView};
use crate::metrics::{DistributionMetrics, Fraction};
use crate::planner::{
    PlanError, PlanFault, PlannerInput, PlannerOutput, PlannerWarning, WarningView,
};
use crate::schedule::{Reply, ReplyView, Task, TaskView};
use crate::table;
use crate::text;
use crate::workflow::{Next, NextView, Outcome, OutcomeView, Step};

verus! {

/// The models of lists have every item in its place.
pub proof fn lists_keep_their_items(
    disks: Seq<Disk>,
    ids: Seq<DiskId>,
    bands: Seq<RedundantBand>,
    table: Seq<(DiskId, u64)>,
    fractions: Seq<(DiskId, Fraction)>,
    strings: Seq<String>,
)
    ensures
        disk::drives(disks).len() == disks.len(),
        forall|i: int|
            0 <= i < disks.len() ==> disk::drives(disks)[i].0 == (#[trigger] disks[i]).id@
                && disk::drives(disks)[i].1 == disks[i].size_bytes,
        disk::ids(ids).len() == ids.len(),
        forall|i: int| 0 <= i < ids.len() ==> disk::ids(ids)[i] == (#[trigger] ids[i])@,
        band::band_views(bands).len() == bands.len(),
        forall|i: int|
            0 <= i < bands.len() ==> band::band_views(bands)[i] == (#[trigger] bands[i])@,
        table::entries(table).len() == table.len(),
        forall|i: int|
            0 <= i < table.len() ==> table::entries(table)[i].0 == (#[trigger] table[i]).0@
                && table::entries(table)[i].1 == table[i].1,
        table::entries(fractions).len() == fractions.len(),
        forall|i: int|
            0 <= i < fractions.len() ==> table::entries(fractions)[i].0 == (
            #[trigger] fractions[i]).0@ && table::entries(fractions)[i].1 == fractions[i].1,
        text::views(strings).len() == strings.len(),
        forall|i: int|
            0 <= i < strings.len() ==> text::views(strings)[i] == (#[trigger] strings[i])@,
{
}

/// The planner is asked about the disks, the mode and the grid of its input.
pub proof fn the_planner_is_asked_what_it_was_given(q: PlannerInput)
    ensures
        q@.drives == disk::drives(q.disks@),
        q@.mode == q.mode,
        q@.band_alignment == q.band_alignment,
        q@.reserved_head == q.reserved_head,
        q@.reserved_tail == q.reserved_tail,
{
}

/// What is said of a plan is said of its own bands, figures and warnings.
pub proof fn a_plan_is_its_bands_and_figures(o: PlannerOutput, m: DistributionMetrics)
    ensures
        o@.bands == band::band_views(o.bands@),
        o@.unusable == table::entries(o.unusable_per_disk@),
        o@.metrics == o.metrics@,
        o@.warnings.len() == o.warnings@.len(),
        forall|i: int|
            0 <= i < o.warnings@.len() ==> o@.warnings[i] == (#[trigger] o.warnings@[i])@,
        m@.utilization == table::entries(m.utilization@),
        m@.waste_ratio == m.waste_ratio,
        m@.total_usable == m.total_usable,
        m@.total_raw == m.total_raw,
        m@.redundancy_overhead == m.redundancy_overhead,
        m@.stranded_bytes == m.stranded_bytes,
{
}

/// What is said of a warning or an error is said of its own figures and texts.
pub proof fn warnings_and_errors_are_what_they_say(w: PlannerWarning, e: PlanError)
    ensures
        w matches PlannerWarning::TooFewForBand { offset, size, members, needed } ==> w@ == (
        WarningView::TooFewForBand { offset, size, members, needed }),
        w matches PlannerWarning::UnusableTail { disk, bytes } ==> w@ == (
        WarningView::UnusableTail { disk: disk@, bytes }),
        e matches PlanError::TooFewDisks { got, min } ==> e@ == (PlanFault::TooFewDisks {
            got,
            min,
        }),
        e is NoRedundantCapacity ==> e@ is NoRedundantCapacity,
        e matches PlanError::InvalidSnapshot(why) ==> e@ == PlanFault::InvalidSnapshot(why@),
        e matches PlanError::UnsafeExpansion(why) ==> e@ == PlanFault::UnsafeExpansion(why@),
        e is LayoutVersionOverflow ==> e@ is LayoutVersionOverflow,
        e matches PlanError::TooManyBands { index } ==> e@ == (PlanFault::TooManyBands { index }),
        e matches PlanError::Band(b) ==> e@ == PlanFault::Band(b),
{
}

/// What is said of a snapshot and of an expansion is said of their own fields.
pub proof fn snapshots_and_expansions_are_their_fields(s: LayoutSnapshot, p: ExpansionPlan)
    ensures
        s@.drives == disk::drives(s.disks@),
        s@.bands == band::band_views(s.bands@),
        s@.mode == s.mode,
        s@.layout_version == s.layout_version,
        s@.band_alignment == s.band_alignment,
        s@.reserved_head == s.reserved_head,
        s@.reserved_tail == s.reserved_tail,
        p@.target_layout_version == p.target_layout_version,
        p@.steps.len() == p.steps@.len(),
        forall|i: int| 0 <= i < p.steps@.len() ==> p@.steps[i] == (#[trigger] p.steps@[i])@,
{
}

/// What is said of a step is said of its own fields.
pub proof fn steps_are_their_fields(s: ExpansionStep, r: RedundantBandRaw)
    ensures
        s matches ExpansionStep::LevelUp { band_index, from, to, add_members } ==> s@ == (
        StepView::LevelUp { band_index, from, to, add_members: disk::ids(add_members@) }),
        s matches ExpansionStep::GrowBand { band_index, add_members } ==> s@ == (
        StepView::GrowBand { band_index, add_members: disk::ids(add_members@) }),
        s matches ExpansionStep::CreateBand { band } ==> s@ == (StepView::CreateBand {
            band: band@,
        }),
        s matches ExpansionStep::MarkUnusable { disk, offset, size, reason } ==> s@ == (
        StepView::MarkUnusable { disk: disk@, offset, size, reason }),
        r@.index == r.band_index,
        r@.offset == r.offset,
        r@.size == r.size,
        r@.members == disk::ids(r.members@),
        r@.level == r.level,
{
}

/// What is said of a command's course is said of its own steps and outcomes.
pub proof fn courses_are_their_steps(o: Outcome, s: Step, n: Next)
    ensures
        o is Done ==> o@ is Done,
        o is Blocked ==> o@ is Blocked,
        o is Busy ==> o@ is Busy,
        o matches Outcome::Named(t) ==> o@ == OutcomeView::Named(t@),
        o matches Outcome::Typed(t) ==> o@ == OutcomeView::Typed(t@),
        o matches Outcome::Failed(t) ==> o@ == OutcomeView::Failed(t@),
        s@.stage == s.stage,
        s@.group == s.group@,
        s@.erase == s.erase,
        n matches Next::Go(t) ==> n@ == NextView::Go(t@),
        n is Finish ==> n@ is Finish,
        n matches Next::Fail(t) ==> n@ == NextView::Fail(t@),
{
}

/// What is said of an installation is said of its own tasks and replies.
pub proof fn installations_are_their_tasks(t: Task, r: Reply)
    ensures
        t is ScanOrphans ==> t@ is ScanOrphans,
        t is WriteScrubUnits ==> t@ is WriteScrubUnits,
        t is WriteThrottleUnit ==> t@ is WriteThrottleUnit,
        t is WriteHealthUnit ==> t@ is WriteHealthUnit,
        t is WriteSnapshotUnit ==> t@ is WriteSnapshotUnit,
        t is LookForSnapshotUnit ==> t@ is LookForSnapshotUnit,
        t is Reload ==> t@ is Reload,
        t matches Task::Disable(p) ==> t@ == TaskView::Disable(p@),
        t matches Task::Remove(p) ==> t@ == TaskView::Remove(p@),
        t matches Task::Enable(p) ==> t@ == TaskView::Enable(p@),
        r is Done ==> r@ is Done,
        r is Absent ==> r@ is Absent,
        r matches Reply::Orphans { owned, lookalikes } ==> r@ == (ReplyView::Orphans {
            owned: text::views(owned@),
            lookalikes: text::views(lookalikes@),
        }),
        r matches Reply::Units(list) ==> r@ == ReplyView::Units(text::views(list@)),
        r matches Reply::Owned(b) ==> r@ == ReplyView::Owned(b),
        r matches Reply::Failed(why) ==> r@ == ReplyView::Failed(why@),
{
}

} // verus!
