//! Expansion planning.
//!
//! Growing an array must be **safe by construction**: existing bands may only
//! be extended (add members) or promoted to a higher redundancy level, never
//! shrunk, downgraded, re-sliced, or have members removed; new bands may only
//! appear *above* the current top extent. Anything else is refused with a
//! [`PlanError::UnsafeExpansion`] rather than emitted as an impossible plan.
//!
//! The algorithm: validate the current snapshot, recompute the ideal layout for
//! `current + new` disks, then diff **by `band_index`** (not vector position),
//! checking geometry and monotonicity for every existing band.

use vstd::prelude::*;
use crate::band;
use crate::band::{BandView, RedundantBand};
use crate::disk;
use crate::disk::{Disk, DiskId};
use crate::layout_laws;
use crate::metrics;
use crate::planner;
use crate::planner::{plan_initial, InputView, PlanError, PlanFault, PlannerInput, PlannerOutput};
use crate::raid;
use crate::raid::{RaidLevel, RedundancyMode};
use crate::table;
use crate::text;

verus! {

/// Why capacity stays unused.
#[derive(Debug, Clone, Copy, PartialEq, Eq, Structural)]
pub enum UnusableReason {
    /// Members exist but no redundant level applies.
    InsufficientRedundancy,
}

/// One ordered, resumable step of an expansion. Bands are grown one at a time.
#[derive(Debug, PartialEq, Eq)]
pub enum ExpansionStep {
    /// Promote a band to a higher level while adding members (RAID1→5, 5→6).
    LevelUp { band_index: u8, from: RaidLevel, to: RaidLevel, add_members: Vec<DiskId> },
    /// Add members to a band at the same level.
    GrowBand { band_index: u8, add_members: Vec<DiskId> },
    /// Create a brand-new band (a new upper slice became redundant).
    CreateBand { band: RedundantBand },
    /// Record capacity that cannot (yet) be made redundant.
    MarkUnusable { disk: DiskId, offset: u64, size: u64, reason: UnusableReason },
}

/// What an [`ExpansionStep`] says.
#[verifier::ext_equal]
pub enum StepView {
    LevelUp { band_index: u8, from: RaidLevel, to: RaidLevel, add_members: Seq<Seq<char>> },
    GrowBand { band_index: u8, add_members: Seq<Seq<char>> },
    CreateBand { band: BandView },
    MarkUnusable { disk: Seq<char>, offset: u64, size: u64, reason: UnusableReason },
}

impl View for ExpansionStep {
    type V = StepView;

    open spec fn view(&self) -> StepView {
        match *self {
            ExpansionStep::LevelUp { band_index, from, to, add_members } => StepView::LevelUp {
                band_index,
                from,
                to,
                add_members: disk::ids(add_members@),
            },
            ExpansionStep::GrowBand { band_index, add_members } => StepView::GrowBand {
                band_index,
                add_members: disk::ids(add_members@),
            },
            ExpansionStep::CreateBand { band } => StepView::CreateBand { band: band@ },
            ExpansionStep::MarkUnusable { disk, offset, size, reason } => StepView::MarkUnusable {
                disk: disk@,
                offset,
                size,
                reason,
            },
        }
    }
}

/// The views of a list of steps.
pub open spec fn step_views(list: Seq<ExpansionStep>) -> Seq<StepView> {
    list.map_values(|s: ExpansionStep| s@)
}

/// An ordered list of steps and the layout version they lead to.
#[derive(Debug)]
pub struct ExpansionPlan {
    pub steps: Vec<ExpansionStep>,
    pub target_layout_version: u64,
}

/// What an [`ExpansionPlan`] says.
#[verifier::ext_equal]
pub struct ExpansionView {
    pub steps: Seq<StepView>,
    pub target_layout_version: u64,
}

impl View for ExpansionPlan {
    type V = ExpansionView;

    open spec fn view(&self) -> ExpansionView {
        ExpansionView {
            steps: step_views(self.steps@),
            target_layout_version: self.target_layout_version,
        }
    }
}

/// A minimal, pure snapshot of the live layout.
///
/// The alignment/reserve parameters that the layout was planned with are
/// carried here so that expansion recomputes the ideal layout on the *same*
/// grid; otherwise unchanged bands would appear to change geometry and be
/// rejected.
#[derive(Debug)]
pub struct LayoutSnapshot {
    pub disks: Vec<Disk>,
    pub bands: Vec<RedundantBand>,
    pub mode: RedundancyMode,
    pub layout_version: u64,
    pub band_alignment: u64,
    pub reserved_head: u64,
    pub reserved_tail: u64,
}

/// What a [`LayoutSnapshot`] says.
#[verifier::ext_equal]
pub struct SnapshotView {
    pub drives: Seq<(Seq<char>, u64)>,
    pub bands: Seq<BandView>,
    pub mode: RedundancyMode,
    pub layout_version: u64,
    pub band_alignment: u64,
    pub reserved_head: u64,
    pub reserved_tail: u64,
}

impl View for LayoutSnapshot {
    type V = SnapshotView;

    open spec fn view(&self) -> SnapshotView {
        SnapshotView {
            drives: disk::drives(self.disks@),
            bands: band::band_views(self.bands@),
            mode: self.mode,
            layout_version: self.layout_version,
            band_alignment: self.band_alignment,
            reserved_head: self.reserved_head,
            reserved_tail: self.reserved_tail,
        }
    }
}

// ---------------------------------------------------------------------------
// When a snapshot is coherent
// ---------------------------------------------------------------------------

/// The first identifier that occurs for the second time.
pub open spec fn twin(drives: Seq<(Seq<char>, u64)>) -> Option<Seq<char>>
    decreases drives.len(),
{
    if drives.len() == 0 {
        None
    } else {
        let head = drives.drop_last();
        match twin(head) {
            Some(id) => Some(id),
            None => if planner::names(head).contains(drives.last().0) {
                Some(drives.last().0)
            } else {
                None
            },
        }
    }
}

/// Whether one of `bands` has the index `index`.
pub open spec fn has_index(bands: Seq<BandView>, index: u8) -> bool {
    exists|k: int| 0 <= k < bands.len() && (#[trigger] bands[k]).index == index
}

/// The first band index that occurs for the second time.
pub open spec fn twin_index(bands: Seq<BandView>) -> Option<u8>
    decreases bands.len(),
{
    if bands.len() == 0 {
        None
    } else {
        match twin_index(bands.drop_last()) {
            Some(i) => Some(i),
            None => if has_index(bands.drop_last(), bands.last().index) {
                Some(bands.last().index)
            } else {
                None
            },
        }
    }
}

/// By what bands are put in order.
#[derive(Clone, Copy)]
pub enum BandKey {
    Offset,
    Index,
}

/// The sort key of a band.
pub open spec fn key_of(key: BandKey, b: BandView) -> u64 {
    match key {
        BandKey::Offset => b.offset,
        BandKey::Index => b.index as u64,
    }
}

/// `list` with `b` put in its place, after those with the same key.
pub open spec fn ranked_in(list: Seq<BandView>, key: BandKey, b: BandView) -> Seq<BandView>
    decreases list.len(),
{
    if list.len() > 0 && key_of(key, b) < key_of(key, list.last()) {
        ranked_in(list.drop_last(), key, b).push(list.last())
    } else {
        list.push(b)
    }
}

/// `list` by increasing key, equal ones in the order in which they came.
pub open spec fn ranked(list: Seq<BandView>, key: BandKey) -> Seq<BandView>
    decreases list.len(),
{
    if list.len() == 0 {
        Seq::empty()
    } else {
        ranked_in(ranked(list.drop_last(), key), key, list.last())
    }
}

/// The raw size of the disk `id`.
pub open spec fn size_of(drives: Seq<(Seq<char>, u64)>, id: Seq<char>) -> Option<u64>
    decreases drives.len(),
{
    if drives.len() == 0 {
        None
    } else if drives.last().0 == id {
        Some(drives.last().1)
    } else {
        size_of(drives.drop_last(), id)
    }
}

/// What of a disk of `size` bytes lies between the reserves.
pub open spec fn between_reserves(s: SnapshotView, size: u64) -> u64 {
    metrics::less(
        metrics::less(size as nat, s.reserved_head as nat),
        s.reserved_tail as nat,
    ) as u64
}

/// A disk is recorded twice.
pub open spec fn twin_text(id: Seq<char>) -> Seq<char> {
    "duplicate disk id "@ + id
}

/// Two bands have the same index.
pub open spec fn twin_index_text(index: u8) -> Seq<char> {
    "duplicate band_index "@ + text::dec(index as nat)
}

/// A band has too few members for the mode.
pub open spec fn few_members_text(mode: RedundancyMode, b: BandView) -> Seq<char> {
    "band "@ + text::dec(b.index as nat) + " has "@ + text::dec(b.members.len())
        + " members, below the "@ + raid::mode_name(mode) + " minimum "@ + text::dec(
        raid::mode_floor(mode),
    )
}

/// A band has not the level that the mode picks.
pub open spec fn wrong_level_text(mode: RedundancyMode, b: BandView) -> Seq<char> {
    "band "@ + text::dec(b.index as nat) + " level "@ + raid::level_name(b.level) + " violates "@
        + raid::mode_name(mode) + " policy for "@ + text::dec(b.members.len()) + " members"@
}

/// A band does not begin where the one below it ends.
pub open spec fn gap_text(b: BandView, expected: u64) -> Seq<char> {
    "band "@ + text::dec(b.index as nat) + " offset "@ + text::dec(b.offset as nat)
        + " is not contiguous (expected "@ + text::dec(expected as nat) + ")"@
}

/// A member of a band is not recorded.
pub open spec fn unlisted_text(b: BandView, id: Seq<char>) -> Seq<char> {
    "band "@ + text::dec(b.index as nat) + " member "@ + id + " is not in the disk list"@
}

/// A member is too small for the extent of its band.
pub open spec fn too_small_text(s: SnapshotView, b: BandView, id: Seq<char>, size: u64) -> Seq<
    char,
> {
    "disk "@ + id + " (size "@ + text::dec(size as nat) + ", usable "@ + text::dec(
        between_reserves(s, size) as nat,
    ) + " after "@ + text::dec(s.reserved_head as nat) + " reserved_head + "@ + text::dec(
        s.reserved_tail as nat,
    ) + " reserved_tail) is too small for band "@ + text::dec(b.index as nat) + " extent "@
        + text::dec(b.end() as nat)
}

/// What is wrong with the first `n` members of `b`.
pub open spec fn member_fault(s: SnapshotView, b: BandView, n: nat) -> Option<Seq<char>>
    decreases n,
{
    if n == 0 {
        None
    } else {
        match member_fault(s, b, (n - 1) as nat) {
            Some(f) => Some(f),
            None => {
                let id = b.members[n - 1];
                match size_of(s.drives, id) {
                    None => Some(unlisted_text(b, id)),
                    Some(size) => if between_reserves(s, size) < b.end() {
                        Some(too_small_text(s, b, id, size))
                    } else {
                        None
                    },
                }
            },
        }
    }
}

/// What is wrong with a band that should start at `expected`.
pub open spec fn band_fault(s: SnapshotView, b: BandView, expected: u64) -> Option<Seq<char>> {
    if b.members.len() < raid::mode_floor(s.mode) {
        Some(few_members_text(s.mode, b))
    } else if raid::mode_level(s.mode, b.members.len()) != Some(b.level) {
        Some(wrong_level_text(s.mode, b))
    } else if b.offset != expected {
        Some(gap_text(b, expected))
    } else {
        member_fault(s, b, b.members.len())
    }
}

/// What is wrong with the first `n` of `sorted`, which should tile the disks
/// from the start.
pub open spec fn extent_fault(s: SnapshotView, sorted: Seq<BandView>, n: nat) -> Option<Seq<char>>
    decreases n,
{
    if n == 0 {
        None
    } else {
        match extent_fault(s, sorted, (n - 1) as nat) {
            Some(f) => Some(f),
            None => band_fault(
                s,
                sorted[n - 1],
                if n == 1 {
                    0
                } else {
                    sorted[n - 2].end()
                },
            ),
        }
    }
}

/// What is wrong with a snapshot: a disk listed twice, no band at all, a band
/// index used twice, or, from the lowest band up, a band that breaks the
/// mode, leaves a gap, or has a member that is unknown or too small.
pub open spec fn snapshot_fault(s: SnapshotView) -> Option<Seq<char>> {
    match twin(s.drives) {
        Some(id) => Some(twin_text(id)),
        None => if s.bands.len() == 0 {
            Some("layout snapshot has no bands"@)
        } else {
            match twin_index(s.bands) {
                Some(i) => Some(twin_index_text(i)),
                None => extent_fault(s, ranked(s.bands, BandKey::Offset), s.bands.len()),
            }
        },
    }
}

// ---------------------------------------------------------------------------
// The steps from a layout to the ideal one
// ---------------------------------------------------------------------------

/// A disk to be added is there already, or is added twice.
pub open spec fn new_twin_text(id: Seq<char>) -> Seq<char> {
    "new disk id "@ + id + " is duplicated or already in the array"@
}

/// The target layout lacks a band.
pub open spec fn vanish_text(b: BandView) -> Seq<char> {
    "band "@ + text::dec(b.index as nat) + " would disappear after replanning"@
}

/// The target layout slices a band otherwise.
pub open spec fn reslice_text(b: BandView, t: BandView) -> Seq<char> {
    "band "@ + text::dec(b.index as nat) + " geometry would change ("@ + text::dec(b.offset as nat)
        + "+"@ + text::dec(b.size as nat) + " -> "@ + text::dec(t.offset as nat) + "+"@ + text::dec(
        t.size as nat,
    ) + "); re-slicing existing bands is not allowed"@
}

/// The target layout lowers the level of a band.
pub open spec fn downgrade_text(b: BandView, t: BandView) -> Seq<char> {
    "band "@ + text::dec(b.index as nat) + " would downgrade "@ + raid::level_name(b.level)
        + " -> "@ + raid::level_name(t.level)
}

/// The target layout drops a member of a band.
pub open spec fn lose_text(b: BandView, id: Seq<char>) -> Seq<char> {
    "band "@ + text::dec(b.index as nat) + " would lose member "@ + id
}

/// A new band would not sit above all others.
pub open spec fn overlap_text(b: BandView, top: u64) -> Seq<char> {
    "new band "@ + text::dec(b.index as nat) + " at offset "@ + text::dec(b.offset as nat)
        + " would overlap existing extent (top "@ + text::dec(top as nat) + ")"@
}

/// The first of `members` that is not among `others`.
pub open spec fn first_missing(members: Seq<Seq<char>>, others: Seq<Seq<char>>) -> Option<Seq<char>>
    decreases members.len(),
{
    if members.len() == 0 {
        None
    } else {
        match first_missing(members.drop_last(), others) {
            Some(m) => Some(m),
            None => if others.contains(members.last()) {
                None
            } else {
                Some(members.last())
            },
        }
    }
}

/// Those of `wanted` that are not among `present`.
pub open spec fn added(present: Seq<Seq<char>>, wanted: Seq<Seq<char>>) -> Seq<Seq<char>> {
    wanted.filter(|m: Seq<char>| !present.contains(m))
}

/// The step that turns the band `b` into the band of the same index in
/// `ideal`, if one is needed, or why that is unsafe.
pub open spec fn change(b: BandView, ideal: Seq<BandView>) -> Result<Option<StepView>, Seq<char>> {
    if b.index >= ideal.len() {
        Err(vanish_text(b))
    } else {
        let t = ideal[b.index as int];
        if t.offset != b.offset || t.size != b.size {
            Err(reslice_text(b, t))
        } else if raid::level_rank(t.level) < raid::level_rank(b.level) {
            Err(downgrade_text(b, t))
        } else {
            match first_missing(b.members, t.members) {
                Some(m) => Err(lose_text(b, m)),
                None => {
                    let add_members = added(b.members, t.members);
                    if t.level != b.level {
                        Ok(
                            Some(
                                StepView::LevelUp {
                                    band_index: b.index,
                                    from: b.level,
                                    to: t.level,
                                    add_members,
                                },
                            ),
                        )
                    } else if add_members.len() > 0 {
                        Ok(Some(StepView::GrowBand { band_index: b.index, add_members }))
                    } else {
                        Ok(None)
                    }
                },
            }
        }
    }
}

/// The steps for the first `n` of the current bands.
pub open spec fn changes(sorted: Seq<BandView>, ideal: Seq<BandView>, n: nat) -> Result<
    Seq<StepView>,
    Seq<char>,
>
    decreases n,
{
    if n == 0 {
        Ok(Seq::empty())
    } else {
        match changes(sorted, ideal, (n - 1) as nat) {
            Err(f) => Err(f),
            Ok(steps) => match change(sorted[n - 1], ideal) {
                Err(f) => Err(f),
                Ok(None) => Ok(steps),
                Ok(Some(step)) => Ok(steps.push(step)),
            },
        }
    }
}

/// The end of the highest of `bands`.
pub open spec fn highest_end(bands: Seq<BandView>) -> u64
    decreases bands.len(),
{
    if bands.len() == 0 {
        0
    } else {
        let below = highest_end(bands.drop_last());
        if bands.last().end() > below {
            bands.last().end()
        } else {
            below
        }
    }
}

/// The steps for those of the first `n` ideal bands that do not exist yet.
pub open spec fn creations(bands: Seq<BandView>, ideal: Seq<BandView>, n: nat) -> Result<
    Seq<StepView>,
    Seq<char>,
>
    decreases n,
{
    if n == 0 {
        Ok(Seq::empty())
    } else {
        match creations(bands, ideal, (n - 1) as nat) {
            Err(f) => Err(f),
            Ok(steps) => {
                let t = ideal[n - 1];
                if has_index(bands, t.index) {
                    Ok(steps)
                } else if t.offset < highest_end(bands) {
                    Err(overlap_text(t, highest_end(bands)))
                } else {
                    Ok(steps.push(StepView::CreateBand { band: t }))
                }
            },
        }
    }
}

/// The sizes of `bands`.
pub open spec fn heights(bands: Seq<BandView>) -> Seq<nat> {
    bands.map_values(|b: BandView| b.size as nat)
}

/// The sizes of `bands` added up.
pub open spec fn stacked(bands: Seq<BandView>) -> nat {
    table::total(heights(bands))
}

/// A step for each entry of a table of unused capacity above `top`.
pub open spec fn marks(unusable: Seq<(Seq<char>, u64)>, top: u64) -> Seq<StepView> {
    unusable.map_values(
        |e: (Seq<char>, u64)|
            StepView::MarkUnusable {
                disk: e.0,
                offset: top,
                size: e.1,
                reason: UnusableReason::InsufficientRedundancy,
            },
    )
}

/// Whether one of `steps` changes the layout.
pub open spec fn structural(steps: Seq<StepView>) -> bool {
    exists|i: int| 0 <= i < steps.len() && !((#[trigger] steps[i]) is MarkUnusable)
}

/// The question that the initial planner is asked about the old and the new
/// disks together, on the grid of the current layout.
pub open spec fn replanned(s: SnapshotView, new: Seq<(Seq<char>, u64)>) -> InputView {
    InputView {
        drives: s.drives + new,
        mode: s.mode,
        band_alignment: s.band_alignment,
        reserved_head: s.reserved_head,
        reserved_tail: s.reserved_tail,
    }
}

/// The plan that `steps` make up.
pub open spec fn versioned(s: SnapshotView, steps: Seq<StepView>) -> Result<
    ExpansionView,
    PlanFault,
> {
    if !structural(steps) {
        Ok(ExpansionView { steps, target_layout_version: s.layout_version })
    } else if s.layout_version == u64::MAX {
        Err(PlanFault::LayoutVersionOverflow)
    } else {
        Ok(ExpansionView { steps, target_layout_version: (s.layout_version + 1) as u64 })
    }
}

/// The plan from the current layout to the ideal one.
pub open spec fn diffed(s: SnapshotView, ideal: planner::PlanView) -> Result<
    ExpansionView,
    PlanFault,
> {
    match changes(ranked(s.bands, BandKey::Index), ideal.bands, s.bands.len()) {
        Err(f) => Err(PlanFault::UnsafeExpansion(f)),
        Ok(grown) => match creations(s.bands, ideal.bands, ideal.bands.len()) {
            Err(f) => Err(PlanFault::UnsafeExpansion(f)),
            Ok(created) => versioned(
                s,
                grown + created + marks(ideal.unusable, stacked(ideal.bands) as u64),
            ),
        },
    }
}

/// How to fold `new` disks into the array, or why that cannot be done.
pub open spec fn expansion(s: SnapshotView, new: Seq<(Seq<char>, u64)>) -> Result<
    ExpansionView,
    PlanFault,
> {
    match snapshot_fault(s) {
        Some(f) => Err(PlanFault::InvalidSnapshot(f)),
        None => match twin(s.drives + new) {
            Some(id) => Err(PlanFault::InvalidSnapshot(new_twin_text(id))),
            None => match planner::plan(replanned(s, new)) {
                Err(e) => Err(e),
                Ok(ideal) => diffed(s, ideal),
            },
        },
    }
}

/// Whether an outcome of the expansion planner is the one that a model gives.
pub open spec fn expansion_outcome(
    r: Result<ExpansionPlan, PlanError>,
    model: Result<ExpansionView, PlanFault>,
) -> bool {
    match (r, model) {
        (Ok(p), Ok(v)) => p@ == v,
        (Err(e), Err(f)) => e@ == f,
        _ => false,
    }
}

// ---------------------------------------------------------------------------
// Messages
// ---------------------------------------------------------------------------

fn few_members_message(mode: RedundancyMode, b: &RedundantBand) -> (out: String)
    ensures
        out@ == few_members_text(mode, b@),
{
    let mut out = "band ".to_owned();
    text::append_decimal(&mut out, b.band_index() as u64);
    out.append(" has ");
    text::append_decimal(&mut out, b.members().len() as u64);
    out.append(" members, below the ");
    out.append(mode.name());
    out.append(" minimum ");
    text::append_decimal(&mut out, mode.min_members_per_band() as u64);
    out
}

fn wrong_level_message(mode: RedundancyMode, b: &RedundantBand) -> (out: String)
    ensures
        out@ == wrong_level_text(mode, b@),
{
    let mut out = "band ".to_owned();
    text::append_decimal(&mut out, b.band_index() as u64);
    out.append(" level ");
    out.append(b.level().name());
    out.append(" violates ");
    out.append(mode.name());
    out.append(" policy for ");
    text::append_decimal(&mut out, b.members().len() as u64);
    out.append(" members");
    out
}

fn gap_message(b: &RedundantBand, expected: u64) -> (out: String)
    ensures
        out@ == gap_text(b@, expected),
{
    let mut out = "band ".to_owned();
    text::append_decimal(&mut out, b.band_index() as u64);
    out.append(" offset ");
    text::append_decimal(&mut out, b.offset());
    out.append(" is not contiguous (expected ");
    text::append_decimal(&mut out, expected);
    out.append(")");
    out
}

fn unlisted_message(b: &RedundantBand, id: &DiskId) -> (out: String)
    ensures
        out@ == unlisted_text(b@, id@),
{
    let mut out = "band ".to_owned();
    text::append_decimal(&mut out, b.band_index() as u64);
    out.append(" member ");
    out.append(id.as_str());
    out.append(" is not in the disk list");
    out
}

fn too_small_message(
    s: &LayoutSnapshot,
    b: &RedundantBand,
    id: &DiskId,
    size: u64,
    usable: u64,
) -> (out: String)
    requires
        usable == between_reserves(s@, size),
    ensures
        out@ == too_small_text(s@, b@, id@, size),
{
    let mut out = "disk ".to_owned();
    out.append(id.as_str());
    out.append(" (size ");
    text::append_decimal(&mut out, size);
    out.append(", usable ");
    text::append_decimal(&mut out, usable);
    out.append(" after ");
    text::append_decimal(&mut out, s.reserved_head);
    out.append(" reserved_head + ");
    text::append_decimal(&mut out, s.reserved_tail);
    out.append(" reserved_tail) is too small for band ");
    text::append_decimal(&mut out, b.band_index() as u64);
    out.append(" extent ");
    text::append_decimal(&mut out, b.end());
    out
}

fn vanish_message(b: &RedundantBand) -> (out: String)
    ensures
        out@ == vanish_text(b@),
{
    let mut out = "band ".to_owned();
    text::append_decimal(&mut out, b.band_index() as u64);
    out.append(" would disappear after replanning");
    out
}

fn reslice_message(b: &RedundantBand, t: &RedundantBand) -> (out: String)
    ensures
        out@ == reslice_text(b@, t@),
{
    let mut out = "band ".to_owned();
    text::append_decimal(&mut out, b.band_index() as u64);
    out.append(" geometry would change (");
    text::append_decimal(&mut out, b.offset());
    out.append("+");
    text::append_decimal(&mut out, b.size());
    out.append(" -> ");
    text::append_decimal(&mut out, t.offset());
    out.append("+");
    text::append_decimal(&mut out, t.size());
    out.append("); re-slicing existing bands is not allowed");
    out
}

fn downgrade_message(b: &RedundantBand, t: &RedundantBand) -> (out: String)
    ensures
        out@ == downgrade_text(b@, t@),
{
    let mut out = "band ".to_owned();
    text::append_decimal(&mut out, b.band_index() as u64);
    out.append(" would downgrade ");
    out.append(b.level().name());
    out.append(" -> ");
    out.append(t.level().name());
    out
}

fn lose_message(b: &RedundantBand, id: &DiskId) -> (out: String)
    ensures
        out@ == lose_text(b@, id@),
{
    let mut out = "band ".to_owned();
    text::append_decimal(&mut out, b.band_index() as u64);
    out.append(" would lose member ");
    out.append(id.as_str());
    out
}

fn overlap_message(b: &RedundantBand, top: u64) -> (out: String)
    ensures
        out@ == overlap_text(b@, top),
{
    let mut out = "new band ".to_owned();
    text::append_decimal(&mut out, b.band_index() as u64);
    out.append(" at offset ");
    text::append_decimal(&mut out, b.offset());
    out.append(" would overlap existing extent (top ");
    text::append_decimal(&mut out, top);
    out.append(")");
    out
}

// ---------------------------------------------------------------------------
// Validation
// ---------------------------------------------------------------------------

/// The position of the first disk whose identifier occurred before.
fn find_twin(disks: &[Disk]) -> (r: Option<usize>)
    ensures
        match r {
            Some(i) => i < disks@.len() && twin(disk::drives(disks@)) == Some(disks@[i as int].id@),
            None => twin(disk::drives(disks@)) is None,
        },
{
    let ghost all = disk::drives(disks@);
    let mut i: usize = 0;
    assert(all.take(0) =~= Seq::empty());
    while i < disks.len()
        invariant
            i <= disks.len(),
            all == disk::drives(disks@),
            twin(all.take(i as int)) is None,
        decreases disks.len() - i,
    {
        let mut j: usize = 0;
        let mut seen = false;
        while j < i
            invariant
                j <= i,
                i < disks.len(),
                seen == exists|k: int|
                    0 <= k < j && (#[trigger] disks@[k]).id@ == disks@[i as int].id@,
            decreases i - j,
        {
            if disks[j].id.same(&disks[i].id) {
                seen = true;
            }
            j = j + 1;
        }
        proof {
            let head = all.take(i as int);
            let more = all.take(i + 1);
            assert(more.drop_last() =~= head);
            assert(more.last().0 == disks@[i as int].id@);
            if seen {
                let k = choose|k: int|
                    0 <= k < i && (#[trigger] disks@[k]).id@ == disks@[i as int].id@;
                assert(planner::names(head)[k] == more.last().0);
            } else if planner::names(head).contains(more.last().0) {
                let k = choose|k: int|
                    0 <= k < head.len() && planner::names(head)[k] == more.last().0;
                assert(disks@[k].id@ == disks@[i as int].id@);
            }
            if seen {
                lemma_twin_prefix(all, i + 1);
            }
        }
        if seen {
            return Some(i);
        }
        i = i + 1;
    }
    assert(all.take(i as int) =~= all);
    None
}

proof fn lemma_twin_prefix(drives: Seq<(Seq<char>, u64)>, n: int)
    requires
        0 <= n <= drives.len(),
        twin(drives.take(n)) is Some,
    ensures
        twin(drives) == twin(drives.take(n)),
    decreases drives.len(),
{
    if n == drives.len() {
        assert(drives.take(n) =~= drives);
    } else {
        assert(drives.drop_last().take(n) =~= drives.take(n));
        lemma_twin_prefix(drives.drop_last(), n);
    }
}

/// Whether one of `bands` has the index `index`.
fn index_used(bands: &[RedundantBand], n: usize, index: u8) -> (r: bool)
    requires
        n <= bands@.len(),
    ensures
        r == has_index(band::band_views(bands@).take(n as int), index),
{
    let ghost all = band::band_views(bands@);
    let mut i: usize = 0;
    while i < n
        invariant
            i <= n <= bands@.len(),
            all == band::band_views(bands@),
            forall|k: int| 0 <= k < i ==> (#[trigger] all[k]).index != index,
        decreases n - i,
    {
        if bands[i].band_index() == index {
            assert(all.take(n as int)[i as int].index == index);
            return true;
        }
        i = i + 1;
    }
    assert forall|k: int| 0 <= k < n implies (#[trigger] all.take(n as int)[k]).index
        != index by {
        assert(all[k].index != index);
    }
    false
}

/// The first band index that occurs for the second time.
fn find_twin_index(bands: &[RedundantBand]) -> (r: Option<u8>)
    ensures
        r == twin_index(band::band_views(bands@)),
{
    let ghost all = band::band_views(bands@);
    let mut i: usize = 0;
    assert(all.take(0) =~= Seq::empty());
    while i < bands.len()
        invariant
            i <= bands.len(),
            all == band::band_views(bands@),
            twin_index(all.take(i as int)) is None,
        decreases bands.len() - i,
    {
        let index: u8 = bands[i].band_index();
        proof {
            assert(all.take(i + 1).drop_last() =~= all.take(i as int));
            assert(all.take(i + 1).last().index == index);
        }
        if index_used(bands, i, index) {
            proof {
                lemma_twin_index_prefix(all, i + 1);
            }
            return Some(index);
        }
        i = i + 1;
    }
    assert(all.take(i as int) =~= all);
    None
}

proof fn lemma_twin_index_prefix(bands: Seq<BandView>, n: int)
    requires
        0 <= n <= bands.len(),
        twin_index(bands.take(n)) is Some,
    ensures
        twin_index(bands) == twin_index(bands.take(n)),
    decreases bands.len(),
{
    if n == bands.len() {
        assert(bands.take(n) =~= bands);
    } else {
        assert(bands.drop_last().take(n) =~= bands.take(n));
        lemma_twin_index_prefix(bands.drop_last(), n);
    }
}

/// The views of a list of borrowed bands.
pub open spec fn borrowed_views(list: Seq<&RedundantBand>) -> Seq<BandView> {
    list.map_values(|b: &RedundantBand| b@)
}

fn sort_key(key: BandKey, b: &RedundantBand) -> (k: u64)
    ensures
        k == key_of(key, b@),
{
    match key {
        BandKey::Offset => b.offset(),
        BandKey::Index => b.band_index() as u64,
    }
}

/// The bands by increasing key.
fn sorted_bands<'a>(bands: &'a [RedundantBand], key: BandKey) -> (r: Vec<&'a RedundantBand>)
    ensures
        borrowed_views(r@) == ranked(band::band_views(bands@), key),
        r@.len() == bands@.len(),
{
    let ghost all = band::band_views(bands@);
    let mut r: Vec<&'a RedundantBand> = Vec::new();
    let mut i: usize = 0;
    assert(all.take(0) =~= Seq::empty());
    assert(borrowed_views(r@) =~= Seq::empty());
    while i < bands.len()
        invariant
            i <= bands.len(),
            all == band::band_views(bands@),
            r@.len() == i,
            borrowed_views(r@) == ranked(all.take(i as int), key),
        decreases bands.len() - i,
    {
        let b: &'a RedundantBand = &bands[i];
        let k: u64 = sort_key(key, b);
        let ghost start = borrowed_views(r@);
        let mut at: usize = r.len();
        assert(start.take(at as int) =~= start);
        assert(ranked_in(start, key, b@) =~= ranked_in(start.take(at as int), key, b@)
            + start.skip(at as int));
        while at > 0 && k < sort_key(key, r[at - 1])
            invariant
                at <= r.len(),
                start == borrowed_views(r@),
                k == key_of(key, b@),
                ranked_in(start, key, b@) == ranked_in(start.take(at as int), key, b@)
                    + start.skip(at as int),
            decreases at,
        {
            proof {
                let head = start.take(at as int);
                assert(head.drop_last() =~= start.take(at - 1));
                assert(head.last() == start[at - 1]);
                assert(ranked_in(head.drop_last(), key, b@).push(head.last()) + start.skip(
                    at as int,
                ) =~= ranked_in(head.drop_last(), key, b@) + start.skip(at - 1));
            }
            at = at - 1;
        }
        proof {
            if at > 0 {
                assert(start.take(at as int).last() == start[at - 1]);
            }
        }
        r.insert(at, b);
        proof {
            assert(borrowed_views(r@) =~= start.take(at as int).push(b@) + start.skip(at as int));
            assert(all.take(i + 1).drop_last() =~= all.take(i as int));
            assert(all.take(i + 1).last() == b@);
        }
        i = i + 1;
    }
    assert(all.take(i as int) =~= all);
    r
}

/// The raw size of the disk `id`.
fn find_size(disks: &[Disk], id: &DiskId) -> (r: Option<u64>)
    ensures
        r == size_of(disk::drives(disks@), id@),
{
    let ghost all = disk::drives(disks@);
    let mut n: usize = disks.len();
    assert(all.take(n as int) =~= all);
    while n > 0
        invariant
            n <= disks.len(),
            all == disk::drives(disks@),
            size_of(all, id@) == size_of(all.take(n as int), id@),
        decreases n,
    {
        proof {
            assert(all.take(n as int).drop_last() =~= all.take(n - 1));
            assert(all.take(n as int).last() == all[n - 1]);
        }
        if disks[n - 1].id.same(id) {
            return Some(disks[n - 1].size_bytes);
        }
        n = n - 1;
    }
    None
}

/// What is wrong with the members of `b`.
fn find_member_fault(s: &LayoutSnapshot, b: &RedundantBand) -> (r: Option<String>)
    ensures
        match r {
            Some(f) => member_fault(s@, b@, b@.members.len()) == Some(f@),
            None => member_fault(s@, b@, b@.members.len()) is None,
        },
{
    let members = b.members();
    let mut i: usize = 0;
    while i < members.len()
        invariant
            i <= members.len(),
            disk::ids(members@) == b@.members,
            member_fault(s@, b@, i as nat) is None,
        decreases members.len() - i,
    {
        let id = &members[i];
        assert(b@.members[i as int] == id@);
        match find_size(s.disks.as_slice(), id) {
            None => {
                let f = unlisted_message(b, id);
                proof {
                    lemma_member_fault_first(s@, b@, (i + 1) as nat, b@.members.len());
                }
                return Some(f);
            },
            Some(size) => {
                // The band ends in usable-space coordinates, so the raw size is
                // reduced by both reserves before it is held against that end.
                let usable: u64 = size.saturating_sub(s.reserved_head).saturating_sub(
                    s.reserved_tail,
                );
                if usable < b.end() {
                    let f = too_small_message(s, b, id, size, usable);
                    proof {
                        lemma_member_fault_first(s@, b@, (i + 1) as nat, b@.members.len());
                    }
                    return Some(f);
                }
            },
        }
        i = i + 1;
    }
    None
}

proof fn lemma_member_fault_first(s: SnapshotView, b: BandView, n: nat, m: nat)
    requires
        n <= m,
        member_fault(s, b, n) is Some,
    ensures
        member_fault(s, b, m) == member_fault(s, b, n),
    decreases m,
{
    if n < m {
        lemma_member_fault_first(s, b, n, (m - 1) as nat);
    }
}

/// What is wrong with a band that should start at `expected`.
fn find_band_fault(s: &LayoutSnapshot, b: &RedundantBand, expected: u64) -> (r: Option<String>)
    ensures
        match r {
            Some(f) => band_fault(s@, b@, expected) == Some(f@),
            None => band_fault(s@, b@, expected) is None,
        },
{
    let n: usize = b.members().len();
    if n < s.mode.min_members_per_band() {
        return Some(few_members_message(s.mode, b));
    }
    match s.mode.pick_level(n) {
        Some(level) => {
            if level != b.level() {
                return Some(wrong_level_message(s.mode, b));
            }
        },
        None => {
            return Some(wrong_level_message(s.mode, b));
        },
    }
    if b.offset() != expected {
        return Some(gap_message(b, expected));
    }
    find_member_fault(s, b)
}

proof fn lemma_extent_fault_first(s: SnapshotView, sorted: Seq<BandView>, n: nat, m: nat)
    requires
        n <= m,
        extent_fault(s, sorted, n) is Some,
    ensures
        extent_fault(s, sorted, m) == extent_fault(s, sorted, n),
    decreases m,
{
    if n < m {
        lemma_extent_fault_first(s, sorted, n, (m - 1) as nat);
    }
}

/// Validate that a snapshot describes a coherent, contiguous layout in the
/// snapshot's own mode before anything is planned against it. Catches
/// duplicate disks, empty/hand-crafted layouts, mode/level violations,
/// duplicate or hand-crafted band indices, non-contiguous or overlapping
/// extents, and members that don't exist or are too small.
pub fn validate_snapshot(s: &LayoutSnapshot) -> (r: Result<(), PlanError>)
    ensures
        match r {
            Ok(()) => snapshot_fault(s@) is None,
            Err(e) => snapshot_fault(s@) is Some && e@ == PlanFault::InvalidSnapshot(
                snapshot_fault(s@)->0,
            ),
        },
{
    // Disk identities must be unique (otherwise a duplicate would hide a
    // single point of failure).
    if let Some(i) = find_twin(s.disks.as_slice()) {
        let mut f = "duplicate disk id ".to_owned();
        f.append(s.disks[i].id.as_str());
        return Err(PlanError::InvalidSnapshot(f));
    }
    // An existing array always has at least one band; an empty band list means
    // this isn't an expansion at all.
    if s.bands.len() == 0 {
        return Err(PlanError::InvalidSnapshot("layout snapshot has no bands".to_owned()));
    }
    if let Some(index) = find_twin_index(s.bands.as_slice()) {
        let mut f = "duplicate band_index ".to_owned();
        text::append_decimal(&mut f, index as u64);
        return Err(PlanError::InvalidSnapshot(f));
    }
    // Extents must tile [0, top) contiguously with no gaps or overlaps, every
    // member must exist and cover the extent, and every band must conform to
    // the snapshot's redundancy mode.
    let bands = sorted_bands(s.bands.as_slice(), BandKey::Offset);
    let ghost sorted = borrowed_views(bands@);
    let mut expected: u64 = 0;
    let mut i: usize = 0;
    while i < bands.len()
        invariant
            i <= bands.len(),
            sorted == borrowed_views(bands@),
            bands@.len() == s@.bands.len(),
            sorted == ranked(s@.bands, BandKey::Offset),
            twin(s@.drives) is None,
            s@.bands.len() > 0,
            twin_index(s@.bands) is None,
            expected == (if i == 0 {
                0
            } else {
                sorted[i - 1].end()
            }),
            extent_fault(s@, sorted, i as nat) is None,
        decreases bands.len() - i,
    {
        assert(sorted[i as int] == bands@[i as int]@);
        if let Some(f) = find_band_fault(s, bands[i], expected) {
            proof {
                lemma_extent_fault_first(s@, sorted, (i + 1) as nat, sorted.len());
            }
            return Err(PlanError::InvalidSnapshot(f));
        }
        expected = bands[i].end();
        i = i + 1;
    }
    Ok(())
}

// ---------------------------------------------------------------------------
// Planning
// ---------------------------------------------------------------------------

/// Members present in `wanted` but not in `present`, preserving the order of
/// `wanted`.
fn added_members(present: &[DiskId], wanted: &[DiskId]) -> (r: Vec<DiskId>)
    ensures
        disk::ids(r@) == added(disk::ids(present@), disk::ids(wanted@)),
        r@.len() == added(disk::ids(present@), disk::ids(wanted@)).len(),
{
    let ghost old = disk::ids(present@);
    let ghost all = disk::ids(wanted@);
    let mut r: Vec<DiskId> = Vec::new();
    let mut i: usize = 0;
    proof {
        reveal(Seq::filter);
        assert(all.take(0) =~= Seq::empty());
        assert(disk::ids(r@) =~= added(old, all.take(0)));
    }
    while i < wanted.len()
        invariant
            i <= wanted.len(),
            old == disk::ids(present@),
            all == disk::ids(wanted@),
            disk::ids(r@) == added(old, all.take(i as int)),
        decreases wanted.len() - i,
    {
        let ghost so_far = r@;
        let known = disk::holds(present, &wanted[i]);
        if !known {
            r.push(wanted[i].clone());
        }
        proof {
            reveal(Seq::filter);
            assert(all.take(i + 1).drop_last() =~= all.take(i as int));
            assert(all.take(i + 1).last() == wanted@[i as int]@);
            if !known {
                assert(disk::ids(r@) =~= disk::ids(so_far).push(wanted@[i as int]@));
            }
        }
        i = i + 1;
    }
    assert(all.take(i as int) =~= all);
    assert(disk::ids(r@).len() == r@.len());
    r
}

/// The position of the first of `members` that is not among those of `t`.
fn find_missing(members: &[DiskId], t: &RedundantBand) -> (r: Option<usize>)
    ensures
        match r {
            Some(i) => i < members@.len() && first_missing(disk::ids(members@), t@.members) == Some(
                members@[i as int]@,
            ),
            None => first_missing(disk::ids(members@), t@.members) is None,
        },
{
    let ghost all = disk::ids(members@);
    let mut i: usize = 0;
    assert(all.take(0) =~= Seq::empty());
    while i < members.len()
        invariant
            i <= members.len(),
            all == disk::ids(members@),
            first_missing(all.take(i as int), t@.members) is None,
        decreases members.len() - i,
    {
        proof {
            assert(all.take(i + 1).drop_last() =~= all.take(i as int));
            assert(all.take(i + 1).last() == members@[i as int]@);
        }
        if !t.contains(&members[i]) {
            proof {
                lemma_first_missing_prefix(all, t@.members, i + 1);
            }
            return Some(i);
        }
        i = i + 1;
    }
    assert(all.take(i as int) =~= all);
    None
}

proof fn lemma_first_missing_prefix(members: Seq<Seq<char>>, others: Seq<Seq<char>>, n: int)
    requires
        0 <= n <= members.len(),
        first_missing(members.take(n), others) is Some,
    ensures
        first_missing(members, others) == first_missing(members.take(n), others),
    decreases members.len(),
{
    if n == members.len() {
        assert(members.take(n) =~= members);
    } else {
        assert(members.drop_last().take(n) =~= members.take(n));
        lemma_first_missing_prefix(members.drop_last(), others, n);
    }
}

/// The step that turns the band `b` into the band of the same index in
/// `ideal`, if one is needed.
fn change_of(b: &RedundantBand, ideal: &Vec<RedundantBand>) -> (r: Result<
    Option<ExpansionStep>,
    String,
>)
    ensures
        match (r, change(b@, band::band_views(ideal@))) {
            (Ok(None), Ok(None)) => true,
            (Ok(Some(step)), Ok(Some(view))) => step@ == view,
            (Err(f), Err(t)) => f@ == t,
            _ => false,
        },
{
    let index: usize = b.band_index() as usize;
    if index >= ideal.len() {
        return Err(vanish_message(b));
    }
    let t = &ideal[index];
    assert(band::band_views(ideal@)[index as int] == t@);
    if t.offset() != b.offset() || t.size() != b.size() {
        return Err(reslice_message(b, t));
    }
    if t.level().rank() < b.level().rank() {
        return Err(downgrade_message(b, t));
    }
    let members = b.members();
    if let Some(i) = find_missing(members, t) {
        return Err(lose_message(b, &members[i]));
    }
    let add_members = added_members(members, t.members());
    if t.level() != b.level() {
        Ok(
            Some(
                ExpansionStep::LevelUp {
                    band_index: b.band_index(),
                    from: b.level(),
                    to: t.level(),
                    add_members,
                },
            ),
        )
    } else if add_members.len() > 0 {
        Ok(Some(ExpansionStep::GrowBand { band_index: b.band_index(), add_members }))
    } else {
        Ok(None)
    }
}

proof fn lemma_changes_stop(sorted: Seq<BandView>, ideal: Seq<BandView>, n: nat, m: nat)
    requires
        n <= m,
        changes(sorted, ideal, n) is Err,
    ensures
        changes(sorted, ideal, m) == changes(sorted, ideal, n),
    decreases m,
{
    if n < m {
        lemma_changes_stop(sorted, ideal, n, (m - 1) as nat);
    }
}

/// Every existing band must survive monotonically: same geometry, level kept
/// or raised, members kept or added. Collects the steps that this takes.
fn changes_of(bands: &[RedundantBand], ideal: &Vec<RedundantBand>) -> (r: Result<
    Vec<ExpansionStep>,
    String,
>)
    ensures
        ({
            let model = changes(
                ranked(band::band_views(bands@), BandKey::Index),
                band::band_views(ideal@),
                bands@.len(),
            );
            match r {
                Ok(steps) => model == Ok::<Seq<StepView>, Seq<char>>(step_views(steps@)),
                Err(f) => model == Err::<Seq<StepView>, Seq<char>>(f@),
            }
        }),
{
    let sorted = sorted_bands(bands, BandKey::Index);
    let ghost order = borrowed_views(sorted@);
    let ghost target = band::band_views(ideal@);
    let mut steps: Vec<ExpansionStep> = Vec::new();
    let mut i: usize = 0;
    assert(step_views(steps@) =~= Seq::empty());
    while i < sorted.len()
        invariant
            i <= sorted.len(),
            sorted@.len() == bands@.len(),
            order == borrowed_views(sorted@),
            order == ranked(band::band_views(bands@), BandKey::Index),
            target == band::band_views(ideal@),
            changes(order, target, i as nat) == Ok::<Seq<StepView>, Seq<char>>(step_views(steps@)),
        decreases sorted.len() - i,
    {
        let ghost so_far = steps@;
        assert(order[i as int] == sorted@[i as int]@);
        match change_of(sorted[i], ideal) {
            Err(f) => {
                proof {
                    lemma_changes_stop(order, target, (i + 1) as nat, bands@.len());
                }
                return Err(f);
            },
            Ok(None) => {},
            Ok(Some(step)) => {
                steps.push(step);
                assert(step_views(steps@) =~= step_views(so_far).push(step@));
            },
        }
        i = i + 1;
    }
    Ok(steps)
}

proof fn lemma_creations_stop(bands: Seq<BandView>, ideal: Seq<BandView>, n: nat, m: nat)
    requires
        n <= m,
        creations(bands, ideal, n) is Err,
    ensures
        creations(bands, ideal, m) == creations(bands, ideal, n),
    decreases m,
{
    if n < m {
        lemma_creations_stop(bands, ideal, n, (m - 1) as nat);
    }
}

/// The end of the highest of `bands`.
fn top_of(bands: &[RedundantBand]) -> (top: u64)
    ensures
        top == highest_end(band::band_views(bands@)),
{
    let ghost all = band::band_views(bands@);
    let mut top: u64 = 0;
    let mut i: usize = 0;
    assert(all.take(0) =~= Seq::empty());
    while i < bands.len()
        invariant
            i <= bands.len(),
            all == band::band_views(bands@),
            top == highest_end(all.take(i as int)),
        decreases bands.len() - i,
    {
        proof {
            assert(all.take(i + 1).drop_last() =~= all.take(i as int));
            assert(all.take(i + 1).last() == bands@[i as int]@);
        }
        let end: u64 = bands[i].end();
        if end > top {
            top = end;
        }
        i = i + 1;
    }
    assert(all.take(i as int) =~= all);
    top
}

/// Genuinely new bands may only sit above the current top extent. Collects the
/// steps that create them.
fn creations_of(bands: &[RedundantBand], ideal: &Vec<RedundantBand>) -> (r: Result<
    Vec<ExpansionStep>,
    String,
>)
    ensures
        ({
            let model = creations(
                band::band_views(bands@),
                band::band_views(ideal@),
                ideal@.len(),
            );
            match r {
                Ok(steps) => model == Ok::<Seq<StepView>, Seq<char>>(step_views(steps@)),
                Err(f) => model == Err::<Seq<StepView>, Seq<char>>(f@),
            }
        }),
{
    let ghost now = band::band_views(bands@);
    let ghost target = band::band_views(ideal@);
    let top: u64 = top_of(bands);
    let mut steps: Vec<ExpansionStep> = Vec::new();
    let mut i: usize = 0;
    assert(step_views(steps@) =~= Seq::empty());
    assert(now.take(bands@.len() as int) =~= now);
    while i < ideal.len()
        invariant
            i <= ideal.len(),
            now == band::band_views(bands@),
            now.take(bands@.len() as int) == now,
            target == band::band_views(ideal@),
            top == highest_end(now),
            creations(now, target, i as nat) == Ok::<Seq<StepView>, Seq<char>>(step_views(steps@)),
        decreases ideal.len() - i,
    {
        let ghost so_far = steps@;
        let t = &ideal[i];
        assert(target[i as int] == t@);
        if !index_used(bands, bands.len(), t.band_index()) {
            if t.offset() < top {
                let f = overlap_message(t, top);
                proof {
                    lemma_creations_stop(now, target, (i + 1) as nat, ideal@.len());
                }
                return Err(f);
            }
            steps.push(ExpansionStep::CreateBand { band: t.clone() });
            assert(step_views(steps@) =~= step_views(so_far).push(
                StepView::CreateBand { band: t@ },
            ));
        }
        i = i + 1;
    }
    Ok(steps)
}

/// The sizes of `bands` added up.
fn stack(bands: &Vec<RedundantBand>) -> (top: u64)
    requires
        stacked(band::band_views(bands@)) <= u64::MAX,
    ensures
        top == stacked(band::band_views(bands@)),
{
    let ghost sizes = heights(band::band_views(bands@));
    let mut top: u64 = 0;
    let mut i: usize = 0;
    assert(sizes.take(0) =~= Seq::empty());
    while i < bands.len()
        invariant
            i <= bands.len(),
            sizes == heights(band::band_views(bands@)),
            top == table::total(sizes.take(i as int)),
            table::total(sizes) <= u64::MAX,
        decreases bands.len() - i,
    {
        proof {
            table::lemma_total_step(sizes, i as int);
            assert(sizes[i as int] == bands@[i as int]@.size);
        }
        top = top + bands[i].size();
        i = i + 1;
    }
    assert(sizes.take(i as int) =~= sizes);
    top
}

/// Bands that tile the disks from the start stack up to the end of the last.
pub proof fn lemma_stack_of_tiles(bands: Seq<BandView>, n: int)
    requires
        0 < n <= bands.len(),
        bands[0].offset == 0,
        forall|i: int|
            0 <= i < bands.len() ==> (#[trigger] bands[i]).end() == bands[i].offset
                + bands[i].size,
        forall|i: int, j: int|
            0 <= i < bands.len() && j == i + 1 && j < bands.len() ==> (#[trigger] bands[j]).offset
                == (#[trigger] bands[i]).end(),
    ensures
        stacked(bands.take(n)) == bands[n - 1].end(),
    decreases n,
{
    let sizes = heights(bands.take(n));
    let last = bands[n - 1];
    assert(last.end() == last.offset + last.size);
    assert(sizes.last() == last.size);
    assert(sizes.drop_last() =~= heights(bands.take(n - 1)));
    if n > 1 {
        lemma_stack_of_tiles(bands, n - 1);
        assert(bands[n - 1].offset == bands[n - 2].end());
    } else {
        assert(bands.take(0) =~= Seq::empty());
        assert(sizes.drop_last() =~= Seq::empty());
        assert(table::total(sizes.drop_last()) == 0);
        assert(bands[0] == last);
    }
}

/// Appends a step for each entry of a table of unused capacity above `top`.
fn append_marks(steps: &mut Vec<ExpansionStep>, unusable: &Vec<(DiskId, u64)>, top: u64)
    ensures
        step_views(final(steps)@) == step_views(old(steps)@) + marks(
            table::entries(unusable@),
            top,
        ),
{
    let ghost first = step_views(steps@);
    let ghost rest = marks(table::entries(unusable@), top);
    let mut j: usize = 0;
    assert(first + rest.take(0) =~= first);
    while j < unusable.len()
        invariant
            j <= unusable.len(),
            rest == marks(table::entries(unusable@), top),
            step_views(steps@) == first + rest.take(j as int),
        decreases unusable.len() - j,
    {
        let ghost so_far = steps@;
        let e = &unusable[j];
        steps.push(
            ExpansionStep::MarkUnusable {
                disk: e.0.clone(),
                offset: top,
                size: e.1,
                reason: UnusableReason::InsufficientRedundancy,
            },
        );
        assert(step_views(steps@) =~= step_views(so_far).push(rest[j as int]));
        assert(first + rest.take(j + 1) =~= (first + rest.take(j as int)).push(rest[j as int]));
        j = j + 1;
    }
    assert(rest.take(j as int) =~= rest);
}

/// The plan from the current layout to the ideal one.
fn diff(current: &LayoutSnapshot, ideal: &PlannerOutput) -> (r: Result<ExpansionPlan, PlanError>)
    requires
        stacked(ideal@.bands) <= u64::MAX,
    ensures
        expansion_outcome(r, diffed(current@, ideal@)),
{
    assert(ideal@.bands.len() == ideal.bands@.len());
    let mut steps = match changes_of(current.bands.as_slice(), &ideal.bands) {
        Ok(steps) => steps,
        Err(f) => return Err(PlanError::UnsafeExpansion(f)),
    };
    let ghost grown = step_views(steps@);
    let mut made = match creations_of(current.bands.as_slice(), &ideal.bands) {
        Ok(made) => made,
        Err(f) => return Err(PlanError::UnsafeExpansion(f)),
    };
    let ghost created = step_views(made@);
    let ghost parts = (steps@, made@);
    steps.append(&mut made);
    proof {
        assert(steps@ =~= parts.0 + parts.1);
        assert(step_views(steps@) =~= grown + created);
    }
    // Only a real geometry change advances the layout version.
    let changed: bool = steps.len() > 0;
    // Surface stranded capacity so that it can be shown.
    let ideal_top: u64 = stack(&ideal.bands);
    append_marks(&mut steps, &ideal.unusable_per_disk, ideal_top);
    proof {
        lemma_structural(current@, ideal@, grown, created);
        assert((grown + created).len() == parts.0.len() + parts.1.len());
    }
    let target_layout_version: u64 = if changed {
        if current.layout_version == u64::MAX {
            return Err(PlanError::LayoutVersionOverflow);
        }
        current.layout_version + 1
    } else {
        current.layout_version
    };
    Ok(ExpansionPlan { steps, target_layout_version })
}

/// A plan changes the layout exactly when a band changes or is created.
proof fn lemma_structural(
    s: SnapshotView,
    ideal: planner::PlanView,
    grown: Seq<StepView>,
    created: Seq<StepView>,
)
    requires
        changes(ranked(s.bands, BandKey::Index), ideal.bands, s.bands.len()) == Ok::<
            Seq<StepView>,
            Seq<char>,
        >(grown),
        creations(s.bands, ideal.bands, ideal.bands.len()) == Ok::<Seq<StepView>, Seq<char>>(
            created,
        ),
    ensures
        structural(grown + created + marks(ideal.unusable, stacked(ideal.bands) as u64)) <==> (
        grown + created).len() > 0,
{
    let rest = marks(ideal.unusable, stacked(ideal.bands) as u64);
    let first = grown + created;
    let all = first + rest;
    lemma_changes_are_structural(ranked(s.bands, BandKey::Index), ideal.bands, s.bands.len());
    lemma_creations_are_structural(s.bands, ideal.bands, ideal.bands.len());
    if first.len() > 0 {
        assert(all[0] == first[0]);
        if grown.len() > 0 {
            assert(first[0] == grown[0]);
        } else {
            assert(first[0] == created[0]);
        }
        assert(!(all[0] is MarkUnusable));
    } else {
        assert forall|i: int| 0 <= i < all.len() implies (#[trigger] all[i]) is MarkUnusable by {
            assert(all[i] == rest[i]);
        }
    }
}

/// Plan how to fold `new_disks` into the existing array: safely or not at all.
///
/// This is deliberately conservative: because the ideal layout is recomputed
/// from scratch, adding a disk that would re-slice an *unrelated* existing band
/// (e.g. sizes `[3,3,4,6]` + a 3.5 TB disk) is refused with
/// [`PlanError::UnsafeExpansion`] even though a smarter additive planner could
/// use it partially. Never emits a plan that shrinks, downgrades, re-slices, or
/// overlaps existing bands.
pub fn plan_expansion(current: &LayoutSnapshot, new_disks: &[Disk]) -> (r: Result<
    ExpansionPlan,
    PlanError,
>)
    requires
        snapshot_fault(current@) is None && twin(current@.drives + disk::drives(new_disks@)) is None
            && planner::plan(replanned(current@, disk::drives(new_disks@))) is Ok
            ==> metrics::raw_total(current@.drives + disk::drives(new_disks@)) <= u64::MAX,
    ensures
        expansion_outcome(r, expansion(current@, disk::drives(new_disks@))),
        r matches Ok(p) ==> expansion(current@, disk::drives(new_disks@)) == Ok::<
            ExpansionView,
            PlanFault,
        >(p@),
        r matches Err(e) ==> expansion(current@, disk::drives(new_disks@)) == Err::<
            ExpansionView,
            PlanFault,
        >(e@),
{
    if let Err(e) = validate_snapshot(current) {
        return Err(e);
    }
    // New disks must carry fresh, unique ids: not duplicated among themselves
    // and not already part of the array.
    let ghost new = disk::drives(new_disks@);
    let mut all = disk::copy_disks(current.disks.as_slice());
    let mut more = disk::copy_disks(new_disks);
    let ghost parts = (all@, more@);
    all.append(&mut more);
    proof {
        assert(all@ =~= parts.0 + parts.1);
        assert(disk::drives(all@) =~= disk::drives(parts.0) + disk::drives(parts.1));
    }
    if let Some(i) = find_twin(all.as_slice()) {
        let mut f = "new disk id ".to_owned();
        f.append(all[i].id.as_str());
        f.append(" is duplicated or already in the array");
        return Err(PlanError::InvalidSnapshot(f));
    }
    // Recompute the ideal layout over the full disk set, on the SAME grid
    // (alignment/reserves) the current layout was planned with.
    let input = PlannerInput {
        disks: all,
        mode: current.mode,
        band_alignment: current.band_alignment,
        reserved_head: current.reserved_head,
        reserved_tail: current.reserved_tail,
    };
    assert(input@ =~= replanned(current@, new));
    let ideal = match plan_initial(&input) {
        Ok(ideal) => ideal,
        Err(e) => return Err(e),
    };
    proof {
        let bands = ideal@.bands;
        layout_laws::planned_bands_tile_the_disks(input@);
        lemma_stack_of_tiles(bands, bands.len() as int);
        assert(bands.take(bands.len() as int) =~= bands);
    }
    diff(current, &ideal)
}

proof fn lemma_changes_are_structural(sorted: Seq<BandView>, ideal: Seq<BandView>, n: nat)
    ensures
        changes(sorted, ideal, n) matches Ok(steps) ==> forall|i: int|
            0 <= i < steps.len() ==> !((#[trigger] steps[i]) is MarkUnusable) && !(
            steps[i] is CreateBand),
    decreases n,
{
    if n > 0 {
        lemma_changes_are_structural(sorted, ideal, (n - 1) as nat);
    }
}

proof fn lemma_creations_are_structural(bands: Seq<BandView>, ideal: Seq<BandView>, n: nat)
    ensures
        creations(bands, ideal, n) matches Ok(steps) ==> forall|i: int|
            0 <= i < steps.len() ==> (#[trigger] steps[i]) is CreateBand,
    decreases n,
{
    if n > 0 {
        lemma_creations_are_structural(bands, ideal, (n - 1) as nat);
    }
}

} // verus!
