//! What a plan report says, and why a plan or an expansion is refused, told in
//! plain figures.

use vstd::prelude::*;
use crate::band;
use crate::band::{BandError, BandView};
use crate::expansion;
use crate::expansion::SnapshotView;
use crate::expansion_laws;
use crate::ops;
use crate::paths;
use crate::planner;
use crate::planner::{PlanFault, PlanView, WarningView};
use crate::raid;
use crate::raid::{RaidLevel, RedundancyMode};
use crate::report;
use crate::report::PlanReport;
use crate::sizes;
use crate::sizes::SizeFault;
use crate::text;
use crate::ui_mode;
use crate::ui_mode::UiMode;

verus! {

// ---------------------------------------------------------------------------
// Plan reports
// ---------------------------------------------------------------------------

/// The word for a level.
pub open spec fn word_for(level: RaidLevel) -> Seq<char> {
    match level {
        RaidLevel::Raid1 => "raid1"@,
        RaidLevel::Raid5 => "raid5"@,
        RaidLevel::Raid6 => "raid6"@,
    }
}

/// A plan report tells the mode and, of every band, its index, level, size and
/// members, how much of it can be used and how much it takes up.
pub proof fn a_plan_report_tells_every_band(
    r: PlanReport,
    mode: RedundancyMode,
    p: PlanView,
    i: int,
)
    requires
        ops::tells_plan(r, mode, p),
        0 <= i < p.bands.len(),
    ensures
        mode == RedundancyMode::Shr ==> r.mode@ == "shr"@,
        mode == RedundancyMode::Shr2 ==> r.mode@ == "shr2"@,
        r.schema_version == 2,
        r.bands@.len() == p.bands.len(),
        ({
            let t = r.bands@[i];
            let b = p.bands[i];
            let n = b.members.len();
            &&& t.index == b.index
            &&& t.level@ == word_for(b.level)
            &&& t.size == b.size
            &&& t.members@.len() == n
            &&& forall|k: int| 0 <= k < n ==> (#[trigger] t.members@[k])@ == b.members[k]
            &&& t.raw == b.size * n
            &&& b.level == RaidLevel::Raid1 ==> t.usable == b.size
            &&& b.level == RaidLevel::Raid5 && n >= 1 ==> t.usable == b.size * (n - 1)
            &&& b.level == RaidLevel::Raid6 && n >= 2 ==> t.usable == b.size * (n - 2)
        }),
{
    let t = r.bands@[i];
    let b = p.bands[i];
    assert(ops::tells_planned_band(t, b));
    assert(text::views(t.members@).len() == t.members@.len());
    assert forall|k: int| 0 <= k < b.members.len() implies (#[trigger] t.members@[k])@
        == b.members[k] by {
        assert(text::views(t.members@)[k] == t.members@[k]@);
    }
    assert(b.size * 1 == b.size) by (nonlinear_arith);
}

/// A plan report tells the totals of the plan, what of each disk is unusable
/// and every warning, in words.
pub proof fn a_plan_report_tells_the_totals(r: PlanReport, mode: RedundancyMode, p: PlanView)
    requires
        ops::tells_plan(r, mode, p),
    ensures
        r.metrics.total_usable == p.metrics.total_usable,
        r.metrics.total_raw == p.metrics.total_raw,
        r.metrics.redundancy_overhead == p.metrics.redundancy_overhead,
        r.metrics.stranded_bytes == p.metrics.stranded_bytes,
        r.metrics.waste_ratio == p.metrics.waste_ratio,
        r.metrics.utilization@.len() == p.metrics.utilization.len(),
        forall|i: int|
            0 <= i < p.metrics.utilization.len() ==> (#[trigger] r.metrics.utilization@[i]).0@
                == p.metrics.utilization[i].0 && r.metrics.utilization@[i].1
                == p.metrics.utilization[i].1,
        r.unusable_per_disk@.len() == p.unusable.len(),
        forall|i: int|
            0 <= i < p.unusable.len() ==> (#[trigger] r.unusable_per_disk@[i]).0@ == p.unusable[i].0
                && r.unusable_per_disk@[i].1 == p.unusable[i].1,
        r.warnings@.len() == p.warnings.len(),
        forall|i: int|
            0 <= i < p.warnings.len() ==> (#[trigger] r.warnings@[i])@ == ops::warning_text(
                p.warnings[i],
            ),
{
    let u = ops::named_entries(r.metrics.utilization@);
    let v = ops::named_entries(r.unusable_per_disk@);
    let w = text::views(r.warnings@);
    assert(u.len() == r.metrics.utilization@.len());
    assert(v.len() == r.unusable_per_disk@.len());
    assert(w.len() == r.warnings@.len());
    assert forall|i: int| 0 <= i < u.len() implies (#[trigger] r.metrics.utilization@[i]).0@
        == p.metrics.utilization[i].0 && r.metrics.utilization@[i].1
        == p.metrics.utilization[i].1 by {
        assert(u[i] == p.metrics.utilization[i]);
    }
    assert forall|i: int| 0 <= i < v.len() implies (#[trigger] r.unusable_per_disk@[i]).0@
        == p.unusable[i].0 && r.unusable_per_disk@[i].1 == p.unusable[i].1 by {
        assert(v[i] == p.unusable[i]);
    }
    assert forall|i: int| 0 <= i < w.len() implies (#[trigger] r.warnings@[i])@
        == ops::warning_text(p.warnings[i]) by {
        assert(w[i] == r.warnings@[i]@);
    }
}

/// A warning tells where a slice is, how long, how many disks it has and how
/// many it needs; or which disk has how much left over.
pub proof fn warnings_tell_their_figures(
    offset: u64,
    size: u64,
    members: usize,
    needed: usize,
    disk: Seq<char>,
)
    ensures
        ops::warning_text(WarningView::TooFewForBand { offset, size, members, needed })
            == "slice at offset "@ + text::dec(offset as nat) + " ("@ + text::dec(size as nat)
            + " B) has only "@ + text::dec(members as nat) + " member(s), needs "@ + text::dec(
            needed as nat,
        ),
        ops::warning_text(WarningView::UnusableTail { disk, bytes: size }) == disk + ": "@
            + text::dec(size as nat) + " B stranded (no redundancy)"@,
{
}

/// A dry run plans on the grid of production, for the disks and the mode that
/// it was given.
pub proof fn dry_runs_plan_on_the_default_grid(
    mode: RedundancyMode,
    drives: Seq<(Seq<char>, u64)>,
)
    ensures
        ({
            let q = ops::default_input(mode, drives);
            &&& q.drives == drives
            &&& q.mode == mode
            &&& q.band_alignment == 4294967296
            &&& q.reserved_head == 134217728
            &&& q.reserved_tail == 8388608
        }),
{
}

// ---------------------------------------------------------------------------
// Bands
// ---------------------------------------------------------------------------

/// A band ends its size behind its start, takes up its size on every member,
/// and can be recovered as long as no more of its members are lost than its
/// level survives.
pub proof fn what_a_band_is(b: BandView, victims: Seq<Seq<char>>)
    ensures
        b.offset + b.size <= u64::MAX ==> b.end() == b.offset + b.size,
        b.raw() == b.size * b.members.len(),
        ({
            let lost = b.members.filter(|m: Seq<char>| victims.contains(m)).len();
            &&& b.level == RaidLevel::Raid1 ==> (b.survives(victims) <==> lost <= 1)
            &&& b.level == RaidLevel::Raid5 ==> (b.survives(victims) <==> lost <= 1)
            &&& b.level == RaidLevel::Raid6 ==> (b.survives(victims) <==> lost <= 2)
        }),
{
}

/// Why a band is refused: for no size, then for too few members for its level,
/// then for a member that is there twice. In a mode, before that, for too few
/// members for the mode, or for another level than the mode picks.
pub proof fn why_a_band_is_refused(b: BandView, mode: RedundancyMode)
    requires
        b.members.len() <= usize::MAX,
    ensures
        ({
            let n = b.members.len();
            let least = match b.level {
                RaidLevel::Raid1 => 2nat,
                RaidLevel::Raid5 => 3nat,
                RaidLevel::Raid6 => 4nat,
            };
            let floor = if mode == RedundancyMode::Shr {
                2nat
            } else {
                4nat
            };
            let picked = if mode == RedundancyMode::Shr2 {
                RaidLevel::Raid6
            } else if n == 2 {
                RaidLevel::Raid1
            } else {
                RaidLevel::Raid5
            };
            &&& b.size == 0 ==> b.checked() == Err::<BandView, BandError>(BandError::ZeroSize)
            &&& b.size > 0 && n < least ==> (b.checked() matches Err(
                BandError::InsufficientForLevel { got, min, level },
            ) && got == n && min == least && level == b.level)
            &&& b.size > 0 && n >= least && !b.members.no_duplicates() ==> b.checked() == Err::<
                BandView,
                BandError,
            >(BandError::DuplicateMember)
            &&& b.size > 0 && n >= least && b.members.no_duplicates() ==> b.checked() == Ok::<
                BandView,
                BandError,
            >(b)
            &&& n < floor ==> (b.checked_in(mode) matches Err(
                BandError::InsufficientForMode { got, min },
            ) && got == n && min == floor)
            &&& n >= floor && b.level != picked ==> (b.checked_in(mode) matches Err(
                BandError::LevelMismatch { expected, got },
            ) && expected == picked && got == b.level)
            &&& n >= floor && b.level == picked ==> b.checked_in(mode) == b.checked()
        }),
{
}

// ---------------------------------------------------------------------------
// Why a snapshot or an expansion is refused
// ---------------------------------------------------------------------------

/// What is wrong with one band of a snapshot is told in the order of the
/// checks: too few members, the wrong level, a gap below it, then the first
/// member that is not listed or too small.
pub proof fn what_is_wrong_with_a_band(s: SnapshotView, b: BandView, expected: u64)
    ensures
        ({
            let f = expansion::band_fault(s, b, expected);
            let n = b.members.len();
            let floor = if s.mode == RedundancyMode::Shr {
                2nat
            } else {
                4nat
            };
            let word = if s.mode == RedundancyMode::Shr {
                "Shr"@
            } else {
                "Shr2"@
            };
            let picked = raid::mode_level(s.mode, n);
            &&& n < floor ==> f == Some(
                "band "@ + text::dec(b.index as nat) + " has "@ + text::dec(n)
                    + " members, below the "@ + word + " minimum "@ + text::dec(floor),
            )
            &&& n >= floor && picked != Some(b.level) ==> f is Some && text::starts_with(
                f->0,
                "band "@ + text::dec(b.index as nat) + " level "@,
            )
            &&& n >= floor && picked == Some(b.level) && b.offset != expected ==> f == Some(
                "band "@ + text::dec(b.index as nat) + " offset "@ + text::dec(b.offset as nat)
                    + " is not contiguous (expected "@ + text::dec(expected as nat) + ")"@,
            )
            &&& f is None ==> n >= floor && picked == Some(b.level) && b.offset == expected
                && expansion_laws::members_fit(s, b)
        }),
{
    let start = "band "@ + text::dec(b.index as nat) + " level "@;
    let whole = expansion::wrong_level_text(s.mode, b);
    assert(whole.subrange(0, start.len() as int) =~= start);
    lemma_members_fit(s, b, b.members.len());
}

proof fn lemma_members_fit(s: SnapshotView, b: BandView, n: nat)
    requires
        n <= b.members.len(),
    ensures
        expansion::member_fault(s, b, n) is None ==> forall|i: int|
            0 <= i < n ==> (expansion::size_of(s.drives, #[trigger] b.members[i]) matches Some(size)
                && b.end() <= expansion::between_reserves(s, size)),
    decreases n,
{
    if n > 0 {
        lemma_members_fit(s, b, (n - 1) as nat);
    }
}

/// Why an existing band keeps an expansion from being planned: it is gone from
/// the ideal layout, lies elsewhere in it, has a lower level or misses a member
/// there; the first of these is told.
pub proof fn why_a_band_stands_in_the_way(b: BandView, ideal: Seq<BandView>)
    ensures
        ({
            let c = expansion::change(b, ideal);
            let t = ideal[b.index as int];
            let name = "band "@ + text::dec(b.index as nat);
            &&& b.index >= ideal.len() ==> c is Err && c->Err_0 == name
                + " would disappear after replanning"@
            &&& b.index < ideal.len() && (t.offset != b.offset || t.size != b.size) ==> c is Err
                && c->Err_0 == name + " geometry would change ("@ + text::dec(b.offset as nat)
                + "+"@ + text::dec(b.size as nat) + " -> "@ + text::dec(t.offset as nat) + "+"@
                + text::dec(t.size as nat) + "); re-slicing existing bands is not allowed"@
            &&& c is Ok ==> b.index < ideal.len() && t.offset == b.offset && t.size == b.size && (
            t.level == b.level || (b.level == RaidLevel::Raid1 && t.level != RaidLevel::Raid1) || (
            b.level == RaidLevel::Raid5 && t.level == RaidLevel::Raid6)) && forall|m: Seq<char>|
                b.members.contains(m) ==> t.members.contains(m)
        }),
{
    if b.index < ideal.len() {
        expansion_laws::lemma_first_missing(b.members, ideal[b.index as int].members);
    }
}

/// The sentences about what keeps a plan from being made.
pub proof fn why_there_is_no_plan(got: usize, min: usize, index: usize, why: Seq<char>)
    ensures
        planner::plan_fault_text(PlanFault::TooFewDisks { got, min }) == "too few disks: got "@
            + text::dec(got as nat) + ", mode requires at least "@ + text::dec(min as nat),
        planner::plan_fault_text(PlanFault::NoRedundantCapacity)
            == "no redundant band could be formed from the given disks"@,
        planner::plan_fault_text(PlanFault::InvalidSnapshot(why))
            == "invalid current layout snapshot: "@ + why,
        planner::plan_fault_text(PlanFault::UnsafeExpansion(why)) == "expansion would be unsafe: "@
            + why,
        planner::plan_fault_text(PlanFault::LayoutVersionOverflow)
            == "layout version would overflow u64"@,
        planner::plan_fault_text(PlanFault::TooManyBands { index })
            == "layout would need band_index "@ + text::dec(index as nat)
            + ", which does not fit in u8 (max 255)"@,
        planner::plan_fault_text(PlanFault::Band(BandError::DuplicateMember))
            == "a disk appears twice in one band (single point of failure)"@,
        planner::plan_fault_text(PlanFault::Band(BandError::ZeroSize))
            == "band size must be greater than zero"@,
        band::band_error_text(BandError::InsufficientForMode { got, min }) == "band has "@
            + text::dec(got as nat) + " members but mode requires at least "@ + text::dec(
            min as nat,
        ),
{
}

// ---------------------------------------------------------------------------
// Typed disks
// ---------------------------------------------------------------------------

/// What is wrong with a typed size is told with the size, trimmed; the disks
/// that typed sizes stand for are numbered from zero.
pub proof fn what_is_wrong_with_a_typed_size(raw: Seq<char>, i: nat)
    ensures
        sizes::fault_text(raw, SizeFault::NoNumber) == "invalid size `"@ + text::trimmed(raw)
            + "`"@,
        sizes::fault_text(raw, SizeFault::NotFinite) == "size `"@ + text::trimmed(raw)
            + "` is not a finite number"@,
        sizes::fault_text(raw, SizeFault::Negative) == "size `"@ + text::trimmed(raw)
            + "` is negative"@,
        sizes::fault_text(raw, SizeFault::TooLarge) == "size `"@ + text::trimmed(raw)
            + "` is too large"@,
        sizes::disk_name(i) == "disk"@ + text::dec(i),
{
}

/// The first size that is wrong is the one that is told.
pub proof fn the_first_wrong_size_is_told(
    raws: Seq<Seq<char>>,
    numbers: Seq<Option<u64>>,
)
    ensures
        match sizes::first_fault(raws, numbers) {
            None => forall|k: int|
                0 <= k < raws.len() ==> sizes::size_of(#[trigger] raws[k], numbers[k]) is Ok,
            Some((i, f)) => {
                &&& 0 <= i < raws.len()
                &&& sizes::size_of(raws[i], numbers[i]) == Err::<nat, SizeFault>(f)
                &&& forall|k: int|
                    0 <= k < i ==> sizes::size_of(#[trigger] raws[k], numbers[k]) is Ok
            },
        },
    decreases raws.len(),
{
    if raws.len() > 0 {
        let head = raws.drop_last();
        the_first_wrong_size_is_told(head, numbers);
        match sizes::first_fault(head, numbers) {
            Some((i, f)) => {
                assert(raws[i] == head[i]);
                assert forall|k: int| 0 <= k < i implies sizes::size_of(
                    #[trigger] raws[k],
                    numbers[k],
                ) is Ok by {
                    assert(head[k] == raws[k]);
                }
            },
            None => {
                assert forall|k: int| 0 <= k < head.len() implies sizes::size_of(
                    #[trigger] raws[k],
                    numbers[k],
                ) is Ok by {
                    assert(head[k] == raws[k]);
                }
            },
        }
    }
}

// ---------------------------------------------------------------------------
// Launching
// ---------------------------------------------------------------------------

/// Windows are drawn only on a terminal of at least 80 columns and 24 rows that
/// can draw, and never where that was ruled out.
pub proof fn where_windows_are_drawn(no_tui: bool, tty: bool, dumb: bool, cols: u16, rows: u16)
    ensures
        ui_mode::drawable(no_tui, tty, dumb, Some((cols, rows))) <==> !no_tui && tty && !dumb && cols
            >= 80 && rows >= 24,
        !ui_mode::drawable(no_tui, tty, dumb, None),
{
}

/// Asked for by flag, windows are drawn; any other argument runs a command;
/// without arguments the terminal decides.
pub proof fn what_is_launched(args: Seq<String>, interactive: bool)
    ensures
        (exists|i: int| 0 <= i < args.len() && (#[trigger] args[i])@ == "--tui"@)
            ==> ui_mode::launch_mode(args, interactive) == UiMode::Tui,
        args.len() > 0 && (forall|i: int| 0 <= i < args.len() ==> (#[trigger] args[i])@ != "--tui"@)
            ==> ui_mode::launch_mode(args, interactive) == UiMode::Cli,
        args.len() == 0 && interactive ==> ui_mode::launch_mode(args, interactive) == UiMode::Tui,
        args.len() == 0 && !interactive ==> ui_mode::launch_mode(args, interactive) == UiMode::Cli,
{
}

/// The flags that choose how to launch are dropped, every other argument is
/// handed on in its place.
pub proof fn arguments_are_handed_on(args: Seq<Seq<char>>)
    ensures
        ui_mode::other_args(args) == args.filter(
            |a: Seq<char>| a != "--tui"@ && a != "--no-tui"@,
        ),
    decreases args.len(),
{
    reveal(Seq::filter);
    if args.len() > 0 {
        arguments_are_handed_on(args.drop_last());
    }
}

/// Where the state, its lock and the configuration of the host are.
pub proof fn where_the_files_are()
    ensures
        paths::STATE_PATH@ == "/var/lib/shr-rs/state.toml"@,
        paths::STATE_LOCK_PATH@ == "/var/lib/shr-rs/.shr-rs.lock"@,
        paths::MDADM_CONF_PATH@ == "/etc/mdadm.conf"@,
        paths::FSTAB_PATH@ == "/etc/fstab"@,
        paths::SYSTEMD_UNIT_DIR@ == "/etc/systemd/system"@,
        paths::NOTIFY_POLICY_PATH@ == "/etc/shr-rs/policy.toml"@,
        report::SCHEMA_VERSION == 2,
{
}

} // verus!
