//! What the pages show: the word for each state, a line for each thing that
//! was observed, and how a page is fitted to a terminal.

use vstd::prelude::*;
use crate::detail;
use crate::figures;
use crate::figures::Decimal;
use crate::plan_view;
use crate::preflight;
use crate::preflight::WritePreflight;
use crate::render;
use crate::report::{
    ArrayStatus, DiskStatus, FsDfReport, GroupBandStatus, GroupStatus, Health, MemberStatus,
    PlanReport, ScrubOutcome, SmartState, StatusReport, SyncSummary,
};
use crate::status;
use crate::table;
use crate::text;
use crate::watch;
use crate::watch::WatchFrameMeta;

verus! {

// ---------------------------------------------------------------------------
// Words
// ---------------------------------------------------------------------------

/// The words for the health of the host.
pub proof fn words_for_health()
    ensures
        render::health_banner(Health::Healthy) == "● HEALTHY"@,
        render::health_banner(Health::Degraded) == "▲ DEGRADED"@,
        render::health_banner(Health::Unknown) == "○ UNKNOWN (no RAID array found)"@,
        detail::health_text(Health::Healthy) == "HEALTHY"@,
        detail::health_text(Health::Degraded) == "DEGRADED"@,
        detail::health_text(Health::Unknown) == "UNKNOWN (no RAID array found)"@,
{
}

/// The words for a disk: what is not known is told so, and never as a figure.
pub proof fn words_for_disks(n: u64, t: i64, s: String)
    ensures
        render::smart_text(SmartState::Good) == "ok"@,
        render::smart_text(SmartState::Warning) == "WARN"@,
        render::smart_text(SmartState::Unknown) == "?"@,
        render::rotation_text(Some(true)) == "HDD"@,
        render::rotation_text(Some(false)) == "SSD"@,
        render::rotation_text(None) == "?"@,
        render::opt_text(Some(s)) == s@,
        render::opt_text(None) == "-"@,
        render::size_text(Some(n)) == figures::bytes_text(n as nat),
        render::size_text(None) == "?"@,
        render::count_text(Some(n)) == text::dec(n as nat),
        render::count_text(None) == "?"@,
        detail::hours_text(Some(n)) == text::dec(n as nat) + "h"@,
        detail::hours_text(None) == "?"@,
        render::temperature_text(None) == "-"@,
        t >= 0 ==> render::temperature_text(Some(t)) == text::dec(t as nat) + "C"@,
        t < 0 ==> render::temperature_text(Some(t)) == seq!['-'] + text::dec((-t) as nat) + "C"@,
{
    crate::text_laws::negative_numbers_have_a_minus(t as int);
}

/// The words for an array: its state, marked where it is read-only and where it
/// is degraded; its active disks out of all, or its members where those are not
/// known; how far its sync is.
pub proof fn words_for_arrays(a: ArrayStatus)
    ensures
        ({
            let s = render::array_state_text(a);
            &&& !a.read_only && !a.degraded ==> s == a.state@
            &&& a.read_only && !a.degraded ==> s == a.state@ + ",ro"@
            &&& !a.read_only && a.degraded ==> s == a.state@ + ",degraded"@
            &&& a.read_only && a.degraded ==> s == a.state@ + ",ro"@ + ",degraded"@
        }),
        a.active_disks is Some && a.raid_disks is Some ==> render::array_disks_text(a) == text::dec(
            a.active_disks->0 as nat,
        ) + "/"@ + text::dec(a.raid_disks->0 as nat),
        a.active_disks is None || a.raid_disks is None ==> render::array_disks_text(a) == text::dec(
            a.members@.len(),
        ),
        a.sync is None ==> render::array_progress_text(a.sync) == "idle"@,
        a.sync is Some && a.sync->0.percent is None ==> render::array_progress_text(a.sync)
            == a.sync->0.action@ + " pending"@,
        a.sync is Some && a.sync->0.percent is Some ==> render::array_progress_text(a.sync)
            == a.sync->0.action@ + " "@ + figures::decimal_text(a.sync->0.percent->0) + "%"@,
{
}

/// The words for a band: an unfinished expansion and a missing array are told,
/// and nothing where there is neither.
pub proof fn words_for_bands(b: GroupBandStatus)
    ensures
        render::pending_text(true) == " [expansion unfinished]"@,
        render::pending_text(false) == ""@,
        b.members@.len() == 0 ==> render::unassembled_text(b) == " (no live mdadm array)"@,
        b.members@.len() > 0 ==> render::unassembled_text(b) == ""@,
        b.members@.len() == 0 ==> detail::activity_text(b) == "no live mdadm array"@,
        b.members@.len() > 0 && b.sync is None ==> detail::activity_text(b) == "idle"@,
        detail::scrub_word(ScrubOutcome::Completed) == "completed"@,
        detail::scrub_word(ScrubOutcome::Cancelled) == "cancelled"@,
        detail::scrub_word(ScrubOutcome::Failed) == "FAILED"@,
        b.members@.len() == 0 ==> detail::members_text(b) == "-"@,
{
}

/// The marks of a member: faulty or else spare, then mostly written, then
/// replacement; a healthy member has none.
pub proof fn marks_of_members(m: MemberStatus)
    ensures
        ({
            let s = render::marks_text(m);
            let first = if m.faulty {
                "(F)"@
            } else if m.spare {
                "(S)"@
            } else {
                ""@
            };
            &&& !m.write_mostly && !m.replacement ==> s == first
            &&& m.write_mostly && !m.replacement ==> s == first + "(W)"@
            &&& !m.write_mostly && m.replacement ==> s == first + "(R)"@
            &&& m.write_mostly && m.replacement ==> s == first + "(W)"@ + "(R)"@
        }),
{
}

/// A member has the marks of the first state under its name; without one it has
/// none.
pub proof fn members_are_marked_by_name(states: Seq<MemberStatus>, name: Seq<char>, k: int)
    ensures
        0 <= k < states.len() && states[k].name@ == name && (forall|j: int|
            0 <= j < k ==> (#[trigger] states[j]).name@ != name) ==> render::marked_text(name, states)
            == name + render::marks_text(states[k]),
        (forall|j: int| 0 <= j < states.len() ==> (#[trigger] states[j]).name@ != name)
            ==> render::marked_text(name, states) == name,
    decreases states.len(),
{
    if states.len() > 0 {
        let rest = states.subrange(1, states.len() as int);
        members_are_marked_by_name(rest, name, k - 1);
        if states[0].name@ != name {
            if 0 <= k < states.len() && states[k].name@ == name && (forall|j: int|
                0 <= j < k ==> (#[trigger] states[j]).name@ != name) {
                assert(rest[k - 1] == states[k]);
                assert forall|j: int| 0 <= j < k - 1 implies (#[trigger] rest[j]).name@ != name by {
                    assert(states[j + 1].name@ != name);
                }
            }
            if forall|j: int| 0 <= j < states.len() ==> (#[trigger] states[j]).name@ != name {
                assert forall|j: int| 0 <= j < rest.len() implies (#[trigger] rest[j]).name@
                    != name by {
                    assert(states[j + 1].name@ != name);
                }
            }
        } else if k > 0 {
            assert(states[0].name@ == name);
        }
    }
}

// ---------------------------------------------------------------------------
// Lines
// ---------------------------------------------------------------------------

proof fn lemma_group_rows(groups: Seq<GroupStatus>, g: int)
    requires
        0 <= g < groups.len(),
    ensures
        render::status_group_rows(groups).contains(render::status_group_row(groups[g])),
        forall|b: int|
            0 <= b < groups[g].bands@.len() ==> render::status_group_rows(groups).contains(
                render::status_band_row(#[trigger] groups[g].bands@[b]),
            ),
        detail::group_texts(groups).contains(detail::group_text(groups[g])),
        forall|b: int|
            0 <= b < groups[g].bands@.len() ==> detail::group_texts(groups).contains(
                detail::band_text(#[trigger] groups[g].bands@[b]),
            ),
        watch::band_texts(groups).len() >= groups[g].bands@.len(),
        forall|b: int|
            0 <= b < groups[g].bands@.len() ==> watch::band_texts(groups).contains(
                watch::band_text(#[trigger] groups[g].bands@[b]),
            ),
    decreases groups.len(),
{
    let head = groups.drop_last();
    let last = groups.last();
    let rows = render::status_group_rows(groups);
    let before = render::status_group_rows(head);
    let texts = detail::group_texts(groups);
    let texts_before = detail::group_texts(head);
    let bands = watch::band_texts(groups);
    let bands_before = watch::band_texts(head);
    if g < head.len() {
        lemma_group_rows(head, g);
        assert(head[g] == groups[g]);
        assert forall|x: Seq<char>| before.contains(x) implies rows.contains(x) by {
            let i = choose|i: int| 0 <= i < before.len() && before[i] == x;
            assert(rows[i] == x);
        }
        assert forall|x: Seq<char>| texts_before.contains(x) implies texts.contains(x) by {
            let i = choose|i: int| 0 <= i < texts_before.len() && texts_before[i] == x;
            assert(texts[i] == x);
        }
        assert forall|x: Seq<char>| bands_before.contains(x) implies bands.contains(x) by {
            let i = choose|i: int| 0 <= i < bands_before.len() && bands_before[i] == x;
            assert(bands[i] == x);
        }
    } else {
        assert(rows[before.len() as int] == render::status_group_row(last));
        assert(texts[texts_before.len() as int] == detail::group_text(last));
        assert forall|b: int| 0 <= b < last.bands@.len() implies rows.contains(
            render::status_band_row(#[trigger] last.bands@[b]),
        ) by {
            assert(rows[before.len() + 1 + b] == render::status_band_row(last.bands@[b]));
        }
        assert forall|b: int| 0 <= b < last.bands@.len() implies texts.contains(
            detail::band_text(#[trigger] last.bands@[b]),
        ) by {
            assert(texts[texts_before.len() + 1 + b] == detail::band_text(last.bands@[b]));
        }
        assert forall|b: int| 0 <= b < last.bands@.len() implies bands.contains(
            watch::band_text(#[trigger] last.bands@[b]),
        ) by {
            assert(bands[bands_before.len() + b] == watch::band_text(last.bands@[b]));
        }
    }
}

/// A status shows the verdict on its first line and then a line for every disk,
/// in their order, for every array, every group and every band.
pub proof fn a_status_leaves_nothing_out(r: StatusReport)
    ensures
        ({
            let lines = render::status_lines(r);
            &&& lines[0] == "SHR-RS status: "@ + render::health_banner(r.health)
            &&& forall|i: int|
                0 <= i < r.disks@.len() ==> lines[3 + i] == render::status_disk_row(
                    #[trigger] r.disks@[i],
                )
            &&& forall|i: int|
                0 <= i < r.arrays@.len() ==> lines[5 + r.disks@.len() + i]
                    == render::status_array_row(#[trigger] r.arrays@[i])
            &&& forall|g: int|
                0 <= g < r.groups@.len() ==> lines.contains(
                    render::status_group_row(#[trigger] r.groups@[g]),
                )
            &&& forall|g: int, b: int|
                0 <= g < r.groups@.len() && 0 <= b < r.groups@[g].bands@.len() ==> lines.contains(
                    render::status_band_row(#[trigger] r.groups@[g].bands@[b]),
                )
        }),
{
    let lines = render::status_lines(r);
    let tail = render::status_group_section(r);
    let at = lines.len() - tail.len();
    let rows = render::status_group_rows(r.groups@);
    assert forall|i: int| 0 <= i < r.arrays@.len() implies lines[5 + r.disks@.len() + i]
        == render::status_array_row(#[trigger] r.arrays@[i]) by {
        let section = render::status_array_section(r);
        assert(section[2 + i] == render::status_array_row(r.arrays@[i]));
        assert(lines[3 + r.disks@.len() + 2 + i] == section[2 + i]);
    }
    if r.groups@.len() > 0 {
        assert forall|x: Seq<char>| rows.contains(x) implies lines.contains(x) by {
            let i = choose|i: int| 0 <= i < rows.len() && rows[i] == x;
            assert(tail[2 + i] == x);
            assert(lines[at + 2 + i] == tail[2 + i]);
        }
    }
    assert forall|g: int| 0 <= g < r.groups@.len() implies lines.contains(
        render::status_group_row(#[trigger] r.groups@[g]),
    ) by {
        lemma_group_rows(r.groups@, g);
    }
    assert forall|g: int, b: int|
        0 <= g < r.groups@.len() && 0 <= b < r.groups@[g].bands@.len() implies lines.contains(
        render::status_band_row(#[trigger] r.groups@[g].bands@[b]),
    ) by {
        lemma_group_rows(r.groups@, g);
    }
}

/// A detailed status does so too, and names every disk that backs no array.
pub proof fn a_detailed_status_leaves_nothing_out(r: StatusReport)
    ensures
        ({
            let lines = detail::detail_lines(r);
            &&& lines[0] == "SHR-RS status (detail): "@ + detail::health_text(r.health)
            &&& forall|i: int|
                0 <= i < r.disks@.len() ==> lines[4 + i] == detail::disk_row(#[trigger] r.disks@[i])
            &&& forall|g: int|
                0 <= g < r.groups@.len() ==> lines.contains(
                    detail::group_text(#[trigger] r.groups@[g]),
                )
            &&& forall|g: int, b: int|
                0 <= g < r.groups@.len() && 0 <= b < r.groups@[g].bands@.len() ==> lines.contains(
                    detail::band_text(#[trigger] r.groups@[g].bands@[b]),
                )
            &&& forall|i: int|
                0 <= i < r.disks@.len() && (#[trigger] r.disks@[i]).arrays@.len() == 0
                    ==> lines.contains(detail::idle_row(r.disks@[i]))
        }),
{
    let lines = detail::detail_lines(r);
    let n = r.disks@.len();
    let section = detail::group_section(r);
    let tail = detail::unassigned_section(r);
    let rows = detail::group_texts(r.groups@);
    assert forall|i: int| 0 <= i < section.len() implies lines[5 + n + i] == #[trigger] section[i] by {}
    assert forall|i: int| 0 <= i < tail.len() implies lines[6 + n + section.len() + i]
        == #[trigger] tail[i] by {}
    if r.groups@.len() > 0 {
        assert forall|x: Seq<char>| rows.contains(x) implies lines.contains(x) by {
            let i = choose|i: int| 0 <= i < rows.len() && rows[i] == x;
            assert(section[1 + i] == x);
        }
    }
    assert forall|g: int| 0 <= g < r.groups@.len() implies lines.contains(
        detail::group_text(#[trigger] r.groups@[g]),
    ) by {
        lemma_group_rows(r.groups@, g);
    }
    assert forall|g: int, b: int|
        0 <= g < r.groups@.len() && 0 <= b < r.groups@[g].bands@.len() implies lines.contains(
        detail::band_text(#[trigger] r.groups@[g].bands@[b]),
    ) by {
        lemma_group_rows(r.groups@, g);
    }
    let idle = |d: DiskStatus| d.arrays@.len() == 0;
    let some = r.disks@.filter(idle);
    assert(detail::unassigned(r.disks@) == some);
    assert forall|i: int| 0 <= i < n && (#[trigger] r.disks@[i]).arrays@.len()
        == 0 implies lines.contains(detail::idle_row(r.disks@[i])) by {
        assert(idle(r.disks@[i]));
        r.disks@.lemma_filter_contains(idle, i);
        let k = choose|k: int| 0 <= k < some.len() && some[k] == r.disks@[i];
        assert(tail[1 + k] == detail::idle_row(some[k]));
    }
}

/// What backs no array is counted over exactly the disks that have none, each
/// with its size where that is known.
pub proof fn idle_capacity_is_that_of_disks_without_an_array(disks: Seq<DiskStatus>)
    ensures
        table::total(detail::known_sizes(detail::unassigned(disks))) == disks.fold_left(
            0int,
            |sum: int, d: DiskStatus|
                if d.arrays@.len() == 0 {
                    sum + (match d.size {
                        Some(n) => n as int,
                        None => 0,
                    })
                } else {
                    sum
                },
        ),
        forall|d: DiskStatus| #[trigger]
            detail::unassigned(disks).contains(d) <==> disks.contains(d) && d.arrays@.len() == 0,
    decreases disks.len(),
{
    reveal(Seq::fold_left);
    reveal(Seq::filter);
    let idle = |d: DiskStatus| d.arrays@.len() == 0;
    let some = detail::unassigned(disks);
    if disks.len() > 0 {
        idle_capacity_is_that_of_disks_without_an_array(disks.drop_last());
        let before = detail::unassigned(disks.drop_last());
        if disks.last().arrays@.len() == 0 {
            assert(some == before.push(disks.last()));
            assert(detail::known_sizes(some).drop_last() =~= detail::known_sizes(before));
            assert(detail::known_sizes(some).last() == (match disks.last().size {
                Some(n) => n as nat,
                None => 0,
            }));
        }
    }
    assert forall|d: DiskStatus| #[trigger] some.contains(d) <==> disks.contains(d)
        && d.arrays@.len() == 0 by {
        if some.contains(d) {
            let i = choose|i: int| 0 <= i < some.len() && some[i] == d;
            disks.lemma_filter_pred(idle, i);
            disks.lemma_filter_contains_rev(idle, d);
        }
        if disks.contains(d) && d.arrays@.len() == 0 {
            let i = choose|i: int| 0 <= i < disks.len() && disks[i] == d;
            disks.lemma_filter_contains(idle, i);
        }
    }
}

/// How full the groups are is shown with a line for every group, in their
/// order, behind eight lines of heading.
pub proof fn every_group_has_its_usage_line(r: FsDfReport)
    ensures
        render::df_lines(r).len() == 8 + r.groups@.len(),
        render::df_lines(r)[7] == render::df_header(),
        forall|i: int|
            0 <= i < r.groups@.len() ==> render::df_lines(r)[8 + i] == render::df_row(
                #[trigger] r.groups@[i],
            ),
{
}

/// A plan is shown with a line for every band, in their order, then the totals
/// and the bar, then every warning.
pub proof fn a_plan_leaves_nothing_out(r: PlanReport)
    ensures
        ({
            let lines = plan_view::plan_lines(r);
            let n = r.bands@.len();
            &&& forall|i: int|
                0 <= i < n ==> lines[3 + i] == plan_view::plan_row(#[trigger] r.bands@[i])
            &&& lines[4 + n as int] == "  Usable "@ + figures::bytes_text(
                r.metrics.total_usable as nat,
            ) + "   Parity "@ + figures::bytes_text(r.metrics.redundancy_overhead as nat)
                + "   Stranded "@ + figures::bytes_text(r.metrics.stranded_bytes as nat)
                + "   Raw "@ + figures::bytes_text(r.metrics.total_raw as nat)
            &&& forall|i: int|
                0 <= i < r.warnings@.len() ==> lines[7 + n + i] == "  ! "@ + (
                #[trigger] r.warnings@[i])@
            &&& lines.len() == 6 + n + (if r.warnings@.len() > 0 {
                1 + r.warnings@.len()
            } else {
                0
            })
        }),
{
}

/// The safety checks are shown with the verdict first, then a line for every
/// blocker and every warning; how to override content is told exactly where
/// content is what blocks.
pub proof fn a_preflight_leaves_nothing_out(r: WritePreflight)
    ensures
        ({
            let lines = preflight::preflight_lines(r);
            &&& r.ok ==> lines[0] == "SHR-RS preflight: "@ + "OK"@
            &&& !r.ok ==> lines[0] == "SHR-RS preflight: "@ + "BLOCKED"@
            &&& forall|i: int|
                0 <= i < r.blockers@.len() ==> lines.contains(
                    "  BLOCK: "@ + (#[trigger] r.blockers@[i]).text@,
                )
            &&& forall|i: int|
                0 <= i < r.warnings@.len() ==> lines.contains("  WARN:  "@ + (#[trigger] r.warnings@[i])@)
            &&& lines.len() == 1 + preflight::targets_lines(r.targets@).len() + r.blockers@.len()
                + r.warnings@.len() + (if exists|i: int|
                0 <= i < r.blockers@.len() && (#[trigger] r.blockers@[i]).has_content {
                1int
            } else {
                0int
            })
        }),
{
    let lines = preflight::preflight_lines(r);
    let t = preflight::targets_lines(r.targets@).len();
    assert forall|i: int| 0 <= i < r.blockers@.len() implies lines.contains(
        "  BLOCK: "@ + (#[trigger] r.blockers@[i]).text@,
    ) by {
        assert(preflight::blocker_lines(r.blockers@)[i] == "  BLOCK: "@ + r.blockers@[i].text@);
        assert(lines[1 + t + i] == preflight::blocker_lines(r.blockers@)[i]);
    }
    assert forall|i: int| 0 <= i < r.warnings@.len() implies lines.contains(
        "  WARN:  "@ + (#[trigger] r.warnings@[i])@,
    ) by {
        assert(preflight::warning_lines(r.warnings@)[i] == "  WARN:  "@ + r.warnings@[i]@);
        assert(lines[1 + t + r.blockers@.len() + i] == preflight::warning_lines(r.warnings@)[i]);
    }
}

/// Every disk that was checked is told with its names, whether the system lives
/// on it and whether it holds something, and with what is mounted from it.
pub proof fn every_checked_disk_is_told(targets: Seq<preflight::Target>, i: int)
    requires
        0 <= i < targets.len(),
    ensures
        ({
            let t = targets[i];
            let lines = preflight::targets_lines(targets);
            &&& lines.contains(
                "  "@ + t.kernel_name@ + "  id="@ + (match t.id {
                    Some(id) => id@,
                    None => "(no stable id)"@,
                }) + "  system="@ + (if t.system_disk {
                    "true"@
                } else {
                    "false"@
                }) + "  content="@ + (if t.has_content {
                    "true"@
                } else {
                    "false"@
                }),
            )
            &&& t.system_mounts@.len() > 0 ==> lines.contains(
                "    mounts: "@ + text::joined(text::views(t.system_mounts@), ", "@),
            )
        }),
    decreases targets.len(),
{
    let lines = preflight::targets_lines(targets);
    let head = targets.drop_last();
    let before = preflight::targets_lines(head);
    if i < head.len() {
        every_checked_disk_is_told(head, i);
        assert forall|x: Seq<char>| before.contains(x) implies lines.contains(x) by {
            let k = choose|k: int| 0 <= k < before.len() && before[k] == x;
            assert(lines[k] == x);
        }
    } else {
        let own = preflight::target_lines(targets.last());
        assert(lines[before.len() as int] == own[0]);
        if targets.last().system_mounts@.len() > 0 {
            assert(lines[(before.len() + 1) as int] == own[1]);
        }
    }
}

// ---------------------------------------------------------------------------
// Frames
// ---------------------------------------------------------------------------

/// A frame shows the verdict, then a line for every array and for every band.
pub proof fn a_frame_has_a_line_for_every_array_and_band(r: StatusReport)
    ensures
        ({
            let lines = watch::content(r);
            &&& lines[0] == "SHR-RS status (watch): "@ + detail::health_text(r.health)
            &&& forall|i: int|
                0 <= i < r.arrays@.len() ==> lines[3 + i] == watch::array_text(#[trigger] r.arrays@[i])
            &&& forall|g: int, b: int|
                0 <= g < r.groups@.len() && 0 <= b < r.groups@[g].bands@.len() ==> lines.contains(
                    watch::band_text(#[trigger] r.groups@[g].bands@[b]),
                )
        }),
{
    let lines = watch::content(r);
    let top = watch::array_section(r);
    let tail = watch::band_section(r);
    let rows = watch::band_texts(r.groups@);
    assert forall|i: int| 0 <= i < r.arrays@.len() implies lines[3 + i] == watch::array_text(
        #[trigger] r.arrays@[i],
    ) by {
        assert(top[1 + i] == watch::array_text(r.arrays@[i]));
        assert(lines[2 + 1 + i] == top[1 + i]);
    }
    assert forall|g: int, b: int|
        0 <= g < r.groups@.len() && 0 <= b < r.groups@[g].bands@.len() implies lines.contains(
        watch::band_text(#[trigger] r.groups@[g].bands@[b]),
    ) by {
        lemma_group_rows(r.groups@, g);
        let x = watch::band_text(r.groups@[g].bands@[b]);
        let i = choose|i: int| 0 <= i < rows.len() && rows[i] == x;
        assert(tail[2 + i] == x);
        assert(lines[2 + top.len() + 2 + i] == tail[2 + i]);
    }
}

/// Where a frame is high enough every line is on it, in its place, filled up or
/// cut to the width; where it is not, the last line tells how many are not.
pub proof fn lines_keep_their_places_on_the_frame(
    lines: Seq<Seq<char>>,
    meta: WatchFrameMeta,
    i: int,
)
    requires
        0 <= i < meta.max_height,
        meta.width > 0,
    ensures
        ({
            let shown = watch::fitted(lines, meta)[i];
            let whole = i < lines.len() && (lines.len() <= meta.max_height || i < meta.max_height
                - 1);
            &&& whole && lines[i].len() <= meta.width ==> shown == text::left_aligned(
                lines[i],
                meta.width as nat,
            )
            &&& whole && lines[i].len() > meta.width ==> shown == lines[i].subrange(
                0,
                meta.width - 1,
            ).push('>')
            &&& i >= lines.len() ==> shown == text::blanks(meta.width as nat)
            &&& lines.len() > meta.max_height && i == meta.max_height - 1 ==> shown
                == watch::fitted_line(
                "... +"@ + text::dec((lines.len() - (meta.max_height - 1)) as nat)
                    + " more line(s), resize terminal for full detail"@,
                meta.width as nat,
            )
        }),
{
    reveal_strlit(">");
    reveal_strlit("");
    let w = meta.width as nat;
    if i < lines.len() && lines[i].len() > meta.width {
        assert(lines[i].take(w - 1) + ">"@ =~= lines[i].subrange(0, w - 1).push('>'));
    }
    if i >= lines.len() {
        assert(text::left_aligned(""@, w) =~= text::blanks(w));
    }
}

/// The bar of a sync has a mark for every twentieth of it that is done, to the
/// nearest: none at the start, all at the end, and never fewer when more is
/// done.
pub proof fn the_bar_follows_the_progress(p: Decimal, q: Decimal)
    ensures
        0 <= p.tenths <= 1000 ==> 100 * watch::filled(p) <= 2 * p.tenths + 50 && 2 * p.tenths
            <= 100 * watch::filled(p) + 50,
        p.tenths < 0 ==> watch::filled(p) == 0,
        p.tenths > 1000 ==> watch::filled(p) == 20,
        p.tenths <= q.tenths ==> watch::filled(p) <= watch::filled(q),
        watch::WATCH_BAR_WIDTH == 20,
{
}

/// What a line of a frame says of an array or a band: its name, its bar and its
/// sync; of a band also that its array is missing, and that it is checked.
pub proof fn lines_of_a_frame_tell_name_bar_and_sync(a: ArrayStatus, b: GroupBandStatus)
    ensures
        watch::array_text(a) == "  "@ + text::left_aligned(a.name@, 8) + "["@
            + watch::progress_bar_text(
            if a.sync is Some {
                a.sync->0.percent
            } else {
                None
            },
        ) + "] "@ + watch::sync_text(a.sync),
        watch::sync_text(None) == "idle"@,
        b.sync is None && b.members@.len() == 0 && !b.scrub_in_progress ==> watch::band_text(b)
            == "  band"@ + text::left_aligned(text::dec(b.index as nat), 3) + text::left_aligned(
            b.md_name@,
            10,
        ) + "["@ + text::blanks(20) + "] "@ + "no live mdadm array"@ + ""@,
        b.sync is None && b.members@.len() > 0 && b.scrub_in_progress ==> watch::band_text(b)
            == "  band"@ + text::left_aligned(text::dec(b.index as nat), 3) + text::left_aligned(
            b.md_name@,
            10,
        ) + "["@ + text::blanks(20) + "] "@ + "idle"@ + " [scrubbing]"@,
{
}

/// What is told of a running sync: what it does, how far it is, and when it
/// will end where that is known.
pub proof fn syncs_are_told_with_their_progress(s: SyncSummary)
    ensures
        ({
            let eta = if s.finish_min is Some {
                ", finish ~"@ + figures::decimal_text(s.finish_min->0) + "m"@
            } else {
                ""@
            };
            &&& s.percent is Some ==> watch::sync_text(Some(s)) == s.action@ + " "@
                + figures::decimal_text(s.percent->0) + "%"@ + eta
            &&& s.percent is None ==> watch::sync_text(Some(s)) == s.action@ + " pending"@ + eta
        }),
{
}

// ---------------------------------------------------------------------------
// The saved speed limit
// ---------------------------------------------------------------------------

/// A speed limit that is still to be put back is told exactly while no band of
/// any group syncs.
pub proof fn a_left_speed_limit_is_told_once_nothing_syncs(
    saved: Option<u64>,
    groups: Seq<GroupStatus>,
)
    ensures
        status::stale_limit(saved, groups) is Some <==> saved is Some && forall|g: int, b: int|
            0 <= g < groups.len() && 0 <= b < groups[g].bands@.len() ==> (
            #[trigger] groups[g].bands@[b]).sync is None,
{
    if !status::any_syncing(groups) {
        assert forall|g: int, b: int|
            0 <= g < groups.len() && 0 <= b < groups[g].bands@.len() implies (
        #[trigger] groups[g].bands@[b]).sync is None by {
            assert(!status::any_band_syncing(groups[g].bands@));
        }
    } else {
        let g = choose|g: int|
            0 <= g < groups.len() && status::any_band_syncing((#[trigger] groups[g]).bands@);
        let b = choose|b: int|
            0 <= b < groups[g].bands@.len() && (#[trigger] groups[g].bands@[b]).sync is Some;
        assert(groups[g].bands@[b].sync is Some);
    }
}

} // verus!
