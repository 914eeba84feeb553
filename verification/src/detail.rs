//! The detailed status view: a wider disk table, per-band RAID detail with
//! live progress and scrub history, and the disks that back no array.

use vstd::prelude::*;
use crate::figures;
use crate::figures::human_bytes;
use crate::render;
use crate::report::{DiskStatus, GroupBandStatus, GroupStatus, Health, ScrubOutcome, StatusReport};
use crate::table;
use crate::text;

verus! {

/// Column budget for a list of members, past which it is truncated with a
/// "+N more" suffix.
pub const MEMBERS_WIDTH: usize = 48;

/// The word for a health.
pub open spec fn health_text(h: Health) -> Seq<char> {
    match h {
        Health::Healthy => "HEALTHY"@,
        Health::Degraded => "DEGRADED"@,
        Health::Unknown => "UNKNOWN (no RAID array found)"@,
    }
}

/// The word for a health.
pub fn health_word(h: Health) -> (r: &'static str)
    ensures
        r@ == health_text(h),
{
    match h {
        Health::Healthy => "HEALTHY",
        Health::Degraded => "DEGRADED",
        Health::Unknown => "UNKNOWN (no RAID array found)",
    }
}

// ---------------------------------------------------------------------------
// Disks
// ---------------------------------------------------------------------------

/// A number of hours.
pub open spec fn hours_text(h: Option<u64>) -> Seq<char> {
    match h {
        Some(h) => text::dec(h as nat) + "h"@,
        None => "?"@,
    }
}

/// The heading of the table of disks.
pub open spec fn disk_header() -> Seq<char> {
    "  "@ + text::left_aligned("NODE"@, 10) + text::right_aligned("SIZE"@, 10) + "  "@
        + text::left_aligned("MODEL"@, 20) + text::left_aligned("SERIAL"@, 16) + text::left_aligned(
        "SMART"@,
        6,
    ) + text::left_aligned("TEMP"@, 6) + text::right_aligned("POWERON"@, 9) + text::right_aligned(
        "PEND"@,
        6,
    ) + text::right_aligned("REALLOC"@, 8) + text::right_aligned("UNCORR"@, 8)
}

/// The row of a disk.
pub open spec fn disk_row(d: DiskStatus) -> Seq<char> {
    "  "@ + text::left_aligned(d.name@, 10) + text::right_aligned(render::size_text(d.size), 10)
        + "  "@ + text::left_aligned(render::bounded_text(render::opt_text(d.model), 20), 20)
        + text::left_aligned(render::bounded_text(render::opt_text(d.serial), 16), 16)
        + text::left_aligned(render::smart_text(d.smart.state), 6) + text::left_aligned(
        render::temperature_text(d.smart.temperature_c),
        6,
    ) + text::right_aligned(hours_text(d.smart.power_on_hours), 9) + text::right_aligned(
        render::count_text(d.smart.pending_sectors),
        6,
    ) + text::right_aligned(render::count_text(d.smart.reallocated_sectors), 8)
        + text::right_aligned(render::count_text(d.smart.uncorrectable_sectors), 8)
}

/// The rows of the disks.
pub open spec fn disk_rows(list: Seq<DiskStatus>) -> Seq<Seq<char>> {
    list.map_values(|d: DiskStatus| disk_row(d))
}

fn hours(h: Option<u64>) -> (out: String)
    ensures
        out@ == hours_text(h),
{
    match h {
        Some(h) => {
            let mut out = text::decimal(h);
            out.append("h");
            out
        },
        None => "?".to_owned(),
    }
}

fn render_disk_header() -> (out: String)
    ensures
        out@ == disk_header(),
{
    let mut out = "  ".to_owned();
    text::append_left(&mut out, "NODE", 10);
    text::append_right(&mut out, "SIZE", 10);
    out.append("  ");
    text::append_left(&mut out, "MODEL", 20);
    text::append_left(&mut out, "SERIAL", 16);
    text::append_left(&mut out, "SMART", 6);
    text::append_left(&mut out, "TEMP", 6);
    text::append_right(&mut out, "POWERON", 9);
    text::append_right(&mut out, "PEND", 6);
    text::append_right(&mut out, "REALLOC", 8);
    text::append_right(&mut out, "UNCORR", 8);
    out
}

fn render_disk_row(d: &DiskStatus) -> (out: String)
    ensures
        out@ == disk_row(*d),
{
    let size = render::opt_bytes(d.size);
    let model = render::bounded(render::opt(&d.model), 20);
    let serial = render::bounded(render::opt(&d.serial), 16);
    let temp = render::temperature(d.smart.temperature_c);
    let poweron = hours(d.smart.power_on_hours);
    let mut out = "  ".to_owned();
    text::append_left(&mut out, d.name.as_str(), 10);
    text::append_right(&mut out, size.as_str(), 10);
    out.append("  ");
    text::append_left(&mut out, model.as_str(), 20);
    text::append_left(&mut out, serial.as_str(), 16);
    text::append_left(&mut out, render::smart_word(d.smart.state), 6);
    text::append_left(&mut out, temp.as_str(), 6);
    text::append_right(&mut out, poweron.as_str(), 9);
    text::append_right(&mut out, render::opt_count(d.smart.pending_sectors).as_str(), 6);
    text::append_right(&mut out, render::opt_count(d.smart.reallocated_sectors).as_str(), 8);
    text::append_right(&mut out, render::opt_count(d.smart.uncorrectable_sectors).as_str(), 8);
    out
}

/// One row for each disk.
fn render_disk_rows(list: &Vec<DiskStatus>) -> (r: Vec<String>)
    ensures
        text::views(r@) == disk_rows(list@),
{
    let ghost all = disk_rows(list@);
    let mut r: Vec<String> = Vec::new();
    let mut i: usize = 0;
    assert(text::views(r@) =~= all.take(0));
    while i < list.len()
        invariant
            i <= list.len(),
            all == disk_rows(list@),
            text::views(r@) == all.take(i as int),
        decreases list.len() - i,
    {
        text::add_line(&mut r, render_disk_row(&list[i]));
        assert(all.take(i + 1) =~= all.take(i as int).push(all[i as int]));
        i = i + 1;
    }
    assert(all.take(i as int) =~= all);
    r
}

// ---------------------------------------------------------------------------
// Bands
// ---------------------------------------------------------------------------

/// What a band's array is doing right now. A band without members has no live
/// array, which is not the same as an idle one.
pub open spec fn activity_text(b: GroupBandStatus) -> Seq<char> {
    if b.members@.len() == 0 {
        "no live mdadm array"@
    } else {
        match b.sync {
            Some(s) => {
                let eta = match s.finish_min {
                    Some(m) => ", finish ~"@ + figures::decimal_text(m) + " min"@,
                    None => ""@,
                };
                match s.percent {
                    Some(p) => s.action@ + " "@ + figures::decimal_text(p) + "%"@ + eta,
                    None => s.action@ + " pending"@ + eta,
                }
            },
            None => "idle"@,
        }
    }
}

/// The word for how an error check ended.
pub open spec fn scrub_word(o: ScrubOutcome) -> Seq<char> {
    match o {
        ScrubOutcome::Completed => "completed"@,
        ScrubOutcome::Cancelled => "cancelled"@,
        ScrubOutcome::Failed => "FAILED"@,
    }
}

/// A band's scrub history, with a note on a running scrub.
pub open spec fn scrub_text(b: GroupBandStatus) -> Seq<char> {
    let prefix = if b.scrub_in_progress {
        "scrub running; "@
    } else {
        ""@
    };
    match b.last_scrub {
        Some(s) => prefix + "last scrub "@ + scrub_word(s.outcome) + " at "@ + s.finished_at@
            + " ("@ + text::dec(s.error_count as nat) + " errors)"@,
        None => prefix + "last scrub: never"@,
    }
}

/// A band's members with their marks, or a dash where there are none.
pub open spec fn members_text(b: GroupBandStatus) -> Seq<char> {
    if b.members@.len() == 0 {
        "-"@
    } else {
        render::bounded_join(
            render::marked_texts(b.members@, b.member_states@),
            MEMBERS_WIDTH as nat,
        )
    }
}

/// The note on a member that waits for its removal.
pub open spec fn removal_text(name: Option<String>) -> Seq<char> {
    match name {
        Some(name) => "  pending-removal: "@ + name@
            + " (its replace copy is still finishing -- not a new fault)"@,
        None => ""@,
    }
}

/// The row of a band.
pub open spec fn band_text(b: GroupBandStatus) -> Seq<char> {
    "    band"@ + text::left_aligned(text::dec(b.index as nat), 3) + text::left_aligned(b.level@, 7)
        + text::left_aligned(b.md_name@, 10) + text::right_aligned(
        figures::bytes_text(b.usable_bytes as nat),
        12,
    ) + render::pending_text(b.resize_pending) + "  members: "@ + members_text(b) + "  ["@
        + activity_text(b) + "]  "@ + scrub_text(b) + removal_text(b.pending_member_removal)
}

/// The rows of bands.
pub open spec fn band_texts(list: Seq<GroupBandStatus>) -> Seq<Seq<char>> {
    list.map_values(|b: GroupBandStatus| band_text(b))
}

/// The line of a group.
pub open spec fn group_text(g: GroupStatus) -> Seq<char> {
    "  "@ + g.name@ + " (mode="@ + g.mode@ + ", disks="@ + text::dec(g.disks@.len())
        + ", compression="@ + (if g.compression@.len() == 0 {
        "-"@
    } else {
        g.compression@
    }) + ") -> "@ + g.mount_point@
}

/// Each group's line, followed by the lines of its bands.
pub open spec fn group_texts(list: Seq<GroupStatus>) -> Seq<Seq<char>>
    decreases list.len(),
{
    if list.len() == 0 {
        Seq::empty()
    } else {
        group_texts(list.drop_last()).push(group_text(list.last())) + band_texts(list.last().bands@)
    }
}

/// The section about the groups.
pub open spec fn group_section(r: StatusReport) -> Seq<Seq<char>> {
    if r.groups@.len() == 0 {
        seq!["Groups: (none)"@]
    } else {
        seq!["Groups ("@ + text::dec(r.groups@.len()) + "):"@] + group_texts(r.groups@)
    }
}

fn activity(b: &GroupBandStatus) -> (out: String)
    ensures
        out@ == activity_text(*b),
{
    if b.members.len() == 0 {
        return "no live mdadm array".to_owned();
    }
    match &b.sync {
        Some(s) => {
            let eta = match s.finish_min {
                Some(m) => {
                    let mut eta = ", finish ~".to_owned();
                    eta.append(m.to_text().as_str());
                    eta.append(" min");
                    eta
                },
                None => "".to_owned(),
            };
            let mut out = s.action.clone();
            match s.percent {
                Some(p) => {
                    out.append(" ");
                    out.append(p.to_text().as_str());
                    out.append("%");
                    out.append(eta.as_str());
                },
                None => {
                    out.append(" pending");
                    out.append(eta.as_str());
                },
            }
            out
        },
        None => "idle".to_owned(),
    }
}

fn scrub(b: &GroupBandStatus) -> (out: String)
    ensures
        out@ == scrub_text(*b),
{
    let mut out = if b.scrub_in_progress {
        "scrub running; ".to_owned()
    } else {
        "".to_owned()
    };
    match &b.last_scrub {
        Some(s) => {
            out.append("last scrub ");
            match s.outcome {
                ScrubOutcome::Completed => out.append("completed"),
                ScrubOutcome::Cancelled => out.append("cancelled"),
                ScrubOutcome::Failed => out.append("FAILED"),
            }
            out.append(" at ");
            out.append(s.finished_at.as_str());
            out.append(" (");
            text::append_decimal(&mut out, s.error_count);
            out.append(" errors)");
        },
        None => {
            out.append("last scrub: never");
        },
    }
    out
}

fn members(b: &GroupBandStatus) -> (out: String)
    ensures
        out@ == members_text(*b),
{
    if b.members.len() == 0 {
        "-".to_owned()
    } else {
        let marked = render::annotated_members(b.members.as_slice(), b.member_states.as_slice());
        render::join_bounded(&marked, MEMBERS_WIDTH)
    }
}

fn removal(name: &Option<String>) -> (out: String)
    ensures
        out@ == removal_text(*name),
{
    match name {
        Some(name) => {
            let mut out = "  pending-removal: ".to_owned();
            out.append(name.as_str());
            out.append(" (its replace copy is still finishing -- not a new fault)");
            out
        },
        None => "".to_owned(),
    }
}

/// One band's line: level, device, usable capacity, live members, live sync
/// progress, scrub history, and a member whose removal is pending.
pub fn render_band_detail_row(b: &GroupBandStatus) -> (out: String)
    ensures
        out@ == band_text(*b),
{
    let mut out = "    band".to_owned();
    text::append_left(&mut out, text::decimal(b.index as u64).as_str(), 3);
    text::append_left(&mut out, b.level.as_str(), 7);
    text::append_left(&mut out, b.md_name.as_str(), 10);
    text::append_right(&mut out, human_bytes(b.usable_bytes).as_str(), 12);
    out.append(render::pending_mark(b.resize_pending));
    out.append("  members: ");
    out.append(members(b).as_str());
    out.append("  [");
    out.append(activity(b).as_str());
    out.append("]  ");
    out.append(scrub(b).as_str());
    out.append(removal(&b.pending_member_removal).as_str());
    out
}

/// One line for each band.
fn render_band_rows(list: &Vec<GroupBandStatus>) -> (r: Vec<String>)
    ensures
        text::views(r@) == band_texts(list@),
{
    let ghost all = band_texts(list@);
    let mut r: Vec<String> = Vec::new();
    let mut i: usize = 0;
    assert(text::views(r@) =~= all.take(0));
    while i < list.len()
        invariant
            i <= list.len(),
            all == band_texts(list@),
            text::views(r@) == all.take(i as int),
        decreases list.len() - i,
    {
        text::add_line(&mut r, render_band_detail_row(&list[i]));
        assert(all.take(i + 1) =~= all.take(i as int).push(all[i as int]));
        i = i + 1;
    }
    assert(all.take(i as int) =~= all);
    r
}

fn render_group_line(g: &GroupStatus) -> (out: String)
    ensures
        out@ == group_text(*g),
{
    let mut out = "  ".to_owned();
    out.append(g.name.as_str());
    out.append(" (mode=");
    out.append(g.mode.as_str());
    out.append(", disks=");
    text::append_decimal(&mut out, g.disks.len() as u64);
    out.append(", compression=");
    // Always recorded, so an empty value is shown as unknown.
    if g.compression.as_str().unicode_len() == 0 {
        out.append("-");
    } else {
        out.append(g.compression.as_str());
    }
    out.append(") -> ");
    out.append(g.mount_point.as_str());
    out
}

fn render_group_section(r: &StatusReport) -> (lines: Vec<String>)
    ensures
        text::views(lines@) == group_section(*r),
{
    let mut lines: Vec<String> = Vec::new();
    if r.groups.len() == 0 {
        text::add_line(&mut lines, "Groups: (none)".to_owned());
        assert(text::views(lines@) =~= seq!["Groups: (none)"@]);
        return lines;
    }
    let mut head = "Groups (".to_owned();
    text::append_decimal(&mut head, r.groups.len() as u64);
    head.append("):");
    let ghost first = head@;
    text::add_line(&mut lines, head);
    assert(text::views(lines@) =~= seq![first] + group_texts(Seq::empty()));
    let mut i: usize = 0;
    assert(r.groups@.take(0) =~= Seq::empty());
    while i < r.groups.len()
        invariant
            i <= r.groups.len(),
            text::views(lines@) == seq![first] + group_texts(r.groups@.take(i as int)),
        decreases r.groups.len() - i,
    {
        let ghost so_far = group_texts(r.groups@.take(i as int));
        let g = &r.groups[i];
        text::add_line(&mut lines, render_group_line(g));
        let mut bands = render_band_rows(&g.bands);
        text::add_lines(&mut lines, &mut bands);
        proof {
            assert(r.groups@.take(i + 1).drop_last() =~= r.groups@.take(i as int));
            assert((seq![first] + so_far).push(group_text(*g)) + band_texts(g.bands@) =~= seq![
                first,
            ] + (so_far.push(group_text(*g)) + band_texts(g.bands@)));
        }
        i = i + 1;
    }
    assert(r.groups@.take(i as int) =~= r.groups@);
    lines
}

// ---------------------------------------------------------------------------
// Unassigned disks
// ---------------------------------------------------------------------------

/// The disks that back no array.
pub open spec fn unassigned(disks: Seq<DiskStatus>) -> Seq<DiskStatus> {
    disks.filter(|d: DiskStatus| d.arrays@.len() == 0)
}

/// The known sizes of `disks`.
pub open spec fn known_sizes(disks: Seq<DiskStatus>) -> Seq<nat> {
    disks.map_values(
        |d: DiskStatus|
            match d.size {
                Some(n) => n as nat,
                None => 0,
            },
    )
}

/// The row of a disk that belongs to no array.
pub open spec fn idle_row(d: DiskStatus) -> Seq<char> {
    "    "@ + text::left_aligned(d.name@, 10) + render::size_text(d.size)
}

/// The rows of the disks that belong to no array.
pub open spec fn idle_rows(disks: Seq<DiskStatus>) -> Seq<Seq<char>> {
    disks.map_values(|d: DiskStatus| idle_row(d))
}

/// The section about the disks that belong to no array.
pub open spec fn unassigned_section(r: StatusReport) -> Seq<Seq<char>> {
    let idle = unassigned(r.disks@);
    if idle.len() == 0 {
        seq!["Unassigned capacity: none"@]
    } else {
        seq![
            "Unassigned disks ("@ + text::dec(idle.len()) + "): "@ + figures::bytes_text(
                table::total(known_sizes(idle)),
            ) + " not backing any array"@,
        ] + idle_rows(idle)
    }
}

/// The lines of the detailed view.
pub open spec fn detail_lines(r: StatusReport) -> Seq<Seq<char>> {
    seq![
        "SHR-RS status (detail): "@ + health_text(r.health),
        ""@,
        "Disks ("@ + text::dec(r.disks@.len()) + "):"@,
        disk_header(),
    ] + disk_rows(r.disks@) + seq![""@] + group_section(r) + seq![""@] + unassigned_section(r)
}

fn render_idle_row(d: &DiskStatus) -> (out: String)
    ensures
        out@ == idle_row(*d),
{
    let mut out = "    ".to_owned();
    text::append_left(&mut out, d.name.as_str(), 10);
    out.append(render::opt_bytes(d.size).as_str());
    out
}

/// Idle disks of a prefix take no more room than all idle disks.
proof fn lemma_idle_prefix(disks: Seq<DiskStatus>, n: int)
    requires
        0 <= n <= disks.len(),
    ensures
        unassigned(disks.take(n)).len() <= unassigned(disks).len(),
        table::total(known_sizes(unassigned(disks.take(n)))) <= table::total(
            known_sizes(unassigned(disks)),
        ),
    decreases disks.len(),
{
    reveal(Seq::filter);
    if n == disks.len() {
        assert(disks.take(n) =~= disks);
    } else {
        let head = disks.drop_last();
        assert(head.take(n) =~= disks.take(n));
        lemma_idle_prefix(head, n);
        if disks.last().arrays@.len() == 0 {
            assert(known_sizes(unassigned(disks)).drop_last() =~= known_sizes(unassigned(head)));
        }
    }
}

fn render_unassigned_section(r: &StatusReport) -> (lines: Vec<String>)
    requires
        table::total(known_sizes(unassigned(r.disks@))) <= u64::MAX,
    ensures
        text::views(lines@) == unassigned_section(*r),
{
    let ghost all = r.disks@;
    let mut rows: Vec<String> = Vec::new();
    let mut total: u64 = 0;
    let mut i: usize = 0;
    proof {
        reveal(Seq::filter);
        assert(all.take(0) =~= Seq::empty());
        assert(unassigned(all.take(0)) =~= Seq::empty());
        assert(text::views(rows@) =~= idle_rows(unassigned(all.take(0))));
        assert(known_sizes(unassigned(all.take(0))) =~= Seq::empty());
    }
    while i < r.disks.len()
        invariant
            i <= r.disks.len(),
            all == r.disks@,
            table::total(known_sizes(unassigned(all))) <= u64::MAX,
            rows@.len() == unassigned(all.take(i as int)).len(),
            text::views(rows@) == idle_rows(unassigned(all.take(i as int))),
            total == table::total(known_sizes(unassigned(all.take(i as int)))),
        decreases r.disks.len() - i,
    {
        let d = &r.disks[i];
        proof {
            reveal(Seq::filter);
            let more = all.take(i + 1);
            assert(more.drop_last() =~= all.take(i as int));
            assert(more.last() == *d);
            lemma_idle_prefix(all, i + 1);
            if d.arrays@.len() == 0 {
                let before = unassigned(all.take(i as int));
                assert(unassigned(more) =~= before.push(*d));
                assert(known_sizes(unassigned(more)).drop_last() =~= known_sizes(before));
                assert(idle_rows(unassigned(more)) =~= idle_rows(before).push(idle_row(*d)));
            }
        }
        if d.arrays.len() == 0 {
            text::add_line(&mut rows, render_idle_row(d));
            if let Some(n) = d.size {
                total = total + n;
            }
        }
        i = i + 1;
    }
    assert(all.take(i as int) =~= all);
    let mut lines: Vec<String> = Vec::new();
    if rows.len() == 0 {
        text::add_line(&mut lines, "Unassigned capacity: none".to_owned());
        assert(text::views(lines@) =~= seq!["Unassigned capacity: none"@]);
        return lines;
    }
    let mut head = "Unassigned disks (".to_owned();
    text::append_decimal(&mut head, rows.len() as u64);
    head.append("): ");
    head.append(human_bytes(total).as_str());
    head.append(" not backing any array");
    text::add_line(&mut lines, head);
    text::add_lines(&mut lines, &mut rows);
    assert(text::views(lines@) =~= unassigned_section(*r));
    lines
}

/// Render a more detailed status view than the plain one: a wider SMART table,
/// per-band RAID detail (device, live members, usable capacity, live
/// resync/check/reshape progress), per-band scrub history, and any disk not
/// currently backing an array. An unknown field prints `?` rather than a
/// guess.
pub fn render_status_detail(r: &StatusReport) -> (out: String)
    requires
        table::total(known_sizes(unassigned(r.disks@))) <= u64::MAX,
    ensures
        out@ == text::lines(detail_lines(*r)),
{
    let mut lines: Vec<String> = Vec::new();
    let mut head = "SHR-RS status (detail): ".to_owned();
    head.append(health_word(r.health));
    text::add_line(&mut lines, head);
    text::add_line(&mut lines, "".to_owned());
    let mut count = "Disks (".to_owned();
    text::append_decimal(&mut count, r.disks.len() as u64);
    count.append("):");
    text::add_line(&mut lines, count);
    text::add_line(&mut lines, render_disk_header());
    assert(text::views(lines@) =~= seq![
        "SHR-RS status (detail): "@ + health_text(r.health),
        ""@,
        "Disks ("@ + text::dec(r.disks@.len()) + "):"@,
        disk_header(),
    ]);
    let mut disks = render_disk_rows(&r.disks);
    text::add_lines(&mut lines, &mut disks);
    text::add_line(&mut lines, "".to_owned());
    let mut groups = render_group_section(r);
    text::add_lines(&mut lines, &mut groups);
    text::add_line(&mut lines, "".to_owned());
    let mut idle = render_unassigned_section(r);
    text::add_lines(&mut lines, &mut idle);
    assert(text::views(lines@) =~= detail_lines(*r));
    text::unlines(&lines)
}

} // verus!
