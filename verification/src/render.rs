//! Human-readable rendering of the status, disk and capacity reports.

use vstd::prelude::*;
use crate::figures;
use crate::report::{
    ArrayStatus, DiskStatus, FsDfReport, GroupBandStatus, GroupDfStatus, GroupStatus, Health,
    MemberStatus, SmartState, StatusReport, SyncSummary,
};
use crate::text;

pub use crate::detail::render_status_detail;
pub use crate::diagram::render_layout_diagram;
pub use crate::figures::human_bytes;
pub use crate::plan_view::{capacity_bar, render_plan};
pub use crate::watch::{render_status_watch_frame, WatchFrameMeta};

verus! {

// ---------------------------------------------------------------------------
// Cells
// ---------------------------------------------------------------------------

/// A text, or a dash where there is none.
pub open spec fn opt_text(s: Option<String>) -> Seq<char> {
    match s {
        Some(s) => s@,
        None => "-"@,
    }
}

/// A byte count, or a question mark where it is unknown.
pub open spec fn size_text(n: Option<u64>) -> Seq<char> {
    match n {
        Some(n) => figures::bytes_text(n as nat),
        None => "?"@,
    }
}

/// A number, or a question mark where it is unknown.
pub open spec fn count_text(n: Option<u64>) -> Seq<char> {
    match n {
        Some(n) => text::dec(n as nat),
        None => "?"@,
    }
}

/// The word for the health of a disk.
pub open spec fn smart_text(state: SmartState) -> Seq<char> {
    match state {
        SmartState::Good => "ok"@,
        SmartState::Warning => "WARN"@,
        SmartState::Unknown => "?"@,
    }
}

/// A temperature, or a dash where there is none.
pub open spec fn temperature_text(t: Option<i64>) -> Seq<char> {
    match t {
        Some(t) => text::signed_dec(t as int) + "C"@,
        None => "-"@,
    }
}

/// `s`, cut off with a trailing `>` where it is longer than `width` (unless
/// that is zero).
pub open spec fn bounded_text(s: Seq<char>, width: nat) -> Seq<char> {
    if s.len() <= width || width == 0 {
        s
    } else {
        s.take(width - 1) + ">"@
    }
}

/// A text that may be unknown.
pub fn opt(s: &Option<String>) -> (r: &str)
    ensures
        r@ == opt_text(*s),
{
    match s {
        Some(s) => s.as_str(),
        None => "-",
    }
}

/// A size that may be unknown.
pub fn opt_bytes(n: Option<u64>) -> (r: String)
    ensures
        r@ == size_text(n),
{
    match n {
        Some(n) => human_bytes(n),
        None => "?".to_owned(),
    }
}

/// A count that may be unknown.
pub fn opt_count(n: Option<u64>) -> (r: String)
    ensures
        r@ == count_text(n),
{
    match n {
        Some(n) => text::decimal(n),
        None => "?".to_owned(),
    }
}

/// The word for the health of a disk.
pub fn smart_word(state: SmartState) -> (r: &'static str)
    ensures
        r@ == smart_text(state),
{
    match state {
        SmartState::Good => "ok",
        SmartState::Warning => "WARN",
        SmartState::Unknown => "?",
    }
}

/// A temperature that may be unknown.
pub fn temperature(t: Option<i64>) -> (r: String)
    ensures
        r@ == temperature_text(t),
{
    match t {
        Some(t) => {
            let mut r = text::signed_decimal(t);
            r.append("C");
            r
        },
        None => "-".to_owned(),
    }
}

/// Truncate `s` (with a trailing `>`) to fit `width` columns: keeps a column's
/// width independent of arbitrary input data (long models, serials,
/// timestamps).
pub fn bounded(s: &str, width: usize) -> (r: String)
    ensures
        r@ == bounded_text(s@, width as nat),
{
    if s.unicode_len() <= width || width == 0 {
        s.to_owned()
    } else {
        let mut r = s.substring_char(0, width - 1).to_owned();
        r.append(">");
        r
    }
}

// ---------------------------------------------------------------------------
// Status
// ---------------------------------------------------------------------------

/// The first line of the status.
pub open spec fn health_banner(h: Health) -> Seq<char> {
    match h {
        Health::Healthy => "● HEALTHY"@,
        Health::Degraded => "▲ DEGRADED"@,
        Health::Unknown => "○ UNKNOWN (no RAID array found)"@,
    }
}

/// The headings of the disks.
pub open spec fn status_disk_header(n: nat) -> Seq<char> {
    "Disks ("@ + text::dec(n) + "):  "@ + text::left_aligned("NODE"@, 10) + text::right_aligned(
        "SIZE"@,
        10,
    ) + "  "@ + text::left_aligned("MODEL"@, 24) + text::left_aligned("SMART"@, 10)
        + text::left_aligned("TEMP"@, 8) + "ARRAYS"@
}

/// The row of a disk.
pub open spec fn status_disk_row(d: DiskStatus) -> Seq<char> {
    "             "@ + text::left_aligned(d.name@, 10) + text::right_aligned(size_text(d.size), 10)
        + "  "@ + text::left_aligned(opt_text(d.model), 24) + text::left_aligned(
        smart_text(d.smart.state),
        10,
    ) + text::left_aligned(temperature_text(d.smart.temperature_c), 8) + text::joined(
        text::views(d.arrays@),
        ","@,
    )
}

/// The rows of the disks.
pub open spec fn status_disk_rows(list: Seq<DiskStatus>) -> Seq<Seq<char>> {
    list.map_values(|d: DiskStatus| status_disk_row(d))
}

/// The headings of the arrays.
pub open spec fn array_header(n: nat) -> Seq<char> {
    "Arrays ("@ + text::dec(n) + "): "@ + text::left_aligned("NAME"@, 8) + text::left_aligned(
        "LEVEL"@,
        8,
    ) + text::left_aligned("STATE"@, 10) + text::left_aligned("DISKS"@, 8) + "PROGRESS"@
}

/// The state of an array with its remarks.
pub open spec fn array_state_text(a: ArrayStatus) -> Seq<char> {
    let ro = if a.read_only {
        a.state@ + ",ro"@
    } else {
        a.state@
    };
    if a.degraded {
        ro + ",degraded"@
    } else {
        ro
    }
}

/// Active and wanted disks of an array where both are known, else the number
/// of its members.
pub open spec fn array_disks_text(a: ArrayStatus) -> Seq<char> {
    match (a.active_disks, a.raid_disks) {
        (Some(active), Some(all)) => text::dec(active as nat) + "/"@ + text::dec(all as nat),
        _ => text::dec(a.members@.len()),
    }
}

/// How far a sync is.
pub open spec fn array_progress_text(sync: Option<SyncSummary>) -> Seq<char> {
    match sync {
        Some(s) => match s.percent {
            Some(p) => s.action@ + " "@ + figures::decimal_text(p) + "%"@,
            None => s.action@ + " pending"@,
        },
        None => "idle"@,
    }
}

/// The cells of an array.
pub open spec fn array_cells(a: ArrayStatus) -> Seq<char> {
    text::left_aligned(a.name@, 8) + text::left_aligned(opt_text(a.level), 8) + text::left_aligned(
        array_state_text(a),
        10,
    ) + text::left_aligned(array_disks_text(a), 8) + array_progress_text(a.sync)
}

/// The row of an array.
pub open spec fn status_array_row(a: ArrayStatus) -> Seq<char> {
    "             "@ + array_cells(a)
}

/// The rows of the arrays.
pub open spec fn status_array_rows(list: Seq<ArrayStatus>) -> Seq<Seq<char>> {
    list.map_values(|a: ArrayStatus| status_array_row(a))
}

/// The headings of the groups.
pub open spec fn group_header(n: nat) -> Seq<char> {
    "Groups ("@ + text::dec(n) + "): "@ + text::left_aligned("NAME"@, 10) + text::left_aligned(
        "MODE"@,
        8,
    ) + text::left_aligned("DISKS"@, 8) + text::left_aligned("USABLE"@, 10) + "MOUNT"@
}

/// The remark on a pending resize.
pub open spec fn pending_text(pending: bool) -> Seq<char> {
    if pending {
        " [expansion unfinished]"@
    } else {
        ""@
    }
}

/// The cells of a group.
pub open spec fn group_cells(g: GroupStatus) -> Seq<char> {
    text::left_aligned(g.name@, 10) + text::left_aligned(g.mode@, 8) + text::left_aligned(
        text::dec(g.disks@.len()),
        8,
    ) + text::left_aligned(figures::bytes_text(g.usable_bytes as nat), 10) + g.mount_point@
        + pending_text(g.resize_pending)
}

/// The row of a group.
pub open spec fn status_group_row(g: GroupStatus) -> Seq<char> {
    "             "@ + group_cells(g)
}

/// The remark on a band without a live array.
pub open spec fn unassembled_text(b: GroupBandStatus) -> Seq<char> {
    if b.members@.len() == 0 {
        " (no live mdadm array)"@
    } else {
        ""@
    }
}

/// The row of a band.
pub open spec fn status_band_row(b: GroupBandStatus) -> Seq<char> {
    "                 band"@ + text::left_aligned(text::dec(b.index as nat), 3)
        + text::left_aligned(b.level@, 8) + text::left_aligned(b.md_name@, 12)
        + text::right_aligned(figures::bytes_text(b.usable_bytes as nat), 12) + pending_text(
        b.resize_pending,
    ) + unassembled_text(b)
}

/// The rows of bands.
pub open spec fn status_band_rows(list: Seq<GroupBandStatus>) -> Seq<Seq<char>> {
    list.map_values(|b: GroupBandStatus| status_band_row(b))
}

/// Each group's row, followed by the rows of its bands.
pub open spec fn status_group_rows(list: Seq<GroupStatus>) -> Seq<Seq<char>>
    decreases list.len(),
{
    if list.len() == 0 {
        Seq::empty()
    } else {
        status_group_rows(list.drop_last()).push(status_group_row(list.last())) + status_band_rows(
            list.last().bands@,
        )
    }
}

/// The section on arrays, left out where there are none.
pub open spec fn status_array_section(r: StatusReport) -> Seq<Seq<char>> {
    if r.arrays@.len() == 0 {
        Seq::empty()
    } else {
        seq![""@, array_header(r.arrays@.len())] + status_array_rows(r.arrays@)
    }
}

/// The section on groups, left out where there are none.
pub open spec fn status_group_section(r: StatusReport) -> Seq<Seq<char>> {
    if r.groups@.len() == 0 {
        Seq::empty()
    } else {
        seq![""@, group_header(r.groups@.len())] + status_group_rows(r.groups@)
    }
}

/// The lines of the status view.
pub open spec fn status_lines(r: StatusReport) -> Seq<Seq<char>> {
    seq!["SHR-RS status: "@ + health_banner(r.health), ""@, status_disk_header(r.disks@.len())]
        + status_disk_rows(r.disks@) + status_array_section(r) + status_group_section(r)
}

fn banner(h: Health) -> (r: &'static str)
    ensures
        r@ == health_banner(h),
{
    match h {
        Health::Healthy => "● HEALTHY",
        Health::Degraded => "▲ DEGRADED",
        Health::Unknown => "○ UNKNOWN (no RAID array found)",
    }
}

fn disk_header(n: usize) -> (out: String)
    ensures
        out@ == status_disk_header(n as nat),
{
    let mut out = "Disks (".to_owned();
    text::append_decimal(&mut out, n as u64);
    out.append("):  ");
    text::append_left(&mut out, "NODE", 10);
    text::append_right(&mut out, "SIZE", 10);
    out.append("  ");
    text::append_left(&mut out, "MODEL", 24);
    text::append_left(&mut out, "SMART", 10);
    text::append_left(&mut out, "TEMP", 8);
    out.append("ARRAYS");
    out
}

fn disk_row(d: &DiskStatus) -> (out: String)
    ensures
        out@ == status_disk_row(*d),
{
    let size = opt_bytes(d.size);
    let temp = temperature(d.smart.temperature_c);
    let arrays = text::join(&d.arrays, ",");
    let mut out = "             ".to_owned();
    text::append_left(&mut out, d.name.as_str(), 10);
    text::append_right(&mut out, size.as_str(), 10);
    out.append("  ");
    text::append_left(&mut out, opt(&d.model), 24);
    text::append_left(&mut out, smart_word(d.smart.state), 10);
    text::append_left(&mut out, temp.as_str(), 8);
    out.append(arrays.as_str());
    out
}

/// One row for each disk.
fn disk_rows(list: &Vec<DiskStatus>) -> (r: Vec<String>)
    ensures
        text::views(r@) == status_disk_rows(list@),
{
    let ghost all = status_disk_rows(list@);
    let mut r: Vec<String> = Vec::new();
    let mut i: usize = 0;
    assert(text::views(r@) =~= all.take(0));
    while i < list.len()
        invariant
            i <= list.len(),
            all == status_disk_rows(list@),
            text::views(r@) == all.take(i as int),
        decreases list.len() - i,
    {
        text::add_line(&mut r, disk_row(&list[i]));
        assert(all.take(i + 1) =~= all.take(i as int).push(all[i as int]));
        i = i + 1;
    }
    assert(all.take(i as int) =~= all);
    r
}

fn array_table_header(n: usize) -> (out: String)
    ensures
        out@ == array_header(n as nat),
{
    let mut out = "Arrays (".to_owned();
    text::append_decimal(&mut out, n as u64);
    out.append("): ");
    text::append_left(&mut out, "NAME", 8);
    text::append_left(&mut out, "LEVEL", 8);
    text::append_left(&mut out, "STATE", 10);
    text::append_left(&mut out, "DISKS", 8);
    out.append("PROGRESS");
    out
}

fn array_state(a: &ArrayStatus) -> (out: String)
    ensures
        out@ == array_state_text(*a),
{
    let mut out = a.state.clone();
    if a.read_only {
        out.append(",ro");
    }
    if a.degraded {
        out.append(",degraded");
    }
    out
}

fn array_disks(a: &ArrayStatus) -> (out: String)
    ensures
        out@ == array_disks_text(*a),
{
    match (a.active_disks, a.raid_disks) {
        (Some(active), Some(all)) => {
            let mut out = text::decimal(active as u64);
            out.append("/");
            text::append_decimal(&mut out, all as u64);
            out
        },
        _ => text::decimal(a.members.len() as u64),
    }
}

fn array_progress(sync: &Option<SyncSummary>) -> (out: String)
    ensures
        out@ == array_progress_text(*sync),
{
    match sync {
        Some(s) => {
            let mut out = s.action.clone();
            match s.percent {
                Some(p) => {
                    out.append(" ");
                    out.append(p.to_text().as_str());
                    out.append("%");
                },
                None => {
                    out.append(" pending");
                },
            }
            out
        },
        None => "idle".to_owned(),
    }
}

/// One array's cells, without indentation.
pub fn render_array_row(a: &ArrayStatus) -> (out: String)
    ensures
        out@ == array_cells(*a),
{
    let state = array_state(a);
    let disks = array_disks(a);
    let progress = array_progress(&a.sync);
    let mut out = String::new();
    text::append_left(&mut out, a.name.as_str(), 8);
    assert(out@ =~= text::left_aligned(a.name@, 8));
    text::append_left(&mut out, opt(&a.level), 8);
    text::append_left(&mut out, state.as_str(), 10);
    text::append_left(&mut out, disks.as_str(), 8);
    out.append(progress.as_str());
    out
}

fn array_row(a: &ArrayStatus) -> (out: String)
    ensures
        out@ == status_array_row(*a),
{
    let mut out = "             ".to_owned();
    out.append(render_array_row(a).as_str());
    out
}

/// One row for each array.
fn array_rows(list: &Vec<ArrayStatus>) -> (r: Vec<String>)
    ensures
        text::views(r@) == status_array_rows(list@),
{
    let ghost all = status_array_rows(list@);
    let mut r: Vec<String> = Vec::new();
    let mut i: usize = 0;
    assert(text::views(r@) =~= all.take(0));
    while i < list.len()
        invariant
            i <= list.len(),
            all == status_array_rows(list@),
            text::views(r@) == all.take(i as int),
        decreases list.len() - i,
    {
        text::add_line(&mut r, array_row(&list[i]));
        assert(all.take(i + 1) =~= all.take(i as int).push(all[i as int]));
        i = i + 1;
    }
    assert(all.take(i as int) =~= all);
    r
}

fn group_table_header(n: usize) -> (out: String)
    ensures
        out@ == group_header(n as nat),
{
    let mut out = "Groups (".to_owned();
    text::append_decimal(&mut out, n as u64);
    out.append("): ");
    text::append_left(&mut out, "NAME", 10);
    text::append_left(&mut out, "MODE", 8);
    text::append_left(&mut out, "DISKS", 8);
    text::append_left(&mut out, "USABLE", 10);
    out.append("MOUNT");
    out
}

/// The mark of an unfinished expansion.
pub fn pending_mark(pending: bool) -> (r: &'static str)
    ensures
        r@ == pending_text(pending),
{
    if pending {
        " [expansion unfinished]"
    } else {
        ""
    }
}

/// One group's cells, without indentation.
pub fn render_group_row(g: &GroupStatus) -> (out: String)
    ensures
        out@ == group_cells(*g),
{
    let mut out = String::new();
    text::append_left(&mut out, g.name.as_str(), 10);
    assert(out@ =~= text::left_aligned(g.name@, 10));
    text::append_left(&mut out, g.mode.as_str(), 8);
    text::append_left(&mut out, text::decimal(g.disks.len() as u64).as_str(), 8);
    text::append_left(&mut out, human_bytes(g.usable_bytes).as_str(), 10);
    out.append(g.mount_point.as_str());
    out.append(pending_mark(g.resize_pending));
    out
}

fn group_row(g: &GroupStatus) -> (out: String)
    ensures
        out@ == status_group_row(*g),
{
    let mut out = "             ".to_owned();
    out.append(render_group_row(g).as_str());
    out
}

fn unassembled_mark(b: &GroupBandStatus) -> (r: &'static str)
    ensures
        r@ == unassembled_text(*b),
{
    if b.members.len() == 0 {
        " (no live mdadm array)"
    } else {
        ""
    }
}

fn band_row(b: &GroupBandStatus) -> (out: String)
    ensures
        out@ == status_band_row(*b),
{
    let mut out = "                 band".to_owned();
    text::append_left(&mut out, text::decimal(b.index as u64).as_str(), 3);
    text::append_left(&mut out, b.level.as_str(), 8);
    text::append_left(&mut out, b.md_name.as_str(), 12);
    text::append_right(&mut out, human_bytes(b.usable_bytes).as_str(), 12);
    out.append(pending_mark(b.resize_pending));
    // A band that is recorded but has no live array must not look like one
    // that has.
    out.append(unassembled_mark(b));
    out
}

/// One row for each band.
fn band_rows(list: &Vec<GroupBandStatus>) -> (r: Vec<String>)
    ensures
        text::views(r@) == status_band_rows(list@),
{
    let ghost all = status_band_rows(list@);
    let mut r: Vec<String> = Vec::new();
    let mut i: usize = 0;
    assert(text::views(r@) =~= all.take(0));
    while i < list.len()
        invariant
            i <= list.len(),
            all == status_band_rows(list@),
            text::views(r@) == all.take(i as int),
        decreases list.len() - i,
    {
        text::add_line(&mut r, band_row(&list[i]));
        assert(all.take(i + 1) =~= all.take(i as int).push(all[i as int]));
        i = i + 1;
    }
    assert(all.take(i as int) =~= all);
    r
}

fn group_rows(list: &Vec<GroupStatus>) -> (r: Vec<String>)
    ensures
        text::views(r@) == status_group_rows(list@),
{
    let mut r: Vec<String> = Vec::new();
    let mut i: usize = 0;
    assert(list@.take(0) =~= Seq::empty());
    assert(text::views(r@) =~= Seq::empty());
    while i < list.len()
        invariant
            i <= list.len(),
            text::views(r@) == status_group_rows(list@.take(i as int)),
        decreases list.len() - i,
    {
        proof {
            assert(list@.take(i + 1).drop_last() =~= list@.take(i as int));
        }
        text::add_line(&mut r, group_row(&list[i]));
        let mut bands = band_rows(&list[i].bands);
        text::add_lines(&mut r, &mut bands);
        i = i + 1;
    }
    assert(list@.take(i as int) =~= list@);
    r
}

/// Render a status report as a couple of aligned tables.
pub fn render_status(r: &StatusReport) -> (out: String)
    ensures
        out@ == text::lines(status_lines(*r)),
{
    let mut head = "SHR-RS status: ".to_owned();
    head.append(banner(r.health));
    let mut lines: Vec<String> = Vec::new();
    text::add_line(&mut lines, head);
    text::add_line(&mut lines, "".to_owned());
    text::add_line(&mut lines, disk_header(r.disks.len()));
    assert(text::views(lines@) =~= seq![
        "SHR-RS status: "@ + health_banner(r.health),
        ""@,
        status_disk_header(r.disks@.len()),
    ]);
    let mut disks = disk_rows(&r.disks);
    text::add_lines(&mut lines, &mut disks);
    let mut arrays: Vec<String> = Vec::new();
    if r.arrays.len() > 0 {
        text::add_line(&mut arrays, "".to_owned());
        text::add_line(&mut arrays, array_table_header(r.arrays.len()));
        assert(text::views(arrays@) =~= seq![""@, array_header(r.arrays@.len())]);
        let mut rows = array_rows(&r.arrays);
        text::add_lines(&mut arrays, &mut rows);
    }
    assert(text::views(arrays@) =~= status_array_section(*r));
    text::add_lines(&mut lines, &mut arrays);
    let mut groups: Vec<String> = Vec::new();
    if r.groups.len() > 0 {
        text::add_line(&mut groups, "".to_owned());
        text::add_line(&mut groups, group_table_header(r.groups.len()));
        assert(text::views(groups@) =~= seq![""@, group_header(r.groups@.len())]);
        let mut rows = group_rows(&r.groups);
        text::add_lines(&mut groups, &mut rows);
    }
    assert(text::views(groups@) =~= status_group_section(*r));
    text::add_lines(&mut lines, &mut groups);
    text::unlines(&lines)
}

// ---------------------------------------------------------------------------
// Members and their marks
// ---------------------------------------------------------------------------

/// The first entry of `states` about the member `name`.
pub open spec fn state_of(states: Seq<MemberStatus>, name: Seq<char>) -> Option<MemberStatus>
    decreases states.len(),
{
    if states.len() == 0 {
        None
    } else if states[0].name@ == name {
        Some(states[0])
    } else {
        state_of(states.subrange(1, states.len() as int), name)
    }
}

/// The marks of a member: faulty before spare, then write-mostly, then
/// replacement.
pub open spec fn marks_text(m: MemberStatus) -> Seq<char> {
    let first = if m.faulty {
        "(F)"@
    } else if m.spare {
        "(S)"@
    } else {
        ""@
    };
    let second = if m.write_mostly {
        first + "(W)"@
    } else {
        first
    };
    if m.replacement {
        second + "(R)"@
    } else {
        second
    }
}

/// A member's name with its marks.
pub open spec fn marked_text(name: Seq<char>, states: Seq<MemberStatus>) -> Seq<char> {
    match state_of(states, name) {
        Some(m) => name + marks_text(m),
        None => name,
    }
}

/// The names of members, each with its marks.
pub open spec fn marked_texts(members: Seq<String>, states: Seq<MemberStatus>) -> Seq<Seq<char>> {
    members.map_values(|name: String| marked_text(name@, states))
}

fn marked(name: &String, states: &[MemberStatus]) -> (out: String)
    ensures
        out@ == marked_text(name@, states@),
{
    let mut i: usize = 0;
    assert(states@.subrange(0, states@.len() as int) =~= states@);
    while i < states.len()
        invariant
            i <= states.len(),
            state_of(states@, name@) == state_of(
                states@.subrange(i as int, states@.len() as int),
                name@,
            ),
        decreases states.len() - i,
    {
        let ghost rest = states@.subrange(i as int, states@.len() as int);
        assert(rest.subrange(1, rest.len() as int) =~= states@.subrange(
            i + 1,
            states@.len() as int,
        ));
        let m = &states[i];
        if text::same(m.name.as_str(), name.as_str()) {
            let mut suffix = if m.faulty {
                "(F)".to_owned()
            } else if m.spare {
                "(S)".to_owned()
            } else {
                "".to_owned()
            };
            if m.write_mostly {
                suffix.append("(W)");
            }
            // `(R)` marks the copy target of a running replacement.
            if m.replacement {
                suffix.append("(R)");
            }
            let mut out = name.clone();
            out.append(suffix.as_str());
            return out;
        }
        i = i + 1;
    }
    name.clone()
}

/// `members` annotated with the bracket marks for any name that
/// `member_states` flags faulty/spare/write-mostly/replacement; the bare name
/// where no state is known for it. Faulty takes precedence over spare;
/// write-mostly and replacement are independent of either, so they are
/// appended.
pub fn annotated_members(members: &[String], member_states: &[MemberStatus]) -> (r: Vec<String>)
    ensures
        text::views(r@) == marked_texts(members@, member_states@),
{
    let ghost all = marked_texts(members@, member_states@);
    let mut r: Vec<String> = Vec::new();
    let mut i: usize = 0;
    assert(text::views(r@) =~= all.take(0));
    while i < members.len()
        invariant
            i <= members.len(),
            all == marked_texts(members@, member_states@),
            text::views(r@) == all.take(i as int),
        decreases members.len() - i,
    {
        text::add_line(&mut r, marked(&members[i], member_states));
        assert(all.take(i + 1) =~= all.take(i as int).push(all[i as int]));
        i = i + 1;
    }
    assert(all.take(i as int) =~= all);
    r
}

/// The note that `n` more items follow.
pub open spec fn more_text(n: nat) -> Seq<char> {
    " +"@ + text::dec(n) + " more"@
}

/// The first `k` items with commas between, and the note on the rest.
pub open spec fn cut_text(items: Seq<Seq<char>>, k: nat) -> Seq<char> {
    text::joined(items.take(k as int), ", "@) + more_text((items.len() - k) as nat)
}

/// The largest number of items, from one up to `k`, that fits into `width`
/// together with the note on the rest; one where none fits.
pub open spec fn fitting(items: Seq<Seq<char>>, k: nat, width: nat) -> nat
    decreases k,
{
    if k <= 1 {
        1
    } else if cut_text(items, k).len() <= width {
        k
    } else {
        fitting(items, (k - 1) as nat, width)
    }
}

/// All items with commas between, where that fits into `width`; otherwise as
/// many of them as fit together with a note on how many more there are. One
/// item is always shown, and one alone is never cut.
pub open spec fn bounded_join(items: Seq<Seq<char>>, width: nat) -> Seq<char> {
    let whole = text::joined(items, ", "@);
    if whole.len() <= width || items.len() <= 1 {
        whole
    } else {
        cut_text(items, fitting(items, (items.len() - 1) as nat, width))
    }
}

/// One item less is a separator and that item less.
proof fn lemma_one_less(items: Seq<Seq<char>>, k: nat)
    requires
        2 <= k <= items.len(),
    ensures
        text::joined(items.take(k as int), ", "@) == text::joined(items.take(k - 1), ", "@) + ", "@
            + items[k - 1],
        ", "@.len() == 2,
{
    assert(items.take(k as int).drop_last() =~= items.take(k - 1));
    reveal_strlit(", ");
}

fn more_note(n: usize) -> (out: String)
    ensures
        out@ == more_text(n as nat),
{
    let mut out = " +".to_owned();
    text::append_decimal(&mut out, n as u64);
    out.append(" more");
    out
}

/// Join `items` with `", "`, truncating to a "+N more" suffix where the result
/// would exceed `max_width` columns: keeps a member list bounded regardless of
/// how many disks it names.
pub fn join_bounded(items: &Vec<String>, max_width: usize) -> (out: String)
    ensures
        out@ == bounded_join(text::views(items@), max_width as nat),
{
    let ghost all = text::views(items@);
    let whole = text::join(items, ", ");
    let mut len: usize = whole.as_str().unicode_len();
    if len <= max_width || items.len() <= 1 {
        return whole;
    }
    // Items are taken off the end until the rest fits with its note.
    let mut k: usize = items.len();
    let mut fits = false;
    assert(all.take(k as int) =~= all);
    assert(whole@.take(len as int) =~= whole@);
    while k > 1 && !fits
        invariant
            all == text::views(items@),
            1 <= k <= items.len(),
            items.len() > 1,
            fits ==> k < items.len(),
            len <= whole@.len(),
            whole@.take(len as int) == text::joined(all.take(k as int), ", "@),
            fits ==> cut_text(all, k as nat).len() <= max_width,
            fitting(all, (items.len() - 1) as nat, max_width as nat) == fitting(
                all,
                (if fits {
                    k as int
                } else {
                    k - 1
                }) as nat,
                max_width as nat,
            ),
        decreases k,
    {
        proof {
            lemma_one_less(all, k as nat);
            let shorter = text::joined(all.take(k - 1), ", "@);
            assert(whole@.take(len as int).len() == len);
            assert(len == shorter.len() + 2 + all[k - 1].len());
            assert(whole@.take(shorter.len() as int) =~= whole@.take(len as int).take(
                shorter.len() as int,
            ));
            assert((shorter + ", "@ + all[k - 1]).take(shorter.len() as int) =~= shorter);
        }
        len = len - 2 - items[k - 1].as_str().unicode_len();
        k = k - 1;
        let note: usize = more_note(items.len() - k).as_str().unicode_len();
        fits = len <= max_width && note <= max_width - len;
        assert(cut_text(all, k as nat).len() == len + note);
    }
    let mut out = whole.as_str().substring_char(0, len).to_owned();
    out.append(more_note(items.len() - k).as_str());
    assert(whole@.subrange(0, len as int) =~= whole@.take(len as int));
    out
}

// ---------------------------------------------------------------------------
// Filesystem capacity
// ---------------------------------------------------------------------------

/// How much of a total is used.
pub open spec fn used_of_total(used: Option<u64>, total: Option<u64>) -> Seq<char> {
    size_text(used) + "/"@ + size_text(total)
}

/// The headings of the filesystems.
pub open spec fn df_header() -> Seq<char> {
    "  "@ + text::left_aligned("GROUP"@, 10) + text::left_aligned("MOUNT"@, 18)
        + text::right_aligned("USABLE"@, 10) + text::right_aligned("DATA (used/total)"@, 22)
        + text::right_aligned("META (used/total)"@, 22) + text::right_aligned("UNALLOC"@, 10)
        + text::right_aligned("DF-AVAIL"@, 10)
}

/// The row of a filesystem.
pub open spec fn df_row(g: GroupDfStatus) -> Seq<char> {
    "  "@ + text::left_aligned(bounded_text(g.name@, 10), 10) + text::left_aligned(
        bounded_text(g.mount_point@, 18),
        18,
    ) + text::right_aligned(figures::bytes_text(g.usable_bytes as nat), 10) + text::right_aligned(
        used_of_total(g.data_used_bytes, g.data_total_bytes),
        22,
    ) + text::right_aligned(used_of_total(g.metadata_used_bytes, g.metadata_total_bytes), 22)
        + text::right_aligned(size_text(g.unallocated_bytes), 10) + text::right_aligned(
        size_text(g.statvfs_avail_bytes),
        10,
    )
}

/// The rows of the filesystems.
pub open spec fn df_rows(list: Seq<GroupDfStatus>) -> Seq<Seq<char>> {
    list.map_values(|g: GroupDfStatus| df_row(g))
}

/// The lines of the capacity view.
pub open spec fn df_lines(r: FsDfReport) -> Seq<Seq<char>> {
    seq![
        "Filesystem capacity"@,
        ""@,
        "  NOTE: Btrfs allocates data/metadata chunks separately from a plain"@,
        "  df's view -- DF-AVAIL below can read more optimistic or pessimistic"@,
        "  than reality. UNALLOC (raw space not yet claimed by any chunk) is"@,
        "  the more trustworthy free-space signal when known."@,
        ""@,
        df_header(),
    ] + df_rows(r.groups@)
}

fn used_and_total(used: Option<u64>, total: Option<u64>) -> (out: String)
    ensures
        out@ == used_of_total(used, total),
{
    let mut out = opt_bytes(used);
    out.append("/");
    out.append(opt_bytes(total).as_str());
    out
}

fn df_table_header() -> (out: String)
    ensures
        out@ == df_header(),
{
    let mut out = "  ".to_owned();
    text::append_left(&mut out, "GROUP", 10);
    text::append_left(&mut out, "MOUNT", 18);
    text::append_right(&mut out, "USABLE", 10);
    text::append_right(&mut out, "DATA (used/total)", 22);
    text::append_right(&mut out, "META (used/total)", 22);
    text::append_right(&mut out, "UNALLOC", 10);
    text::append_right(&mut out, "DF-AVAIL", 10);
    out
}

fn render_df_row(g: &GroupDfStatus) -> (out: String)
    ensures
        out@ == df_row(*g),
{
    let data = used_and_total(g.data_used_bytes, g.data_total_bytes);
    let meta = used_and_total(g.metadata_used_bytes, g.metadata_total_bytes);
    let mut out = "  ".to_owned();
    text::append_left(&mut out, bounded(g.name.as_str(), 10).as_str(), 10);
    text::append_left(&mut out, bounded(g.mount_point.as_str(), 18).as_str(), 18);
    text::append_right(&mut out, human_bytes(g.usable_bytes).as_str(), 10);
    text::append_right(&mut out, data.as_str(), 22);
    text::append_right(&mut out, meta.as_str(), 22);
    text::append_right(&mut out, opt_bytes(g.unallocated_bytes).as_str(), 10);
    text::append_right(&mut out, opt_bytes(g.statvfs_avail_bytes).as_str(), 10);
    out
}

/// One row for each group.
fn df_table_rows(list: &Vec<GroupDfStatus>) -> (r: Vec<String>)
    ensures
        text::views(r@) == df_rows(list@),
{
    let ghost all = df_rows(list@);
    let mut r: Vec<String> = Vec::new();
    let mut i: usize = 0;
    assert(text::views(r@) =~= all.take(0));
    while i < list.len()
        invariant
            i <= list.len(),
            all == df_rows(list@),
            text::views(r@) == all.take(i as int),
        decreases list.len() - i,
    {
        text::add_line(&mut r, render_df_row(&list[i]));
        assert(all.take(i + 1) =~= all.take(i as int).push(all[i as int]));
        i = i + 1;
    }
    assert(all.take(i as int) =~= all);
    r
}

/// Render a capacity report: one row per group juxtaposing the always-known
/// logical usable capacity against whatever live allocation figures the caller
/// supplied; `?` for anything unknown.
///
/// The header note exists because a plain `df`'s "available" figure can read
/// far more optimistic or pessimistic than the unallocated raw space actually
/// backing it.
pub fn render_fs_df(r: &FsDfReport) -> (out: String)
    ensures
        out@ == text::lines(df_lines(*r)),
{
    let mut lines: Vec<String> = Vec::new();
    text::add_line(&mut lines, "Filesystem capacity".to_owned());
    text::add_line(&mut lines, "".to_owned());
    text::add_line(
        &mut lines,
        "  NOTE: Btrfs allocates data/metadata chunks separately from a plain".to_owned(),
    );
    text::add_line(
        &mut lines,
        "  df's view -- DF-AVAIL below can read more optimistic or pessimistic".to_owned(),
    );
    text::add_line(
        &mut lines,
        "  than reality. UNALLOC (raw space not yet claimed by any chunk) is".to_owned(),
    );
    text::add_line(
        &mut lines,
        "  the more trustworthy free-space signal when known.".to_owned(),
    );
    text::add_line(&mut lines, "".to_owned());
    text::add_line(&mut lines, df_table_header());
    let mut rows = df_table_rows(&r.groups);
    text::add_lines(&mut lines, &mut rows);
    assert(text::views(lines@) =~= df_lines(*r));
    text::unlines(&lines)
}

// ---------------------------------------------------------------------------
// Disk inventory
// ---------------------------------------------------------------------------

/// The headings of the inventory.
pub open spec fn inventory_header(n: nat) -> Seq<char> {
    "Disks ("@ + text::dec(n) + "):  "@ + text::left_aligned("NODE"@, 10) + text::left_aligned(
        "ID"@,
        26,
    ) + text::right_aligned("SIZE"@, 10) + "  "@ + text::left_aligned("MODEL"@, 24)
        + text::left_aligned("SERIAL"@, 16) + text::left_aligned("ROTA"@, 6) + text::left_aligned(
        "SYSTEM"@,
        8,
    ) + "ARRAYS"@
}

/// The word for the kind of a disk.
pub open spec fn rotation_text(r: Option<bool>) -> Seq<char> {
    match r {
        Some(true) => "HDD"@,
        Some(false) => "SSD"@,
        None => "?"@,
    }
}

/// The row of a disk in the inventory.
pub open spec fn inventory_row(d: DiskStatus) -> Seq<char> {
    "             "@ + text::left_aligned(d.name@, 10) + text::left_aligned(opt_text(d.id), 26)
        + text::right_aligned(size_text(d.size), 10) + "  "@ + text::left_aligned(
        opt_text(d.model),
        24,
    ) + text::left_aligned(opt_text(d.serial), 16) + text::left_aligned(
        rotation_text(d.rotational),
        6,
    ) + text::left_aligned(
        if d.system_disk {
            "yes"@
        } else {
            "-"@
        },
        8,
    ) + text::joined(text::views(d.arrays@), ","@)
}

/// The rows of the inventory.
pub open spec fn inventory_rows(list: Seq<DiskStatus>) -> Seq<Seq<char>> {
    list.map_values(|d: DiskStatus| inventory_row(d))
}

/// The lines of the disk inventory.
pub open spec fn inventory_lines(r: StatusReport) -> Seq<Seq<char>> {
    seq![inventory_header(r.disks@.len())] + inventory_rows(r.disks@)
}

fn inventory_table_header(n: usize) -> (out: String)
    ensures
        out@ == inventory_header(n as nat),
{
    let mut out = "Disks (".to_owned();
    text::append_decimal(&mut out, n as u64);
    out.append("):  ");
    text::append_left(&mut out, "NODE", 10);
    text::append_left(&mut out, "ID", 26);
    text::append_right(&mut out, "SIZE", 10);
    out.append("  ");
    text::append_left(&mut out, "MODEL", 24);
    text::append_left(&mut out, "SERIAL", 16);
    text::append_left(&mut out, "ROTA", 6);
    text::append_left(&mut out, "SYSTEM", 8);
    out.append("ARRAYS");
    out
}

fn rotation(r: Option<bool>) -> (s: &'static str)
    ensures
        s@ == rotation_text(r),
{
    match r {
        Some(true) => "HDD",
        Some(false) => "SSD",
        None => "?",
    }
}

fn inventory_disk_row(d: &DiskStatus) -> (out: String)
    ensures
        out@ == inventory_row(*d),
{
    let size = opt_bytes(d.size);
    let arrays = text::join(&d.arrays, ",");
    let system = if d.system_disk {
        "yes"
    } else {
        "-"
    };
    let mut out = "             ".to_owned();
    text::append_left(&mut out, d.name.as_str(), 10);
    text::append_left(&mut out, opt(&d.id), 26);
    text::append_right(&mut out, size.as_str(), 10);
    out.append("  ");
    text::append_left(&mut out, opt(&d.model), 24);
    text::append_left(&mut out, opt(&d.serial), 16);
    text::append_left(&mut out, rotation(d.rotational), 6);
    text::append_left(&mut out, system, 8);
    out.append(arrays.as_str());
    out
}

/// One row for each disk.
fn inventory_disk_rows(list: &Vec<DiskStatus>) -> (r: Vec<String>)
    ensures
        text::views(r@) == inventory_rows(list@),
{
    let ghost all = inventory_rows(list@);
    let mut r: Vec<String> = Vec::new();
    let mut i: usize = 0;
    assert(text::views(r@) =~= all.take(0));
    while i < list.len()
        invariant
            i <= list.len(),
            all == inventory_rows(list@),
            text::views(r@) == all.take(i as int),
        decreases list.len() - i,
    {
        text::add_line(&mut r, inventory_disk_row(&list[i]));
        assert(all.take(i + 1) =~= all.take(i as int).push(all[i as int]));
        i = i + 1;
    }
    assert(all.take(i as int) =~= all);
    r
}

/// A thin, focused disk inventory: every field that the status view's disk
/// table omits because that table optimizes for "what's the array's health",
/// not "what disks does this host have and how do I refer to each one".
pub fn render_disk_list(r: &StatusReport) -> (out: String)
    ensures
        out@ == text::lines(inventory_lines(*r)),
{
    let mut lines: Vec<String> = Vec::new();
    text::add_line(&mut lines, inventory_table_header(r.disks.len()));
    let mut rows = inventory_disk_rows(&r.disks);
    text::add_lines(&mut lines, &mut rows);
    assert(text::views(lines@) =~= inventory_lines(*r));
    text::unlines(&lines)
}

} // verus!
