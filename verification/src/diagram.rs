//! A picture of a planned layout: one row per disk, showing how it is sliced
//! into bands at the byte offsets that the planner chose.

use vstd::prelude::*;
use crate::band::{BandView, RedundantBand};
use crate::detail::MEMBERS_WIDTH;
use crate::disk;
use crate::disk::{Disk, DiskId};
use crate::figures;
use crate::figures::human_bytes;
use crate::plan_view;
use crate::planner::{PlanView, PlannerOutput};
use crate::raid;
use crate::render;
use crate::table;
use crate::text;

verus! {

/// Bar width (in columns, inside the `[...]` brackets).
pub const DIAGRAM_BAR_WIDTH: usize = 40;

/// Fixed disk-label column width: long names are truncated to this so that a
/// line's width never depends on input data.
pub const DIAGRAM_LABEL_WIDTH: usize = 14;

// ---------------------------------------------------------------------------
// The picture
// ---------------------------------------------------------------------------

/// `cols` with `ch` from column `start` up to column `end`.
pub open spec fn painted(cols: Seq<char>, start: nat, end: nat, ch: char) -> Seq<char> {
    Seq::new(
        cols.len(),
        |i: int|
            if start <= i < end {
                ch
            } else {
                cols[i]
            },
    )
}

/// Where the data-bearing share of a band ends on each member.
pub open spec fn data_end(b: BandView) -> nat {
    b.offset as nat + (b.size as nat * raid::level_data(b.level, b.members.len()))
        / b.members.len()
}

/// A bar with the first `n` bands drawn for the disk `id`: `#` for data, `+`
/// for redundancy; and the end of the last band drawn.
pub open spec fn banded(bands: Seq<BandView>, n: nat, id: Seq<char>, max: nat, width: nat) -> (
    Seq<char>,
    u64,
)
    decreases n,
{
    if n == 0 {
        (text::blanks(width), 0)
    } else {
        let below = banded(bands, (n - 1) as nat, id, max, width);
        let b = bands[n - 1];
        if b.members.contains(id) {
            let start = plan_view::column(b.offset as nat, max, width);
            let middle = plan_view::column(data_end(b), max, width);
            let end = plan_view::column(b.end() as nat, max, width);
            (painted(painted(below.0, start, middle, '#'), middle, end, '+'), b.end())
        } else {
            below
        }
    }
}

/// The bar of a disk of `size` bytes: its bands, then `.` for what is stranded
/// above them, then `~` for what the plan does not address, on a scale of
/// `max` bytes.
pub open spec fn disk_bar_text(p: PlanView, id: Seq<char>, size: u64, max: u64, width: nat) -> Seq<
    char,
> {
    if max == 0 {
        text::blanks(width)
    } else {
        let drawn = banded(p.bands, p.bands.len(), id, max as nat, width);
        let top = plan_view::capped_sum(
            drawn.1,
            table::entry_or_zero(p.unusable, id) as u64,
        );
        let with_stranded = painted(
            drawn.0,
            plan_view::column(drawn.1 as nat, max as nat, width),
            plan_view::column(top as nat, max as nat, width),
            '.',
        );
        painted(
            with_stranded,
            plan_view::column(top as nat, max as nat, width),
            plan_view::column(size as nat, max as nat, width),
            '~',
        )
    }
}

/// The largest size.
pub open spec fn largest(drives: Seq<(Seq<char>, u64)>) -> u64
    decreases drives.len(),
{
    if drives.len() == 0 {
        0
    } else {
        let rest = largest(drives.drop_last());
        if drives.last().1 > rest {
            drives.last().1
        } else {
            rest
        }
    }
}

/// The tail of an identifier, cut to the label column.
pub open spec fn label_text(id: Seq<char>) -> Seq<char> {
    render::bounded_text(disk::short_id(id), DIAGRAM_LABEL_WIDTH as nat)
}

/// The labels of disks.
pub open spec fn label_texts(ids: Seq<Seq<char>>) -> Seq<Seq<char>> {
    ids.map_values(|id: Seq<char>| label_text(id))
}

/// The row of a disk: its label, its bar and its size.
pub open spec fn drive_row(p: PlanView, d: (Seq<char>, u64), max: u64) -> Seq<char> {
    "  "@ + text::left_aligned(label_text(d.0), DIAGRAM_LABEL_WIDTH as nat) + text::right_aligned(
        figures::bytes_text(d.1 as nat),
        10,
    ) + "  ["@ + disk_bar_text(p, d.0, d.1, max, DIAGRAM_BAR_WIDTH as nat) + "]"@
}

/// The rows of the disks.
pub open spec fn drive_rows(p: PlanView, drives: Seq<(Seq<char>, u64)>, max: u64) -> Seq<
    Seq<char>,
> {
    drives.map_values(|d: (Seq<char>, u64)| drive_row(p, d, max))
}

/// The line that explains a band.
pub open spec fn legend_row(b: BandView) -> Seq<char> {
    "  band"@ + text::left_aligned(text::dec(b.index as nat), 3) + text::left_aligned(
        raid::level_word(b.level),
        7,
    ) + "members: "@ + render::bounded_join(
        label_texts(b.members),
        MEMBERS_WIDTH as nat,
    )
}

/// The lines that explain the bands.
pub open spec fn legend_rows(bands: Seq<BandView>) -> Seq<Seq<char>> {
    bands.map_values(|b: BandView| legend_row(b))
}

/// The legend; nothing where there is no band.
pub open spec fn legend_section(p: PlanView) -> Seq<Seq<char>> {
    if p.bands.len() == 0 {
        Seq::empty()
    } else {
        seq![""@] + legend_rows(p.bands)
    }
}

/// The lines of the picture.
pub open spec fn diagram_lines(drives: Seq<(Seq<char>, u64)>, p: PlanView) -> Seq<Seq<char>> {
    seq![
        "Layout diagram (DRY RUN)"@,
        ""@,
        "  # data   + parity   . stranded (no redundancy)   ~ reserved/alignment"@,
        ""@,
    ] + drive_rows(p, drives, largest(drives)) + legend_section(p)
}

// ---------------------------------------------------------------------------
// Drawing
// ---------------------------------------------------------------------------

fn fill(cols: &mut Vec<char>, start: u128, end: u128, ch: char)
    ensures
        final(cols)@ == painted(old(cols)@, start as nat, end as nat, ch),
{
    let ghost before = cols@;
    let mut i: usize = 0;
    while i < cols.len()
        invariant
            i <= cols.len(),
            cols@.len() == before.len(),
            forall|k: int| 0 <= k < i ==> #[trigger] cols@[k] == painted(
                before,
                start as nat,
                end as nat,
                ch,
            )[k],
            forall|k: int| i <= k < cols@.len() ==> #[trigger] cols@[k] == before[k],
        decreases cols.len() - i,
    {
        let at: u128 = i as u128;
        if start <= at && at < end {
            cols.set(i, ch);
        }
        i = i + 1;
    }
    assert(cols@ =~= painted(before, start as nat, end as nat, ch));
}

/// At which of `width` columns `bytes` out of `max` ends, or the last of them.
fn position(bytes: u128, max: u64, width: usize) -> (r: u128)
    requires
        max > 0,
    ensures
        r == capped(plan_view::column(bytes as nat, max as nat, width as nat), width as nat),
{
    proof {
        let b = bytes as nat;
        let m = max as nat;
        let w = width as nat;
        if b >= m {
            assert(b * w >= w * m) by (nonlinear_arith)
                requires
                    b >= m,
            ;
            vstd::arithmetic::div_mod::lemma_div_is_ordered((w * m) as int, (b * w) as int, m as int);
            vstd::arithmetic::div_mod::lemma_div_multiples_vanish(w as int, m as int);
            assert(w * m == m * w) by (nonlinear_arith);
        } else {
            assert(b * w <= m * w) by (nonlinear_arith)
                requires
                    b <= m,
            ;
            vstd::arithmetic::div_mod::lemma_div_is_ordered((b * w) as int, (m * w) as int, m as int);
            vstd::arithmetic::div_mod::lemma_div_multiples_vanish(w as int, m as int);
            assert(b * w <= 18446744073709551615 * 18446744073709551615) by (nonlinear_arith)
                requires
                    b <= 18446744073709551615,
                    w <= 18446744073709551615,
            ;
        }
    }
    if bytes >= max as u128 {
        width as u128
    } else {
        bytes * width as u128 / max as u128
    }
}

/// A number, or `cap` where it is larger.
spec fn capped(n: nat, cap: nat) -> nat {
    if n <= cap {
        n
    } else {
        cap
    }
}

/// Painting past the last column paints nothing.
proof fn lemma_painted_capped(cols: Seq<char>, start: nat, end: nat, ch: char)
    ensures
        painted(cols, capped(start, cols.len()), capped(end, cols.len()), ch) == painted(
            cols,
            start,
            end,
            ch,
        ),
{
    assert(painted(cols, capped(start, cols.len()), capped(end, cols.len()), ch) =~= painted(
        cols,
        start,
        end,
        ch,
    ));
}

/// Paints from where `from` bytes out of `max` end up to where `to` bytes end.
fn paint(cols: &mut Vec<char>, from: u128, to: u128, max: u64, ch: char)
    requires
        max > 0,
    ensures
        final(cols)@ == painted(
            old(cols)@,
            plan_view::column(from as nat, max as nat, old(cols)@.len()),
            plan_view::column(to as nat, max as nat, old(cols)@.len()),
            ch,
        ),
{
    let width: usize = cols.len();
    proof {
        lemma_painted_capped(
            cols@,
            plan_view::column(from as nat, max as nat, width as nat),
            plan_view::column(to as nat, max as nat, width as nat),
            ch,
        );
    }
    let start: u128 = position(from, max, width);
    let end: u128 = position(to, max, width);
    fill(cols, start, end, ch);
}

/// Where the data-bearing share of a band ends on each member.
fn data_end_of(b: &RedundantBand) -> (r: u128)
    ensures
        r == data_end(b@),
        r <= b@.offset + b@.size,
{
    let n: usize = b.members().len();
    let data: usize = b.level().data_members(n);
    let size: u64 = b.size();
    proof {
        let d = data as nat;
        let s = size as nat;
        assert(s * d <= s * n) by (nonlinear_arith)
            requires
                d <= n,
        ;
        assert(s * n <= 18446744073709551615 * 18446744073709551615) by (nonlinear_arith)
            requires
                0 <= s <= 18446744073709551615,
                0 <= n <= 18446744073709551615,
        ;
        vstd::arithmetic::div_mod::lemma_div_is_ordered((s * d) as int, (s * n) as int, n as int);
        vstd::arithmetic::div_mod::lemma_div_multiples_vanish(s as int, n as int);
        assert(s * n == n * s) by (nonlinear_arith);
    }
    b.offset() as u128 + (size as u128 * data as u128) / n as u128
}

/// One disk's bar over a shared scale of `max_size` bytes.
///
/// What lies between the last accounted-for offset and the disk's size is
/// drawn as `~`: the plan tells that it is not assigned to a band or a
/// stranded entry, not how much of it is reserve and how much alignment loss.
pub fn disk_bar(disk: &Disk, out: &PlannerOutput, max_size: u64, width: usize) -> (cols: Vec<char>)
    ensures
        cols@ == disk_bar_text(out@, disk.id@, disk.size_bytes, max_size, width as nat),
{
    let mut cols: Vec<char> = Vec::new();
    let mut k: usize = 0;
    while k < width
        invariant
            k <= width,
            cols@ =~= text::blanks(k as nat),
        decreases width - k,
    {
        cols.push(' ');
        k = k + 1;
    }
    if max_size == 0 {
        return cols;
    }
    let ghost bands = out@.bands;
    let mut cursor: u64 = 0;
    let mut i: usize = 0;
    // A disk's bands are a contiguous run from offset zero, in ascending
    // order, so that the end of the last one drawn is where the rest starts.
    while i < out.bands.len()
        invariant
            i <= out.bands.len(),
            bands == out@.bands,
            bands.len() == out.bands@.len(),
            max_size > 0,
            cols@.len() == width,
            (cols@, cursor) == banded(bands, i as nat, disk.id@, max_size as nat, width as nat),
        decreases out.bands.len() - i,
    {
        let b = &out.bands[i];
        assert(bands[i as int] == b@);
        if b.contains(&disk.id) {
            let middle: u128 = data_end_of(b);
            paint(&mut cols, b.offset() as u128, middle, max_size, '#');
            paint(&mut cols, middle, b.end() as u128, max_size, '+');
            cursor = b.end();
        }
        i = i + 1;
    }
    let stranded: u64 = table::find_or_zero(&out.unusable_per_disk, &disk.id);
    let top: u64 = cursor.saturating_add(stranded);
    paint(&mut cols, cursor as u128, top as u128, max_size, '.');
    paint(&mut cols, top as u128, disk.size_bytes as u128, max_size, '~');
    cols
}

/// Appends the columns of a bar. Bars hold nothing but their five characters.
fn append_bar(out: &mut String, cols: &Vec<char>)
    requires
        forall|i: int| 0 <= i < cols@.len() ==> is_bar_char(#[trigger] cols@[i]),
    ensures
        final(out)@ == old(out)@ + cols@,
{
    let ghost start = out@;
    let mut i: usize = 0;
    proof {
        reveal_strlit("#");
        reveal_strlit("+");
        reveal_strlit(".");
        reveal_strlit("~");
        reveal_strlit(" ");
    }
    assert(start + cols@.take(0) =~= start);
    while i < cols.len()
        invariant
            i <= cols.len(),
            "#"@ == seq!['#'],
            "+"@ == seq!['+'],
            "."@ == seq!['.'],
            "~"@ == seq!['~'],
            " "@ == seq![' '],
            forall|k: int| 0 <= k < cols@.len() ==> is_bar_char(#[trigger] cols@[k]),
            out@ == start + cols@.take(i as int),
        decreases cols.len() - i,
    {
        let c: char = cols[i];
        assert(is_bar_char(cols@[i as int]));
        if c == '#' {
            out.append("#");
        } else if c == '+' {
            out.append("+");
        } else if c == '.' {
            out.append(".");
        } else if c == '~' {
            out.append("~");
        } else {
            out.append(" ");
        }
        assert(out@ =~= start + cols@.take(i + 1));
        i = i + 1;
    }
    assert(cols@.take(i as int) =~= cols@);
}

/// The characters that a bar is drawn with.
pub open spec fn is_bar_char(c: char) -> bool {
    c == '#' || c == '+' || c == '.' || c == '~' || c == ' '
}

proof fn lemma_banded_chars(bands: Seq<BandView>, n: nat, id: Seq<char>, max: nat, width: nat)
    ensures
        banded(bands, n, id, max, width).0.len() == width,
        forall|i: int|
            0 <= i < width ==> is_bar_char(#[trigger] banded(bands, n, id, max, width).0[i]),
    decreases n,
{
    if n > 0 {
        lemma_banded_chars(bands, (n - 1) as nat, id, max, width);
        let below = banded(bands, (n - 1) as nat, id, max, width).0;
        let b = bands[n - 1];
        if b.members.contains(id) {
            let start = plan_view::column(b.offset as nat, max, width);
            let middle = plan_view::column(data_end(b), max, width);
            let first = painted(below, start, middle, '#');
            assert forall|i: int| 0 <= i < width implies is_bar_char(#[trigger] first[i]) by {
                assert(is_bar_char(below[i]));
            }
            assert forall|i: int| 0 <= i < width implies is_bar_char(
                #[trigger] banded(bands, n, id, max, width).0[i],
            ) by {
                assert(is_bar_char(first[i]));
            }
        }
    }
}

/// A disk's bar is exactly as wide as asked and holds only bar characters.
pub proof fn disk_bar_is_exact(p: PlanView, id: Seq<char>, size: u64, max: u64, width: nat)
    ensures
        disk_bar_text(p, id, size, max, width).len() == width,
        forall|i: int|
            0 <= i < width ==> is_bar_char(#[trigger] disk_bar_text(p, id, size, max, width)[i]),
{
    if max > 0 {
        lemma_banded_chars(p.bands, p.bands.len(), id, max as nat, width);
        let drawn = banded(p.bands, p.bands.len(), id, max as nat, width);
        assert forall|i: int| 0 <= i < width implies is_bar_char(
            #[trigger] disk_bar_text(p, id, size, max, width)[i],
        ) by {
            assert(is_bar_char(drawn.0[i]));
        }
    }
}

fn max_size_of(disks: &[Disk]) -> (r: u64)
    ensures
        r == largest(disk::drives(disks@)),
{
    let ghost all = disk::drives(disks@);
    let mut r: u64 = 0;
    let mut i: usize = 0;
    assert(all.take(0) =~= Seq::empty());
    while i < disks.len()
        invariant
            i <= disks.len(),
            all == disk::drives(disks@),
            r == largest(all.take(i as int)),
        decreases disks.len() - i,
    {
        proof {
            assert(all.take(i + 1).drop_last() =~= all.take(i as int));
            assert(all.take(i + 1).last() == all[i as int]);
        }
        if disks[i].size_bytes > r {
            r = disks[i].size_bytes;
        }
        i = i + 1;
    }
    assert(all.take(i as int) =~= all);
    r
}

/// The tail of an identifier, truncated (with a trailing `>`) to the label
/// column.
pub fn short_label(id: &DiskId) -> (out: String)
    ensures
        out@ == label_text(id@),
{
    render::bounded(id.short(), DIAGRAM_LABEL_WIDTH)
}

fn disk_line(disk: &Disk, out: &PlannerOutput, max_size: u64) -> (line: String)
    ensures
        line@ == drive_row(out@, (disk.id@, disk.size_bytes), max_size),
{
    let bar = disk_bar(disk, out, max_size, DIAGRAM_BAR_WIDTH);
    let mut line = "  ".to_owned();
    text::append_left(&mut line, short_label(&disk.id).as_str(), DIAGRAM_LABEL_WIDTH);
    text::append_right(&mut line, human_bytes(disk.size_bytes).as_str(), 10);
    line.append("  [");
    proof {
        disk_bar_is_exact(
            out@,
            disk.id@,
            disk.size_bytes,
            max_size,
            DIAGRAM_BAR_WIDTH as nat,
        );
    }
    append_bar(&mut line, &bar);
    line.append("]");
    line
}

fn legend_line(b: &RedundantBand) -> (line: String)
    ensures
        line@ == legend_row(b@),
{
    let members = b.members();
    let ghost all = label_texts(b@.members);
    let mut labels: Vec<String> = Vec::new();
    let mut i: usize = 0;
    assert(text::views(labels@) =~= all.take(0));
    while i < members.len()
        invariant
            i <= members.len(),
            disk::ids(members@) == b@.members,
            all == label_texts(b@.members),
            text::views(labels@) == all.take(i as int),
        decreases members.len() - i,
    {
        assert(b@.members[i as int] == members@[i as int]@);
        text::add_line(&mut labels, short_label(&members[i]));
        assert(all.take(i + 1) =~= all.take(i as int).push(all[i as int]));
        i = i + 1;
    }
    assert(all.take(i as int) =~= all);
    let mut line = "  band".to_owned();
    text::append_left(&mut line, text::decimal(b.band_index() as u64).as_str(), 3);
    text::append_left(&mut line, b.level().word(), 7);
    line.append("members: ");
    line.append(render::join_bounded(&labels, MEMBERS_WIDTH).as_str());
    line
}

/// Render the planner's output as a per-disk ASCII layout diagram: one row per
/// physical disk, showing how it is sliced into bands at the byte offsets that
/// the planner chose.
///
/// `disks` should be the same list that produced `out`: this function only
/// visualizes an existing plan. All bars share one scale (bytes per column
/// derived from the *largest* disk), so that a band's offset range lines up in
/// the same columns across every disk it spans. Per disk, a row is drawn left
/// to right as:
/// - `#`: data-bearing bytes of a band this disk is a member of;
/// - `+`: that same band's parity/mirror bytes on this disk;
/// - `.`: stranded tail with no redundancy;
/// - `~`: reserved/alignment slack the planner never assigned.
///
/// Below the rows, a short per-band legend states each band's RAID level and
/// members explicitly.
pub fn render_layout_diagram(disks: &[Disk], out: &PlannerOutput) -> (result: String)
    ensures
        result@ == text::lines(diagram_lines(disk::drives(disks@), out@)),
{
    let ghost drives = disk::drives(disks@);
    let max_size: u64 = max_size_of(disks);
    let mut lines: Vec<String> = Vec::new();
    text::add_line(&mut lines, "Layout diagram (DRY RUN)".to_owned());
    text::add_line(&mut lines, "".to_owned());
    text::add_line(
        &mut lines,
        "  # data   + parity   . stranded (no redundancy)   ~ reserved/alignment".to_owned(),
    );
    text::add_line(&mut lines, "".to_owned());
    let ghost head = text::views(lines@);
    let ghost rows = drive_rows(out@, drives, max_size);
    let mut i: usize = 0;
    assert(head + rows.take(0) =~= head);
    while i < disks.len()
        invariant
            i <= disks.len(),
            drives == disk::drives(disks@),
            rows == drive_rows(out@, drives, max_size),
            text::views(lines@) == head + rows.take(i as int),
        decreases disks.len() - i,
    {
        text::add_line(&mut lines, disk_line(&disks[i], out, max_size));
        assert(rows[i as int] == drive_row(out@, drives[i as int], max_size));
        assert(head + rows.take(i + 1) =~= (head + rows.take(i as int)).push(rows[i as int]));
        i = i + 1;
    }
    assert(rows.take(i as int) =~= rows);
    let ghost above = text::views(lines@);
    assert(out@.bands.len() == out.bands@.len());
    if out.bands.len() > 0 {
        text::add_line(&mut lines, "".to_owned());
        let ghost legend = legend_rows(out@.bands);
        let mut j: usize = 0;
        assert(above.push(""@) + legend.take(0) =~= above.push(""@));
        while j < out.bands.len()
            invariant
                j <= out.bands.len(),
                legend == legend_rows(out@.bands),
                legend.len() == out.bands@.len(),
                text::views(lines@) == above.push(""@) + legend.take(j as int),
            decreases out.bands.len() - j,
        {
            assert(out@.bands[j as int] == out.bands@[j as int]@);
            text::add_line(&mut lines, legend_line(&out.bands[j]));
            assert(above.push(""@) + legend.take(j + 1) =~= (above.push(""@) + legend.take(
                j as int,
            )).push(legend[j as int]));
            j = j + 1;
        }
        assert(legend.take(j as int) =~= legend);
    }
    assert(text::views(lines@) =~= diagram_lines(drives, out@));
    text::unlines(&lines)
}

} // verus!
