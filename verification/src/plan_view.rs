//! The dry-run plan view: band table, capacity accounting, and a bar.

use vstd::prelude::*;
use crate::figures;
use crate::figures::human_bytes;
use crate::report::{BandReport, MetricsReport, PlanReport};
use crate::text;

verus! {

/// Width of the capacity bar in columns.
pub const CAPACITY_BAR_WIDTH: usize = 40;

/// At which of `width` columns `part` out of `total` ends.
pub open spec fn column(part: nat, total: nat, width: nat) -> nat {
    part * width / total
}

/// `a + b`, or the largest number there is.
pub open spec fn capped_sum(a: u64, b: u64) -> u64 {
    if a + b <= u64::MAX {
        (a + b) as u64
    } else {
        u64::MAX
    }
}

/// A bar of `width` columns: `#` usable, `+` parity, `.` stranded, ` ` free.
pub open spec fn capacity_bar_text(
    usable: u64,
    parity: u64,
    stranded: u64,
    total: u64,
    width: nat,
) -> Seq<char> {
    let with_parity = capped_sum(usable, parity);
    let with_stranded = capped_sum(with_parity, stranded);
    if total == 0 {
        text::blanks(width)
    } else {
        Seq::new(
            width,
            |i: int|
                if i < column(usable as nat, total as nat, width) {
                    '#'
                } else if i < column(with_parity as nat, total as nat, width) {
                    '+'
                } else if i < column(with_stranded as nat, total as nat, width) {
                    '.'
                } else {
                    ' '
                },
        )
    }
}

/// The heading of the table of bands.
pub open spec fn plan_header() -> Seq<char> {
    "  "@ + text::left_aligned("BAND"@, 7) + text::left_aligned("LEVEL"@, 7) + text::right_aligned(
        "SLICE"@,
        12,
    ) + text::right_aligned("MEMBERS"@, 8) + text::right_aligned("USABLE"@, 12)
}

/// The row of a band.
pub open spec fn plan_row(b: BandReport) -> Seq<char> {
    "  band"@ + text::left_aligned(text::dec(b.index as nat), 3) + text::left_aligned(b.level@, 7)
        + text::right_aligned(figures::bytes_text(b.size as nat), 12) + text::right_aligned(
        text::dec(b.members@.len()),
        8,
    ) + text::right_aligned(figures::bytes_text(b.usable as nat), 12)
}

/// The rows of the bands.
pub open spec fn plan_rows(list: Seq<BandReport>) -> Seq<Seq<char>> {
    list.map_values(|b: BandReport| plan_row(b))
}

/// The line of the totals.
pub open spec fn totals_text(m: MetricsReport) -> Seq<char> {
    "  Usable "@ + figures::bytes_text(m.total_usable as nat) + "   Parity "@ + figures::bytes_text(
        m.redundancy_overhead as nat,
    ) + "   Stranded "@ + figures::bytes_text(m.stranded_bytes as nat) + "   Raw "@
        + figures::bytes_text(m.total_raw as nat)
}

/// The line of what is lost.
pub open spec fn waste_text(m: MetricsReport) -> Seq<char> {
    "  ["@ + capacity_bar_text(
        m.total_usable,
        m.redundancy_overhead,
        m.stranded_bytes,
        m.total_raw,
        CAPACITY_BAR_WIDTH as nat,
    ) + "]  ("@ + text::dec(figures::percent_of(m.waste_ratio)) + "% wasted)"@
}

/// The line of a warning.
pub open spec fn warning_text(w: String) -> Seq<char> {
    "  ! "@ + w@
}

/// The lines of the warnings.
pub open spec fn warning_texts(list: Seq<String>) -> Seq<Seq<char>> {
    list.map_values(|w: String| warning_text(w))
}

/// The section of the warnings; nothing where there is none.
pub open spec fn warning_section(r: PlanReport) -> Seq<Seq<char>> {
    if r.warnings@.len() == 0 {
        Seq::empty()
    } else {
        seq![""@] + warning_texts(r.warnings@)
    }
}

/// The lines of the plan view.
pub open spec fn plan_lines(r: PlanReport) -> Seq<Seq<char>> {
    seq!["Planned layout (mode: "@ + r.mode@ + ", DRY RUN)"@, ""@, plan_header()] + plan_rows(
        r.bands@,
    ) + seq![""@, totals_text(r.metrics), waste_text(r.metrics)] + warning_section(r)
}

/// A `width`-wide bar: `#` usable, `+` parity, `.` stranded, ` ` free.
///
/// Uses cumulative integer boundaries so that segments are monotonic and
/// always sum to exactly `width` (no per-segment rounding over/underflow).
pub fn capacity_bar(usable: u64, parity: u64, stranded: u64, total: u64, width: usize) -> (out:
    String)
    ensures
        out@ == capacity_bar_text(usable, parity, stranded, total, width as nat),
{
    let mut out = String::new();
    if total == 0 {
        text::append_blanks(&mut out, width);
        assert(out@ =~= text::blanks(width as nat));
        return out;
    }
    let ghost whole = capacity_bar_text(usable, parity, stranded, total, width as nat);
    // Saturating sums so that an inconsistent report can't overflow the
    // cumulative boundaries.
    let with_parity: u64 = usable.saturating_add(parity);
    let with_stranded: u64 = with_parity.saturating_add(stranded);
    let u: u128 = column_of(usable, total, width);
    let up: u128 = column_of(with_parity, total, width);
    let ups: u128 = column_of(with_stranded, total, width);
    proof {
        reveal_strlit("#");
        reveal_strlit("+");
        reveal_strlit(".");
        reveal_strlit(" ");
    }
    let mut i: usize = 0;
    while i < width
        invariant
            i <= width,
            total > 0,
            "#"@ == seq!['#'],
            "+"@ == seq!['+'],
            "."@ == seq!['.'],
            " "@ == seq![' '],
            whole == capacity_bar_text(usable, parity, stranded, total, width as nat),
            with_parity == capped_sum(usable, parity),
            with_stranded == capped_sum(with_parity, stranded),
            u == column(usable as nat, total as nat, width as nat),
            up == column(with_parity as nat, total as nat, width as nat),
            ups == column(with_stranded as nat, total as nat, width as nat),
            out@ =~= whole.take(i as int),
        decreases width - i,
    {
        let at: u128 = i as u128;
        if at < u {
            out.append("#");
        } else if at < up {
            out.append("+");
        } else if at < ups {
            out.append(".");
        } else {
            out.append(" ");
        }
        i = i + 1;
    }
    assert(whole.take(i as int) =~= whole);
    out
}

/// At which of `width` columns `part` out of `total` ends.
pub fn column_of(part: u64, total: u64, width: usize) -> (r: u128)
    requires
        total > 0,
    ensures
        r == column(part as nat, total as nat, width as nat),
{
    proof {
        assert(part * width <= 18446744073709551615 * 18446744073709551615) by (nonlinear_arith)
            requires
                0 <= part <= 18446744073709551615,
                0 <= width <= 18446744073709551615,
        ;
    }
    (part as u128 * width as u128) / total as u128
}

fn render_plan_header() -> (out: String)
    ensures
        out@ == plan_header(),
{
    let mut out = "  ".to_owned();
    text::append_left(&mut out, "BAND", 7);
    text::append_left(&mut out, "LEVEL", 7);
    text::append_right(&mut out, "SLICE", 12);
    text::append_right(&mut out, "MEMBERS", 8);
    text::append_right(&mut out, "USABLE", 12);
    out
}

fn render_plan_row(b: &BandReport) -> (out: String)
    ensures
        out@ == plan_row(*b),
{
    let mut out = "  band".to_owned();
    text::append_left(&mut out, text::decimal(b.index as u64).as_str(), 3);
    text::append_left(&mut out, b.level.as_str(), 7);
    text::append_right(&mut out, human_bytes(b.size).as_str(), 12);
    text::append_right(&mut out, text::decimal(b.members.len() as u64).as_str(), 8);
    text::append_right(&mut out, human_bytes(b.usable).as_str(), 12);
    out
}

/// One row for each band.
fn render_plan_rows(list: &Vec<BandReport>) -> (r: Vec<String>)
    ensures
        text::views(r@) == plan_rows(list@),
{
    let ghost all = plan_rows(list@);
    let mut r: Vec<String> = Vec::new();
    let mut i: usize = 0;
    assert(text::views(r@) =~= all.take(0));
    while i < list.len()
        invariant
            i <= list.len(),
            all == plan_rows(list@),
            text::views(r@) == all.take(i as int),
        decreases list.len() - i,
    {
        text::add_line(&mut r, render_plan_row(&list[i]));
        assert(all.take(i + 1) =~= all.take(i as int).push(all[i as int]));
        i = i + 1;
    }
    assert(all.take(i as int) =~= all);
    r
}

fn render_totals(m: &MetricsReport) -> (out: String)
    ensures
        out@ == totals_text(*m),
{
    let mut out = "  Usable ".to_owned();
    out.append(human_bytes(m.total_usable).as_str());
    out.append("   Parity ");
    out.append(human_bytes(m.redundancy_overhead).as_str());
    out.append("   Stranded ");
    out.append(human_bytes(m.stranded_bytes).as_str());
    out.append("   Raw ");
    out.append(human_bytes(m.total_raw).as_str());
    out
}

fn render_waste(m: &MetricsReport) -> (out: String)
    ensures
        out@ == waste_text(*m),
{
    let bar = capacity_bar(
        m.total_usable,
        m.redundancy_overhead,
        m.stranded_bytes,
        m.total_raw,
        CAPACITY_BAR_WIDTH,
    );
    let mut out = "  [".to_owned();
    out.append(bar.as_str());
    out.append("]  (");
    out.append(text::wide_decimal(figures::percent(m.waste_ratio)).as_str());
    out.append("% wasted)");
    out
}

fn render_warning(w: &String) -> (out: String)
    ensures
        out@ == warning_text(*w),
{
    let mut out = "  ! ".to_owned();
    out.append(w.as_str());
    out
}

/// One line for each warning.
fn render_warnings(list: &Vec<String>) -> (r: Vec<String>)
    ensures
        text::views(r@) == warning_texts(list@),
{
    let ghost all = warning_texts(list@);
    let mut r: Vec<String> = Vec::new();
    let mut i: usize = 0;
    assert(text::views(r@) =~= all.take(0));
    while i < list.len()
        invariant
            i <= list.len(),
            all == warning_texts(list@),
            text::views(r@) == all.take(i as int),
        decreases list.len() - i,
    {
        text::add_line(&mut r, render_warning(&list[i]));
        assert(all.take(i + 1) =~= all.take(i as int).push(all[i as int]));
        i = i + 1;
    }
    assert(all.take(i as int) =~= all);
    r
}

/// Render a dry-run plan report: band table, capacity accounting, and a bar.
pub fn render_plan(r: &PlanReport) -> (out: String)
    ensures
        out@ == text::lines(plan_lines(*r)),
{
    let mut lines: Vec<String> = Vec::new();
    let mut head = "Planned layout (mode: ".to_owned();
    head.append(r.mode.as_str());
    head.append(", DRY RUN)");
    text::add_line(&mut lines, head);
    text::add_line(&mut lines, "".to_owned());
    text::add_line(&mut lines, render_plan_header());
    let mut bands = render_plan_rows(&r.bands);
    text::add_lines(&mut lines, &mut bands);
    text::add_line(&mut lines, "".to_owned());
    text::add_line(&mut lines, render_totals(&r.metrics));
    text::add_line(&mut lines, render_waste(&r.metrics));
    if r.warnings.len() > 0 {
        text::add_line(&mut lines, "".to_owned());
        let mut warnings = render_warnings(&r.warnings);
        text::add_lines(&mut lines, &mut warnings);
    }
    assert(text::views(lines@) =~= plan_lines(*r));
    text::unlines(&lines)
}

// ---------------------------------------------------------------------------
// Laws
// ---------------------------------------------------------------------------

/// The rank of a segment of the capacity bar, from the left.
pub open spec fn segment_rank(c: char) -> int {
    if c == '#' {
        0
    } else if c == '+' {
        1
    } else if c == '.' {
        2
    } else {
        3
    }
}

/// The capacity bar is always exactly as wide as asked, and its segments never
/// go back: after a parity column comes no usable one, after a stranded column
/// neither, and after a free column nothing else.
pub proof fn capacity_bar_is_exact_and_monotonic(
    usable: u64,
    parity: u64,
    stranded: u64,
    total: u64,
    width: nat,
)
    ensures
        ({
            let bar = capacity_bar_text(usable, parity, stranded, total, width);
            &&& bar.len() == width
            &&& forall|i: int, j: int|
                0 <= i <= j < width ==> segment_rank(#[trigger] bar[i]) <= segment_rank(
                    #[trigger] bar[j],
                )
        }),
{
}

/// Where everything is usable, every column says so.
pub proof fn capacity_bar_is_full_when_all_is_usable(
    parity: u64,
    stranded: u64,
    total: u64,
    width: nat,
)
    requires
        total > 0,
    ensures
        forall|i: int|
            0 <= i < width ==> #[trigger] capacity_bar_text(
                total,
                parity,
                stranded,
                total,
                width,
            )[i] == '#',
{
    assert(total as nat * width / total as nat == width) by (nonlinear_arith)
        requires
            total > 0,
    ;
}

} // verus!
