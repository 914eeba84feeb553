//! One frame of the live status view, fitted to the terminal.

use vstd::prelude::*;
use crate::detail;
use crate::figures;
use crate::figures::Decimal;
use crate::report::{ArrayStatus, GroupBandStatus, GroupStatus, StatusReport, SyncSummary};
use crate::text;

verus! {

/// Terminal geometry that a frame must fit, as measured by the caller.
#[derive(Debug, Clone, Copy, PartialEq, Eq, Structural)]
pub struct WatchFrameMeta {
    pub width: usize,
    pub max_height: usize,
}

/// Bar width (in columns) of the inline progress bars.
pub const WATCH_BAR_WIDTH: usize = 20;

// ---------------------------------------------------------------------------
// Content
// ---------------------------------------------------------------------------

/// A percentage, held between 0 and 100, in tenths.
pub open spec fn clamped(p: Decimal) -> nat {
    if p.tenths < 0 {
        0
    } else if p.tenths > 1000 {
        1000
    } else {
        p.tenths as nat
    }
}

/// How many columns of a bar stand for a percentage, rounded to the nearest,
/// halves up.
pub open spec fn filled(p: Decimal) -> nat {
    (2 * (clamped(p) * WATCH_BAR_WIDTH as nat) + 1000) / 2000
}

/// A bar: `#` for the part that is done, `.` for the rest; blank where nothing
/// is known.
pub open spec fn progress_bar_text(p: Option<Decimal>) -> Seq<char> {
    match p {
        Some(p) => Seq::new(
            WATCH_BAR_WIDTH as nat,
            |i: int|
                if i < filled(p) {
                    '#'
                } else {
                    '.'
                },
        ),
        None => text::blanks(WATCH_BAR_WIDTH as nat),
    }
}

/// What is being synced, how far it is, and when it ends.
pub open spec fn sync_text(sync: Option<SyncSummary>) -> Seq<char> {
    match sync {
        None => "idle"@,
        Some(s) => {
            let eta = match s.finish_min {
                Some(m) => ", finish ~"@ + figures::decimal_text(m) + "m"@,
                None => ""@,
            };
            match s.percent {
                Some(p) => s.action@ + " "@ + figures::decimal_text(p) + "%"@ + eta,
                None => s.action@ + " pending"@ + eta,
            }
        },
    }
}

/// The progress of a sync, where there is one and it is known.
pub open spec fn percent_of(sync: Option<SyncSummary>) -> Option<Decimal> {
    match sync {
        Some(s) => s.percent,
        None => None,
    }
}

/// The row of an array.
pub open spec fn array_text(a: ArrayStatus) -> Seq<char> {
    "  "@ + text::left_aligned(a.name@, 8) + "["@ + progress_bar_text(
        percent_of(a.sync),
    ) + "] "@ + sync_text(a.sync)
}

/// The rows of the arrays.
pub open spec fn array_texts(list: Seq<ArrayStatus>) -> Seq<Seq<char>> {
    list.map_values(|a: ArrayStatus| array_text(a))
}

/// The row of a band.
pub open spec fn band_text(b: GroupBandStatus) -> Seq<char> {
    let action = if b.sync is None && b.members@.len() == 0 {
        "no live mdadm array"@
    } else {
        sync_text(b.sync)
    };
    let scrub = if b.scrub_in_progress {
        " [scrubbing]"@
    } else {
        ""@
    };
    "  band"@ + text::left_aligned(text::dec(b.index as nat), 3) + text::left_aligned(b.md_name@, 10)
        + "["@ + progress_bar_text(percent_of(b.sync)) + "] "@ + action
        + scrub
}

/// The lines of the bands of all groups, one group after the other.
pub open spec fn band_texts(groups: Seq<GroupStatus>) -> Seq<Seq<char>>
    decreases groups.len(),
{
    if groups.len() == 0 {
        Seq::empty()
    } else {
        band_texts(groups.drop_last()) + groups.last().bands@.map_values(
            |b: GroupBandStatus| band_text(b),
        )
    }
}

/// The section about the arrays.
pub open spec fn array_section(r: StatusReport) -> Seq<Seq<char>> {
    if r.arrays@.len() == 0 {
        seq!["No arrays."@]
    } else {
        seq!["Arrays ("@ + text::dec(r.arrays@.len()) + "):"@] + array_texts(r.arrays@)
    }
}

/// The section about the bands.
pub open spec fn band_section(r: StatusReport) -> Seq<Seq<char>> {
    let rows = band_texts(r.groups@);
    if rows.len() == 0 {
        Seq::empty()
    } else {
        seq![""@, "Bands ("@ + text::dec(rows.len()) + "):"@] + rows
    }
}

/// The lines of the live view before they are fitted.
pub open spec fn content(r: StatusReport) -> Seq<Seq<char>> {
    seq!["SHR-RS status (watch): "@ + detail::health_text(r.health), ""@] + array_section(r)
        + band_section(r)
}

// ---------------------------------------------------------------------------
// Fitting
// ---------------------------------------------------------------------------

/// `s` in exactly `width` columns: padded with spaces, or cut off with a
/// trailing `>`.
pub open spec fn fitted_line(s: Seq<char>, width: nat) -> Seq<char> {
    if width == 0 {
        Seq::empty()
    } else if s.len() > width {
        s.take(width - 1) + ">"@
    } else {
        text::left_aligned(s, width)
    }
}

/// The line that stands for lines that do not fit.
pub open spec fn hidden_text(n: nat) -> Seq<char> {
    "... +"@ + text::dec(n) + " more line(s), resize terminal for full detail"@
}

/// `lines` in exactly `height` lines: padded with empty ones, or the last one
/// telling how many are hidden.
pub open spec fn fitted_height(lines: Seq<Seq<char>>, height: nat) -> Seq<Seq<char>> {
    if height == 0 {
        Seq::empty()
    } else if lines.len() > height {
        lines.take(height - 1).push(hidden_text((lines.len() - (height - 1)) as nat))
    } else {
        lines + Seq::new((height - lines.len()) as nat, |i: int| ""@)
    }
}

/// The lines of a frame.
pub open spec fn fitted(lines: Seq<Seq<char>>, meta: WatchFrameMeta) -> Seq<Seq<char>> {
    fitted_height(lines, meta.max_height as nat).map_values(
        |l: Seq<char>| fitted_line(l, meta.width as nat),
    )
}

/// A frame: its lines with line feeds between. It depends on nothing but the
/// report and the geometry.
pub open spec fn frame_text(r: StatusReport, meta: WatchFrameMeta) -> Seq<char> {
    text::joined(fitted(content(r), meta), "\n"@)
}

// ---------------------------------------------------------------------------
// Drawing
// ---------------------------------------------------------------------------

/// A bar of [`WATCH_BAR_WIDTH`] columns: `#` for the completed fraction of
/// `percent`, `.` for the rest. `None` (no live sync data) draws as all spaces,
/// deliberately blank rather than empty or full, so that "unknown" is never
/// mistaken for "0%" or "100%".
pub fn watch_progress_bar(percent: Option<Decimal>) -> (out: String)
    ensures
        out@ == progress_bar_text(percent),
{
    let mut out = String::new();
    match percent {
        None => {
            text::append_blanks(&mut out, WATCH_BAR_WIDTH);
            assert(out@ =~= text::blanks(WATCH_BAR_WIDTH as nat));
        },
        Some(p) => {
            let tenths: usize = if p.tenths < 0 {
                0
            } else if p.tenths > 1000 {
                1000
            } else {
                p.tenths as usize
            };
            let done: usize = (2 * (tenths * WATCH_BAR_WIDTH) + 1000) / 2000;
            proof {
                reveal_strlit("#");
                reveal_strlit(".");
            }
            let mut i: usize = 0;
            while i < WATCH_BAR_WIDTH
                invariant
                    i <= WATCH_BAR_WIDTH,
                    "#"@ == seq!['#'],
                    "."@ == seq!['.'],
                    done == filled(p),
                    out@ =~= progress_bar_text(Some(p)).take(i as int),
                decreases WATCH_BAR_WIDTH - i,
            {
                if i < done {
                    out.append("#");
                } else {
                    out.append(".");
                }
                i = i + 1;
            }
        },
    }
    out
}

/// What is being synced, how far it is, and when it ends.
pub fn watch_action_label(sync: &Option<SyncSummary>) -> (out: String)
    ensures
        out@ == sync_text(*sync),
{
    match sync {
        None => "idle".to_owned(),
        Some(s) => {
            let eta = match s.finish_min {
                Some(m) => {
                    let mut eta = ", finish ~".to_owned();
                    eta.append(m.to_text().as_str());
                    eta.append("m");
                    eta
                },
                None => "".to_owned(),
            };
            let mut out = s.action.clone();
            match s.percent {
                Some(p) => {
                    out.append(" ");
                    out.append(p.to_text().as_str());
                    out.append("%");
                    out.append(eta.as_str());
                },
                None => {
                    out.append(" pending");
                    out.append(eta.as_str());
                },
            }
            out
        },
    }
}

fn sync_percent(sync: &Option<SyncSummary>) -> (p: Option<Decimal>)
    ensures
        p == percent_of(*sync),
{
    match sync {
        Some(s) => s.percent,
        None => None,
    }
}

fn watch_array_row(a: &ArrayStatus) -> (out: String)
    ensures
        out@ == array_text(*a),
{
    let bar = watch_progress_bar(sync_percent(&a.sync));
    let action = watch_action_label(&a.sync);
    let mut out = "  ".to_owned();
    text::append_left(&mut out, a.name.as_str(), 8);
    out.append("[");
    out.append(bar.as_str());
    out.append("] ");
    out.append(action.as_str());
    out
}

fn watch_band_row(b: &GroupBandStatus) -> (out: String)
    ensures
        out@ == band_text(*b),
{
    let bar = watch_progress_bar(sync_percent(&b.sync));
    let action = if b.sync.is_none() && b.members.len() == 0 {
        "no live mdadm array".to_owned()
    } else {
        watch_action_label(&b.sync)
    };
    let scrub = if b.scrub_in_progress {
        " [scrubbing]"
    } else {
        ""
    };
    let mut out = "  band".to_owned();
    text::append_left(&mut out, text::decimal(b.index as u64).as_str(), 3);
    text::append_left(&mut out, b.md_name.as_str(), 10);
    out.append("[");
    out.append(bar.as_str());
    out.append("] ");
    out.append(action.as_str());
    out.append(scrub);
    out
}

fn array_lines(r: &StatusReport) -> (lines: Vec<String>)
    ensures
        text::views(lines@) == array_section(*r),
{
    let mut lines: Vec<String> = Vec::new();
    if r.arrays.len() == 0 {
        text::add_line(&mut lines, "No arrays.".to_owned());
        assert(text::views(lines@) =~= seq!["No arrays."@]);
        return lines;
    }
    let mut head = "Arrays (".to_owned();
    text::append_decimal(&mut head, r.arrays.len() as u64);
    head.append("):");
    let ghost all = seq![head@] + array_texts(r.arrays@);
    text::add_line(&mut lines, head);
    assert(text::views(lines@) =~= all.take(1));
    let mut i: usize = 0;
    while i < r.arrays.len()
        invariant
            i <= r.arrays.len(),
            all.len() == r.arrays@.len() + 1,
            forall|k: int| 0 <= k < r.arrays@.len() ==> all[k + 1] == #[trigger] array_text(
                r.arrays@[k],
            ),
            text::views(lines@) == all.take(i + 1),
        decreases r.arrays.len() - i,
    {
        text::add_line(&mut lines, watch_array_row(&r.arrays[i]));
        assert(all[i + 1] == array_text(r.arrays@[i as int]));
        assert(all.take(i + 2) =~= all.take(i + 1).push(all[i + 1]));
        i = i + 1;
    }
    assert(all.take(i + 1) =~= all);
    lines
}

fn band_lines(r: &StatusReport) -> (lines: Vec<String>)
    ensures
        text::views(lines@) == band_section(*r),
{
    let mut rows: Vec<String> = Vec::new();
    let mut i: usize = 0;
    assert(r.groups@.take(0) =~= Seq::empty());
    assert(text::views(rows@) =~= Seq::empty());
    while i < r.groups.len()
        invariant
            i <= r.groups.len(),
            text::views(rows@) == band_texts(r.groups@.take(i as int)),
        decreases r.groups.len() - i,
    {
        let ghost so_far = text::views(rows@);
        let g = &r.groups[i];
        let ghost more = g.bands@.map_values(|b: GroupBandStatus| band_text(b));
        let mut j: usize = 0;
        assert(so_far + more.take(0) =~= so_far);
        while j < g.bands.len()
            invariant
                j <= g.bands.len(),
                more == g.bands@.map_values(|b: GroupBandStatus| band_text(b)),
                text::views(rows@) == so_far + more.take(j as int),
            decreases g.bands.len() - j,
        {
            text::add_line(&mut rows, watch_band_row(&g.bands[j]));
            assert(so_far + more.take(j + 1) =~= (so_far + more.take(j as int)).push(
                more[j as int],
            ));
            j = j + 1;
        }
        proof {
            assert(more.take(j as int) =~= more);
            assert(r.groups@.take(i + 1).drop_last() =~= r.groups@.take(i as int));
        }
        i = i + 1;
    }
    assert(r.groups@.take(i as int) =~= r.groups@);
    let mut lines: Vec<String> = Vec::new();
    assert(text::views(rows@).len() == rows@.len());
    if rows.len() > 0 {
        let mut head = "Bands (".to_owned();
        text::append_decimal(&mut head, rows.len() as u64);
        head.append("):");
        text::add_line(&mut lines, "".to_owned());
        text::add_line(&mut lines, head);
        text::add_lines(&mut lines, &mut rows);
    }
    assert(text::views(lines@) =~= band_section(*r));
    lines
}

/// Pad `s` with trailing spaces, or truncate (with a trailing `>`) to fit:
/// always exactly `width` columns.
pub fn pad_or_truncate(s: &str, width: usize) -> (out: String)
    ensures
        out@ == fitted_line(s@, width as nat),
{
    let mut out = String::new();
    if width == 0 {
        return out;
    }
    if s.unicode_len() > width {
        out.append(s.substring_char(0, width - 1));
        out.append(">");
        assert(out@ =~= s@.take(width - 1) + ">"@);
    } else {
        text::append_left(&mut out, s, width);
        assert(out@ =~= text::left_aligned(s@, width as nat));
    }
    out
}

/// Fix `lines` to exactly `meta.max_height` entries, each exactly `meta.width`
/// columns.
pub fn fit_frame(lines: Vec<String>, meta: &WatchFrameMeta) -> (r: Vec<String>)
    ensures
        text::views(r@) == fitted(text::views(lines@), *meta),
{
    let ghost whole = text::views(lines@);
    let height: usize = meta.max_height;
    let mut r: Vec<String> = Vec::new();
    if height == 0 {
        assert(text::views(r@) =~= fitted(whole, *meta));
        return r;
    }
    let shown: usize = if lines.len() > height {
        height - 1
    } else {
        lines.len()
    };
    let ghost all = fitted(whole, *meta);
    let mut i: usize = 0;
    assert(text::views(r@) =~= all.take(0));
    while i < shown
        invariant
            i <= shown <= lines.len(),
            shown <= height,
            height == meta.max_height,
            whole == text::views(lines@),
            all == fitted(whole, *meta),
            shown == (if whole.len() > height {
                height - 1
            } else {
                whole.len() as int
            }),
            height > 0,
            text::views(r@) == all.take(i as int),
        decreases shown - i,
    {
        text::add_line(&mut r, pad_or_truncate(lines[i].as_str(), meta.width));
        assert(all[i as int] == fitted_line(whole[i as int], meta.width as nat));
        assert(all.take(i + 1) =~= all.take(i as int).push(all[i as int]));
        i = i + 1;
    }
    if lines.len() > height {
        let mut note = "... +".to_owned();
        text::append_decimal(&mut note, (lines.len() - (height - 1)) as u64);
        note.append(" more line(s), resize terminal for full detail");
        text::add_line(&mut r, pad_or_truncate(note.as_str(), meta.width));
        assert(all.len() == height);
        assert(all.take(height as int) =~= all.take(height - 1).push(all[height - 1]));
        assert(all.take(height as int) =~= all);
    } else {
        while i < height
            invariant
                lines.len() <= i <= height,
                height == meta.max_height,
                height > 0,
                whole == text::views(lines@),
                whole.len() <= height,
                all == fitted(whole, *meta),
                text::views(r@) == all.take(i as int),
            decreases height - i,
        {
            text::add_line(&mut r, pad_or_truncate("", meta.width));
            assert(all[i as int] == fitted_line(""@, meta.width as nat));
            assert(all.take(i + 1) =~= all.take(i as int).push(all[i as int]));
            i = i + 1;
        }
        assert(all.take(i as int) =~= all);
    }
    r
}

/// Render one frame of the live status view: a pure function of the current
/// report plus the terminal geometry it must fit. It always has exactly
/// `meta.max_height` lines, each exactly `meta.width` columns, so that a
/// redraw loop can overwrite the previous frame in place.
pub fn render_status_watch_frame(r: &StatusReport, meta: &WatchFrameMeta) -> (out: String)
    ensures
        out@ == frame_text(*r, *meta),
{
    let mut head = "SHR-RS status (watch): ".to_owned();
    head.append(detail::health_word(r.health));
    let mut lines: Vec<String> = Vec::new();
    text::add_line(&mut lines, head);
    text::add_line(&mut lines, "".to_owned());
    assert(text::views(lines@) =~= seq![
        "SHR-RS status (watch): "@ + detail::health_text(r.health),
        ""@,
    ]);
    let mut arrays = array_lines(r);
    text::add_lines(&mut lines, &mut arrays);
    let mut bands = band_lines(r);
    text::add_lines(&mut lines, &mut bands);
    let frame = fit_frame(lines, meta);
    text::join(&frame, "\n")
}

// ---------------------------------------------------------------------------
// Laws
// ---------------------------------------------------------------------------

/// A frame is joined from exactly as many lines as the terminal has, each
/// exactly as wide as the terminal, whatever the report holds.
pub proof fn frame_fits_the_terminal_exactly(r: StatusReport, meta: WatchFrameMeta)
    ensures
        fitted(content(r), meta).len() == meta.max_height,
        forall|i: int|
            0 <= i < meta.max_height ==> (#[trigger] fitted(content(r), meta)[i]).len()
                == meta.width,
{
    reveal_strlit(">");
}

/// A progress bar has exactly its width, is blank exactly where the progress
/// is unknown, and never has a gap: `#` up to the filled part, `.` after it,
/// none filled at nothing and all filled at a hundred percent.
pub proof fn progress_bar_is_exact(p: Option<Decimal>)
    ensures
        progress_bar_text(p).len() == WATCH_BAR_WIDTH,
        p is None ==> forall|i: int|
            0 <= i < WATCH_BAR_WIDTH ==> progress_bar_text(p)[i] == ' ',
        p matches Some(d) ==> {
            &&& filled(d) <= WATCH_BAR_WIDTH
            &&& forall|i: int|
                0 <= i < WATCH_BAR_WIDTH ==> progress_bar_text(p)[i] == (if i < filled(d) {
                    '#'
                } else {
                    '.'
                })
            &&& d.tenths <= 0 ==> filled(d) == 0
            &&& d.tenths >= 1000 ==> filled(d) == WATCH_BAR_WIDTH
        },
{
}

} // verus!
