//! What holds of a frame of the live view as a terminal reads it: line by line.

use vstd::prelude::*;
use crate::detail;
use crate::figures;
use crate::figures::Decimal;
use crate::report::{ArrayStatus, GroupBandStatus, GroupStatus, StatusReport, SyncSummary};
use crate::text;
use crate::watch;
use crate::watch::WatchFrameMeta;

verus! {

// ---------------------------------------------------------------------------
// Lines
// ---------------------------------------------------------------------------

/// Whether a text holds no line feed.
pub open spec fn unbroken(s: Seq<char>) -> bool {
    forall|i: int| 0 <= i < s.len() ==> #[trigger] s[i] != '\n'
}

/// The lines of a text: what stands before, between and behind its line feeds.
pub open spec fn split(s: Seq<char>) -> Seq<Seq<char>>
    decreases s.len(),
{
    if s.len() == 0 {
        seq![Seq::empty()]
    } else {
        let before = split(s.drop_last());
        if s.last() == '\n' {
            before.push(Seq::empty())
        } else {
            before.drop_last().push(before.last().push(s.last()))
        }
    }
}

proof fn lemma_split_is_not_empty(s: Seq<char>)
    ensures
        split(s).len() >= 1,
    decreases s.len(),
{
    if s.len() > 0 {
        lemma_split_is_not_empty(s.drop_last());
    }
}

/// An unbroken text behind another one belongs to its last line.
proof fn lemma_split_with_unbroken(s: Seq<char>, t: Seq<char>)
    requires
        unbroken(t),
    ensures
        split(s + t) == split(s).drop_last().push(split(s).last() + t),
    decreases t.len(),
{
    lemma_split_is_not_empty(s);
    if t.len() == 0 {
        assert(s + t =~= s);
        assert(split(s).last() + t =~= split(s).last());
        assert(split(s).drop_last().push(split(s).last()) =~= split(s));
    } else {
        let less = t.drop_last();
        assert(unbroken(less)) by {
            assert forall|i: int| 0 <= i < less.len() implies #[trigger] less[i] != '\n' by {
                assert(t[i] != '\n');
            }
        }
        lemma_split_with_unbroken(s, less);
        assert((s + t).drop_last() =~= s + less);
        assert(t[t.len() - 1] != '\n');
        assert((s + t).last() == t.last());
        let front = split(s).drop_last();
        assert(front.push(split(s).last() + less).drop_last() =~= front);
        assert((split(s).last() + less).push(t.last()) =~= split(s).last() + t);
    }
}

/// Unbroken texts that are joined by line feeds are the lines of the result.
pub proof fn joined_lines_split_back(parts: Seq<Seq<char>>)
    requires
        parts.len() >= 1,
        forall|i: int| 0 <= i < parts.len() ==> unbroken(#[trigger] parts[i]),
    ensures
        split(text::joined(parts, "\n"@)) == parts,
    decreases parts.len(),
{
    reveal_strlit("\n");
    let last = parts[parts.len() - 1];
    if parts.len() == 1 {
        let none: Seq<char> = Seq::empty();
        lemma_split_with_unbroken(none, last);
        assert(none + last =~= last);
        assert(split(none) =~= seq![none]);
        assert(split(last) =~= parts);
    } else {
        let front = parts.drop_last();
        assert forall|i: int| 0 <= i < front.len() implies unbroken(#[trigger] front[i]) by {
            assert(front[i] == parts[i]);
        }
        joined_lines_split_back(front);
        let head = text::joined(front, "\n"@);
        let cut = head + "\n"@;
        assert(cut.drop_last() =~= head);
        assert(cut.last() == '\n');
        let none: Seq<char> = Seq::empty();
        assert(split(cut) == front.push(none));
        lemma_split_with_unbroken(cut, last);
        assert(front.push(none).drop_last() =~= front);
        assert(none + last =~= last);
        assert(front.push(last) =~= parts);
    }
}

// ---------------------------------------------------------------------------
// Unbroken texts
// ---------------------------------------------------------------------------

broadcast proof fn lemma_unbroken_sum(a: Seq<char>, b: Seq<char>)
    requires
        unbroken(a),
        unbroken(b),
    ensures
        #[trigger] unbroken(a + b),
{
    assert forall|i: int| 0 <= i < (a + b).len() implies #[trigger] (a + b)[i] != '\n' by {
        if i < a.len() {
            assert(a[i] != '\n');
        } else {
            assert(b[i - a.len()] != '\n');
        }
    }
}

proof fn lemma_dec_is_unbroken(n: nat)
    ensures
        unbroken(text::dec(n)),
    decreases n,
{
    reveal_strlit("0123456789");
    if n >= 10 {
        lemma_dec_is_unbroken(n / 10);
        let head = text::dec(n / 10);
        let all = text::dec(n);
        assert forall|i: int| 0 <= i < all.len() implies #[trigger] all[i] != '\n' by {
            if i < head.len() {
                assert(head[i] != '\n');
            }
        }
    }
}

proof fn lemma_decimal_is_unbroken(d: Decimal)
    ensures
        unbroken(figures::decimal_text(d)),
{
    broadcast use lemma_unbroken_sum;

    let n = figures::size_of(d);
    lemma_dec_is_unbroken(n / 10);
    lemma_dec_is_unbroken(n % 10);
    reveal_strlit("-");
    reveal_strlit("");
    reveal_strlit(".");
}

proof fn lemma_aligned_is_unbroken(s: Seq<char>, width: nat)
    requires
        unbroken(s),
    ensures
        unbroken(text::left_aligned(s, width)),
{
    broadcast use lemma_unbroken_sum;

}

proof fn lemma_bar_is_unbroken(p: Option<Decimal>)
    ensures
        unbroken(watch::progress_bar_text(p)),
{
}

proof fn lemma_sync_is_unbroken(sync: Option<SyncSummary>)
    requires
        sync matches Some(s) ==> unbroken(s.action@),
    ensures
        unbroken(watch::sync_text(sync)),
{
    broadcast use lemma_unbroken_sum;

    reveal_strlit("idle");
    reveal_strlit(", finish ~");
    reveal_strlit("m");
    reveal_strlit("");
    reveal_strlit(" ");
    reveal_strlit("%");
    reveal_strlit(" pending");
    if let Some(s) = sync {
        if let Some(m) = s.finish_min {
            lemma_decimal_is_unbroken(m);
        }
        if let Some(p) = s.percent {
            lemma_decimal_is_unbroken(p);
        }
    }
}

// ---------------------------------------------------------------------------
// The frame
// ---------------------------------------------------------------------------

/// Whether the texts that are shown of an array hold no line feed.
pub open spec fn plain_array(a: ArrayStatus) -> bool {
    unbroken(a.name@) && (a.sync matches Some(s) ==> unbroken(s.action@))
}

/// Whether the texts that are shown of a band hold no line feed.
pub open spec fn plain_band(b: GroupBandStatus) -> bool {
    unbroken(b.md_name@) && (b.sync matches Some(s) ==> unbroken(s.action@))
}

/// Whether no text of a report that the live view shows holds a line feed: the
/// names of arrays, and what is being synced.
pub open spec fn plain(r: StatusReport) -> bool {
    &&& forall|i: int| 0 <= i < r.arrays@.len() ==> plain_array(#[trigger] r.arrays@[i])
    &&& forall|g: int, b: int|
        0 <= g < r.groups@.len() && 0 <= b < r.groups@[g].bands@.len() ==> plain_band(
            #[trigger] r.groups@[g].bands@[b],
        )
}

/// Whether none of the lines holds a line feed.
pub open spec fn all_unbroken(lines: Seq<Seq<char>>) -> bool {
    forall|i: int| 0 <= i < lines.len() ==> unbroken(#[trigger] lines[i])
}

broadcast proof fn lemma_all_unbroken_sum(a: Seq<Seq<char>>, b: Seq<Seq<char>>)
    requires
        all_unbroken(a),
        all_unbroken(b),
    ensures
        #[trigger] all_unbroken(a + b),
{
    assert forall|i: int| 0 <= i < (a + b).len() implies unbroken(#[trigger] (a + b)[i]) by {
        if i < a.len() {
            assert(unbroken(a[i]));
        } else {
            assert(unbroken(b[i - a.len()]));
        }
    }
}

proof fn lemma_array_row(a: ArrayStatus)
    requires
        plain_array(a),
    ensures
        unbroken(watch::array_text(a)),
{
    broadcast use lemma_unbroken_sum;

    lemma_aligned_is_unbroken(a.name@, 8);
    lemma_bar_is_unbroken(watch::percent_of(a.sync));
    lemma_sync_is_unbroken(a.sync);
    reveal_strlit("  ");
    reveal_strlit("[");
    reveal_strlit("] ");
}

proof fn lemma_band_row(b: GroupBandStatus)
    requires
        plain_band(b),
    ensures
        unbroken(watch::band_text(b)),
{
    broadcast use lemma_unbroken_sum;

    lemma_dec_is_unbroken(b.index as nat);
    lemma_aligned_is_unbroken(text::dec(b.index as nat), 3);
    lemma_aligned_is_unbroken(b.md_name@, 10);
    lemma_bar_is_unbroken(watch::percent_of(b.sync));
    lemma_sync_is_unbroken(b.sync);
    reveal_strlit("no live mdadm array");
    reveal_strlit(" [scrubbing]");
    reveal_strlit("");
    reveal_strlit("  band");
    reveal_strlit("[");
    reveal_strlit("] ");
}

proof fn lemma_band_rows(groups: Seq<GroupStatus>)
    requires
        forall|g: int, b: int|
            0 <= g < groups.len() && 0 <= b < groups[g].bands@.len() ==> plain_band(
                #[trigger] groups[g].bands@[b],
            ),
    ensures
        all_unbroken(watch::band_texts(groups)),
    decreases groups.len(),
{
    broadcast use lemma_all_unbroken_sum;

    if groups.len() > 0 {
        let front = groups.drop_last();
        assert forall|g: int, b: int|
            0 <= g < front.len() && 0 <= b < front[g].bands@.len() implies plain_band(
            #[trigger] front[g].bands@[b],
        ) by {
            assert(plain_band(groups[g].bands@[b]));
        }
        lemma_band_rows(front);
        let bands = groups[groups.len() - 1].bands@;
        let rows = bands.map_values(|b: GroupBandStatus| watch::band_text(b));
        assert forall|i: int| 0 <= i < rows.len() implies unbroken(#[trigger] rows[i]) by {
            assert(plain_band(groups[groups.len() - 1].bands@[i]));
            lemma_band_row(bands[i]);
        }
        assert(all_unbroken(rows));
    }
}

proof fn lemma_content(r: StatusReport)
    requires
        plain(r),
    ensures
        all_unbroken(watch::content(r)),
{
    broadcast use {lemma_unbroken_sum, lemma_all_unbroken_sum};

    reveal_strlit("SHR-RS status (watch): ");
    reveal_strlit("HEALTHY");
    reveal_strlit("DEGRADED");
    reveal_strlit("UNKNOWN (no RAID array found)");
    reveal_strlit("");
    reveal_strlit("No arrays.");
    reveal_strlit("Arrays (");
    reveal_strlit("Bands (");
    reveal_strlit("):");
    assert(unbroken(detail::health_text(r.health)));
    assert(all_unbroken(seq!["SHR-RS status (watch): "@ + detail::health_text(r.health), ""@]));
    lemma_dec_is_unbroken(r.arrays@.len());
    let rows = watch::array_texts(r.arrays@);
    assert forall|i: int| 0 <= i < rows.len() implies unbroken(#[trigger] rows[i]) by {
        assert(plain_array(r.arrays@[i]));
        lemma_array_row(r.arrays@[i]);
    }
    assert(all_unbroken(rows));
    assert(all_unbroken(seq!["Arrays ("@ + text::dec(r.arrays@.len()) + "):"@]));
    assert(all_unbroken(watch::array_section(r)));
    let bands = watch::band_texts(r.groups@);
    lemma_band_rows(r.groups@);
    lemma_dec_is_unbroken(bands.len());
    assert(all_unbroken(seq![""@, "Bands ("@ + text::dec(bands.len()) + "):"@]));
    assert(all_unbroken(watch::band_section(r)));
}

/// Where no text that is shown holds a line feed, no line of the frame does.
pub proof fn no_line_of_a_frame_is_broken(r: StatusReport, meta: WatchFrameMeta)
    requires
        plain(r),
    ensures
        all_unbroken(watch::fitted(watch::content(r), meta)),
{
    broadcast use lemma_unbroken_sum;

    let lines = watch::content(r);
    let height = meta.max_height as nat;
    let width = meta.width as nat;
    lemma_content(r);
    reveal_strlit("");
    reveal_strlit(">");
    reveal_strlit("... +");
    reveal_strlit(" more line(s), resize terminal for full detail");
    let tall = watch::fitted_height(lines, height);
    let frame = watch::fitted(lines, meta);
    assert forall|i: int| 0 <= i < frame.len() implies unbroken(#[trigger] frame[i]) by {
        let line = tall[i];
        assert(unbroken(line)) by {
            if lines.len() > height && i == height - 1 {
                lemma_dec_is_unbroken((lines.len() - (height - 1)) as nat);
            } else if i < lines.len() {
                assert(line == lines[i]);
            }
        }
        if line.len() > width && width > 0 {
            let kept = line.take(width - 1);
            assert forall|k: int| 0 <= k < kept.len() implies #[trigger] kept[k] != '\n' by {
                assert(line[k] != '\n');
            }
        } else {
            lemma_aligned_is_unbroken(line, width);
        }
    }
}

/// A frame, read line by line, has exactly the lines of the terminal, each
/// exactly as wide as the terminal, however much the report holds: a redraw
/// can overwrite the frame before it in place.
pub proof fn a_frame_fills_the_terminal_line_by_line(r: StatusReport, meta: WatchFrameMeta)
    requires
        plain(r),
        meta.max_height >= 1,
    ensures
        split(watch::frame_text(r, meta)) == watch::fitted(watch::content(r), meta),
        split(watch::frame_text(r, meta)).len() == meta.max_height,
        forall|i: int|
            0 <= i < meta.max_height ==> (#[trigger] split(watch::frame_text(r, meta))[i]).len()
                == meta.width,
{
    no_line_of_a_frame_is_broken(r, meta);
    watch::frame_fits_the_terminal_exactly(r, meta);
    joined_lines_split_back(watch::fitted(watch::content(r), meta));
}

/// Whether two syncs are told alike.
pub open spec fn same_sync(a: Option<SyncSummary>, b: Option<SyncSummary>) -> bool {
    match (a, b) {
        (Some(x), Some(y)) => x.action@ == y.action@ && x.percent == y.percent && x.finish_min
            == y.finish_min,
        (None, None) => true,
        _ => false,
    }
}

/// Whether two arrays are told alike.
pub open spec fn same_array(a: ArrayStatus, b: ArrayStatus) -> bool {
    a.name@ == b.name@ && same_sync(a.sync, b.sync)
}

/// Whether two bands are told alike.
pub open spec fn same_band(a: GroupBandStatus, b: GroupBandStatus) -> bool {
    &&& a.index == b.index
    &&& a.md_name@ == b.md_name@
    &&& (a.members@.len() == 0) == (b.members@.len() == 0)
    &&& a.scrub_in_progress == b.scrub_in_progress
    &&& same_sync(a.sync, b.sync)
}

/// Whether the bands of two groups are told alike.
pub open spec fn same_group(a: GroupStatus, b: GroupStatus) -> bool {
    &&& a.bands@.len() == b.bands@.len()
    &&& forall|i: int| 0 <= i < a.bands@.len() ==> same_band(#[trigger] a.bands@[i], b.bands@[i])
}

proof fn lemma_same_band_rows(a: Seq<GroupStatus>, b: Seq<GroupStatus>)
    requires
        a.len() == b.len(),
        forall|i: int| 0 <= i < a.len() ==> same_group(#[trigger] a[i], b[i]),
    ensures
        watch::band_texts(a) == watch::band_texts(b),
    decreases a.len(),
{
    if a.len() > 0 {
        let n = a.len() - 1;
        assert(same_group(a[n], b[n]));
        assert forall|i: int| 0 <= i < n implies same_group(
            #[trigger] a.drop_last()[i],
            b.drop_last()[i],
        ) by {
            assert(same_group(a[i], b[i]));
        }
        lemma_same_band_rows(a.drop_last(), b.drop_last());
        let x = a[n].bands@.map_values(|b: GroupBandStatus| watch::band_text(b));
        let y = b[n].bands@.map_values(|b: GroupBandStatus| watch::band_text(b));
        assert forall|i: int| 0 <= i < x.len() implies #[trigger] x[i] == y[i] by {
            assert(same_band(a[n].bands@[i], b[n].bands@[i]));
        }
        assert(x =~= y);
    }
}

/// The same report and the same geometry give the same frame, character by
/// character: a frame depends on nothing but what the report tells of the
/// health, the arrays and the bands.
pub proof fn equal_reports_give_equal_frames(
    a: StatusReport,
    b: StatusReport,
    meta: WatchFrameMeta,
)
    requires
        a.health == b.health,
        a.arrays@.len() == b.arrays@.len(),
        forall|i: int| 0 <= i < a.arrays@.len() ==> same_array(#[trigger] a.arrays@[i], b.arrays@[i]),
        a.groups@.len() == b.groups@.len(),
        forall|i: int| 0 <= i < a.groups@.len() ==> same_group(#[trigger] a.groups@[i], b.groups@[i]),
    ensures
        watch::frame_text(a, meta) == watch::frame_text(b, meta),
{
    let x = watch::array_texts(a.arrays@);
    let y = watch::array_texts(b.arrays@);
    assert forall|i: int| 0 <= i < x.len() implies #[trigger] x[i] == y[i] by {
        assert(same_array(a.arrays@[i], b.arrays@[i]));
    }
    assert(x =~= y);
    lemma_same_band_rows(a.groups@, b.groups@);
}

} // verus!
