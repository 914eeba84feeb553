//! Laws of planned layouts: what holds of every plan that the initial planner
//! gives out, whatever the disks.

use vstd::prelude::*;
use crate::band;
use crate::band::BandView;
use crate::metrics;
use crate::planner;
use crate::planner::InputView;
use crate::raid;
use crate::slices;
use crate::table;
use crate::text;

verus! {

/// The length up to which bands can use `d`.
pub open spec fn reach(input: InputView, d: (Seq<char>, u64)) -> u64 {
    planner::usable_len(
        d.1,
        input.reserved_head,
        input.reserved_tail,
        input.band_alignment,
    )
}

/// Bands can use a disk up to the last point of the grid that leaves both
/// reserves free: what is lost to rounding is less than one unit of the grid,
/// and on a grid of single bytes nothing is lost at all.
pub proof fn only_reserves_and_rounding_are_lost(input: InputView, d: (Seq<char>, u64))
    ensures
        ({
            let left = d.1 - input.reserved_head - input.reserved_tail;
            let r = reach(input, d);
            &&& left <= 0 ==> r == 0
            &&& left > 0 && input.band_alignment <= 1 ==> r == left
            &&& left > 0 && input.band_alignment > 1 ==> r % input.band_alignment == 0 && r <= left
                < r + input.band_alignment
        }),
{
    let left = d.1 - input.reserved_head - input.reserved_tail;
    let room = if left > 0 {
        left as u64
    } else {
        0
    };
    planner::lemma_aligned(room, input.band_alignment);
    if left <= 0 && input.band_alignment > 1 {
        vstd::arithmetic::div_mod::lemma_small_mod(0, input.band_alignment as nat);
    }
}

pub proof fn lemma_sorted_holds_the_reaches(input: InputView, e: (Seq<char>, u64))
    ensures
        planner::by_length(planner::reaches(input)).contains(e) <==> planner::reaches(
            input,
        ).contains(e),
{
    broadcast use vstd::seq_lib::group_to_multiset_ensures;

    let r = planner::reaches(input);
    slices::lemma_by_length(r);
    assert(planner::by_length(r).to_multiset().count(e) == r.to_multiset().count(e));
}

/// The bands of a plan tile the disks from the start without gap or overlap:
/// they are numbered from zero, the first starts at zero, each one starts
/// where the one before it ends, and the last one ends at the greatest length
/// that the mode's least number of disks reach together.
pub proof fn planned_bands_tile_the_disks(input: InputView)
    requires
        planner::plan(input) is Ok,
    ensures
        ({
            let bands = planner::plan(input)->Ok_0.bands;
            let top = planner::redundant_top(
                planner::by_length(planner::reaches(input)),
                input.mode,
            );
            &&& 0 < bands.len() <= 256
            &&& bands[0].offset == 0
            &&& forall|i: int|
                0 <= i < bands.len() ==> (#[trigger] bands[i]).index == i && bands[i].end()
                    == bands[i].offset + bands[i].size
            &&& forall|i: int, j: int|
                0 <= i < bands.len() && j == i + 1 && j < bands.len() ==> (
                #[trigger] bands[j]).offset == (#[trigger] bands[i]).end()
            &&& bands.last().end() == top
        }),
{
    let s = planner::by_length(planner::reaches(input));
    slices::lemma_by_length(planner::reaches(input));
    let top = planner::redundant_top(s, input.mode);
    let ends = planner::cuts(s, 0, top);
    let bands = planner::bands_for(s, input.mode, ends);
    slices::lemma_cuts(s, 0, top);
    assert forall|i: int| 0 <= i < bands.len() implies (#[trigger] bands[i]).index == i
        && bands[i].end() == bands[i].offset + bands[i].size && bands[i].end() == ends[i] by {
        if i > 0 {
            assert(ends[i - 1] < ends[i]);
        }
    }
    assert forall|i: int, j: int|
        0 <= i < bands.len() && j == i + 1 && j < bands.len() implies (#[trigger] bands[j]).offset
        == (#[trigger] bands[i]).end() by {
        assert(bands[i].end() == ends[i]);
    }
    let at = s.len() - raid::mode_floor(input.mode);
    assert(0 < ends[0] <= top);
    assert(ends.contains(s[at].1));
    let k = choose|k: int| 0 <= k < ends.len() && ends[k] == top;
    if k < ends.len() - 1 {
        assert(ends[k] < ends[ends.len() - 1]);
    }
    assert(bands[bands.len() - 1].end() == ends.last());
}

/// A disk is a member of a planned band exactly when it reaches up to the
/// band's end.
pub proof fn planned_members_are_the_disks_that_reach(input: InputView, i: int, id: Seq<char>)
    requires
        planner::plan(input) is Ok,
        0 <= i < planner::plan(input)->Ok_0.bands.len(),
    ensures
        ({
            let b = planner::plan(input)->Ok_0.bands[i];
            b.members.contains(id) <==> exists|k: int|
                0 <= k < input.drives.len() && (#[trigger] input.drives[k]).0 == id && reach(
                    input,
                    input.drives[k],
                ) >= b.end()
        }),
{
    let r = planner::reaches(input);
    let s = planner::by_length(r);
    let top = planner::redundant_top(s, input.mode);
    let ends = planner::cuts(s, 0, top);
    let b = planner::plan(input)->Ok_0.bands[i];
    slices::lemma_by_length(r);
    slices::lemma_cuts(s, 0, top);
    if i > 0 {
        assert(ends[i - 1] < ends[i]);
    }
    assert(b.end() == ends[i]);
    slices::lemma_named_iff_reaching(s, ends[i], id);
    if b.members.contains(id) {
        let j = choose|j: int| 0 <= j < s.len() && (#[trigger] s[j]).0 == id && s[j].1 >= ends[i];
        assert(s.contains(s[j]));
        lemma_sorted_holds_the_reaches(input, s[j]);
        let k = choose|k: int| 0 <= k < r.len() && r[k] == s[j];
        assert(input.drives[k].0 == id);
    }
    if exists|k: int|
        0 <= k < input.drives.len() && (#[trigger] input.drives[k]).0 == id && reach(
            input,
            input.drives[k],
        ) >= b.end() {
        let k = choose|k: int|
            0 <= k < input.drives.len() && (#[trigger] input.drives[k]).0 == id && reach(
                input,
                input.drives[k],
            ) >= b.end();
        assert(r[k] == (id, reach(input, input.drives[k])));
        assert(r.contains(r[k]));
        lemma_sorted_holds_the_reaches(input, r[k]);
        let j = choose|j: int| 0 <= j < s.len() && s[j] == r[k];
        assert(s[j].0 == id);
    }
}

/// Every planned band is one that the mode accepts: enough members, none of
/// them twice, the level that the mode picks for their number.
pub proof fn planned_bands_are_accepted_by_the_mode(input: InputView, i: int)
    requires
        planner::plan(input) is Ok,
        0 <= i < planner::plan(input)->Ok_0.bands.len(),
    ensures
        planner::plan(input)->Ok_0.bands[i].checked_in(input.mode) is Ok,
        planner::plan(input)->Ok_0.bands[i].redundant(),
        planner::plan(input)->Ok_0.bands[i].members.len() >= raid::mode_floor(input.mode),
{
    let s = planner::by_length(planner::reaches(input));
    slices::lemma_by_length(planner::reaches(input));
    let top = planner::redundant_top(s, input.mode);
    let ends = planner::cuts(s, 0, top);
    slices::lemma_cuts(s, 0, top);
    slices::lemma_top_separates(s, input.mode, ends[i]);
    if i > 0 {
        assert(ends[i - 1] < ends[i]);
        assert(ends[0] < ends[i]);
    }
    slices::lemma_higher_slices_stay_distinct(s, ends[0], ends[i]);
    let b = planner::plan(input)->Ok_0.bands[i];
    assert(b == planner::band_at(s, input.mode, ends, i));
}

/// Losing any disks, no more in number than the mode promises to survive,
/// leaves every planned band recoverable.
pub proof fn planned_bands_survive_promised_losses(
    input: InputView,
    i: int,
    victims: Seq<Seq<char>>,
)
    requires
        planner::plan(input) is Ok,
        0 <= i < planner::plan(input)->Ok_0.bands.len(),
        victims.len() <= raid::mode_tolerance(input.mode),
    ensures
        planner::plan(input)->Ok_0.bands[i].survives(victims),
{
    planned_bands_are_accepted_by_the_mode(input, i);
    band::accepted_band_survives_promised_losses(
        planner::plan(input)->Ok_0.bands[i],
        input.mode,
        victims,
    );
}

/// In every plan usable and overhead bytes are what the bands take up, and
/// together with the stranded bytes they are the raw size of the disks; the
/// waste ratio lies between zero and one.
pub proof fn planned_capacity_is_conserved(input: InputView)
    requires
        planner::plan(input) is Ok,
        metrics::raw_total(input.drives) <= u64::MAX,
    ensures
        ({
            let p = planner::plan(input)->Ok_0;
            let raw_in_bands = table::total(p.bands.map_values(|b: BandView| b.raw()));
            &&& p.metrics.total_usable + p.metrics.redundancy_overhead == raw_in_bands
            &&& p.metrics.total_usable + p.metrics.redundancy_overhead + p.metrics.stranded_bytes
                == p.metrics.total_raw
            &&& p.metrics.total_raw == metrics::raw_total(input.drives)
            &&& 0 < p.metrics.waste_ratio.denominator
            &&& p.metrics.waste_ratio.numerator <= p.metrics.waste_ratio.denominator
        }),
{
    slices::lemma_layout_is_countable(input);
    let bands = planner::plan(input)->Ok_0.bands;
    metrics::capacity_accounting_is_conserved(input.drives, bands);
    metrics::usable_and_overhead_make_up_the_raw_bands(bands);
}

pub proof fn lemma_tails(s: Seq<(Seq<char>, u64)>, top: u64)
    requires
        forall|i: int, j: int|
            0 <= i < j < s.len() && (#[trigger] s[i]).1 > top && (#[trigger] s[j]).1 > top
                ==> s[i].0 != s[j].0,
    ensures
        table::ordered(planner::tails(s, top)),
        forall|e: (Seq<char>, u64)| #[trigger]
            planner::tails(s, top).contains(e) <==> exists|k: int|
                0 <= k < s.len() && (#[trigger] s[k]).0 == e.0 && s[k].1 > top && s[k].1 - top
                    == e.1,
    decreases s.len(),
{
    let out = planner::tails(s, top);
    if s.len() > 0 {
        let head = s.drop_last();
        let x = s.last();
        assert forall|i: int, j: int|
            0 <= i < j < head.len() && (#[trigger] head[i]).1 > top && (#[trigger] head[j]).1
                > top implies head[i].0 != head[j].0 by {
            assert(s[i].1 > top && s[j].1 > top);
        }
        lemma_tails(head, top);
        let inner = planner::tails(head, top);
        if x.1 > top {
            table::lemma_stored_ordered(inner, x.0, (x.1 - top) as u64);
        }
        assert forall|e: (Seq<char>, u64)| #[trigger] out.contains(e) <==> exists|k: int|
            0 <= k < s.len() && (#[trigger] s[k]).0 == e.0 && s[k].1 > top && s[k].1 - top
                == e.1 by {
            if x.1 > top {
                table::lemma_stored_contains(inner, x.0, (x.1 - top) as u64, e);
            }
            if inner.contains(e) {
                let k = choose|k: int|
                    0 <= k < head.len() && (#[trigger] head[k]).0 == e.0 && head[k].1 > top
                        && head[k].1 - top == e.1;
                assert(s[k] == head[k]);
            }
            if e == (x.0, (x.1 - top) as u64) && x.1 > top {
                assert(s[s.len() - 1].0 == e.0);
            }
            if exists|k: int|
                0 <= k < s.len() && (#[trigger] s[k]).0 == e.0 && s[k].1 > top && s[k].1 - top
                    == e.1 {
                let k = choose|k: int|
                    0 <= k < s.len() && (#[trigger] s[k]).0 == e.0 && s[k].1 > top && s[k].1 - top
                        == e.1;
                if k < head.len() {
                    assert(head[k].0 == e.0);
                    assert(inner.contains(e));
                    if x.1 > top {
                        assert(s[k].0 != s[s.len() - 1].0);
                    }
                }
            }
        }
    }
}

proof fn lemma_entry(list: Seq<(Seq<char>, u64)>, e: (Seq<char>, u64))
    requires
        table::ordered(list),
    ensures
        list.contains(e) ==> table::entry_or_zero(list, e.0) == e.1,
        (forall|v: u64| !list.contains((e.0, v))) ==> table::entry_or_zero(list, e.0) == 0,
    decreases list.len(),
{
    if list.len() > 0 {
        let head = list.drop_last();
        assert(table::ordered(head)) by {
            assert forall|i: int, j: int| 0 <= i < j < head.len() implies text::before(
                (#[trigger] head[i]).0,
                (#[trigger] head[j]).0,
            ) by {
                assert(text::before(list[i].0, list[j].0));
            }
        }
        lemma_entry(head, e);
        assert(list[list.len() - 1] == list.last());
        if list.contains(e) {
            let k = choose|k: int| 0 <= k < list.len() && list[k] == e;
            if k < head.len() {
                assert(head[k] == e);
                assert(text::before(list[k].0, list[list.len() - 1].0));
                text::lemma_before_irreflexive(e.0);
            }
        }
        if forall|v: u64| !list.contains((e.0, v)) {
            assert(!list.contains((e.0, list.last().1)));
            assert forall|v: u64| !head.contains((e.0, v)) by {
                if head.contains((e.0, v)) {
                    let k = choose|k: int| 0 <= k < head.len() && head[k] == (e.0, v);
                    assert(list[k] == (e.0, v));
                    assert(list.contains((e.0, v)));
                }
            }
        }
    }
}

/// Of a plan, the disks that bands can use are pairwise different.
pub proof fn lemma_usable_disks_are_distinct(input: InputView)
    requires
        planner::plan(input) is Ok,
    ensures
        ({
            let s = planner::by_length(planner::reaches(input));
            forall|i: int, j: int|
                0 <= i < s.len() && 0 <= j < s.len() && i != j && (#[trigger] s[i]).1 > 0
                    && (#[trigger] s[j]).1 > 0 ==> s[i].0 != s[j].0
        }),
{
    let s = planner::by_length(planner::reaches(input));
    slices::lemma_by_length(planner::reaches(input));
    let top = planner::redundant_top(s, input.mode);
    let ends = planner::cuts(s, 0, top);
    slices::lemma_cuts(s, 0, top);
    let a = slices::lemma_reaching(s, ends[0]);
    let low = planner::names(planner::reaching(s, ends[0]));
    assert forall|i: int, j: int|
        0 <= i < s.len() && 0 <= j < s.len() && i != j && (#[trigger] s[i]).1 > 0 && (
        #[trigger] s[j]).1 > 0 implies s[i].0 != s[j].0 by {
        slices::lemma_no_length_inside_a_slice(s, 0, top, 0, i);
        slices::lemma_no_length_inside_a_slice(s, 0, top, 0, j);
        assert(a <= i && a <= j);
        assert(low[i - a] == s[i].0);
        assert(low[j - a] == s[j].0);
    }
}

/// Every disk is accounted for: what the bands take up on it and what the
/// plan reports as unusable make up the length that bands can use. (A disk
/// that is too small to be used shares no identifier with one that is used.)
pub proof fn every_disk_is_accounted_for(input: InputView, i: int)
    requires
        planner::plan(input) is Ok,
        0 <= i < input.drives.len(),
        reach(input, input.drives[i]) == 0 ==> forall|j: int|
            0 <= j < input.drives.len() && (#[trigger] input.drives[j]).0 == input.drives[i].0
                ==> reach(input, input.drives[j]) == 0,
    ensures
        ({
            let p = planner::plan(input)->Ok_0;
            let d = input.drives[i];
            metrics::consumed(p.bands, d.0) + table::entry_or_zero(p.unusable, d.0) == reach(input, d)
        }),
{
    let r = planner::reaches(input);
    let s = planner::by_length(r);
    let p = planner::plan(input)->Ok_0;
    let d = input.drives[i];
    let top = planner::redundant_top(s, input.mode);
    let ends = planner::cuts(s, 0, top);
    slices::lemma_by_length(r);
    slices::lemma_cuts(s, 0, top);
    lemma_usable_disks_are_distinct(input);
    assert(r[i] == (d.0, reach(input, d)));
    assert(r.contains(r[i]));
    lemma_sorted_holds_the_reaches(input, r[i]);
    let k = choose|k: int| 0 <= k < s.len() && s[k] == r[i];
    assert forall|j: int|
        0 <= j < s.len() && j != k && (#[trigger] s[j]).0 == s[k].0 implies s[j].1 == 0 by {
        if s[k].1 == 0 {
            assert(s.contains(s[j]));
            lemma_sorted_holds_the_reaches(input, s[j]);
            let m = choose|m: int| 0 <= m < r.len() && r[m] == s[j];
            assert(input.drives[m].0 == d.0);
        }
    }
    slices::lemma_share_of_one_disk(s, input.mode, top, ends.len(), k);
    assert(p.bands.take(ends.len() as int) =~= p.bands);
    planned_bands_tile_the_disks(input);
    assert(p.bands.last().end() == ends.last()) by {
        let last = ends.len() - 1;
        if last > 0 {
            assert(ends[last - 1] < ends[last]);
        }
    }
    lemma_tails(s, top);
    if s[k].1 > top {
        let e = (d.0, (s[k].1 - top) as u64);
        assert(s[k].0 == e.0);
        assert(p.unusable.contains(e));
        lemma_entry(p.unusable, e);
    } else {
        assert forall|v: u64| !p.unusable.contains((d.0, v)) by {
            if p.unusable.contains((d.0, v)) {
                let j = choose|j: int|
                    0 <= j < s.len() && (#[trigger] s[j]).0 == d.0 && s[j].1 > top && s[j].1
                        - top == v;
                assert(j != k);
            }
        }
        lemma_entry(p.unusable, (d.0, 0u64));
    }
}

// ---------------------------------------------------------------------------
// The order of the disks does not matter
// ---------------------------------------------------------------------------

/// Two lists in order with the same entries, each once, are the same list.
proof fn lemma_in_order_unique(a: Seq<(Seq<char>, u64)>, b: Seq<(Seq<char>, u64)>)
    requires
        slices::in_order(a),
        slices::in_order(b),
        a.no_duplicates(),
        b.no_duplicates(),
        forall|e: (Seq<char>, u64)| a.contains(e) <==> b.contains(e),
    ensures
        a == b,
    decreases a.len(),
{
    if a.len() == 0 {
        if b.len() > 0 {
            assert(b.contains(b[0]));
        }
        assert(a =~= b);
    } else if b.len() == 0 {
        assert(a.contains(a[0]));
    } else {
        let x = a.last();
        let y = b.last();
        assert(a[a.len() - 1] == x && a.contains(x));
        assert(b[b.len() - 1] == y && b.contains(y));
        assert(b.contains(x));
        assert(a.contains(y));
        let i = choose|i: int| 0 <= i < b.len() && b[i] == x;
        let j = choose|j: int| 0 <= j < a.len() && a[j] == y;
        if x != y {
            assert(slices::no_longer(b[i], b[b.len() - 1]));
            assert(slices::no_longer(a[j], a[a.len() - 1]));
            if x.1 == y.1 {
                text::lemma_before_transitive(x.0, y.0, x.0);
                text::lemma_before_irreflexive(x.0);
            }
        }
        let ha = a.drop_last();
        let hb = b.drop_last();
        assert forall|e: (Seq<char>, u64)| ha.contains(e) <==> hb.contains(e) by {
            if ha.contains(e) {
                let k = choose|k: int| 0 <= k < ha.len() && ha[k] == e;
                assert(a[k] == e);
                assert(a.contains(e));
                let m = choose|m: int| 0 <= m < b.len() && b[m] == e;
                assert(m < b.len() - 1);
                assert(hb[m] == e);
            }
            if hb.contains(e) {
                let k = choose|k: int| 0 <= k < hb.len() && hb[k] == e;
                assert(b[k] == e);
                assert(b.contains(e));
                let m = choose|m: int| 0 <= m < a.len() && a[m] == e;
                assert(m < a.len() - 1);
                assert(ha[m] == e);
            }
        }
        assert(slices::in_order(ha)) by {
            assert forall|p: int, q: int| 0 <= p < q < ha.len() implies slices::no_longer(
                #[trigger] ha[p],
                #[trigger] ha[q],
            ) by {
                assert(slices::no_longer(a[p], a[q]));
            }
        }
        assert(slices::in_order(hb)) by {
            assert forall|p: int, q: int| 0 <= p < q < hb.len() implies slices::no_longer(
                #[trigger] hb[p],
                #[trigger] hb[q],
            ) by {
                assert(slices::no_longer(b[p], b[q]));
            }
        }
        lemma_in_order_unique(ha, hb);
        assert(a =~= ha.push(x));
        assert(b =~= hb.push(y));
    }
}

/// Sorting lists of the same entries, each once, gives the same list.
proof fn lemma_by_length_ignores_order(a: Seq<(Seq<char>, u64)>, b: Seq<(Seq<char>, u64)>)
    requires
        a.no_duplicates(),
        b.no_duplicates(),
        forall|e: (Seq<char>, u64)| a.contains(e) <==> b.contains(e),
    ensures
        planner::by_length(a) == planner::by_length(b),
{
    broadcast use vstd::seq_lib::group_to_multiset_ensures;

    let s = planner::by_length(a);
    let t = planner::by_length(b);
    slices::lemma_by_length(a);
    slices::lemma_by_length(b);
    a.lemma_multiset_has_no_duplicates();
    b.lemma_multiset_has_no_duplicates();
    s.lemma_multiset_has_no_duplicates_conv();
    t.lemma_multiset_has_no_duplicates_conv();
    assert forall|e: (Seq<char>, u64)| s.contains(e) <==> t.contains(e) by {
        assert(s.to_multiset().count(e) == a.to_multiset().count(e));
        assert(t.to_multiset().count(e) == b.to_multiset().count(e));
    }
    lemma_in_order_unique(s, t);
}

/// The fill fractions of disks with pairwise different identifiers.
pub proof fn lemma_utilization(drives: Seq<(Seq<char>, u64)>, bands: Seq<BandView>)
    requires
        planner::names(drives).no_duplicates(),
    ensures
        table::ordered(metrics::utilization(drives, bands)),
        forall|e: (Seq<char>, metrics::Fraction)| #[trigger]
            metrics::utilization(drives, bands).contains(e) <==> exists|k: int|
                0 <= k < drives.len() && (#[trigger] drives[k]).0 == e.0 && metrics::fraction(
                    metrics::consumed(bands, e.0) as u64,
                    drives[k].1,
                ) == e.1,
    decreases drives.len(),
{
    let out = metrics::utilization(drives, bands);
    if drives.len() > 0 {
        let head = drives.drop_last();
        let d = drives.last();
        let value = metrics::fraction(metrics::consumed(bands, d.0) as u64, d.1);
        let all = planner::names(drives);
        assert forall|i: int, j: int|
            0 <= i < head.len() && 0 <= j < head.len() && i != j implies planner::names(
            head,
        )[i] != planner::names(head)[j] by {
            assert(all[i] == planner::names(head)[i]);
            assert(all[j] == planner::names(head)[j]);
        }
        lemma_utilization(head, bands);
        let inner = metrics::utilization(head, bands);
        table::lemma_stored_ordered(inner, d.0, value);
        assert forall|e: (Seq<char>, metrics::Fraction)| #[trigger] out.contains(e) <==> exists|
            k: int,
        |
            0 <= k < drives.len() && (#[trigger] drives[k]).0 == e.0 && metrics::fraction(
                metrics::consumed(bands, e.0) as u64,
                drives[k].1,
            ) == e.1 by {
            table::lemma_stored_contains(inner, d.0, value, e);
            if inner.contains(e) {
                let k = choose|k: int|
                    0 <= k < head.len() && (#[trigger] head[k]).0 == e.0 && metrics::fraction(
                        metrics::consumed(bands, e.0) as u64,
                        head[k].1,
                    ) == e.1;
                assert(drives[k] == head[k]);
            }
            if e == (d.0, value) {
                assert(drives[drives.len() - 1].0 == e.0);
            }
            if exists|k: int|
                0 <= k < drives.len() && (#[trigger] drives[k]).0 == e.0 && metrics::fraction(
                    metrics::consumed(bands, e.0) as u64,
                    drives[k].1,
                ) == e.1 {
                let k = choose|k: int|
                    0 <= k < drives.len() && (#[trigger] drives[k]).0 == e.0 && metrics::fraction(
                        metrics::consumed(bands, e.0) as u64,
                        drives[k].1,
                    ) == e.1;
                if k < head.len() {
                    assert(head[k].0 == e.0);
                    assert(all[k] == drives[k].0);
                    assert(all[drives.len() - 1] == d.0);
                }
            }
        }
    }
}

/// A plan depends on which disks there are, not on the order in which they
/// are listed.
pub proof fn plan_ignores_the_order_of_the_disks(a: InputView, b: InputView)
    requires
        a.mode == b.mode,
        a.band_alignment == b.band_alignment,
        a.reserved_head == b.reserved_head,
        a.reserved_tail == b.reserved_tail,
        planner::names(a.drives).no_duplicates(),
        planner::names(b.drives).no_duplicates(),
        forall|e: (Seq<char>, u64)| a.drives.contains(e) <==> b.drives.contains(e),
    ensures
        planner::plan(a) == planner::plan(b),
{
    let da = a.drives;
    let db = b.drives;
    let ra = planner::reaches(a);
    let rb = planner::reaches(b);
    lemma_distinct_names(da);
    lemma_distinct_names(db);
    assert(planner::names(ra) =~= planner::names(da));
    assert(planner::names(rb) =~= planner::names(db));
    lemma_distinct_names(ra);
    lemma_distinct_names(rb);
    lemma_same_reaches(a, b);
    lemma_same_reaches(b, a);
    assert forall|e: (Seq<char>, u64)| ra.contains(e) <==> rb.contains(e) by {}
    lemma_by_length_ignores_order(ra, rb);
    lemma_by_length_ignores_order(da, db);
    slices::lemma_by_length(da);
    slices::lemma_by_length(db);
    slices::lemma_by_length(ra);
    slices::lemma_by_length(rb);
    assert(slices::lengths(da) =~= metrics::sizes(a.drives));
    assert(slices::lengths(db) =~= metrics::sizes(b.drives));
    let s = planner::by_length(ra);
    let bands = planner::bands_for(
        s,
        a.mode,
        planner::cuts(s, 0, planner::redundant_top(s, a.mode)),
    );
    lemma_utilization(a.drives, bands);
    lemma_utilization(b.drives, bands);
    let ua = metrics::utilization(a.drives, bands);
    let ub = metrics::utilization(b.drives, bands);
    assert forall|e: (Seq<char>, metrics::Fraction)| ua.contains(e) <==> ub.contains(e) by {
        if ua.contains(e) {
            let k = choose|k: int|
                0 <= k < a.drives.len() && (#[trigger] a.drives[k]).0 == e.0 && metrics::fraction(
                    metrics::consumed(bands, e.0) as u64,
                    a.drives[k].1,
                ) == e.1;
            assert(da[k] == (e.0, a.drives[k].1));
            assert(da.contains(da[k]));
            assert(db.contains(da[k]));
            let m = choose|m: int| 0 <= m < db.len() && db[m] == da[k];
            assert(b.drives[m].0 == e.0);
        }
        if ub.contains(e) {
            let k = choose|k: int|
                0 <= k < b.drives.len() && (#[trigger] b.drives[k]).0 == e.0 && metrics::fraction(
                    metrics::consumed(bands, e.0) as u64,
                    b.drives[k].1,
                ) == e.1;
            assert(db[k] == (e.0, b.drives[k].1));
            assert(db.contains(db[k]));
            assert(da.contains(db[k]));
            let m = choose|m: int| 0 <= m < da.len() && da[m] == db[k];
            assert(a.drives[m].0 == e.0);
        }
    }
    table::lemma_ordered_unique(ua, ub);
}

proof fn lemma_distinct_names(list: Seq<(Seq<char>, u64)>)
    requires
        planner::names(list).no_duplicates(),
    ensures
        list.no_duplicates(),
{
    assert forall|i: int, j: int|
        0 <= i < list.len() && 0 <= j < list.len() && i != j implies list[i] != list[j] by {
        assert(planner::names(list)[i] == list[i].0);
        assert(planner::names(list)[j] == list[j].0);
    }
}

proof fn lemma_same_reaches(a: InputView, b: InputView)
    requires
        a.band_alignment == b.band_alignment,
        a.reserved_head == b.reserved_head,
        a.reserved_tail == b.reserved_tail,
        forall|e: (Seq<char>, u64)|
            #[trigger] a.drives.contains(e) ==> b.drives.contains(e),
    ensures
        forall|e: (Seq<char>, u64)|
            #[trigger] planner::reaches(a).contains(e) ==> planner::reaches(b).contains(e),
{
    let ra = planner::reaches(a);
    let rb = planner::reaches(b);
    assert forall|e: (Seq<char>, u64)| #[trigger] ra.contains(e) implies rb.contains(e) by {
        let k = choose|k: int| 0 <= k < ra.len() && ra[k] == e;
        let x = a.drives[k];
        assert(a.drives.contains(x));
        assert(b.drives.contains(x));
        let m = choose|m: int| 0 <= m < b.drives.len() && b.drives[m] == x;
        assert(rb[m] == e);
    }
}

} // verus!
