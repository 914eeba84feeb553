//! Facts about the slices of a planned layout: the order of the disks, the
//! slice boundaries, the members of a slice, and the capacity they add up to.

use vstd::prelude::*;
use crate::band::BandView;
use crate::metrics;
use crate::planner;
use crate::raid;
use crate::raid::RedundancyMode;
use crate::table;
use crate::text;

verus! {

/// Whether `a` may stand before `b` in the list by length.
pub open spec fn no_longer(a: (Seq<char>, u64), b: (Seq<char>, u64)) -> bool {
    a == b || planner::shorter(a, b)
}

/// Whether `s` runs from the shortest to the longest.
pub open spec fn in_order(s: Seq<(Seq<char>, u64)>) -> bool {
    forall|i: int, j: int| 0 <= i < j < s.len() ==> no_longer(#[trigger] s[i], #[trigger] s[j])
}

/// The lengths of `s`.
pub open spec fn lengths(s: Seq<(Seq<char>, u64)>) -> Seq<nat> {
    s.map_values(|e: (Seq<char>, u64)| e.1 as nat)
}

/// The lengths of `s`, those above `top` cut off there.
pub open spec fn clipped(s: Seq<(Seq<char>, u64)>, top: u64) -> Seq<nat> {
    s.map_values(
        |e: (Seq<char>, u64)|
            if e.1 <= top {
                e.1 as nat
            } else {
                top as nat
            },
    )
}

pub proof fn lemma_no_longer_total(a: (Seq<char>, u64), b: (Seq<char>, u64))
    ensures
        planner::shorter(a, b) || no_longer(b, a),
{
    text::lemma_before_total(a.0, b.0);
}

pub proof fn lemma_no_longer_transitive(
    a: (Seq<char>, u64),
    b: (Seq<char>, u64),
    c: (Seq<char>, u64),
)
    requires
        no_longer(a, b),
        no_longer(b, c),
    ensures
        no_longer(a, c),
{
    if a != b && b != c && a.1 == b.1 && b.1 == c.1 {
        text::lemma_before_transitive(a.0, b.0, c.0);
    }
}

/// Putting an entry in its place keeps a list in order and adds just it.
pub proof fn lemma_placed(list: Seq<(Seq<char>, u64)>, e: (Seq<char>, u64))
    requires
        in_order(list),
    ensures
        in_order(planner::placed(list, e)),
        planner::placed(list, e).len() == list.len() + 1,
        planner::placed(list, e).to_multiset() == list.to_multiset().insert(e),
        table::total(lengths(planner::placed(list, e))) == table::total(lengths(list)) + e.1,
        forall|x: (Seq<char>, u64)|
            #[trigger] planner::placed(list, e).contains(x) ==> x == e || list.contains(x),
    decreases list.len(),
{
    broadcast use vstd::seq_lib::group_to_multiset_ensures;

    let out = planner::placed(list, e);
    if list.len() > 0 && planner::shorter(e, list.last()) {
        let head = list.drop_last();
        let inner = planner::placed(head, e);
        assert(in_order(head)) by {
            assert forall|i: int, j: int| 0 <= i < j < head.len() implies no_longer(
                #[trigger] head[i],
                #[trigger] head[j],
            ) by {
                assert(no_longer(list[i], list[j]));
            }
        }
        lemma_placed(head, e);
        assert(list =~= head.push(list.last()));
        assert(out.to_multiset() =~= list.to_multiset().insert(e));
        assert(lengths(out).drop_last() =~= lengths(inner));
        assert(lengths(list).drop_last() =~= lengths(head));
        assert forall|x: (Seq<char>, u64)| out.contains(x) implies x == e || list.contains(x) by {
            let i = choose|i: int| 0 <= i < out.len() && out[i] == x;
            if i < inner.len() {
                assert(inner[i] == x);
                assert(inner.contains(x));
                if x != e {
                    let k = choose|k: int| 0 <= k < head.len() && head[k] == x;
                    assert(list[k] == x);
                }
            } else {
                assert(list[list.len() - 1] == x);
            }
        }
        assert forall|i: int, j: int| 0 <= i < j < out.len() implies no_longer(
            #[trigger] out[i],
            #[trigger] out[j],
        ) by {
            if j < inner.len() {
                assert(no_longer(inner[i], inner[j]));
            } else {
                assert(inner.contains(inner[i]));
                if inner[i] != e {
                    let k = choose|k: int| 0 <= k < head.len() && head[k] == inner[i];
                    assert(no_longer(list[k], list[list.len() - 1]));
                }
            }
        }
    } else {
        assert(lengths(out).drop_last() =~= lengths(list));
        assert forall|x: (Seq<char>, u64)| out.contains(x) implies x == e || list.contains(x) by {
            let i = choose|i: int| 0 <= i < out.len() && out[i] == x;
            if i < list.len() {
                assert(list[i] == x);
            }
        }
        assert forall|i: int, j: int| 0 <= i < j < out.len() implies no_longer(
            #[trigger] out[i],
            #[trigger] out[j],
        ) by {
            if j < list.len() {
                assert(no_longer(list[i], list[j]));
            } else {
                lemma_no_longer_total(e, list.last());
                if i < list.len() - 1 {
                    assert(no_longer(list[i], list[list.len() - 1]));
                    lemma_no_longer_transitive(list[i], list.last(), e);
                }
            }
        }
    }
}

/// The list by length is in order and holds the same entries.
pub proof fn lemma_by_length(list: Seq<(Seq<char>, u64)>)
    ensures
        in_order(planner::by_length(list)),
        planner::by_length(list).len() == list.len(),
        planner::by_length(list).to_multiset() == list.to_multiset(),
        table::total(lengths(planner::by_length(list))) == table::total(lengths(list)),
    decreases list.len(),
{
    broadcast use vstd::seq_lib::group_to_multiset_ensures;

    if list.len() == 0 {
        assert(list =~= Seq::empty());
        assert(lengths(list) =~= lengths(planner::by_length(list)));
    } else {
        let head = list.drop_last();
        lemma_by_length(head);
        lemma_placed(planner::by_length(head), list.last());
        assert(list =~= head.push(list.last()));
        assert(lengths(list).drop_last() =~= lengths(head));
    }
}

/// The boundaries increase strictly, lie in the asked range, and are exactly
/// the lengths that occur there.
pub proof fn lemma_cuts(s: Seq<(Seq<char>, u64)>, low: u64, high: u64)
    requires
        in_order(s),
    ensures
        ({
            let c = planner::cuts(s, low, high);
            &&& c.len() <= s.len()
            &&& forall|i: int, j: int| 0 <= i < j < c.len() ==> #[trigger] c[i] < #[trigger] c[j]
            &&& forall|i: int| 0 <= i < c.len() ==> low < #[trigger] c[i] <= high
            &&& forall|i: int|
                0 <= i < c.len() ==> exists|k: int|
                    0 <= k < s.len() && (#[trigger] s[k]).1 == #[trigger] c[i]
            &&& forall|k: int|
                0 <= k < s.len() && low < (#[trigger] s[k]).1 <= high ==> c.contains(s[k].1)
        }),
    decreases s.len(),
{
    let c = planner::cuts(s, low, high);
    if s.len() > 0 {
        let head = s.drop_last();
        assert(in_order(head)) by {
            assert forall|i: int, j: int| 0 <= i < j < head.len() implies no_longer(
                #[trigger] head[i],
                #[trigger] head[j],
            ) by {
                assert(no_longer(s[i], s[j]));
            }
        }
        lemma_cuts(head, low, high);
        let p = planner::cuts(head, low, high);
        let x = s.last().1;
        assert forall|i: int| 0 <= i < p.len() implies #[trigger] p[i] <= x by {
            let k = choose|k: int| 0 <= k < head.len() && (#[trigger] head[k]).1 == p[i];
            assert(no_longer(s[k], s[s.len() - 1]));
        }
        assert forall|i: int| 0 <= i < c.len() implies exists|k: int|
            0 <= k < s.len() && (#[trigger] s[k]).1 == #[trigger] c[i] by {
            if i < p.len() {
                let k = choose|k: int| 0 <= k < head.len() && (#[trigger] head[k]).1 == p[i];
                assert(s[k].1 == c[i]);
            } else {
                assert(s[s.len() - 1].1 == c[i]);
            }
        }
        assert forall|k: int| 0 <= k < s.len() && low < (#[trigger] s[k]).1 <= high implies c.contains(
            s[k].1,
        ) by {
            if k < head.len() {
                assert(head[k] == s[k]);
                assert(p.contains(head[k].1));
                let i = choose|i: int| 0 <= i < p.len() && p[i] == s[k].1;
                assert(c[i] == s[k].1);
            } else {
                assert(c[c.len() - 1] == x);
            }
        }
    }
}

/// No disk ends strictly inside a slice.
pub proof fn lemma_no_length_inside_a_slice(
    s: Seq<(Seq<char>, u64)>,
    low: u64,
    high: u64,
    i: int,
    k: int,
)
    requires
        in_order(s),
        0 <= i < planner::cuts(s, low, high).len(),
        0 <= k < s.len(),
    ensures
        ({
            let ends = planner::cuts(s, low, high);
            &&& s[k].1 <= planner::slice_start(ends, low, i) || s[k].1 >= ends[i]
            &&& planner::slice_start(ends, low, i) < ends[i]
        }),
{
    lemma_cuts(s, low, high);
    let ends = planner::cuts(s, low, high);
    let start = planner::slice_start(ends, low, i);
    if start < s[k].1 && s[k].1 < ends[i] {
        assert(ends.contains(s[k].1));
        let j = choose|j: int| 0 <= j < ends.len() && ends[j] == s[k].1;
        if j < i {
            if j < i - 1 {
                assert(ends[j] < ends[i - 1]);
            }
        } else if j > i {
            assert(ends[i] < ends[j]);
        }
    }
    if i > 0 {
        assert(ends[i - 1] < ends[i]);
    }
}

/// The disks that reach up to `end` are the rest of the list from some place
/// on.
pub proof fn lemma_reaching(s: Seq<(Seq<char>, u64)>, end: u64) -> (k: int)
    requires
        in_order(s),
    ensures
        0 <= k <= s.len(),
        planner::reaching(s, end) == s.skip(k),
        forall|i: int| 0 <= i < k ==> (#[trigger] s[i]).1 < end,
        forall|i: int| k <= i < s.len() ==> (#[trigger] s[i]).1 >= end,
    decreases s.len(),
{
    reveal(Seq::filter);
    if s.len() == 0 {
        assert(planner::reaching(s, end) =~= s.skip(0));
        0
    } else {
        let head = s.drop_last();
        assert(in_order(head)) by {
            assert forall|i: int, j: int| 0 <= i < j < head.len() implies no_longer(
                #[trigger] head[i],
                #[trigger] head[j],
            ) by {
                assert(no_longer(s[i], s[j]));
            }
        }
        let k = lemma_reaching(head, end);
        assert forall|i: int| 0 <= i < k implies (#[trigger] s[i]).1 < end by {
            assert(head[i].1 < end);
        }
        assert forall|i: int| k <= i < head.len() implies (#[trigger] s[i]).1 >= end by {
            assert(head[i].1 >= end);
        }
        if s.last().1 >= end {
            assert(planner::reaching(s, end) =~= s.skip(k));
            k
        } else {
            if k < head.len() {
                assert(no_longer(s[k], s[s.len() - 1]));
                assert(head[k].1 >= end);
            }
            assert(planner::reaching(s, end) =~= s.skip(s.len() as int));
            s.len() as int
        }
    }
}

/// Up to the redundant top every slice has as many members as the mode needs;
/// above it none has.
pub proof fn lemma_top_separates(s: Seq<(Seq<char>, u64)>, mode: RedundancyMode, end: u64)
    requires
        in_order(s),
        s.len() >= raid::mode_floor(mode),
    ensures
        end <= planner::redundant_top(s, mode) <==> planner::reaching(s, end).len()
            >= raid::mode_floor(mode),
{
    let k = lemma_reaching(s, end);
    let at = s.len() - raid::mode_floor(mode);
    if end <= planner::redundant_top(s, mode) {
        if k > at {
            assert(s[at].1 < end);
        }
    } else {
        if k <= at {
            assert(s[at].1 >= end);
        }
    }
}

/// A disk is among those that reach up to `end` exactly when it does.
pub proof fn lemma_named_iff_reaching(s: Seq<(Seq<char>, u64)>, end: u64, id: Seq<char>)
    ensures
        planner::names(planner::reaching(s, end)).contains(id) <==> exists|k: int|
            0 <= k < s.len() && (#[trigger] s[k]).0 == id && s[k].1 >= end,
{
    let far = |e: (Seq<char>, u64)| e.1 >= end;
    let r = planner::reaching(s, end);
    if planner::names(r).contains(id) {
        let i = choose|i: int| 0 <= i < r.len() && planner::names(r)[i] == id;
        assert(r[i].0 == id);
        s.lemma_filter_pred(far, i);
        assert(r.contains(r[i]));
        s.lemma_filter_contains_rev(far, r[i]);
        let k = choose|k: int| 0 <= k < s.len() && s[k] == r[i];
        assert(s[k].0 == id && s[k].1 >= end);
    }
    if exists|k: int| 0 <= k < s.len() && (#[trigger] s[k]).0 == id && s[k].1 >= end {
        let k = choose|k: int| 0 <= k < s.len() && (#[trigger] s[k]).0 == id && s[k].1 >= end;
        s.lemma_filter_contains(far, k);
        let i = choose|i: int| 0 <= i < r.len() && r[i] == s[k];
        assert(planner::names(r)[i] == id);
    }
}

/// Where the members of a slice are pairwise different, so are those of every
/// higher slice.
pub proof fn lemma_higher_slices_stay_distinct(s: Seq<(Seq<char>, u64)>, low: u64, high: u64)
    requires
        in_order(s),
        low <= high,
        planner::names(planner::reaching(s, low)).no_duplicates(),
    ensures
        planner::names(planner::reaching(s, high)).no_duplicates(),
{
    let a = lemma_reaching(s, low);
    let b = lemma_reaching(s, high);
    let lows = planner::names(planner::reaching(s, low));
    let highs = planner::names(planner::reaching(s, high));
    if b < a {
        assert(s[b].1 >= high);
        assert(s[b].1 < low);
    }
    assert forall|i: int, j: int|
        0 <= i < highs.len() && 0 <= j < highs.len() && i != j implies highs[i] != highs[j] by {
        assert(lows[i + (b - a)] == s[b + i].0);
        assert(lows[j + (b - a)] == s[b + j].0);
        assert(highs[i] == s[b + i].0);
        assert(highs[j] == s[b + j].0);
    }
}

// ---------------------------------------------------------------------------
// Capacity
// ---------------------------------------------------------------------------

/// Raising the cut by one slice adds the slice on each disk that reaches its
/// end.
pub proof fn lemma_clipped_step(s: Seq<(Seq<char>, u64)>, start: u64, end: u64)
    requires
        start <= end,
        forall|k: int| 0 <= k < s.len() ==> (#[trigger] s[k]).1 <= start || s[k].1 >= end,
    ensures
        table::total(clipped(s, end)) == table::total(clipped(s, start)) + (end - start)
            * planner::reaching(s, end).len(),
    decreases s.len(),
{
    reveal(Seq::filter);
    if s.len() > 0 {
        let head = s.drop_last();
        assert forall|k: int| 0 <= k < head.len() implies (#[trigger] head[k]).1 <= start
            || head[k].1 >= end by {
            assert(head[k] == s[k]);
        }
        lemma_clipped_step(head, start, end);
        assert(clipped(s, end).drop_last() =~= clipped(head, end));
        assert(clipped(s, start).drop_last() =~= clipped(head, start));
        let n = planner::reaching(head, end).len();
        assert(s[s.len() - 1].1 <= start || s[s.len() - 1].1 >= end);
        if s.last().1 >= end {
            assert((end - start) * (n + 1) == (end - start) * n + (end - start)) by (nonlinear_arith);
        }
    } else {
        assert((end - start) * 0 == 0);
    }
}

/// The bands of a layout take up, together, every disk up to the end of the
/// last of them.
pub proof fn lemma_bands_fill_the_disks(
    s: Seq<(Seq<char>, u64)>,
    mode: RedundancyMode,
    high: u64,
    n: nat,
)
    requires
        in_order(s),
        n <= planner::cuts(s, 0, high).len(),
    ensures
        ({
            let ends = planner::cuts(s, 0, high);
            let raws = planner::bands_for(s, mode, ends).take(n as int).map_values(
                |b: BandView| b.raw(),
            );
            table::total(raws) == table::total(clipped(s, planner::slice_start(ends, 0, n as int)))
        }),
    decreases n,
{
    let ends = planner::cuts(s, 0, high);
    let bands = planner::bands_for(s, mode, ends);
    let raws = bands.take(n as int).map_values(|b: BandView| b.raw());
    if n == 0 {
        lemma_clipped_zero(s);
    } else {
        let m = (n - 1) as nat;
        lemma_bands_fill_the_disks(s, mode, high, m);
        let start = planner::slice_start(ends, 0, m as int);
        assert(raws.drop_last() =~= bands.take(m as int).map_values(|b: BandView| b.raw()));
        assert forall|k: int| 0 <= k < s.len() implies (#[trigger] s[k]).1 <= start || s[k].1
            >= ends[m as int] by {
            lemma_no_length_inside_a_slice(s, 0, high, m as int, k);
        }
        lemma_cuts(s, 0, high);
        if m > 0 {
            assert(ends[m - 1] < ends[m as int]);
        }
        lemma_clipped_step(s, start, ends[m as int]);
        assert(raws.last() == planner::band_at(s, mode, ends, m as int).raw());
    }
}

pub proof fn lemma_clipped_zero(s: Seq<(Seq<char>, u64)>)
    ensures
        table::total(clipped(s, 0)) == 0,
    decreases s.len(),
{
    if s.len() > 0 {
        lemma_clipped_zero(s.drop_last());
        assert(clipped(s, 0).drop_last() =~= clipped(s.drop_last(), 0));
    }
}

/// Values that are smaller one by one have the smaller sum.
pub proof fn lemma_total_monotone(a: Seq<nat>, b: Seq<nat>)
    requires
        a.len() == b.len(),
        forall|i: int| 0 <= i < a.len() ==> #[trigger] a[i] <= #[trigger] b[i],
    ensures
        table::total(a) <= table::total(b),
    decreases a.len(),
{
    if a.len() > 0 {
        assert(a[a.len() - 1] <= b[b.len() - 1]);
        lemma_total_monotone(a.drop_last(), b.drop_last());
    }
}

/// What one disk holds of the bands below the end of slice `n` is its length,
/// cut off there.
pub proof fn lemma_share_of_one_disk(
    s: Seq<(Seq<char>, u64)>,
    mode: RedundancyMode,
    high: u64,
    n: nat,
    k: int,
)
    requires
        in_order(s),
        n <= planner::cuts(s, 0, high).len(),
        0 <= k < s.len(),
        forall|j: int| 0 <= j < s.len() && j != k && (#[trigger] s[j]).0 == s[k].0 ==> s[j].1 == 0,
    ensures
        ({
            let ends = planner::cuts(s, 0, high);
            metrics::consumed(planner::bands_for(s, mode, ends).take(n as int), s[k].0)
                == clipped(s, planner::slice_start(ends, 0, n as int))[k]
        }),
    decreases n,
{
    let ends = planner::cuts(s, 0, high);
    let bands = planner::bands_for(s, mode, ends);
    let id = s[k].0;
    if n > 0 {
        let m = (n - 1) as nat;
        lemma_share_of_one_disk(s, mode, high, m, k);
        let start = planner::slice_start(ends, 0, m as int);
        let end = ends[m as int];
        lemma_no_length_inside_a_slice(s, 0, high, m as int, k);
        lemma_cuts(s, 0, high);
        let more = bands.take(n as int);
        assert(metrics::shares(more, id).drop_last() =~= metrics::shares(
            bands.take(m as int),
            id,
        ));
        assert(more.last() == planner::band_at(s, mode, ends, m as int));
        lemma_named_iff_reaching(s, end, id);
        assert(end > 0);
    }
}

/// No disk is used beyond its size less the reserves.
pub proof fn lemma_usable_len_at_most_size(size: u64, head: u64, tail: u64, align: u64)
    ensures
        planner::usable_len(size, head, tail, align) <= metrics::less(
            metrics::less(size as nat, head as nat),
            tail as nat,
        ),
{
    let raw = metrics::less(metrics::less(size as nat, head as nat), tail as nat) as u64;
    if align > 1 {
        vstd::arithmetic::div_mod::lemma_mod_decreases(raw as nat, align as nat);
    }
}

/// The summed up capacities of a layout fit as soon as the disks together do.
pub proof fn lemma_layout_is_countable(input: planner::InputView)
    requires
        input.drives.len() >= raid::mode_floor(input.mode),
        metrics::raw_total(input.drives) <= u64::MAX,
    ensures
        ({
            let s = planner::by_length(planner::reaches(input));
            let top = planner::redundant_top(s, input.mode);
            let bands = planner::bands_for(s, input.mode, planner::cuts(s, 0, top));
            &&& metrics::countable(input.drives, bands)
            &&& metrics::usable_total(bands) + metrics::overhead_total(bands)
                <= metrics::raw_total(input.drives)
            &&& forall|i: int|
                0 <= i < bands.len() ==> (#[trigger] bands[i]).size > 0 && bands[i].members.len()
                    >= raid::mode_floor(input.mode) && raid::mode_level(
                    input.mode,
                    bands[i].members.len(),
                ) == Some(bands[i].level)
        }),
{
    let r = planner::reaches(input);
    let s = planner::by_length(r);
    let mode = input.mode;
    lemma_by_length(r);
    let top = planner::redundant_top(s, mode);
    let ends = planner::cuts(s, 0, top);
    let bands = planner::bands_for(s, mode, ends);
    lemma_cuts(s, 0, top);
    assert forall|i: int| 0 <= i < bands.len() implies (#[trigger] bands[i]).size > 0
        && bands[i].members.len() >= raid::mode_floor(mode) && raid::mode_level(
        mode,
        bands[i].members.len(),
    ) == Some(bands[i].level) by {
        lemma_no_length_inside_a_slice(s, 0, top, i, 0);
        lemma_top_separates(s, mode, ends[i]);
    }
    let raws = bands.map_values(|b: BandView| b.raw());
    assert(bands.take(ends.len() as int) =~= bands);
    lemma_bands_fill_the_disks(s, mode, top, ends.len());
    let upto = planner::slice_start(ends, 0, ends.len() as int);
    lemma_total_monotone(clipped(s, upto), lengths(s));
    assert forall|i: int| 0 <= i < r.len() implies #[trigger] lengths(r)[i]
        <= #[trigger] metrics::sizes(input.drives)[i] by {
        lemma_usable_len_at_most_size(
            input.drives[i].1,
            input.reserved_head,
            input.reserved_tail,
            input.band_alignment,
        );
    }
    lemma_total_monotone(lengths(r), metrics::sizes(input.drives));
    assert(table::total(raws) <= metrics::raw_total(input.drives));
    let data = metrics::usables(bands);
    let spent = metrics::overheads(bands);
    metrics::usable_and_overhead_make_up_the_raw_bands(bands);
    assert forall|i: int| 0 <= i < bands.len() implies (#[trigger] bands[i]).raw() <= u64::MAX by {
        table::lemma_total_step(raws, i);
        assert(raws[i] == bands[i].raw());
    }
    assert forall|id: Seq<char>| #[trigger] metrics::consumed(bands, id) <= u64::MAX by {
        let parts = metrics::shares(bands, id);
        assert forall|i: int| 0 <= i < parts.len() implies #[trigger] parts[i]
            <= #[trigger] raws[i] by {
            let b = bands[i];
            assert(b.size as nat * b.members.len() >= b.size) by (nonlinear_arith)
                requires
                    b.members.len() >= 1,
            ;
        }
        lemma_total_monotone(parts, raws);
    }
}

} // verus!
