//! What a planned layout is, told from the disks alone: how far the bands go,
//! where they are cut, which level each has, what is counted, what is left over
//! and when there is no layout at all.

use vstd::prelude::*;
use crate::band::{BandError, BandView};
use crate::layout_laws;
use crate::metrics;
use crate::planner;
use crate::planner::{InputView, PlanFault, WarningView};
use crate::raid;
use crate::raid::{RaidLevel, RedundancyMode};
use crate::slices;
use crate::table;

verus! {

/// The least number of disks that a mode needs: two to survive the loss of
/// one, four to survive the loss of two.
pub open spec fn least(mode: RedundancyMode) -> nat {
    match mode {
        RedundancyMode::Shr => 2,
        RedundancyMode::Shr2 => 4,
    }
}

/// How many disks bands can use at least up to `x`.
pub open spec fn how_many(input: InputView, x: u64) -> nat {
    input.drives.filter(|d: (Seq<char>, u64)| layout_laws::reach(input, d) >= x).len()
}

/// A pair mirrors and three or more share one parity where one loss is to be
/// survived; four or more share two where two are. Fewer disks make no band.
pub proof fn each_mode_has_its_levels(n: nat)
    ensures
        raid::mode_level(RedundancyMode::Shr, n) == (if n < 2 {
            None
        } else if n == 2 {
            Some(RaidLevel::Raid1)
        } else {
            Some(RaidLevel::Raid5)
        }),
        raid::mode_level(RedundancyMode::Shr2, n) == (if n < 4 {
            None
        } else {
            Some(RaidLevel::Raid6)
        }),
        forall|mode: RedundancyMode| #[trigger] raid::mode_floor(mode) == least(mode),
        raid::mode_tolerance(RedundancyMode::Shr) == 1,
        raid::mode_tolerance(RedundancyMode::Shr2) == 2,
{
}

/// What the levels are: a mirror of two or more that survives one loss, one
/// parity over three or more that survives one, two over four or more that
/// survives two; each rank above the one before.
pub proof fn each_level_keeps_and_survives_its_share(n: nat)
    ensures
        raid::level_floor(RaidLevel::Raid1) == 2,
        raid::level_floor(RaidLevel::Raid5) == 3,
        raid::level_floor(RaidLevel::Raid6) == 4,
        raid::level_tolerance(RaidLevel::Raid1) == 1,
        raid::level_tolerance(RaidLevel::Raid5) == 1,
        raid::level_tolerance(RaidLevel::Raid6) == 2,
        raid::level_data(RaidLevel::Raid1, n) == 1,
        n >= 1 ==> raid::level_data(RaidLevel::Raid5, n) == n - 1,
        n >= 2 ==> raid::level_data(RaidLevel::Raid6, n) == n - 2,
        raid::level_rank(RaidLevel::Raid1) < raid::level_rank(RaidLevel::Raid5),
        raid::level_rank(RaidLevel::Raid5) < raid::level_rank(RaidLevel::Raid6),
{
}

// ---------------------------------------------------------------------------
// Counting disks
// ---------------------------------------------------------------------------

proof fn lemma_placed_count(list: Seq<(Seq<char>, u64)>, e: (Seq<char>, u64), x: u64)
    ensures
        planner::reaching(planner::placed(list, e), x).len() == planner::reaching(list, x).len() + (
        if e.1 >= x {
            1int
        } else {
            0int
        }),
    decreases list.len(),
{
    reveal(Seq::filter);
    if list.len() > 0 && planner::shorter(e, list.last()) {
        let head = list.drop_last();
        lemma_placed_count(head, e, x);
        let inner = planner::placed(head, e);
        assert(inner.push(list.last()).drop_last() =~= inner);
    } else {
        assert(list.push(e).drop_last() =~= list);
    }
}

proof fn lemma_sorted_count(list: Seq<(Seq<char>, u64)>, x: u64)
    ensures
        planner::reaching(planner::by_length(list), x).len() == planner::reaching(list, x).len(),
    decreases list.len(),
{
    reveal(Seq::filter);
    if list.len() > 0 {
        lemma_sorted_count(list.drop_last(), x);
        lemma_placed_count(planner::by_length(list.drop_last()), list.last(), x);
    } else {
        assert(planner::by_length(list) =~= list);
    }
}

proof fn lemma_reaches_count(input: InputView, n: int, x: u64)
    requires
        0 <= n <= input.drives.len(),
    ensures
        planner::reaching(planner::reaches(input).take(n), x).len() == input.drives.take(n).filter(
            |d: (Seq<char>, u64)| layout_laws::reach(input, d) >= x,
        ).len(),
    decreases n,
{
    reveal(Seq::filter);
    let r = planner::reaches(input);
    if n > 0 {
        lemma_reaches_count(input, n - 1, x);
        assert(r.take(n).drop_last() =~= r.take(n - 1));
        assert(input.drives.take(n).drop_last() =~= input.drives.take(n - 1));
        assert(r.take(n).last().1 == layout_laws::reach(input, input.drives.take(n).last()));
    }
}

/// As many disks are counted among the sorted ones as among the given ones.
proof fn lemma_how_many(input: InputView, x: u64)
    ensures
        planner::reaching(planner::by_length(planner::reaches(input)), x).len() == how_many(input, x),
{
    let r = planner::reaches(input);
    lemma_sorted_count(r, x);
    lemma_reaches_count(input, r.len() as int, x);
    assert(r.take(r.len() as int) =~= r);
    assert(input.drives.take(r.len() as int) =~= input.drives);
}

/// A length is among the sorted ones exactly when a disk has it.
proof fn lemma_sorted_lengths(input: InputView, x: u64)
    ensures
        (exists|k: int|
            0 <= k < input.drives.len() && (#[trigger] planner::by_length(
                planner::reaches(input),
            )[k]).1 == x) <==> exists|k: int|
            0 <= k < input.drives.len() && layout_laws::reach(input, #[trigger] input.drives[k])
                == x,
{
    let r = planner::reaches(input);
    let s = planner::by_length(r);
    slices::lemma_by_length(r);
    if exists|k: int| 0 <= k < input.drives.len() && (#[trigger] s[k]).1 == x {
        let k = choose|k: int| 0 <= k < input.drives.len() && (#[trigger] s[k]).1 == x;
        assert(s.contains(s[k]));
        layout_laws::lemma_sorted_holds_the_reaches(input, s[k]);
        let m = choose|m: int| 0 <= m < r.len() && r[m] == s[k];
        assert(layout_laws::reach(input, input.drives[m]) == x);
    }
    if exists|k: int|
        0 <= k < input.drives.len() && layout_laws::reach(input, #[trigger] input.drives[k]) == x {
        let k = choose|k: int|
            0 <= k < input.drives.len() && layout_laws::reach(input, #[trigger] input.drives[k])
                == x;
        assert(r[k].1 == x);
        assert(r.contains(r[k]));
        layout_laws::lemma_sorted_holds_the_reaches(input, r[k]);
        let m = choose|m: int| 0 <= m < s.len() && s[m] == r[k];
        assert(s[m].1 == x);
    }
}

// ---------------------------------------------------------------------------
// How far, where and with what
// ---------------------------------------------------------------------------

/// Bands go as far as the disks allow: up to each length that the mode's least
/// number of disks reach, and no farther.
pub proof fn bands_go_as_far_as_the_disks_allow(input: InputView, x: u64)
    requires
        planner::plan(input) is Ok,
    ensures
        x <= planner::plan(input)->Ok_0.bands.last().end() <==> how_many(input, x) >= least(
            input.mode,
        ),
{
    let s = planner::by_length(planner::reaches(input));
    slices::lemma_by_length(planner::reaches(input));
    layout_laws::planned_bands_tile_the_disks(input);
    slices::lemma_top_separates(s, input.mode, x);
    lemma_how_many(input, x);
    each_mode_has_its_levels(0);
    assert(raid::mode_floor(input.mode) == least(input.mode));
}

/// Bands are cut where disks end and nowhere else: each band ends where a disk
/// does, and where a disk ends, up to the last band, a band ends too.
pub proof fn bands_are_cut_exactly_where_disks_end(input: InputView)
    requires
        planner::plan(input) is Ok,
    ensures
        ({
            let bands = planner::plan(input)->Ok_0.bands;
            &&& forall|i: int|
                0 <= i < bands.len() ==> exists|k: int|
                    0 <= k < input.drives.len() && layout_laws::reach(
                        input,
                        #[trigger] input.drives[k],
                    ) == (#[trigger] bands[i]).end()
            &&& forall|k: int|
                0 <= k < input.drives.len() && 0 < layout_laws::reach(
                    input,
                    #[trigger] input.drives[k],
                ) <= bands.last().end() ==> exists|i: int|
                    0 <= i < bands.len() && (#[trigger] bands[i]).end() == layout_laws::reach(
                        input,
                        input.drives[k],
                    )
        }),
{
    let s = planner::by_length(planner::reaches(input));
    slices::lemma_by_length(planner::reaches(input));
    let top = planner::redundant_top(s, input.mode);
    let ends = planner::cuts(s, 0, top);
    let bands = planner::plan(input)->Ok_0.bands;
    slices::lemma_cuts(s, 0, top);
    layout_laws::planned_bands_tile_the_disks(input);
    assert forall|i: int| 0 <= i < bands.len() implies (#[trigger] bands[i]).end() == ends[i] by {
        if i > 0 {
            assert(ends[i - 1] < ends[i]);
        }
    }
    assert forall|i: int| 0 <= i < bands.len() implies exists|k: int|
        0 <= k < input.drives.len() && layout_laws::reach(input, #[trigger] input.drives[k]) == (
        #[trigger] bands[i]).end() by {
        assert(bands[i].end() == ends[i]);
        let k = choose|k: int| 0 <= k < s.len() && (#[trigger] s[k]).1 == ends[i];
        lemma_sorted_lengths(input, ends[i]);
    }
    assert forall|k: int|
        0 <= k < input.drives.len() && 0 < layout_laws::reach(input, #[trigger] input.drives[k])
            <= bands.last().end() implies exists|i: int|
        0 <= i < bands.len() && (#[trigger] bands[i]).end() == layout_laws::reach(
            input,
            input.drives[k],
        ) by {
        let x = layout_laws::reach(input, input.drives[k]);
        lemma_sorted_lengths(input, x);
        let m = choose|m: int| 0 <= m < input.drives.len() && (#[trigger] s[m]).1 == x;
        assert(ends.contains(s[m].1));
        let i = choose|i: int| 0 <= i < ends.len() && ends[i] == x;
        assert(bands[i].end() == x);
    }
}

/// Every band has all the disks that reach its end, in number too, and the
/// level that belongs to that number in the mode.
pub proof fn each_band_has_the_level_for_its_disks(input: InputView, i: int)
    requires
        planner::plan(input) is Ok,
        0 <= i < planner::plan(input)->Ok_0.bands.len(),
    ensures
        ({
            let b = planner::plan(input)->Ok_0.bands[i];
            let n = b.members.len();
            &&& n == how_many(input, b.end())
            &&& n >= least(input.mode)
            &&& input.mode == RedundancyMode::Shr2 ==> b.level == RaidLevel::Raid6
            &&& input.mode == RedundancyMode::Shr ==> b.level == (if n == 2 {
                RaidLevel::Raid1
            } else {
                RaidLevel::Raid5
            })
            &&& b.members.no_duplicates()
            &&& b.size > 0
        }),
{
    let s = planner::by_length(planner::reaches(input));
    slices::lemma_by_length(planner::reaches(input));
    let top = planner::redundant_top(s, input.mode);
    let ends = planner::cuts(s, 0, top);
    slices::lemma_cuts(s, 0, top);
    if i > 0 {
        assert(ends[i - 1] < ends[i]);
    }
    lemma_how_many(input, ends[i]);
    layout_laws::planned_bands_are_accepted_by_the_mode(input, i);
    assert(planner::plan(input)->Ok_0.bands[i].end() == ends[i]);
}

/// The members of a band are listed from the shortest disk to the longest, and
/// equally long ones in the order of their identifiers.
pub proof fn members_are_listed_by_length_and_name(input: InputView, i: int) -> (lens: Seq<u64>)
    requires
        planner::plan(input) is Ok,
        0 <= i < planner::plan(input)->Ok_0.bands.len(),
    ensures
        ({
            let m = planner::plan(input)->Ok_0.bands[i].members;
            &&& lens.len() == m.len()
            &&& forall|j: int|
                0 <= j < m.len() ==> exists|k: int|
                    0 <= k < input.drives.len() && (#[trigger] input.drives[k]).0
                        == #[trigger] m[j] && layout_laws::reach(input, input.drives[k]) == lens[j]
            &&& forall|j: int, k: int|
                0 <= j < k < m.len() ==> #[trigger] lens[j] < #[trigger] lens[k] || (lens[j]
                    == lens[k] && crate::text::before(m[j], m[k]))
        }),
{
    let r = planner::reaches(input);
    let s = planner::by_length(r);
    slices::lemma_by_length(r);
    let top = planner::redundant_top(s, input.mode);
    let ends = planner::cuts(s, 0, top);
    slices::lemma_cuts(s, 0, top);
    let b = planner::plan(input)->Ok_0.bands[i];
    let at = slices::lemma_reaching(s, ends[i]);
    let some = planner::reaching(s, ends[i]);
    let lens = some.map_values(|e: (Seq<char>, u64)| e.1);
    assert(b.members == planner::names(some));
    layout_laws::planned_bands_are_accepted_by_the_mode(input, i);
    assert forall|j: int| 0 <= j < b.members.len() implies exists|k: int|
        0 <= k < input.drives.len() && (#[trigger] input.drives[k]).0 == #[trigger] b.members[j]
            && layout_laws::reach(input, input.drives[k]) == lens[j] by {
        assert(some[j] == s[at + j]);
        assert(s.contains(s[at + j]));
        layout_laws::lemma_sorted_holds_the_reaches(input, s[at + j]);
        let k = choose|k: int| 0 <= k < r.len() && r[k] == s[at + j];
        assert(input.drives[k].0 == b.members[j]);
    }
    assert forall|j: int, k: int| 0 <= j < k < b.members.len() implies #[trigger] lens[j]
        < #[trigger] lens[k] || (lens[j] == lens[k] && crate::text::before(
        b.members[j],
        b.members[k],
    )) by {
        assert(slices::no_longer(s[at + j], s[at + k]));
        assert(some[j] == s[at + j] && some[k] == s[at + k]);
        assert(b.members[j] != b.members[k]);
    }
    lens
}

// ---------------------------------------------------------------------------
// What is counted
// ---------------------------------------------------------------------------

/// How many of a band's members carry data.
pub open spec fn keeping(b: BandView) -> int {
    match b.level {
        RaidLevel::Raid1 => 1,
        RaidLevel::Raid5 => b.members.len() - 1,
        RaidLevel::Raid6 => b.members.len() - 2,
    }
}

proof fn lemma_usable_sum(bands: Seq<BandView>)
    requires
        forall|i: int|
            0 <= i < bands.len() ==> (#[trigger] bands[i]).members.len() >= raid::level_floor(
                bands[i].level,
            ),
    ensures
        metrics::usable_total(bands) == bands.fold_left(
            0int,
            |sum: int, b: BandView| sum + b.size * keeping(b),
        ),
        metrics::overhead_total(bands) == bands.fold_left(
            0int,
            |sum: int, b: BandView| sum + b.size * (b.members.len() - keeping(b)),
        ),
    decreases bands.len(),
{
    reveal(Seq::fold_left);
    if bands.len() > 0 {
        let head = bands.drop_last();
        let b = bands.last();
        assert forall|i: int| 0 <= i < head.len() implies (#[trigger] head[i]).members.len()
            >= raid::level_floor(head[i].level) by {
            assert(head[i] == bands[i]);
        }
        lemma_usable_sum(head);
        assert(bands[bands.len() - 1] == b);
        assert(metrics::usables(bands).drop_last() =~= metrics::usables(head));
        assert(metrics::overheads(bands).drop_last() =~= metrics::overheads(head));
        assert(raid::level_data(b.level, b.members.len()) == keeping(b));
        assert(b.size * b.members.len() - b.size * keeping(b) == b.size * (b.members.len()
            - keeping(b))) by (nonlinear_arith);
        assert(0 <= b.size * (b.members.len() - keeping(b))) by (nonlinear_arith)
            requires
                b.members.len() - keeping(b) >= 0,
        ;
    }
}

proof fn lemma_raw_sum(drives: Seq<(Seq<char>, u64)>)
    ensures
        metrics::raw_total(drives) == drives.fold_left(
            0int,
            |sum: int, d: (Seq<char>, u64)| sum + d.1,
        ),
    decreases drives.len(),
{
    reveal(Seq::fold_left);
    if drives.len() > 0 {
        lemma_raw_sum(drives.drop_last());
        assert(metrics::sizes(drives).drop_last() =~= metrics::sizes(drives.drop_last()));
    }
}

/// The totals of a plan: every disk's size, what the data members of every band
/// hold, what its other members hold, and what is left of the first, which is
/// also the waste as a part of it.
pub proof fn totals_are_the_sums_over_disks_and_bands(input: InputView)
    requires
        planner::plan(input) is Ok,
        metrics::raw_total(input.drives) <= u64::MAX,
    ensures
        ({
            let m = planner::plan(input)->Ok_0.metrics;
            let bands = planner::plan(input)->Ok_0.bands;
            &&& m.total_raw == input.drives.fold_left(
                0int,
                |sum: int, d: (Seq<char>, u64)| sum + d.1,
            )
            &&& m.total_usable == bands.fold_left(
                0int,
                |sum: int, b: BandView| sum + b.size * keeping(b),
            )
            &&& m.redundancy_overhead == bands.fold_left(
                0int,
                |sum: int, b: BandView| sum + b.size * (b.members.len() - keeping(b)),
            )
            &&& m.stranded_bytes == m.total_raw - m.total_usable - m.redundancy_overhead
            &&& m.total_raw > 0
            &&& m.waste_ratio.numerator == m.stranded_bytes
            &&& m.waste_ratio.denominator == m.total_raw
        }),
{
    let bands = planner::plan(input)->Ok_0.bands;
    slices::lemma_layout_is_countable(input);
    assert forall|i: int| 0 <= i < bands.len() implies (#[trigger] bands[i]).members.len()
        >= raid::level_floor(bands[i].level) by {
        layout_laws::planned_bands_are_accepted_by_the_mode(input, i);
    }
    lemma_usable_sum(bands);
    lemma_raw_sum(input.drives);
    metrics::usable_and_overhead_make_up_the_raw_bands(bands);
    layout_laws::planned_bands_tile_the_disks(input);
    layout_laws::planned_bands_are_accepted_by_the_mode(input, 0);
    assert(metrics::usable_total(bands) > 0) by {
        crate::band::usable_is_less_than_raw(bands[0]);
        let u = metrics::usables(bands);
        table::lemma_total_step(u, 0);
        assert(u.take(0) =~= Seq::empty());
        assert(u[0] == bands[0].usable());
    }
}

/// What the bands take up of a disk: all of it up to where the bands end.
proof fn lemma_consumed(input: InputView, i: int)
    requires
        planner::plan(input) is Ok,
        planner::names(input.drives).no_duplicates(),
        0 <= i < input.drives.len(),
    ensures
        ({
            let p = planner::plan(input)->Ok_0;
            let r = layout_laws::reach(input, input.drives[i]);
            metrics::consumed(p.bands, input.drives[i].0) == (if r <= p.bands.last().end() {
                r
            } else {
                p.bands.last().end()
            })
        }),
{
    let r = planner::reaches(input);
    let s = planner::by_length(r);
    let p = planner::plan(input)->Ok_0;
    let d = input.drives[i];
    let top = planner::redundant_top(s, input.mode);
    let ends = planner::cuts(s, 0, top);
    let all = planner::names(input.drives);
    slices::lemma_by_length(r);
    slices::lemma_cuts(s, 0, top);
    layout_laws::lemma_usable_disks_are_distinct(input);
    assert(r[i] == (d.0, layout_laws::reach(input, d)));
    assert(r.contains(r[i]));
    layout_laws::lemma_sorted_holds_the_reaches(input, r[i]);
    let k = choose|k: int| 0 <= k < s.len() && s[k] == r[i];
    assert forall|j: int|
        0 <= j < s.len() && j != k && (#[trigger] s[j]).0 == s[k].0 implies s[j].1 == 0 by {
        assert(s.contains(s[j]));
        layout_laws::lemma_sorted_holds_the_reaches(input, s[j]);
        let m = choose|m: int| 0 <= m < r.len() && r[m] == s[j];
        assert(all[m] == input.drives[m].0 && all[i] == d.0);
        assert(m == i);
    }
    slices::lemma_share_of_one_disk(s, input.mode, top, ends.len(), k);
    assert(p.bands.take(ends.len() as int) =~= p.bands);
    layout_laws::planned_bands_tile_the_disks(input);
    let last = ends.len() - 1;
    if last > 0 {
        assert(ends[last - 1] < ends[last]);
    }
    assert(p.bands[last].end() == ends[last]);
}

/// How full each disk is: what the bands take up of it, up to where they end,
/// out of its size; each disk once, in the order of the identifiers.
pub proof fn each_disk_is_filled_up_to_where_bands_end(
    input: InputView,
    id: Seq<char>,
    f: metrics::Fraction,
)
    requires
        planner::plan(input) is Ok,
        planner::names(input.drives).no_duplicates(),
    ensures
        ({
            let p = planner::plan(input)->Ok_0;
            let top = p.bands.last().end();
            &&& table::ordered(p.metrics.utilization)
            &&& p.metrics.utilization.contains((id, f)) <==> exists|k: int|
                0 <= k < input.drives.len() && (#[trigger] input.drives[k]).0 == id && {
                    let r = layout_laws::reach(input, input.drives[k]);
                    if input.drives[k].1 == 0 {
                        f.numerator == 0 && f.denominator == 1
                    } else {
                        f.denominator == input.drives[k].1 && f.numerator == (if r <= top {
                            r
                        } else {
                            top
                        })
                    }
                }
        }),
{
    let p = planner::plan(input)->Ok_0;
    let top = p.bands.last().end();
    layout_laws::lemma_utilization(input.drives, p.bands);
    let e = (id, f);
    if p.metrics.utilization.contains(e) {
        let k = choose|k: int|
            0 <= k < input.drives.len() && (#[trigger] input.drives[k]).0 == e.0
                && metrics::fraction(
                metrics::consumed(p.bands, e.0) as u64,
                input.drives[k].1,
            ) == e.1;
        lemma_consumed(input, k);
    }
    if exists|k: int|
        0 <= k < input.drives.len() && (#[trigger] input.drives[k]).0 == id && {
            let r = layout_laws::reach(input, input.drives[k]);
            if input.drives[k].1 == 0 {
                f.numerator == 0 && f.denominator == 1
            } else {
                f.denominator == input.drives[k].1 && f.numerator == (if r <= top {
                    r
                } else {
                    top
                })
            }
        } {
        let k = choose|k: int|
            0 <= k < input.drives.len() && (#[trigger] input.drives[k]).0 == id && {
                let r = layout_laws::reach(input, input.drives[k]);
                if input.drives[k].1 == 0 {
                    f.numerator == 0 && f.denominator == 1
                } else {
                    f.denominator == input.drives[k].1 && f.numerator == (if r <= top {
                        r
                    } else {
                        top
                    })
                }
            };
        lemma_consumed(input, k);
        assert(metrics::fraction(metrics::consumed(p.bands, id) as u64, input.drives[k].1) == f);
    }
}

// ---------------------------------------------------------------------------
// What is left over
// ---------------------------------------------------------------------------

/// What is reported as unusable is, of each disk that reaches farther than the
/// bands, the length by which it does; in the order of the identifiers.
pub proof fn what_lies_above_the_bands_is_unusable(input: InputView, e: (Seq<char>, u64))
    requires
        planner::plan(input) is Ok,
    ensures
        ({
            let p = planner::plan(input)->Ok_0;
            let top = p.bands.last().end();
            &&& table::ordered(p.unusable)
            &&& p.unusable.contains(e) <==> exists|k: int|
                0 <= k < input.drives.len() && (#[trigger] input.drives[k]).0 == e.0 && e.1 > 0
                    && layout_laws::reach(input, input.drives[k]) == top + e.1
        }),
{
    let r = planner::reaches(input);
    let s = planner::by_length(r);
    let p = planner::plan(input)->Ok_0;
    slices::lemma_by_length(r);
    layout_laws::planned_bands_tile_the_disks(input);
    layout_laws::lemma_usable_disks_are_distinct(input);
    let top = p.bands.last().end();
    layout_laws::lemma_tails(s, top);
    if p.unusable.contains(e) {
        let j = choose|j: int|
            0 <= j < s.len() && (#[trigger] s[j]).0 == e.0 && s[j].1 > top && s[j].1 - top == e.1;
        assert(s.contains(s[j]));
        layout_laws::lemma_sorted_holds_the_reaches(input, s[j]);
        let k = choose|k: int| 0 <= k < r.len() && r[k] == s[j];
        assert(input.drives[k].0 == e.0);
    }
    if exists|k: int|
        0 <= k < input.drives.len() && (#[trigger] input.drives[k]).0 == e.0 && e.1 > 0
            && layout_laws::reach(input, input.drives[k]) == top + e.1 {
        let k = choose|k: int|
            0 <= k < input.drives.len() && (#[trigger] input.drives[k]).0 == e.0 && e.1 > 0
                && layout_laws::reach(input, input.drives[k]) == top + e.1;
        assert(r.contains(r[k]));
        layout_laws::lemma_sorted_holds_the_reaches(input, r[k]);
        let j = choose|j: int| 0 <= j < s.len() && s[j] == r[k];
        assert(s[j].0 == e.0);
    }
}

/// Whether `from` to `to` is a slice above the bands: it starts where they end
/// or where a disk above them does, ends where a disk does, and no disk ends
/// inside.
pub open spec fn is_slice_above(input: InputView, from: int, to: int) -> bool {
    let top = planner::plan(input)->Ok_0.bands.last().end();
    &&& from < to
    &&& from == top || (from > top && exists|k: int|
        0 <= k < input.drives.len() && layout_laws::reach(input, #[trigger] input.drives[k])
            == from)
    &&& exists|k: int|
        0 <= k < input.drives.len() && layout_laws::reach(input, #[trigger] input.drives[k]) == to
    &&& forall|k: int|
        0 <= k < input.drives.len() ==> layout_laws::reach(input, #[trigger] input.drives[k])
            <= from || layout_laws::reach(input, input.drives[k]) >= to
}

proof fn lemma_slice_warnings(
    s: Seq<(Seq<char>, u64)>,
    mode: RedundancyMode,
    ends: Seq<u64>,
    base: u64,
    n: nat,
    w: WarningView,
)
    requires
        n <= ends.len(),
    ensures
        planner::slice_warnings(s, mode, ends, base, n).contains(w) <==> exists|i: int|
            0 <= i < n && planner::reaching(s, #[trigger] ends[i]).len() >= 2 && w
                == (WarningView::TooFewForBand {
                offset: planner::slice_start(ends, base, i),
                size: (ends[i] - planner::slice_start(ends, base, i)) as u64,
                members: planner::reaching(s, ends[i]).len() as usize,
                needed: raid::mode_floor(mode) as usize,
            }),
    decreases n,
{
    if n > 0 {
        let m = (n - 1) as nat;
        lemma_slice_warnings(s, mode, ends, base, m, w);
        let before = planner::slice_warnings(s, mode, ends, base, m);
        let now = planner::slice_warnings(s, mode, ends, base, n);
        if now.contains(w) {
            let j = choose|j: int| 0 <= j < now.len() && now[j] == w;
            if j < before.len() {
                assert(before[j] == w);
                assert(before.contains(w));
                let i = choose|i: int|
                    0 <= i < m && planner::reaching(s, #[trigger] ends[i]).len() >= 2 && w
                        == (WarningView::TooFewForBand {
                        offset: planner::slice_start(ends, base, i),
                        size: (ends[i] - planner::slice_start(ends, base, i)) as u64,
                        members: planner::reaching(s, ends[i]).len() as usize,
                        needed: raid::mode_floor(mode) as usize,
                    });
                assert(0 <= i < n);
            } else {
                assert(ends[n - 1] == ends[m as int]);
            }
        }
        if before.contains(w) {
            let j = choose|j: int| 0 <= j < before.len() && before[j] == w;
            assert(now[j] == w);
        }
        if exists|i: int|
            0 <= i < n && planner::reaching(s, #[trigger] ends[i]).len() >= 2 && w
                == (WarningView::TooFewForBand {
                offset: planner::slice_start(ends, base, i),
                size: (ends[i] - planner::slice_start(ends, base, i)) as u64,
                members: planner::reaching(s, ends[i]).len() as usize,
                needed: raid::mode_floor(mode) as usize,
            }) {
            let i = choose|i: int|
                0 <= i < n && planner::reaching(s, #[trigger] ends[i]).len() >= 2 && w
                    == (WarningView::TooFewForBand {
                    offset: planner::slice_start(ends, base, i),
                    size: (ends[i] - planner::slice_start(ends, base, i)) as u64,
                    members: planner::reaching(s, ends[i]).len() as usize,
                    needed: raid::mode_floor(mode) as usize,
                });
            if i < m {
                assert(before.contains(w));
            } else {
                assert(now[now.len() - 1] == w);
            }
        }
    }
}

/// A slice above the bands is told exactly when several disks reach its end:
/// where it starts, how long it is, how many disks reach its end and how many
/// the mode would need.
pub proof fn slices_with_too_few_disks_are_told(
    input: InputView,
    offset: u64,
    size: u64,
    members: usize,
    needed: usize,
)
    requires
        planner::plan(input) is Ok,
        input.drives.len() <= usize::MAX,
    ensures
        planner::plan(input)->Ok_0.warnings.contains(
            WarningView::TooFewForBand { offset, size, members, needed },
        ) <==> is_slice_above(input, offset as int, offset + size) && members == how_many(
            input,
            (offset + size) as u64,
        ) && members >= 2 && needed == least(input.mode),
{
    let r = planner::reaches(input);
    let s = planner::by_length(r);
    let p = planner::plan(input)->Ok_0;
    let mode = input.mode;
    let top = planner::redundant_top(s, mode);
    let above = planner::cuts(s, top, u64::MAX);
    let w = WarningView::TooFewForBand { offset, size, members, needed };
    slices::lemma_by_length(r);
    slices::lemma_cuts(s, top, u64::MAX);
    layout_laws::planned_bands_tile_the_disks(input);
    let first = planner::slice_warnings(s, mode, above, top, above.len());
    let rest = planner::tail_warnings(p.unusable);
    lemma_slice_warnings(s, mode, above, top, above.len(), w);
    assert(p.warnings.contains(w) <==> first.contains(w)) by {
        if p.warnings.contains(w) {
            let j = choose|j: int| 0 <= j < p.warnings.len() && p.warnings[j] == w;
            if j < first.len() {
                assert(first[j] == w);
            } else {
                assert(rest[j - first.len()] == w);
            }
        }
        if first.contains(w) {
            let j = choose|j: int| 0 <= j < first.len() && first[j] == w;
            assert(p.warnings[j] == w);
        }
    }
    if first.contains(w) {
        let i = choose|i: int|
            0 <= i < above.len() && planner::reaching(s, #[trigger] above[i]).len() >= 2 && w
                == (WarningView::TooFewForBand {
                offset: planner::slice_start(above, top, i),
                size: (above[i] - planner::slice_start(above, top, i)) as u64,
                members: planner::reaching(s, above[i]).len() as usize,
                needed: raid::mode_floor(mode) as usize,
            });
        lemma_how_many(input, above[i]);
        lemma_at_most_all(input, above[i]);
        if i > 0 {
            assert(above[i - 1] < above[i]);
            let k = choose|k: int| 0 <= k < s.len() && (#[trigger] s[k]).1 == above[i - 1];
            lemma_sorted_lengths(input, above[i - 1]);
        }
        let k = choose|k: int| 0 <= k < s.len() && (#[trigger] s[k]).1 == above[i];
        lemma_sorted_lengths(input, above[i]);
        assert forall|k: int| 0 <= k < input.drives.len() implies layout_laws::reach(
            input,
            #[trigger] input.drives[k],
        ) <= offset || layout_laws::reach(input, input.drives[k]) >= offset + size by {
            let x = layout_laws::reach(input, input.drives[k]);
            lemma_sorted_lengths(input, x);
            let m = choose|m: int| 0 <= m < input.drives.len() && (#[trigger] s[m]).1 == x;
            slices::lemma_no_length_inside_a_slice(s, top, u64::MAX, i, m);
        }
    }
    if is_slice_above(input, offset as int, offset + size) && members == how_many(
        input,
        (offset + size) as u64,
    ) && members >= 2 && needed == least(mode) {
        let end = (offset + size) as u64;
        lemma_sorted_lengths(input, end);
        let m = choose|m: int| 0 <= m < input.drives.len() && (#[trigger] s[m]).1 == end;
        assert(above.contains(s[m].1));
        let i = choose|i: int| 0 <= i < above.len() && above[i] == end;
        let start = planner::slice_start(above, top, i);
        lemma_how_many(input, end);
        slices::lemma_no_length_inside_a_slice(s, top, u64::MAX, i, m);
        if start < offset {
            lemma_sorted_lengths(input, offset);
            let q = choose|q: int| 0 <= q < input.drives.len() && (#[trigger] s[q]).1 == offset;
            slices::lemma_no_length_inside_a_slice(s, top, u64::MAX, i, q);
        } else if start > offset {
            let q = choose|q: int| 0 <= q < s.len() && (#[trigger] s[q]).1 == above[i - 1];
            lemma_sorted_lengths(input, start);
            let k = choose|k: int|
                0 <= k < input.drives.len() && layout_laws::reach(input, #[trigger] input.drives[k])
                    == start;
            assert(layout_laws::reach(input, input.drives[k]) <= offset);
        }
        assert(planner::reaching(s, above[i]).len() >= 2);
    }
}

proof fn lemma_at_most_all(input: InputView, x: u64)
    ensures
        how_many(input, x) <= input.drives.len(),
{
    input.drives.lemma_filter_len(|d: (Seq<char>, u64)| layout_laws::reach(input, d) >= x);
}

/// A disk's unusable tail is told exactly when it is reported, with the same
/// figure.
pub proof fn every_unusable_tail_is_told(input: InputView, disk: Seq<char>, bytes: u64)
    requires
        planner::plan(input) is Ok,
    ensures
        ({
            let p = planner::plan(input)->Ok_0;
            p.warnings.contains(WarningView::UnusableTail { disk, bytes }) <==> p.unusable.contains(
                (disk, bytes),
            )
        }),
{
    let s = planner::by_length(planner::reaches(input));
    let p = planner::plan(input)->Ok_0;
    let top = planner::redundant_top(s, input.mode);
    let above = planner::cuts(s, top, u64::MAX);
    let w = WarningView::UnusableTail { disk, bytes };
    let first = planner::slice_warnings(s, input.mode, above, top, above.len());
    let rest = planner::tail_warnings(p.unusable);
    lemma_slice_warnings(s, input.mode, above, top, above.len(), w);
    if p.warnings.contains(w) {
        let j = choose|j: int| 0 <= j < p.warnings.len() && p.warnings[j] == w;
        if j < first.len() {
            assert(first[j] == w);
            assert(first.contains(w));
        } else {
            assert(rest[j - first.len()] == w);
            assert(p.unusable[j - first.len()] == (disk, bytes));
        }
    }
    if p.unusable.contains((disk, bytes)) {
        let k = choose|k: int| 0 <= k < p.unusable.len() && p.unusable[k] == (disk, bytes);
        assert(rest[k] == w);
        assert(p.warnings[first.len() + k] == w);
    }
}

// ---------------------------------------------------------------------------
// When there is no layout
// ---------------------------------------------------------------------------

/// Whether two usable disks have the same identifier.
pub open spec fn has_twins(input: InputView) -> bool {
    exists|i: int, j: int|
        0 <= i < j < input.drives.len() && (#[trigger] input.drives[i]).0 == (
        #[trigger] input.drives[j]).0 && layout_laws::reach(input, input.drives[i]) > 0
            && layout_laws::reach(input, input.drives[j]) > 0
}

/// There is no layout where there are fewer disks than the mode needs, where
/// fewer than that can be used at all, or where a usable disk is listed twice,
/// in this order; then only where there would be more than 256 bands.
pub proof fn layouts_fail_for_a_reason(input: InputView)
    requires
        input.drives.len() <= usize::MAX,
    ensures
        ({
            let p = planner::plan(input);
            let few = input.drives.len() < least(input.mode);
            let short = how_many(input, 1) < least(input.mode);
            &&& few ==> (p matches Err(PlanFault::TooFewDisks { got, min }) && got
                == input.drives.len() && min == least(input.mode))
            &&& !few && short ==> p == Err::<planner::PlanView, PlanFault>(
                PlanFault::NoRedundantCapacity,
            )
            &&& !few && !short && has_twins(input) ==> p == Err::<planner::PlanView, PlanFault>(
                PlanFault::Band(BandError::DuplicateMember),
            )
            &&& !few && !short && !has_twins(input) && p is Err ==> p == Err::<
                planner::PlanView,
                PlanFault,
            >(PlanFault::TooManyBands { index: 256 }) && input.drives.len() > 256
        }),
{
    let r = planner::reaches(input);
    let s = planner::by_length(r);
    let mode = input.mode;
    each_mode_has_its_levels(0);
    assert(raid::mode_floor(mode) == least(mode));
    slices::lemma_by_length(r);
    if input.drives.len() >= least(mode) {
        let top = planner::redundant_top(s, mode);
        let ends = planner::cuts(s, 0, top);
        slices::lemma_cuts(s, 0, top);
        slices::lemma_top_separates(s, mode, 1);
        lemma_how_many(input, 1);
        let at = s.len() - raid::mode_floor(mode);
        assert(s[at].1 == top);
        if top >= 1 {
            assert(ends.contains(s[at].1));
            lemma_twins(input);
        } else if ends.len() > 0 {
            assert(0 < ends[0] <= top);
        }
    }
}

/// A layout has too many bands only where more than 256 different lengths are
/// each reached by the mode's least number of disks.
pub proof fn too_many_bands_are_more_than_256(input: InputView) -> (ends: Seq<u64>)
    requires
        planner::plan(input) matches Err(PlanFault::TooManyBands { .. }),
    ensures
        planner::plan(input) == Err::<planner::PlanView, PlanFault>(
            PlanFault::TooManyBands { index: 256 },
        ),
        ends.len() > 256,
        forall|i: int, j: int| 0 <= i < j < ends.len() ==> #[trigger] ends[i] < #[trigger] ends[j],
        forall|i: int|
            0 <= i < ends.len() ==> 0 < #[trigger] ends[i] && how_many(input, ends[i]) >= least(
                input.mode,
            ) && exists|k: int|
                0 <= k < input.drives.len() && layout_laws::reach(input, #[trigger] input.drives[k])
                    == ends[i],
{
    let r = planner::reaches(input);
    let s = planner::by_length(r);
    slices::lemma_by_length(r);
    let top = planner::redundant_top(s, input.mode);
    let ends = planner::cuts(s, 0, top);
    slices::lemma_cuts(s, 0, top);
    assert forall|i: int| 0 <= i < ends.len() implies 0 < #[trigger] ends[i] && how_many(
        input,
        ends[i],
    ) >= least(input.mode) && exists|k: int|
        0 <= k < input.drives.len() && layout_laws::reach(input, #[trigger] input.drives[k])
            == ends[i] by {
        slices::lemma_top_separates(s, input.mode, ends[i]);
        lemma_how_many(input, ends[i]);
        let k = choose|k: int| 0 <= k < s.len() && (#[trigger] s[k]).1 == ends[i];
        lemma_sorted_lengths(input, ends[i]);
    }
    ends
}

proof fn lemma_twins(input: InputView)
    requires
        input.drives.len() >= raid::mode_floor(input.mode),
        ({
            let s = planner::by_length(planner::reaches(input));
            planner::cuts(s, 0, planner::redundant_top(s, input.mode)).len() > 0
        }),
    ensures
        ({
            let s = planner::by_length(planner::reaches(input));
            let ends = planner::cuts(s, 0, planner::redundant_top(s, input.mode));
            planner::names(planner::reaching(s, ends[0])).no_duplicates() <==> !has_twins(input)
        }),
{
    let r = planner::reaches(input);
    let s = planner::by_length(r);
    slices::lemma_by_length(r);
    let top = planner::redundant_top(s, input.mode);
    let ends = planner::cuts(s, 0, top);
    slices::lemma_cuts(s, 0, top);
    let at = slices::lemma_reaching(s, ends[0]);
    let low = planner::names(planner::reaching(s, ends[0]));
    let usable = |e: (Seq<char>, u64)| e.1 > 0;
    let ra = planner::names(r.filter(usable));
    let sa = planner::names(s.filter(usable));
    assert(planner::reaching(s, ends[0]) =~= s.filter(usable)) by {
        assert forall|k: int| 0 <= k < s.len() implies ((#[trigger] s[k]).1 >= ends[0] <==> usable(
            s[k],
        )) by {
            slices::lemma_no_length_inside_a_slice(s, 0, top, 0, k);
        }
        lemma_same_filter(s, |e: (Seq<char>, u64)| e.1 >= ends[0], usable);
    }
    lemma_names_of_sorted(r, usable);
    assert(sa.to_multiset() == ra.to_multiset());
    if ra.no_duplicates() {
        ra.lemma_multiset_has_no_duplicates();
        sa.lemma_multiset_has_no_duplicates_conv();
    }
    if sa.no_duplicates() {
        sa.lemma_multiset_has_no_duplicates();
        ra.lemma_multiset_has_no_duplicates_conv();
    }
    lemma_filtered_names(r, usable);
    assert(has_twins(input) <==> exists|i: int, j: int|
        0 <= i < j < r.len() && (#[trigger] r[i]).0 == (#[trigger] r[j]).0 && usable(r[i])
            && usable(r[j])) by {
        if has_twins(input) {
            let (i, j) = choose|i: int, j: int|
                0 <= i < j < input.drives.len() && (#[trigger] input.drives[i]).0 == (
                #[trigger] input.drives[j]).0 && layout_laws::reach(input, input.drives[i]) > 0
                    && layout_laws::reach(input, input.drives[j]) > 0;
            assert(r[i].0 == r[j].0 && usable(r[i]) && usable(r[j]));
        }
        if exists|i: int, j: int|
            0 <= i < j < r.len() && (#[trigger] r[i]).0 == (#[trigger] r[j]).0 && usable(r[i])
                && usable(r[j]) {
            let (i, j) = choose|i: int, j: int|
                0 <= i < j < r.len() && (#[trigger] r[i]).0 == (#[trigger] r[j]).0 && usable(r[i])
                    && usable(r[j]);
            assert(input.drives[i].0 == input.drives[j].0);
        }
    }
}

proof fn lemma_same_filter(
    s: Seq<(Seq<char>, u64)>,
    a: spec_fn((Seq<char>, u64)) -> bool,
    b: spec_fn((Seq<char>, u64)) -> bool,
)
    requires
        forall|k: int| 0 <= k < s.len() ==> (a(#[trigger] s[k]) <==> b(s[k])),
    ensures
        s.filter(a) == s.filter(b),
    decreases s.len(),
{
    reveal(Seq::filter);
    if s.len() > 0 {
        let head = s.drop_last();
        assert forall|k: int| 0 <= k < head.len() implies (a(#[trigger] head[k]) <==> b(
            head[k],
        )) by {
            assert(head[k] == s[k]);
        }
        lemma_same_filter(head, a, b);
        assert(s[s.len() - 1] == s.last());
    }
}

proof fn lemma_names_push(list: Seq<(Seq<char>, u64)>, e: (Seq<char>, u64))
    ensures
        planner::names(list.push(e)) == planner::names(list).push(e.0),
{
    assert(planner::names(list.push(e)) =~= planner::names(list).push(e.0));
}

proof fn lemma_names_of_placed(
    list: Seq<(Seq<char>, u64)>,
    e: (Seq<char>, u64),
    keep: spec_fn((Seq<char>, u64)) -> bool,
)
    ensures
        planner::names(planner::placed(list, e).filter(keep)).to_multiset() == (if keep(e) {
            planner::names(list.filter(keep)).to_multiset().insert(e.0)
        } else {
            planner::names(list.filter(keep)).to_multiset()
        }),
    decreases list.len(),
{
    broadcast use vstd::seq_lib::group_to_multiset_ensures;

    reveal(Seq::filter);
    if list.len() > 0 && planner::shorter(e, list.last()) {
        let head = list.drop_last();
        lemma_names_of_placed(head, e, keep);
        let inner = planner::placed(head, e);
        assert(inner.push(list.last()).drop_last() =~= inner);
        lemma_names_push(inner.filter(keep), list.last());
        lemma_names_push(head.filter(keep), list.last());
        let x = planner::names(head.filter(keep)).to_multiset();
        assert(x.insert(e.0).insert(list.last().0) =~= x.insert(list.last().0).insert(e.0));
    } else {
        assert(list.push(e).drop_last() =~= list);
        lemma_names_push(list.filter(keep), e);
    }
}

proof fn lemma_names_of_sorted(
    list: Seq<(Seq<char>, u64)>,
    keep: spec_fn((Seq<char>, u64)) -> bool,
)
    ensures
        planner::names(planner::by_length(list).filter(keep)).to_multiset() == planner::names(
            list.filter(keep),
        ).to_multiset(),
    decreases list.len(),
{
    broadcast use vstd::seq_lib::group_to_multiset_ensures;

    reveal(Seq::filter);
    if list.len() > 0 {
        let head = list.drop_last();
        lemma_names_of_sorted(head, keep);
        lemma_names_of_placed(planner::by_length(head), list.last(), keep);
        lemma_names_push(head.filter(keep), list.last());
    } else {
        assert(planner::by_length(list) =~= list);
    }
}

proof fn lemma_filtered_names(
    list: Seq<(Seq<char>, u64)>,
    keep: spec_fn((Seq<char>, u64)) -> bool,
)
    ensures
        planner::names(list.filter(keep)).no_duplicates() <==> !exists|i: int, j: int|
            0 <= i < j < list.len() && (#[trigger] list[i]).0 == (#[trigger] list[j]).0 && keep(
                list[i],
            ) && keep(list[j]),
        forall|id: Seq<char>| #[trigger]
            planner::names(list.filter(keep)).contains(id) <==> exists|i: int|
                0 <= i < list.len() && (#[trigger] list[i]).0 == id && keep(list[i]),
    decreases list.len(),
{
    reveal(Seq::filter);
    let all = planner::names(list.filter(keep));
    if list.len() > 0 {
        let head = list.drop_last();
        let e = list.last();
        lemma_filtered_names(head, keep);
        let before = planner::names(head.filter(keep));
        lemma_names_push(head.filter(keep), e);
        if keep(e) {
            assert(all == before.push(e.0));
        }
        assert forall|id: Seq<char>| #[trigger] all.contains(id) <==> exists|i: int|
            0 <= i < list.len() && (#[trigger] list[i]).0 == id && keep(list[i]) by {
            if all.contains(id) {
                let k = choose|k: int| 0 <= k < all.len() && all[k] == id;
                if k < before.len() {
                    assert(before[k] == id);
                    assert(before.contains(id));
                    let i = choose|i: int|
                        0 <= i < head.len() && (#[trigger] head[i]).0 == id && keep(head[i]);
                    assert(list[i] == head[i]);
                } else {
                    assert(list[list.len() - 1].0 == id);
                }
            }
            if exists|i: int| 0 <= i < list.len() && (#[trigger] list[i]).0 == id && keep(list[i]) {
                let i = choose|i: int|
                    0 <= i < list.len() && (#[trigger] list[i]).0 == id && keep(list[i]);
                if i < head.len() {
                    assert(head[i] == list[i]);
                    assert(before.contains(id));
                    let k = choose|k: int| 0 <= k < before.len() && before[k] == id;
                    assert(all[k] == id);
                } else {
                    assert(all[all.len() - 1] == id);
                }
            }
        }
        let dup = exists|i: int, j: int|
            0 <= i < j < list.len() && (#[trigger] list[i]).0 == (#[trigger] list[j]).0 && keep(
                list[i],
            ) && keep(list[j]);
        let dup_before = exists|i: int, j: int|
            0 <= i < j < head.len() && (#[trigger] head[i]).0 == (#[trigger] head[j]).0 && keep(
                head[i],
            ) && keep(head[j]);
        assert(dup <==> dup_before || (keep(e) && before.contains(e.0))) by {
            if dup {
                let (i, j) = choose|i: int, j: int|
                    0 <= i < j < list.len() && (#[trigger] list[i]).0 == (#[trigger] list[j]).0
                        && keep(list[i]) && keep(list[j]);
                assert(head[i] == list[i]);
                if j < head.len() {
                    assert(head[j] == list[j]);
                }
            }
            if dup_before {
                let (i, j) = choose|i: int, j: int|
                    0 <= i < j < head.len() && (#[trigger] head[i]).0 == (#[trigger] head[j]).0
                        && keep(head[i]) && keep(head[j]);
                assert(list[i] == head[i] && list[j] == head[j]);
            }
            if keep(e) && before.contains(e.0) {
                let i = choose|i: int|
                    0 <= i < head.len() && (#[trigger] head[i]).0 == e.0 && keep(head[i]);
                assert(list[i].0 == list[list.len() - 1].0);
            }
        }
        if keep(e) {
            assert(all.no_duplicates() <==> before.no_duplicates() && !before.contains(e.0)) by {
                if all.no_duplicates() {
                    assert forall|i: int, j: int|
                        0 <= i < before.len() && 0 <= j < before.len() && i
                            != j implies before[i] != before[j] by {
                        assert(all[i] == before[i] && all[j] == before[j]);
                    }
                    if before.contains(e.0) {
                        let k = choose|k: int| 0 <= k < before.len() && before[k] == e.0;
                        assert(all[k] == all[all.len() - 1]);
                    }
                }
                if before.no_duplicates() && !before.contains(e.0) {
                    assert forall|i: int, j: int|
                        0 <= i < all.len() && 0 <= j < all.len() && i != j implies all[i]
                        != all[j] by {
                        if i < before.len() && j < before.len() {
                            assert(all[i] == before[i] && all[j] == before[j]);
                        } else if i < before.len() {
                            assert(all[i] == before[i]);
                            assert(before.contains(before[i]));
                        } else {
                            assert(all[j] == before[j]);
                            assert(before.contains(before[j]));
                        }
                    }
                }
            }
        }
    }
}

/// The grid of production: bands begin and end on multiples of 4 GiB, behind a
/// reserved head of 128 MiB and before a reserved tail of 8 MiB.
pub proof fn the_default_grid()
    ensures
        planner::DEFAULT_BAND_ALIGNMENT == 4294967296,
        planner::DEFAULT_RESERVED_HEAD == 134217728,
        planner::DEFAULT_RESERVED_TAIL == 8388608,
        planner::MAX_BANDS == 256,
{
}

} // verus!
