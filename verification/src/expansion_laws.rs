//! Laws of expansion plans: what an accepted snapshot is, and what every plan
//! does to the bands that exist.

use vstd::prelude::*;
use crate::band::BandView;
use crate::expansion;
use crate::expansion::{BandKey, ExpansionView, SnapshotView, StepView};
use crate::layout_laws;
use crate::planner;
use crate::planner::{InputView, PlanFault};
use crate::raid;
use crate::slices;

verus! {

// ---------------------------------------------------------------------------
// Sorting bands
// ---------------------------------------------------------------------------

proof fn lemma_ranked_in(list: Seq<BandView>, key: BandKey, b: BandView)
    ensures
        expansion::ranked_in(list, key, b).len() == list.len() + 1,
        forall|x: BandView| #[trigger]
            expansion::ranked_in(list, key, b).contains(x) <==> x == b || list.contains(x),
    decreases list.len(),
{
    let out = expansion::ranked_in(list, key, b);
    if list.len() > 0 && expansion::key_of(key, b) < expansion::key_of(key, list.last()) {
        let head = list.drop_last();
        let inner = expansion::ranked_in(head, key, b);
        lemma_ranked_in(head, key, b);
        assert forall|x: BandView| #[trigger] out.contains(x) <==> x == b || list.contains(x) by {
            if out.contains(x) {
                let i = choose|i: int| 0 <= i < out.len() && out[i] == x;
                if i < inner.len() {
                    assert(inner[i] == x);
                    assert(inner.contains(x));
                    if x != b {
                        let k = choose|k: int| 0 <= k < head.len() && head[k] == x;
                        assert(list[k] == x);
                    }
                } else {
                    assert(list[list.len() - 1] == x);
                }
            }
            if x == b || head.contains(x) {
                assert(inner.contains(x));
                let i = choose|i: int| 0 <= i < inner.len() && inner[i] == x;
                assert(out[i] == x);
            } else if list.contains(x) {
                let k = choose|k: int| 0 <= k < list.len() && list[k] == x;
                if k < head.len() {
                    assert(head[k] == x);
                }
                assert(out[out.len() - 1] == x);
            }
        }
    } else {
        assert forall|x: BandView| #[trigger] out.contains(x) <==> x == b || list.contains(x) by {
            if out.contains(x) {
                let i = choose|i: int| 0 <= i < out.len() && out[i] == x;
                if i < list.len() {
                    assert(list[i] == x);
                }
            }
            if x == b {
                assert(out[out.len() - 1] == x);
            }
            if list.contains(x) {
                let k = choose|k: int| 0 <= k < list.len() && list[k] == x;
                assert(out[k] == x);
            }
        }
    }
}

/// Sorting keeps the bands.
pub proof fn lemma_ranked(list: Seq<BandView>, key: BandKey)
    ensures
        expansion::ranked(list, key).len() == list.len(),
        forall|x: BandView| #[trigger]
            expansion::ranked(list, key).contains(x) <==> list.contains(x),
    decreases list.len(),
{
    if list.len() > 0 {
        let head = list.drop_last();
        lemma_ranked(head, key);
        lemma_ranked_in(expansion::ranked(head, key), key, list.last());
        assert forall|x: BandView| #[trigger]
            expansion::ranked(list, key).contains(x) <==> list.contains(x) by {
            if list.contains(x) {
                let k = choose|k: int| 0 <= k < list.len() && list[k] == x;
                if k < head.len() {
                    assert(head[k] == x);
                    assert(head.contains(x));
                }
            }
            if head.contains(x) {
                let k = choose|k: int| 0 <= k < head.len() && head[k] == x;
                assert(list[k] == x);
            }
            if x == list.last() {
                assert(list[list.len() - 1] == x);
            }
            assert(expansion::ranked(head, key).contains(x) <==> head.contains(x));
        }
    }
}

/// Sorting leaves a list alone that is in order already.
proof fn lemma_ranked_in_order(list: Seq<BandView>, key: BandKey)
    requires
        forall|i: int, j: int|
            0 <= i < j < list.len() ==> expansion::key_of(key, #[trigger] list[i])
                <= expansion::key_of(key, #[trigger] list[j]),
    ensures
        expansion::ranked(list, key) == list,
    decreases list.len(),
{
    if list.len() == 0 {
        assert(list =~= Seq::empty());
    } else {
        let head = list.drop_last();
        assert forall|i: int, j: int| 0 <= i < j < head.len() implies expansion::key_of(
            key,
            #[trigger] head[i],
        ) <= expansion::key_of(key, #[trigger] head[j]) by {
            assert(expansion::key_of(key, list[i]) <= expansion::key_of(key, list[j]));
        }
        lemma_ranked_in_order(head, key);
        if head.len() > 0 {
            assert(head.last() == list[list.len() - 2]);
            assert(expansion::key_of(key, list[list.len() - 2]) <= expansion::key_of(
                key,
                list[list.len() - 1],
            ));
        }
        assert(head.push(list.last()) =~= list);
    }
}

// ---------------------------------------------------------------------------
// Accepted snapshots
// ---------------------------------------------------------------------------

/// No identifier occurs twice exactly when no second occurrence is found.
pub proof fn lemma_twin(drives: Seq<(Seq<char>, u64)>)
    ensures
        expansion::twin(drives) is None <==> planner::names(drives).no_duplicates(),
    decreases drives.len(),
{
    let all = planner::names(drives);
    if drives.len() > 0 {
        let head = drives.drop_last();
        lemma_twin(head);
        let before = planner::names(head);
        assert(all.drop_last() =~= before);
        if before.no_duplicates() && !before.contains(drives.last().0) {
            assert forall|i: int, j: int|
                0 <= i < all.len() && 0 <= j < all.len() && i != j implies all[i] != all[j] by {
                if i < before.len() && j < before.len() {
                    assert(all[i] == before[i] && all[j] == before[j]);
                } else if i < before.len() {
                    assert(all[i] == before[i]);
                    assert(before.contains(before[i]));
                } else {
                    assert(all[j] == before[j]);
                    assert(before.contains(before[j]));
                }
            }
        }
        if all.no_duplicates() {
            assert forall|i: int, j: int|
                0 <= i < before.len() && 0 <= j < before.len() && i != j implies before[i]
                != before[j] by {
                assert(all[i] == before[i] && all[j] == before[j]);
            }
            if before.contains(drives.last().0) {
                let k = choose|k: int| 0 <= k < before.len() && before[k] == drives.last().0;
                assert(all[k] == all[all.len() - 1]);
            }
        }
    }
}

/// The band indices are pairwise different exactly when no second occurrence
/// is found.
pub proof fn lemma_twin_index(bands: Seq<BandView>)
    ensures
        expansion::twin_index(bands) is None <==> forall|i: int, j: int|
            0 <= i < j < bands.len() ==> (#[trigger] bands[i]).index != (#[trigger] bands[j]).index,
    decreases bands.len(),
{
    if bands.len() > 0 {
        let head = bands.drop_last();
        lemma_twin_index(head);
        let distinct = forall|i: int, j: int|
            0 <= i < j < bands.len() ==> (#[trigger] bands[i]).index != (#[trigger] bands[j]).index;
        if distinct {
            assert forall|i: int, j: int| 0 <= i < j < head.len() implies (#[trigger] head[i]).index
                != (#[trigger] head[j]).index by {
                assert(bands[i].index != bands[j].index);
            }
            if expansion::has_index(head, bands.last().index) {
                let k = choose|k: int|
                    0 <= k < head.len() && (#[trigger] head[k]).index == bands.last().index;
                assert(bands[k].index == bands[bands.len() - 1].index);
            }
        }
        if expansion::twin_index(bands) is None {
            assert forall|i: int, j: int| 0 <= i < j < bands.len() implies (
            #[trigger] bands[i]).index != (#[trigger] bands[j]).index by {
                assert(head[i] == bands[i]);
                if j < head.len() {
                    assert(head[j] == bands[j]);
                }
            }
        }
    }
}

/// Whether every member of `b` is a listed disk whose space between the
/// reserves covers the band.
pub open spec fn members_fit(s: SnapshotView, b: BandView) -> bool {
    forall|i: int|
        0 <= i < b.members.len() ==> (expansion::size_of(
            s.drives,
            #[trigger] b.members[i],
        ) matches Some(size) && b.end() <= expansion::between_reserves(s, size))
}

/// Whether the band at `i` has the level that its mode picks, members that
/// exist and fit, and begins where the one before it ends.
pub open spec fn well_placed(s: SnapshotView, sorted: Seq<BandView>, i: int) -> bool {
    &&& raid::mode_level(s.mode, sorted[i].members.len()) == Some(sorted[i].level)
    &&& members_fit(s, sorted[i])
    &&& sorted[i].offset == (if i == 0 {
        0
    } else {
        sorted[i - 1].end()
    })
}

/// Whether a snapshot describes a coherent layout: disks and band indices are
/// unique, there is a band, and the bands by offset tile the disks from the
/// start, each at the level its mode picks, on members that exist and fit.
pub open spec fn coherent(s: SnapshotView) -> bool {
    let sorted = expansion::ranked(s.bands, BandKey::Offset);
    &&& planner::names(s.drives).no_duplicates()
    &&& s.bands.len() > 0
    &&& forall|i: int, j: int|
        0 <= i < j < s.bands.len() ==> (#[trigger] s.bands[i]).index != (
        #[trigger] s.bands[j]).index
    &&& forall|i: int| 0 <= i < s.bands.len() ==> #[trigger] well_placed(s, sorted, i)
}

proof fn lemma_member_fault(s: SnapshotView, b: BandView, n: nat)
    requires
        n <= b.members.len(),
    ensures
        expansion::member_fault(s, b, n) is None <==> forall|i: int|
            0 <= i < n ==> (expansion::size_of(s.drives, #[trigger] b.members[i]) matches Some(size)
                && b.end() <= expansion::between_reserves(s, size)),
    decreases n,
{
    if n > 0 {
        lemma_member_fault(s, b, (n - 1) as nat);
    }
}

proof fn lemma_extent_fault(s: SnapshotView, sorted: Seq<BandView>, n: nat)
    requires
        n <= sorted.len(),
    ensures
        expansion::extent_fault(s, sorted, n) is None <==> forall|i: int|
            0 <= i < n ==> #[trigger] well_placed(s, sorted, i),
    decreases n,
{
    if n > 0 {
        lemma_extent_fault(s, sorted, (n - 1) as nat);
        let b = sorted[n - 1];
        lemma_member_fault(s, b, b.members.len());
        let start = if n == 1 {
            0
        } else {
            sorted[n - 2].end()
        };
        assert(expansion::band_fault(s, b, start) is None <==> well_placed(s, sorted, n - 1));
    }
}

/// Exactly the coherent snapshots pass validation.
pub proof fn exactly_coherent_snapshots_are_accepted(s: SnapshotView)
    ensures
        expansion::snapshot_fault(s) is None <==> coherent(s),
{
    lemma_twin(s.drives);
    lemma_twin_index(s.bands);
    let sorted = expansion::ranked(s.bands, BandKey::Offset);
    lemma_ranked(s.bands, BandKey::Offset);
    lemma_extent_fault(s, sorted, s.bands.len());
}

// ---------------------------------------------------------------------------
// What a plan does to the bands
// ---------------------------------------------------------------------------

/// The band `b` after one step.
pub open spec fn after_step(b: BandView, step: StepView) -> BandView {
    match step {
        StepView::LevelUp { band_index, to, add_members, .. } => if band_index == b.index {
            BandView { level: to, members: b.members + add_members, ..b }
        } else {
            b
        },
        StepView::GrowBand { band_index, add_members } => if band_index == b.index {
            BandView { members: b.members + add_members, ..b }
        } else {
            b
        },
        _ => b,
    }
}

/// The band `b` after all of `steps`.
pub open spec fn after(b: BandView, steps: Seq<StepView>) -> BandView
    decreases steps.len(),
{
    if steps.len() == 0 {
        b
    } else {
        after_step(after(b, steps.drop_last()), steps.last())
    }
}

/// Whether two bands have the same index, extent, level and set of members.
pub open spec fn same_band(a: BandView, b: BandView) -> bool {
    &&& a.index == b.index
    &&& a.offset == b.offset
    &&& a.size == b.size
    &&& a.level == b.level
    &&& forall|m: Seq<char>| a.members.contains(m) <==> b.members.contains(m)
}

proof fn lemma_after_concat(b: BandView, x: Seq<StepView>, y: Seq<StepView>)
    ensures
        after(b, x + y) == after(after(b, x), y),
    decreases y.len(),
{
    if y.len() == 0 {
        assert(x + y =~= x);
    } else {
        lemma_after_concat(b, x, y.drop_last());
        assert((x + y).drop_last() =~= x + y.drop_last());
        assert((x + y).last() == y.last());
    }
}

proof fn lemma_after_inert(b: BandView, steps: Seq<StepView>)
    requires
        forall|i: int|
            0 <= i < steps.len() ==> (#[trigger] steps[i]) is CreateBand
                || steps[i] is MarkUnusable,
    ensures
        after(b, steps) == b,
    decreases steps.len(),
{
    if steps.len() > 0 {
        let head = steps.drop_last();
        assert forall|i: int| 0 <= i < head.len() implies (#[trigger] head[i]) is CreateBand
            || head[i] is MarkUnusable by {
            assert(head[i] == steps[i]);
        }
        lemma_after_inert(b, head);
        assert(steps[steps.len() - 1] == steps.last());
    }
}

/// No member is missing exactly when all are there.
pub proof fn lemma_first_missing(members: Seq<Seq<char>>, others: Seq<Seq<char>>)
    ensures
        expansion::first_missing(members, others) is None <==> forall|m: Seq<char>|
            members.contains(m) ==> others.contains(m),
    decreases members.len(),
{
    if members.len() > 0 {
        let head = members.drop_last();
        lemma_first_missing(head, others);
        assert(members[members.len() - 1] == members.last());
        assert(members.contains(members.last()));
        assert forall|m: Seq<char>| head.contains(m) implies members.contains(m) by {
            let k = choose|k: int| 0 <= k < head.len() && head[k] == m;
            assert(members[k] == m);
        }
        assert forall|m: Seq<char>| members.contains(m) implies m == members.last()
            || head.contains(m) by {
            let k = choose|k: int| 0 <= k < members.len() && members[k] == m;
            if k < head.len() {
                assert(head[k] == m);
            }
        }
    }
}

/// The members to add are those that are wanted and not present.
pub proof fn lemma_added(present: Seq<Seq<char>>, wanted: Seq<Seq<char>>, m: Seq<char>)
    ensures
        expansion::added(present, wanted).contains(m) <==> wanted.contains(m) && !present.contains(
            m,
        ),
{
    let fresh = |x: Seq<char>| !present.contains(x);
    let out = wanted.filter(fresh);
    if out.contains(m) {
        wanted.lemma_filter_contains_rev(fresh, m);
        let i = choose|i: int| 0 <= i < out.len() && out[i] == m;
        wanted.lemma_filter_pred(fresh, i);
    }
    if wanted.contains(m) && !present.contains(m) {
        let i = choose|i: int| 0 <= i < wanted.len() && wanted[i] == m;
        wanted.lemma_filter_contains(fresh, i);
    }
}

/// One band's step turns it into the ideal band.
proof fn lemma_change(b: BandView, ideal: Seq<BandView>)
    requires
        expansion::change(b, ideal) is Ok,
        b.index < ideal.len(),
        ideal[b.index as int].index == b.index,
    ensures
        ({
            let t = ideal[b.index as int];
            let out = match expansion::change(b, ideal) {
                Ok(Some(step)) => after_step(b, step),
                _ => b,
            };
            &&& same_band(out, t)
            &&& raid::level_rank(b.level) <= raid::level_rank(t.level)
            &&& t.offset == b.offset
            &&& t.size == b.size
            &&& forall|m: Seq<char>| b.members.contains(m) ==> t.members.contains(m)
        }),
{
    let t = ideal[b.index as int];
    lemma_first_missing(b.members, t.members);
    let add = expansion::added(b.members, t.members);
    assert forall|m: Seq<char>| (b.members + add).contains(m) <==> t.members.contains(m) by {
        lemma_added(b.members, t.members, m);
        let both = b.members + add;
        if both.contains(m) {
            let k = choose|k: int| 0 <= k < both.len() && both[k] == m;
            if k < b.members.len() {
                assert(b.members[k] == m);
            } else {
                assert(add[k - b.members.len()] == m);
            }
        }
        if b.members.contains(m) {
            let k = choose|k: int| 0 <= k < b.members.len() && b.members[k] == m;
            assert(both[k] == m);
        }
        if add.contains(m) {
            let k = choose|k: int| 0 <= k < add.len() && add[k] == m;
            assert(both[b.members.len() + k] == m);
        }
    }
    if add.len() == 0 {
        assert(b.members + add =~= b.members);
    }
}

/// The steps for the first `n` bands turn each of them into its ideal band and
/// leave the others alone.
pub proof fn lemma_changes(sorted: Seq<BandView>, ideal: Seq<BandView>, n: nat, b: BandView)
    requires
        n <= sorted.len(),
        expansion::changes(sorted, ideal, n) is Ok,
        forall|i: int| 0 <= i < ideal.len() ==> (#[trigger] ideal[i]).index == i,
        forall|i: int, j: int|
            0 <= i < sorted.len() && 0 <= j < sorted.len() && i != j ==> (
            #[trigger] sorted[i]).index != (#[trigger] sorted[j]).index,
        exists|k: int| 0 <= k < sorted.len() && #[trigger] sorted[k] == b,
    ensures
        ({
            let k = choose|k: int| 0 <= k < sorted.len() && #[trigger] sorted[k] == b;
            let out = after(b, expansion::changes(sorted, ideal, n)->Ok_0);
            if k < n {
                &&& b.index < ideal.len()
                &&& same_band(out, ideal[b.index as int])
                &&& raid::level_rank(b.level) <= raid::level_rank(ideal[b.index as int].level)
                &&& ideal[b.index as int].offset == b.offset
                &&& ideal[b.index as int].size == b.size
                &&& forall|m: Seq<char>|
                    b.members.contains(m) ==> ideal[b.index as int].members.contains(m)
            } else {
                out == b
            }
        }),
    decreases n,
{
    let k = choose|k: int| 0 <= k < sorted.len() && #[trigger] sorted[k] == b;
    if n > 0 {
        let m = (n - 1) as nat;
        lemma_changes(sorted, ideal, m, b);
        let c = sorted[n - 1];
        let before = expansion::changes(sorted, ideal, m)->Ok_0;
        if k == n - 1 {
            lemma_change(b, ideal);
            match expansion::change(c, ideal) {
                Ok(Some(step)) => {
                    assert(before.push(step).drop_last() =~= before);
                },
                _ => {},
            }
        } else {
            assert(sorted[k].index != sorted[n - 1].index);
            match expansion::change(c, ideal) {
                Ok(Some(step)) => {
                    assert(before.push(step).drop_last() =~= before);
                    assert(after(b, before).index == b.index);
                },
                _ => {},
            }
        }
    }
}

pub proof fn lemma_changes_kinds(sorted: Seq<BandView>, ideal: Seq<BandView>, n: nat)
    requires
        n <= sorted.len(),
        expansion::changes(sorted, ideal, n) is Ok,
    ensures
        forall|i: int|
            0 <= i < expansion::changes(sorted, ideal, n)->Ok_0.len() ==> exists|k: int|
                0 <= k < n && expansion::change(#[trigger] sorted[k], ideal) == Ok::<
                    Option<StepView>,
                    Seq<char>,
                >(Some(#[trigger] expansion::changes(sorted, ideal, n)->Ok_0[i])),
    decreases n,
{
    if n > 0 {
        let m = (n - 1) as nat;
        lemma_changes_kinds(sorted, ideal, m);
        let before = expansion::changes(sorted, ideal, m)->Ok_0;
        let now = expansion::changes(sorted, ideal, n)->Ok_0;
        assert forall|i: int| 0 <= i < now.len() implies exists|k: int|
            0 <= k < n && expansion::change(#[trigger] sorted[k], ideal) == Ok::<
                Option<StepView>,
                Seq<char>,
            >(Some(#[trigger] now[i])) by {
            if i < before.len() {
                assert(now[i] == before[i]);
                let k = choose|k: int|
                    0 <= k < m && expansion::change(#[trigger] sorted[k], ideal) == Ok::<
                        Option<StepView>,
                        Seq<char>,
                    >(Some(before[i]));
                assert(expansion::change(sorted[k], ideal) == Ok::<Option<StepView>, Seq<char>>(
                    Some(now[i]),
                ));
            } else {
                assert(expansion::change(sorted[n - 1], ideal) == Ok::<Option<StepView>, Seq<char>>(
                    Some(now[i]),
                ));
            }
        }
    }
}

pub proof fn lemma_creations(bands: Seq<BandView>, ideal: Seq<BandView>, n: nat)
    requires
        n <= ideal.len(),
        expansion::creations(bands, ideal, n) is Ok,
    ensures
        ({
            let made = expansion::creations(bands, ideal, n)->Ok_0;
            &&& forall|i: int|
                0 <= i < made.len() ==> ((#[trigger] made[i]) matches StepView::CreateBand { band }
                    && band.offset >= expansion::highest_end(bands) && !expansion::has_index(
                    bands,
                    band.index,
                ) && ideal.contains(band))
            &&& forall|k: int|
                0 <= k < n && !expansion::has_index(bands, (#[trigger] ideal[k]).index)
                    ==> made.contains(StepView::CreateBand { band: ideal[k] })
        }),
    decreases n,
{
    if n > 0 {
        let m = (n - 1) as nat;
        lemma_creations(bands, ideal, m);
        let before = expansion::creations(bands, ideal, m)->Ok_0;
        let made = expansion::creations(bands, ideal, n)->Ok_0;
        assert forall|k: int|
            0 <= k < n && !expansion::has_index(
                bands,
                (#[trigger] ideal[k]).index,
            ) implies made.contains(StepView::CreateBand { band: ideal[k] }) by {
            let step = StepView::CreateBand { band: ideal[k] };
            if k < m {
                assert(before.contains(step));
                let i = choose|i: int| 0 <= i < before.len() && before[i] == step;
                assert(made[i] == step);
            } else {
                assert(made[made.len() - 1] == step);
            }
        }
    }
}

/// The ideal layout that an expansion works towards.
pub open spec fn target(s: SnapshotView, new: Seq<(Seq<char>, u64)>) -> planner::PlanView {
    planner::plan(expansion::replanned(s, new))->Ok_0
}

/// The steps of a plan lead to the ideal layout of the old and new disks
/// together, and on the way every existing band only gains: after the steps it
/// is the ideal band of its index; its extent is the same as before, its level
/// is not lower, and none of its members is gone.
pub proof fn expansion_only_grows_existing_bands(
    s: SnapshotView,
    new: Seq<(Seq<char>, u64)>,
    k: int,
)
    requires
        expansion::expansion(s, new) is Ok,
        0 <= k < s.bands.len(),
    ensures
        ({
            let b = s.bands[k];
            let ideal = target(s, new).bands;
            let out = after(b, expansion::expansion(s, new)->Ok_0.steps);
            &&& planner::plan(expansion::replanned(s, new)) is Ok
            &&& b.index < ideal.len()
            &&& same_band(out, ideal[b.index as int])
            &&& out.offset == b.offset
            &&& out.size == b.size
            &&& raid::level_rank(b.level) <= raid::level_rank(out.level)
            &&& forall|m: Seq<char>| b.members.contains(m) ==> out.members.contains(m)
        }),
{
    let b = s.bands[k];
    let ideal = target(s, new);
    let input = expansion::replanned(s, new);
    layout_laws::planned_bands_tile_the_disks(input);
    lemma_twin_index(s.bands);
    let sorted = expansion::ranked(s.bands, BandKey::Index);
    lemma_ranked_distinct(s.bands, BandKey::Index);
    lemma_ranked(s.bands, BandKey::Index);
    assert(s.bands.contains(b));
    assert(sorted.contains(b));
    let j = choose|j: int| 0 <= j < sorted.len() && sorted[j] == b;
    assert(sorted[j] == b);
    let grown = expansion::changes(sorted, ideal.bands, s.bands.len())->Ok_0;
    let made = expansion::creations(s.bands, ideal.bands, ideal.bands.len())->Ok_0;
    let rest = expansion::marks(ideal.unusable, expansion::stacked(ideal.bands) as u64);
    lemma_changes(sorted, ideal.bands, s.bands.len(), b);
    lemma_creations(s.bands, ideal.bands, ideal.bands.len());
    lemma_after_concat(b, grown + made, rest);
    lemma_after_concat(b, grown, made);
    lemma_after_inert(after(b, grown), made);
    lemma_after_inert(after(b, grown), rest);
}

proof fn lemma_ranked_in_distinct(list: Seq<BandView>, key: BandKey, b: BandView)
    requires
        forall|i: int, j: int|
            0 <= i < list.len() && 0 <= j < list.len() && i != j ==> (#[trigger] list[i]).index != (
            #[trigger] list[j]).index,
        forall|i: int| 0 <= i < list.len() ==> (#[trigger] list[i]).index != b.index,
    ensures
        ({
            let out = expansion::ranked_in(list, key, b);
            forall|i: int, j: int|
                0 <= i < out.len() && 0 <= j < out.len() && i != j ==> (#[trigger] out[i]).index
                    != (#[trigger] out[j]).index
        }),
    decreases list.len(),
{
    let out = expansion::ranked_in(list, key, b);
    if list.len() > 0 && expansion::key_of(key, b) < expansion::key_of(key, list.last()) {
        let head = list.drop_last();
        let inner = expansion::ranked_in(head, key, b);
        assert forall|i: int, j: int|
            0 <= i < head.len() && 0 <= j < head.len() && i != j implies (#[trigger] head[i]).index
            != (#[trigger] head[j]).index by {
            assert(list[i].index != list[j].index);
        }
        assert forall|i: int| 0 <= i < head.len() implies (#[trigger] head[i]).index
            != b.index by {
            assert(list[i].index != b.index);
        }
        lemma_ranked_in_distinct(head, key, b);
        lemma_ranked_in(head, key, b);
        assert forall|i: int| 0 <= i < inner.len() implies (#[trigger] inner[i]).index
            != list.last().index by {
            assert(inner.contains(inner[i]));
            if inner[i] != b {
                let k = choose|k: int| 0 <= k < head.len() && head[k] == inner[i];
                assert(list[k].index != list[list.len() - 1].index);
            } else {
                assert(list[list.len() - 1].index != b.index);
            }
        }
        assert forall|i: int, j: int|
            0 <= i < out.len() && 0 <= j < out.len() && i != j implies (#[trigger] out[i]).index
            != (#[trigger] out[j]).index by {
            if i < inner.len() && j < inner.len() {
                assert(inner[i].index != inner[j].index);
            } else if i < inner.len() {
                assert(inner[i].index != list.last().index);
            } else {
                assert(inner[j].index != list.last().index);
            }
        }
    }
}

pub proof fn lemma_ranked_distinct(list: Seq<BandView>, key: BandKey)
    requires
        forall|i: int, j: int|
            0 <= i < j < list.len() ==> (#[trigger] list[i]).index != (#[trigger] list[j]).index,
    ensures
        ({
            let out = expansion::ranked(list, key);
            forall|i: int, j: int|
                0 <= i < out.len() && 0 <= j < out.len() && i != j ==> (#[trigger] out[i]).index
                    != (#[trigger] out[j]).index
        }),
    decreases list.len(),
{
    if list.len() > 0 {
        let head = list.drop_last();
        let inner = expansion::ranked(head, key);
        assert forall|i: int, j: int| 0 <= i < j < head.len() implies (#[trigger] head[i]).index
            != (#[trigger] head[j]).index by {
            assert(list[i].index != list[j].index);
        }
        lemma_ranked_distinct(head, key);
        lemma_ranked(head, key);
        assert forall|i: int| 0 <= i < inner.len() implies (#[trigger] inner[i]).index
            != list.last().index by {
            assert(inner.contains(inner[i]));
            let k = choose|k: int| 0 <= k < head.len() && head[k] == inner[i];
            assert(list[k].index != list[list.len() - 1].index);
        }
        lemma_ranked_in_distinct(inner, key, list.last());
    }
}

/// The top that new bands are held against is the greatest end of a band: no
/// band ends above it and, where there is a band, one ends there.
pub proof fn the_top_is_where_the_highest_band_ends(bands: Seq<BandView>)
    ensures
        forall|i: int|
            0 <= i < bands.len() ==> (#[trigger] bands[i]).end() <= expansion::highest_end(bands),
        bands.len() > 0 ==> exists|i: int|
            0 <= i < bands.len() && (#[trigger] bands[i]).end() == expansion::highest_end(bands),
        bands.len() == 0 ==> expansion::highest_end(bands) == 0,
    decreases bands.len(),
{
    if bands.len() > 0 {
        let head = bands.drop_last();
        the_top_is_where_the_highest_band_ends(head);
        let top = expansion::highest_end(bands);
        assert forall|i: int| 0 <= i < bands.len() implies (#[trigger] bands[i]).end() <= top by {
            if i < head.len() {
                assert(head[i].end() <= expansion::highest_end(head));
            }
        }
        if bands[bands.len() - 1].end() < top {
            if head.len() > 0 {
                let i = choose|i: int|
                    0 <= i < head.len() && (#[trigger] head[i]).end() == expansion::highest_end(
                        head,
                    );
                assert(bands[i].end() == top);
            }
        } else {
            assert(bands[bands.len() - 1].end() == top);
        }
    }
}

/// Whether the band `b` is one of `ideal`, under its index and with its extent,
/// and has lost no member there.
pub open spec fn kept_in(b: BandView, ideal: Seq<BandView>) -> bool {
    &&& b.index < ideal.len()
    &&& ideal[b.index as int].offset == b.offset
    &&& ideal[b.index as int].size == b.size
    &&& forall|m: Seq<char>| b.members.contains(m) ==> ideal[b.index as int].members.contains(m)
}

/// An expansion is granted whenever it is safe: the snapshot is coherent, the
/// new disks are new, the disks together can be laid out, every existing band
/// keeps its extent and its members there, and the layout version can still
/// advance.
pub proof fn safe_expansions_are_granted(s: SnapshotView, new: Seq<(Seq<char>, u64)>)
    requires
        coherent(s),
        planner::names(s.drives + new).no_duplicates(),
        planner::plan(expansion::replanned(s, new)) is Ok,
        s.layout_version < u64::MAX,
        forall|i: int| 0 <= i < s.bands.len() ==> (#[trigger] s.bands[i]).members.no_duplicates(),
        forall|i: int|
            0 <= i < s.bands.len() ==> kept_in(#[trigger] s.bands[i], target(s, new).bands),
    ensures
        expansion::expansion(s, new) is Ok,
{
    let input = expansion::replanned(s, new);
    let ideal = target(s, new).bands;
    exactly_coherent_snapshots_are_accepted(s);
    lemma_twin(s.drives + new);
    layout_laws::planned_bands_tile_the_disks(input);
    let sorted = expansion::ranked(s.bands, BandKey::Index);
    lemma_ranked(s.bands, BandKey::Index);
    assert forall|k: int| 0 <= k < sorted.len() implies expansion::change(
        #[trigger] sorted[k],
        ideal,
    ) is Ok by {
        let b = sorted[k];
        assert(sorted.contains(b));
        let i = choose|i: int| 0 <= i < s.bands.len() && s.bands[i] == b;
        assert(kept_in(s.bands[i], ideal));
        lemma_level_is_kept(s, new, i);
        lemma_first_missing(b.members, ideal[b.index as int].members);
    }
    lemma_changes_granted(sorted, ideal, s.bands.len());
    lemma_existing_bands_are_the_lowest(s, new);
    the_top_is_where_the_highest_band_ends(s.bands);
    assert forall|k: int| 0 <= k < ideal.len() implies expansion::has_index(
        s.bands,
        (#[trigger] ideal[k]).index,
    ) || ideal[k].offset >= expansion::highest_end(s.bands) by {
        if k >= s.bands.len() {
            let i = choose|i: int|
                0 <= i < s.bands.len() && (#[trigger] s.bands[i]).end() == expansion::highest_end(
                    s.bands,
                );
            let j = s.bands[i].index as int;
            assert(kept_in(s.bands[i], ideal));
            assert(ideal[j].end() == s.bands[i].end());
            lemma_offsets_increase(input, j + 1, k);
            assert(ideal[j + 1].offset == ideal[j].end());
        }
    }
    lemma_creations_granted(s.bands, ideal, ideal.len());
}

/// A kept band has at least its old level: it has no fewer members.
proof fn lemma_level_is_kept(s: SnapshotView, new: Seq<(Seq<char>, u64)>, i: int)
    requires
        coherent(s),
        planner::plan(expansion::replanned(s, new)) is Ok,
        0 <= i < s.bands.len(),
        s.bands[i].members.no_duplicates(),
        kept_in(s.bands[i], target(s, new).bands),
    ensures
        raid::level_rank(s.bands[i].level) <= raid::level_rank(
            target(s, new).bands[s.bands[i].index as int].level,
        ),
{
    let input = expansion::replanned(s, new);
    let b = s.bands[i];
    let t = target(s, new).bands[b.index as int];
    layout_laws::planned_bands_are_accepted_by_the_mode(input, b.index as int);
    let sorted = expansion::ranked(s.bands, BandKey::Offset);
    lemma_ranked(s.bands, BandKey::Offset);
    assert(s.bands.contains(b));
    assert(sorted.contains(b));
    let k = choose|k: int| 0 <= k < sorted.len() && sorted[k] == b;
    assert(well_placed(s, sorted, k));
    b.members.unique_seq_to_set();
    t.members.unique_seq_to_set();
    assert(b.members.to_set().subset_of(t.members.to_set()));
    vstd::set_lib::lemma_len_subset(b.members.to_set(), t.members.to_set());
    raid::picked_level_never_drops_as_members_join(s.mode, b.members.len(), t.members.len());
}

proof fn lemma_changes_granted(sorted: Seq<BandView>, ideal: Seq<BandView>, n: nat)
    requires
        n <= sorted.len(),
        forall|k: int| 0 <= k < n ==> expansion::change(#[trigger] sorted[k], ideal) is Ok,
    ensures
        expansion::changes(sorted, ideal, n) is Ok,
    decreases n,
{
    if n > 0 {
        lemma_changes_granted(sorted, ideal, (n - 1) as nat);
        assert(expansion::change(sorted[n - 1], ideal) is Ok);
    }
}

proof fn lemma_creations_granted(bands: Seq<BandView>, ideal: Seq<BandView>, n: nat)
    requires
        n <= ideal.len(),
        forall|k: int|
            0 <= k < n ==> expansion::has_index(bands, (#[trigger] ideal[k]).index)
                || ideal[k].offset >= expansion::highest_end(bands),
    ensures
        expansion::creations(bands, ideal, n) is Ok,
    decreases n,
{
    if n > 0 {
        lemma_creations_granted(bands, ideal, (n - 1) as nat);
        assert(expansion::has_index(bands, ideal[n - 1].index) || ideal[n - 1].offset
            >= expansion::highest_end(bands));
    }
}

/// Bands that tile the disks and are kept in the ideal layout are its lowest
/// ones.
proof fn lemma_existing_bands_are_the_lowest(s: SnapshotView, new: Seq<(Seq<char>, u64)>)
    requires
        coherent(s),
        planner::plan(expansion::replanned(s, new)) is Ok,
        forall|i: int|
            0 <= i < s.bands.len() ==> kept_in(#[trigger] s.bands[i], target(s, new).bands),
    ensures
        forall|i: int| 0 <= i < s.bands.len() ==> (#[trigger] s.bands[i]).index < s.bands.len(),
        forall|k: int|
            0 <= k < s.bands.len() ==> expansion::has_index(
                s.bands,
                (#[trigger] target(s, new).bands[k]).index,
            ),
{
    let ideal = target(s, new).bands;
    let sorted = expansion::ranked(s.bands, BandKey::Offset);
    lemma_ranked(s.bands, BandKey::Offset);
    layout_laws::planned_bands_tile_the_disks(expansion::replanned(s, new));
    assert forall|k: int| 0 <= k < sorted.len() implies (#[trigger] sorted[k]).index == k && k
        < ideal.len() by {
        lemma_tile_index(s, new, k);
    }
    assert forall|i: int| 0 <= i < s.bands.len() implies (#[trigger] s.bands[i]).index
        < s.bands.len() by {
        let b = s.bands[i];
        assert(s.bands.contains(b));
        assert(sorted.contains(b));
        let k = choose|k: int| 0 <= k < sorted.len() && sorted[k] == b;
        assert(sorted[k].index == k);
    }
    assert forall|k: int| 0 <= k < s.bands.len() implies expansion::has_index(
        s.bands,
        (#[trigger] ideal[k]).index,
    ) by {
        let b = sorted[k];
        assert(sorted.contains(b));
        let i = choose|i: int| 0 <= i < s.bands.len() && s.bands[i] == b;
        assert(s.bands[i].index == ideal[k].index);
    }
}

proof fn lemma_tile_index(s: SnapshotView, new: Seq<(Seq<char>, u64)>, k: int)
    requires
        coherent(s),
        planner::plan(expansion::replanned(s, new)) is Ok,
        forall|i: int|
            0 <= i < s.bands.len() ==> kept_in(#[trigger] s.bands[i], target(s, new).bands),
        0 <= k < s.bands.len(),
    ensures
        expansion::ranked(s.bands, BandKey::Offset)[k].index == k,
        k < target(s, new).bands.len(),
    decreases k,
{
    let input = expansion::replanned(s, new);
    let ideal = target(s, new).bands;
    let sorted = expansion::ranked(s.bands, BandKey::Offset);
    lemma_ranked(s.bands, BandKey::Offset);
    layout_laws::planned_bands_tile_the_disks(input);
    assert(well_placed(s, sorted, k));
    let b = sorted[k];
    let at = b.index as int;
    lemma_kept_when_sorted(s, ideal, k);
    if k == 0 {
        if at > 0 {
            lemma_offsets_rise(input, 0, at);
        }
    } else {
        lemma_tile_index(s, new, k - 1);
        lemma_kept_when_sorted(s, ideal, k - 1);
        let below = ideal[k - 1];
        assert(below.end() == sorted[k - 1].end());
        assert(ideal[at].offset == below.end());
        layout_laws::planned_bands_are_accepted_by_the_mode(input, k - 1);
        if at < k - 1 {
            lemma_offsets_rise(input, at, k - 1);
        } else if at > k {
            assert(ideal[k].offset == below.end());
            lemma_offsets_rise(input, k, at);
        }
    }
}

proof fn lemma_kept_when_sorted(s: SnapshotView, ideal: Seq<BandView>, k: int)
    requires
        0 <= k < s.bands.len(),
        forall|i: int| 0 <= i < s.bands.len() ==> kept_in(#[trigger] s.bands[i], ideal),
    ensures
        kept_in(expansion::ranked(s.bands, BandKey::Offset)[k], ideal),
{
    let sorted = expansion::ranked(s.bands, BandKey::Offset);
    lemma_ranked(s.bands, BandKey::Offset);
    assert(sorted.contains(sorted[k]));
    let i = choose|i: int| 0 <= i < s.bands.len() && s.bands[i] == sorted[k];
    assert(kept_in(s.bands[i], ideal));
}

proof fn lemma_offsets_rise(input: InputView, i: int, j: int)
    requires
        planner::plan(input) is Ok,
        0 <= i < j < planner::plan(input)->Ok_0.bands.len(),
    ensures
        planner::plan(input)->Ok_0.bands[i].offset < planner::plan(input)->Ok_0.bands[j].offset,
{
    let bands = planner::plan(input)->Ok_0.bands;
    layout_laws::planned_bands_tile_the_disks(input);
    layout_laws::planned_bands_are_accepted_by_the_mode(input, j - 1);
    lemma_offsets_increase(input, i, j - 1);
    assert(bands[j].offset == bands[j - 1].end());
    assert(bands[j - 1].end() == bands[j - 1].offset + bands[j - 1].size);
}

/// The bands that a plan creates are exactly the ideal bands whose index is
/// not in use yet, and each of them starts at or above the end of every
/// existing band.
pub proof fn new_bands_sit_above_the_existing_ones(
    s: SnapshotView,
    new: Seq<(Seq<char>, u64)>,
    t: BandView,
)
    requires
        expansion::expansion(s, new) is Ok,
    ensures
        ({
            let steps = expansion::expansion(s, new)->Ok_0.steps;
            let made = StepView::CreateBand { band: t };
            &&& steps.contains(made) <==> target(s, new).bands.contains(t)
                && !expansion::has_index(s.bands, t.index)
            &&& steps.contains(made) ==> t.offset >= expansion::highest_end(s.bands)
            &&& steps.contains(made) ==> forall|i: int|
                0 <= i < s.bands.len() ==> (#[trigger] s.bands[i]).end() <= t.offset
                    && s.bands[i].index != t.index
        }),
{
    the_top_is_where_the_highest_band_ends(s.bands);
    let ideal = target(s, new);
    let sorted = expansion::ranked(s.bands, BandKey::Index);
    lemma_ranked(s.bands, BandKey::Index);
    let grown = expansion::changes(sorted, ideal.bands, s.bands.len())->Ok_0;
    let made = expansion::creations(s.bands, ideal.bands, ideal.bands.len())->Ok_0;
    let rest = expansion::marks(ideal.unusable, expansion::stacked(ideal.bands) as u64);
    let steps = expansion::expansion(s, new)->Ok_0.steps;
    let step = StepView::CreateBand { band: t };
    assert(steps == grown + made + rest);
    lemma_changes_kinds(sorted, ideal.bands, s.bands.len());
    lemma_creations(s.bands, ideal.bands, ideal.bands.len());
    if steps.contains(step) {
        let i = choose|i: int| 0 <= i < steps.len() && steps[i] == step;
        if i < grown.len() {
            assert(grown[i] == step);
            let k = choose|k: int|
                0 <= k < s.bands.len() && expansion::change(#[trigger] sorted[k], ideal.bands)
                    == Ok::<Option<StepView>, Seq<char>>(Some(grown[i]));
            assert(false);
        } else if i < grown.len() + made.len() {
            assert(made[i - grown.len()] == step);
        } else {
            assert(rest[i - grown.len() - made.len()] == step);
        }
    }
    if ideal.bands.contains(t) && !expansion::has_index(s.bands, t.index) {
        let k = choose|k: int| 0 <= k < ideal.bands.len() && ideal.bands[k] == t;
        assert(ideal.bands[k].index == t.index);
        assert(made.contains(step));
        let i = choose|i: int| 0 <= i < made.len() && made[i] == step;
        assert(steps[grown.len() + i] == step);
    }
}

/// The layout version advances by one exactly when a step changes the layout;
/// a plan that only records unused capacity keeps it.
pub proof fn version_advances_only_with_the_layout(s: SnapshotView, new: Seq<(Seq<char>, u64)>)
    requires
        expansion::expansion(s, new) is Ok,
    ensures
        ({
            let p = expansion::expansion(s, new)->Ok_0;
            p.target_layout_version == s.layout_version + (if expansion::structural(p.steps) {
                1int
            } else {
                0int
            })
        }),
{
}

/// Only a coherent snapshot and new disks with fresh identifiers are ever
/// planned for.
pub proof fn expansion_refuses_incoherent_input(s: SnapshotView, new: Seq<(Seq<char>, u64)>)
    requires
        !coherent(s) || !planner::names(s.drives + new).no_duplicates(),
    ensures
        expansion::expansion(s, new) matches Err(PlanFault::InvalidSnapshot(_)),
{
    exactly_coherent_snapshots_are_accepted(s);
    lemma_twin(s.drives + new);
}

// ---------------------------------------------------------------------------
// Adding nothing
// ---------------------------------------------------------------------------

/// The snapshot of a layout as the initial planner gave it out.
pub open spec fn snapshot_of(input: InputView, layout_version: u64) -> SnapshotView {
    SnapshotView {
        drives: input.drives,
        bands: planner::plan(input)->Ok_0.bands,
        mode: input.mode,
        layout_version,
        band_alignment: input.band_alignment,
        reserved_head: input.reserved_head,
        reserved_tail: input.reserved_tail,
    }
}

pub proof fn lemma_size_of(drives: Seq<(Seq<char>, u64)>, k: int)
    requires
        planner::names(drives).no_duplicates(),
        0 <= k < drives.len(),
    ensures
        expansion::size_of(drives, drives[k].0) == Some(drives[k].1),
    decreases drives.len(),
{
    let all = planner::names(drives);
    let last = drives.len() - 1;
    assert(all[k] == drives[k].0);
    assert(all[last] == drives[last].0);
    if k < last {
        let head = drives.drop_last();
        assert forall|i: int, j: int|
            0 <= i < head.len() && 0 <= j < head.len() && i != j implies planner::names(head)[i]
            != planner::names(head)[j] by {
            assert(all[i] == planner::names(head)[i]);
            assert(all[j] == planner::names(head)[j]);
        }
        lemma_size_of(head, k);
    }
}

/// The layout that the initial planner gives out is a coherent one.
pub proof fn planned_layouts_are_coherent(input: InputView, layout_version: u64)
    requires
        planner::plan(input) is Ok,
        planner::names(input.drives).no_duplicates(),
    ensures
        coherent(snapshot_of(input, layout_version)),
{
    let s = snapshot_of(input, layout_version);
    let bands = s.bands;
    layout_laws::planned_bands_tile_the_disks(input);
    assert forall|i: int, j: int| 0 <= i < j < bands.len() implies (#[trigger] bands[i]).offset <= (
    #[trigger] bands[j]).offset by {
        lemma_offsets_increase(input, i, j);
    }
    lemma_ranked_in_order(bands, BandKey::Offset);
    assert forall|i: int| 0 <= i < bands.len() implies raid::mode_level(
        s.mode,
        (#[trigger] bands[i]).members.len(),
    ) == Some(bands[i].level) && members_fit(s, bands[i]) by {
        layout_laws::planned_bands_are_accepted_by_the_mode(input, i);
        let b = bands[i];
        assert forall|m: int| 0 <= m < b.members.len() implies (expansion::size_of(
            s.drives,
            #[trigger] b.members[m],
        ) matches Some(size) && b.end() <= expansion::between_reserves(s, size)) by {
            layout_laws::planned_members_are_the_disks_that_reach(input, i, b.members[m]);
            assert(b.members.contains(b.members[m]));
            let k = choose|k: int|
                0 <= k < input.drives.len() && (#[trigger] input.drives[k]).0 == b.members[m]
                    && layout_laws::reach(input, input.drives[k]) >= b.end();
            lemma_size_of(input.drives, k);
            slices::lemma_usable_len_at_most_size(
                input.drives[k].1,
                input.reserved_head,
                input.reserved_tail,
                input.band_alignment,
            );
        }
    }
}

proof fn lemma_offsets_increase(input: InputView, i: int, j: int)
    requires
        planner::plan(input) is Ok,
        0 <= i <= j < planner::plan(input)->Ok_0.bands.len(),
    ensures
        planner::plan(input)->Ok_0.bands[i].offset <= planner::plan(input)->Ok_0.bands[j].offset,
    decreases j - i,
{
    layout_laws::planned_bands_tile_the_disks(input);
    let bands = planner::plan(input)->Ok_0.bands;
    if i < j {
        lemma_offsets_increase(input, i, j - 1);
        assert(bands[j].offset == bands[j - 1].end());
        assert(bands[j - 1].end() == bands[j - 1].offset + bands[j - 1].size);
    }
}

proof fn lemma_no_changes(bands: Seq<BandView>, n: nat)
    requires
        n <= bands.len(),
        forall|i: int| 0 <= i < bands.len() ==> (#[trigger] bands[i]).index == i,
    ensures
        expansion::changes(bands, bands, n) == Ok::<Seq<StepView>, Seq<char>>(Seq::empty()),
        expansion::creations(bands, bands, n) == Ok::<Seq<StepView>, Seq<char>>(Seq::empty()),
    decreases n,
{
    if n > 0 {
        lemma_no_changes(bands, (n - 1) as nat);
        let b = bands[n - 1];
        assert(b.index == n - 1);
        lemma_first_missing(b.members, b.members);
        let add = expansion::added(b.members, b.members);
        if add.len() > 0 {
            assert(add.contains(add[0]));
            lemma_added(b.members, b.members, add[0]);
        }
        assert(expansion::has_index(bands, b.index));
    }
}

/// Adding nothing to a planned layout changes nothing: the plan only records
/// the capacity that was unused before, and the layout version stays.
pub proof fn adding_nothing_changes_nothing(input: InputView, layout_version: u64)
    requires
        planner::plan(input) is Ok,
        planner::names(input.drives).no_duplicates(),
    ensures
        ({
            let p = planner::plan(input)->Ok_0;
            expansion::expansion(snapshot_of(input, layout_version), Seq::empty()) == Ok::<
                ExpansionView,
                PlanFault,
            >(
                ExpansionView {
                    steps: expansion::marks(p.unusable, expansion::stacked(p.bands) as u64),
                    target_layout_version: layout_version,
                },
            )
        }),
{
    let s = snapshot_of(input, layout_version);
    let p = planner::plan(input)->Ok_0;
    planned_layouts_are_coherent(input, layout_version);
    exactly_coherent_snapshots_are_accepted(s);
    assert(s.drives + Seq::<(Seq<char>, u64)>::empty() =~= s.drives);
    lemma_twin(s.drives);
    assert(expansion::replanned(s, Seq::empty()) =~= input);
    layout_laws::planned_bands_tile_the_disks(input);
    assert forall|i: int, j: int| 0 <= i < j < p.bands.len() implies expansion::key_of(
        BandKey::Index,
        #[trigger] p.bands[i],
    ) <= expansion::key_of(BandKey::Index, #[trigger] p.bands[j]) by {
        assert(p.bands[i].index == i && p.bands[j].index == j);
    }
    lemma_ranked_in_order(p.bands, BandKey::Index);
    lemma_no_changes(p.bands, p.bands.len());
    let rest = expansion::marks(p.unusable, expansion::stacked(p.bands) as u64);
    assert(Seq::<StepView>::empty() + Seq::<StepView>::empty() + rest =~= rest);
    assert(!expansion::structural(rest));
}

} // verus!
