//! What an expansion does, step by step, and when it is refused.

use vstd::prelude::*;
use crate::band::BandView;
use crate::expansion;
use crate::expansion::{BandKey, SnapshotView, StepView, UnusableReason};
use crate::expansion_laws;
use crate::layout_laws;
use crate::planner;

verus! {

// ---------------------------------------------------------------------------
// The steps
// ---------------------------------------------------------------------------

/// The index of the band that a step changes.
pub open spec fn changed_band(step: StepView) -> Option<u8> {
    match step {
        StepView::LevelUp { band_index, .. } => Some(band_index),
        StepView::GrowBand { band_index, .. } => Some(band_index),
        _ => None,
    }
}

/// The disks of `t` that `b` does not have, in the order of `t`.
pub open spec fn joining(b: BandView, t: BandView) -> Seq<Seq<char>> {
    t.members.filter(|m: Seq<char>| !b.members.contains(m))
}

proof fn lemma_step_of(sorted: Seq<BandView>, ideal: Seq<BandView>, n: nat, k: int)
    requires
        n <= sorted.len(),
        0 <= k < n,
        expansion::changes(sorted, ideal, n) is Ok,
    ensures
        expansion::change(sorted[k], ideal) matches Ok(Some(step))
            ==> expansion::changes(sorted, ideal, n)->Ok_0.contains(step),
    decreases n,
{
    let m = (n - 1) as nat;
    let before = expansion::changes(sorted, ideal, m)->Ok_0;
    let now = expansion::changes(sorted, ideal, n)->Ok_0;
    match expansion::change(sorted[k], ideal) {
        Ok(Some(step)) => {
            if k == n - 1 {
                assert(now[now.len() - 1] == step);
            } else {
                lemma_step_of(sorted, ideal, m, k);
                let i = choose|i: int| 0 <= i < before.len() && before[i] == step;
                assert(now[i] == step);
            }
        },
        _ => {},
    }
}

/// Each existing band gets the step that it needs: it is promoted, with its old
/// and its new level and the disks that join, where the level differs in the
/// ideal layout; it grows by the disks that join where only those differ; and
/// no step touches it where nothing does.
pub proof fn each_band_gets_the_step_it_needs(
    s: SnapshotView,
    new: Seq<(Seq<char>, u64)>,
    k: int,
)
    requires
        expansion::expansion(s, new) is Ok,
        0 <= k < s.bands.len(),
    ensures
        ({
            let steps = expansion::expansion(s, new)->Ok_0.steps;
            let b = s.bands[k];
            let t = expansion_laws::target(s, new).bands[b.index as int];
            &&& b.level != t.level ==> steps.contains(
                StepView::LevelUp {
                    band_index: b.index,
                    from: b.level,
                    to: t.level,
                    add_members: joining(b, t),
                },
            )
            &&& b.level == t.level && joining(b, t).len() > 0 ==> steps.contains(
                StepView::GrowBand { band_index: b.index, add_members: joining(b, t) },
            )
            &&& b.level == t.level && joining(b, t).len() == 0 ==> forall|i: int|
                0 <= i < steps.len() ==> changed_band(#[trigger] steps[i]) != Some(b.index)
        }),
{
    let b = s.bands[k];
    let ideal = expansion_laws::target(s, new);
    let sorted = expansion::ranked(s.bands, BandKey::Index);
    expansion_laws::lemma_ranked(s.bands, BandKey::Index);
    expansion_laws::lemma_twin_index(s.bands);
    expansion_laws::lemma_ranked_distinct(s.bands, BandKey::Index);
    assert(s.bands.contains(b));
    assert(sorted.contains(b));
    let j = choose|j: int| 0 <= j < sorted.len() && sorted[j] == b;
    let grown = expansion::changes(sorted, ideal.bands, s.bands.len())->Ok_0;
    let made = expansion::creations(s.bands, ideal.bands, ideal.bands.len())->Ok_0;
    let rest = expansion::marks(ideal.unusable, expansion::stacked(ideal.bands) as u64);
    let steps = expansion::expansion(s, new)->Ok_0.steps;
    let t = ideal.bands[b.index as int];
    assert(steps == grown + made + rest);
    expansion_laws::expansion_only_grows_existing_bands(s, new, k);
    lemma_change_granted(sorted, ideal.bands, s.bands.len(), j);
    assert(expansion::added(b.members, t.members) == joining(b, t));
    lemma_step_of(sorted, ideal.bands, s.bands.len(), j);
    expansion_laws::lemma_changes_kinds(sorted, ideal.bands, s.bands.len());
    expansion_laws::lemma_creations(s.bands, ideal.bands, ideal.bands.len());
    match expansion::change(b, ideal.bands) {
        Ok(Some(step)) => {
            let i = choose|i: int| 0 <= i < grown.len() && grown[i] == step;
            assert(steps[i] == step);
        },
        _ => {},
    }
    if b.level == t.level && joining(b, t).len() == 0 {
        assert forall|i: int| 0 <= i < steps.len() implies changed_band(#[trigger] steps[i]) != Some(
            b.index,
        ) by {
            if i < grown.len() {
                assert(steps[i] == grown[i]);
                let q = choose|q: int|
                    0 <= q < s.bands.len() && expansion::change(#[trigger] sorted[q], ideal.bands)
                        == Ok::<Option<StepView>, Seq<char>>(Some(grown[i]));
                if q != j {
                    assert(sorted[q].index != sorted[j].index);
                }
            } else if i < grown.len() + made.len() {
                assert(steps[i] == made[i - grown.len()]);
            } else {
                assert(steps[i] == rest[i - grown.len() - made.len()]);
            }
        }
    }
}

proof fn lemma_change_granted(sorted: Seq<BandView>, ideal: Seq<BandView>, n: nat, k: int)
    requires
        0 <= k < n <= sorted.len(),
        expansion::changes(sorted, ideal, n) is Ok,
    ensures
        expansion::change(sorted[k], ideal) is Ok,
    decreases n,
{
    if k < n - 1 {
        lemma_change_granted(sorted, ideal, (n - 1) as nat, k);
    }
}

/// Steps change existing bands only, and each of those at most once.
pub proof fn steps_change_existing_bands_once(
    s: SnapshotView,
    new: Seq<(Seq<char>, u64)>,
    i: int,
)
    requires
        expansion::expansion(s, new) is Ok,
        0 <= i < expansion::expansion(s, new)->Ok_0.steps.len(),
        changed_band(expansion::expansion(s, new)->Ok_0.steps[i]) is Some,
    ensures
        expansion::has_index(s.bands, changed_band(expansion::expansion(s, new)->Ok_0.steps[i])->0),
        forall|j: int|
            0 <= j < i ==> changed_band(#[trigger] expansion::expansion(s, new)->Ok_0.steps[j])
                != changed_band(expansion::expansion(s, new)->Ok_0.steps[i]),
{
    let ideal = expansion_laws::target(s, new);
    let sorted = expansion::ranked(s.bands, BandKey::Index);
    expansion_laws::lemma_ranked(s.bands, BandKey::Index);
    expansion_laws::lemma_twin_index(s.bands);
    expansion_laws::lemma_ranked_distinct(s.bands, BandKey::Index);
    let grown = expansion::changes(sorted, ideal.bands, s.bands.len())->Ok_0;
    let made = expansion::creations(s.bands, ideal.bands, ideal.bands.len())->Ok_0;
    let rest = expansion::marks(ideal.unusable, expansion::stacked(ideal.bands) as u64);
    let steps = expansion::expansion(s, new)->Ok_0.steps;
    assert(steps == grown + made + rest);
    expansion_laws::lemma_changes_kinds(sorted, ideal.bands, s.bands.len());
    expansion_laws::lemma_creations(s.bands, ideal.bands, ideal.bands.len());
    if i < grown.len() {
        assert(steps[i] == grown[i]);
        let k = choose|k: int|
            0 <= k < s.bands.len() && expansion::change(#[trigger] sorted[k], ideal.bands) == Ok::<
                Option<StepView>,
                Seq<char>,
            >(Some(grown[i]));
        assert(sorted.contains(sorted[k]));
        let m = choose|m: int| 0 <= m < s.bands.len() && s.bands[m] == sorted[k];
        assert(s.bands[m].index == sorted[k].index);
        lemma_changes_once(sorted, ideal.bands, s.bands.len());
        assert forall|j: int| 0 <= j < i implies changed_band(#[trigger] steps[j]) != changed_band(
            steps[i],
        ) by {
            assert(steps[j] == grown[j]);
        }
    } else if i < grown.len() + made.len() {
        assert(steps[i] == made[i - grown.len()]);
    } else {
        assert(steps[i] == rest[i - grown.len() - made.len()]);
    }
}

proof fn lemma_changes_once(sorted: Seq<BandView>, ideal: Seq<BandView>, n: nat)
    requires
        n <= sorted.len(),
        expansion::changes(sorted, ideal, n) is Ok,
        forall|i: int, j: int|
            0 <= i < sorted.len() && 0 <= j < sorted.len() && i != j ==> (
            #[trigger] sorted[i]).index != (#[trigger] sorted[j]).index,
    ensures
        ({
            let out = expansion::changes(sorted, ideal, n)->Ok_0;
            forall|i: int, j: int|
                0 <= i < j < out.len() ==> changed_band(#[trigger] out[i]) != changed_band(
                    #[trigger] out[j],
                )
        }),
    decreases n,
{
    if n > 0 {
        let m = (n - 1) as nat;
        lemma_changes_once(sorted, ideal, m);
        expansion_laws::lemma_changes_kinds(sorted, ideal, m);
        let before = expansion::changes(sorted, ideal, m)->Ok_0;
        let out = expansion::changes(sorted, ideal, n)->Ok_0;
        assert forall|i: int, j: int| 0 <= i < j < out.len() implies changed_band(#[trigger] out[i])
            != changed_band(#[trigger] out[j]) by {
            assert(out[i] == before[i]);
            let k = choose|k: int|
                0 <= k < m && expansion::change(#[trigger] sorted[k], ideal) == Ok::<
                    Option<StepView>,
                    Seq<char>,
                >(Some(before[i]));
            if j < before.len() {
                assert(out[j] == before[j]);
            } else {
                assert(sorted[k].index != sorted[n - 1].index);
            }
        }
    }
}

/// Capacity is marked as unusable exactly where the ideal layout leaves it so:
/// of each such disk as much as the layout reports, from where its bands end.
pub proof fn unusable_capacity_is_marked_above_the_bands(
    s: SnapshotView,
    new: Seq<(Seq<char>, u64)>,
    disk: Seq<char>,
    offset: u64,
    size: u64,
)
    requires
        expansion::expansion(s, new) is Ok,
    ensures
        ({
            let ideal = expansion_laws::target(s, new);
            expansion::expansion(s, new)->Ok_0.steps.contains(
                StepView::MarkUnusable {
                    disk,
                    offset,
                    size,
                    reason: UnusableReason::InsufficientRedundancy,
                },
            ) <==> ideal.unusable.contains((disk, size)) && offset == ideal.bands.last().end()
        }),
{
    let ideal = expansion_laws::target(s, new);
    let input = expansion::replanned(s, new);
    layout_laws::planned_bands_tile_the_disks(input);
    expansion::lemma_stack_of_tiles(ideal.bands, ideal.bands.len() as int);
    assert(ideal.bands.take(ideal.bands.len() as int) =~= ideal.bands);
    let sorted = expansion::ranked(s.bands, BandKey::Index);
    expansion_laws::lemma_ranked(s.bands, BandKey::Index);
    let grown = expansion::changes(sorted, ideal.bands, s.bands.len())->Ok_0;
    let made = expansion::creations(s.bands, ideal.bands, ideal.bands.len())->Ok_0;
    let rest = expansion::marks(ideal.unusable, expansion::stacked(ideal.bands) as u64);
    let steps = expansion::expansion(s, new)->Ok_0.steps;
    let mark = StepView::MarkUnusable {
        disk,
        offset,
        size,
        reason: UnusableReason::InsufficientRedundancy,
    };
    assert(steps == grown + made + rest);
    expansion_laws::lemma_changes_kinds(sorted, ideal.bands, s.bands.len());
    expansion_laws::lemma_creations(s.bands, ideal.bands, ideal.bands.len());
    if steps.contains(mark) {
        let i = choose|i: int| 0 <= i < steps.len() && steps[i] == mark;
        if i < grown.len() {
            assert(grown[i] == mark);
            let k = choose|k: int|
                0 <= k < s.bands.len() && expansion::change(#[trigger] sorted[k], ideal.bands)
                    == Ok::<Option<StepView>, Seq<char>>(Some(grown[i]));
            assert(false);
        } else if i < grown.len() + made.len() {
            assert(made[i - grown.len()] == mark);
        } else {
            let k = i - grown.len() - made.len();
            assert(rest[k] == mark);
            assert(ideal.unusable[k] == (disk, size));
        }
    }
    if ideal.unusable.contains((disk, size)) && offset == ideal.bands.last().end() {
        let k = choose|k: int| 0 <= k < ideal.unusable.len() && ideal.unusable[k] == (disk, size);
        assert(rest[k] == mark);
        assert(steps[grown.len() + made.len() + k] == mark);
    }
}

/// The layout version stays where every step only marks capacity, and is one
/// higher otherwise.
pub proof fn the_version_counts_changes_of_the_layout(
    s: SnapshotView,
    new: Seq<(Seq<char>, u64)>,
)
    requires
        expansion::expansion(s, new) is Ok,
    ensures
        ({
            let p = expansion::expansion(s, new)->Ok_0;
            let marks_only = forall|i: int|
                0 <= i < p.steps.len() ==> (#[trigger] p.steps[i]) is MarkUnusable;
            &&& marks_only ==> p.target_layout_version == s.layout_version
            &&& !marks_only ==> p.target_layout_version == s.layout_version + 1
        }),
{
}

/// The ideal layout is that of the old disks followed by the new ones, in the
/// mode and on the grid of the snapshot.
pub proof fn expansions_keep_the_mode_and_the_grid(s: SnapshotView, new: Seq<(Seq<char>, u64)>)
    ensures
        ({
            let q = expansion::replanned(s, new);
            &&& q.drives == s.drives + new
            &&& q.mode == s.mode
            &&& q.band_alignment == s.band_alignment
            &&& q.reserved_head == s.reserved_head
            &&& q.reserved_tail == s.reserved_tail
        }),
{
}

// ---------------------------------------------------------------------------
// Refusals
// ---------------------------------------------------------------------------

/// A plan that would move, shrink or rob an existing band is refused as unsafe,
/// and only such a plan is.
pub proof fn exactly_unsafe_expansions_are_refused(s: SnapshotView, new: Seq<(Seq<char>, u64)>)
    requires
        expansion_laws::coherent(s),
        planner::names(s.drives + new).no_duplicates(),
        planner::plan(expansion::replanned(s, new)) is Ok,
        s.layout_version < u64::MAX,
        forall|i: int| 0 <= i < s.bands.len() ==> (#[trigger] s.bands[i]).members.no_duplicates(),
    ensures
        expansion::expansion(s, new) is Ok <==> forall|i: int|
            0 <= i < s.bands.len() ==> expansion_laws::kept_in(
                #[trigger] s.bands[i],
                expansion_laws::target(s, new).bands,
            ),
        expansion::expansion(s, new) is Err ==> expansion::expansion(s, new)->Err_0
            is UnsafeExpansion,
{
    let ideal = expansion_laws::target(s, new).bands;
    expansion_laws::exactly_coherent_snapshots_are_accepted(s);
    expansion_laws::lemma_twin(s.drives + new);
    if forall|i: int|
        0 <= i < s.bands.len() ==> expansion_laws::kept_in(#[trigger] s.bands[i], ideal) {
        expansion_laws::safe_expansions_are_granted(s, new);
    }
    if expansion::expansion(s, new) is Ok {
        assert forall|i: int| 0 <= i < s.bands.len() implies expansion_laws::kept_in(
            #[trigger] s.bands[i],
            ideal,
        ) by {
            expansion_laws::expansion_only_grows_existing_bands(s, new, i);
        }
    }
}

/// What cannot be laid out is refused for the reason that the planner gives.
pub proof fn layouts_that_fail_refuse_the_expansion(s: SnapshotView, new: Seq<(Seq<char>, u64)>)
    requires
        expansion_laws::coherent(s),
        planner::names(s.drives + new).no_duplicates(),
        planner::plan(expansion::replanned(s, new)) is Err,
    ensures
        expansion::expansion(s, new) is Err,
        expansion::expansion(s, new)->Err_0 == planner::plan(expansion::replanned(s, new))->Err_0,
{
    expansion_laws::exactly_coherent_snapshots_are_accepted(s);
    expansion_laws::lemma_twin(s.drives + new);
}

// ---------------------------------------------------------------------------
// What the checks of a snapshot go by
// ---------------------------------------------------------------------------

/// Bands sorted by a key stand in its order.
pub proof fn sorted_bands_stand_in_order(list: Seq<BandView>, i: int, j: int)
    requires
        0 <= i <= j < list.len(),
    ensures
        expansion::ranked(list, BandKey::Offset)[i].offset <= expansion::ranked(
            list,
            BandKey::Offset,
        )[j].offset,
        expansion::ranked(list, BandKey::Index)[i].index <= expansion::ranked(
            list,
            BandKey::Index,
        )[j].index,
{
    lemma_ranked_rises(list, BandKey::Offset);
    lemma_ranked_rises(list, BandKey::Index);
    expansion_laws::lemma_ranked(list, BandKey::Offset);
    expansion_laws::lemma_ranked(list, BandKey::Index);
}

/// Whether the keys of a list never fall.
spec fn rises(list: Seq<BandView>, key: BandKey) -> bool {
    forall|i: int, j: int|
        0 <= i <= j < list.len() ==> expansion::key_of(key, #[trigger] list[i])
            <= expansion::key_of(key, #[trigger] list[j])
}

proof fn lemma_ranked_in_rises(list: Seq<BandView>, key: BandKey, b: BandView)
    requires
        rises(list, key),
    ensures
        rises(expansion::ranked_in(list, key, b), key),
        expansion::ranked_in(list, key, b).len() == list.len() + 1,
        list.len() > 0 && expansion::key_of(key, b) < expansion::key_of(key, list.last())
            ==> expansion::ranked_in(list, key, b).last() == list.last(),
        !(list.len() > 0 && expansion::key_of(key, b) < expansion::key_of(key, list.last()))
            ==> expansion::ranked_in(list, key, b).last() == b,
    decreases list.len(),
{
    let out = expansion::ranked_in(list, key, b);
    if list.len() > 0 && expansion::key_of(key, b) < expansion::key_of(key, list.last()) {
        let head = list.drop_last();
        assert(rises(head, key)) by {
            assert forall|i: int, j: int| 0 <= i <= j < head.len() implies expansion::key_of(
                key,
                #[trigger] head[i],
            ) <= expansion::key_of(key, #[trigger] head[j]) by {
                assert(head[i] == list[i] && head[j] == list[j]);
            }
        }
        lemma_ranked_in_rises(head, key, b);
        let inner = expansion::ranked_in(head, key, b);
        assert forall|i: int, j: int| 0 <= i <= j < out.len() implies expansion::key_of(
            key,
            #[trigger] out[i],
        ) <= expansion::key_of(key, #[trigger] out[j]) by {
            if i < inner.len() {
                assert(out[i] == inner[i]);
                assert(inner[inner.len() - 1] == inner.last());
                assert(expansion::key_of(key, inner[i]) <= expansion::key_of(
                    key,
                    inner[inner.len() - 1],
                ));
                if head.len() > 0 {
                    assert(expansion::key_of(key, list[list.len() - 2]) <= expansion::key_of(
                        key,
                        list[list.len() - 1],
                    ));
                }
                if j < inner.len() {
                    assert(out[j] == inner[j]);
                }
            }
        }
    } else {
        assert forall|i: int, j: int| 0 <= i <= j < out.len() implies expansion::key_of(
            key,
            #[trigger] out[i],
        ) <= expansion::key_of(key, #[trigger] out[j]) by {
            if i < list.len() {
                assert(out[i] == list[i]);
                assert(expansion::key_of(key, list[i]) <= expansion::key_of(
                    key,
                    list[list.len() - 1],
                ));
                if j < list.len() {
                    assert(out[j] == list[j]);
                }
            }
        }
    }
}

proof fn lemma_ranked_rises(list: Seq<BandView>, key: BandKey)
    ensures
        rises(expansion::ranked(list, key), key),
    decreases list.len(),
{
    if list.len() > 0 {
        lemma_ranked_rises(list.drop_last(), key);
        lemma_ranked_in_rises(expansion::ranked(list.drop_last(), key), key, list.last());
    }
}

/// A member is held against the listed size of its own disk, less both
/// reserves; one that is not listed has none.
pub proof fn members_are_held_against_their_own_disks(
    s: SnapshotView,
    id: Seq<char>,
    size: u64,
)
    requires
        planner::names(s.drives).no_duplicates(),
    ensures
        expansion::size_of(s.drives, id) == Some(size) <==> s.drives.contains((id, size)),
        expansion::size_of(s.drives, id) is None <==> !planner::names(s.drives).contains(id),
        expansion::between_reserves(s, size) == (if size - s.reserved_head - s.reserved_tail > 0 {
            size - s.reserved_head - s.reserved_tail
        } else {
            0
        }),
{
    let all = planner::names(s.drives);
    lemma_size_found(s.drives, id);
    if s.drives.contains((id, size)) {
        let k = choose|k: int| 0 <= k < s.drives.len() && s.drives[k] == (id, size);
        expansion_laws::lemma_size_of(s.drives, k);
    }
    if all.contains(id) {
        let k = choose|k: int| 0 <= k < all.len() && all[k] == id;
        assert(s.drives[k].0 == id);
        expansion_laws::lemma_size_of(s.drives, k);
    }
}

proof fn lemma_size_found(drives: Seq<(Seq<char>, u64)>, id: Seq<char>)
    ensures
        expansion::size_of(drives, id) matches Some(size) ==> drives.contains((id, size))
            && planner::names(drives).contains(id),
    decreases drives.len(),
{
    if drives.len() > 0 {
        let head = drives.drop_last();
        lemma_size_found(head, id);
        match expansion::size_of(drives, id) {
            Some(size) => {
                if drives.last().0 == id {
                    assert(drives[drives.len() - 1] == (id, size));
                    assert(planner::names(drives)[drives.len() - 1] == id);
                } else {
                    let k = choose|k: int| 0 <= k < head.len() && head[k] == (id, size);
                    assert(drives[k] == (id, size));
                    assert(planner::names(drives)[k] == id);
                }
            },
            None => {},
        }
    }
}

} // verus!
