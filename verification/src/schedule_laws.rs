//! What holds of every installation of the background schedule.

use vstd::prelude::*;
use crate::schedule;
use crate::schedule::{InstallView, ReplyView, TaskView};
use crate::text;

verus! {

/// Whether `replies` can be the replies to the tasks of an installation, one
/// after the other.
pub open spec fn is_run(s: InstallView, replies: Seq<ReplyView>) -> bool
    decreases replies.len(),
{
    replies.len() == 0 || (s.agenda.len() > 0 && schedule::fits(s.agenda[0], replies[0]) && (
    schedule::step(s, replies[0]) matches Ok(n) ==> is_run(
        n,
        replies.subrange(1, replies.len() as int),
    )))
}

/// How an installation stands after `replies`.
pub open spec fn run(s: InstallView, replies: Seq<ReplyView>) -> Result<InstallView, Seq<char>>
    decreases replies.len(),
{
    if replies.len() == 0 {
        Ok(s)
    } else {
        match schedule::step(s, replies[0]) {
            Ok(n) => run(n, replies.subrange(1, replies.len() as int)),
            Err(why) => Err(why),
        }
    }
}

/// The tasks that `replies` reply to.
pub open spec fn tasks(s: InstallView, replies: Seq<ReplyView>) -> Seq<TaskView>
    decreases replies.len(),
{
    if replies.len() == 0 {
        Seq::empty()
    } else {
        seq![s.agenda[0]] + match schedule::step(s, replies[0]) {
            Ok(n) => tasks(n, replies.subrange(1, replies.len() as int)),
            Err(_) => Seq::empty(),
        }
    }
}

/// Whether an installation went through to its end.
pub open spec fn completes(s: InstallView, replies: Seq<ReplyView>) -> bool {
    is_run(s, replies) && (run(s, replies) matches Ok(f) && f.agenda.len() == 0)
}

// ---------------------------------------------------------------------------
// A failed disable
// ---------------------------------------------------------------------------

/// Whether two installations do the same from here on: they may differ only in
/// what they warn of.
pub open spec fn same_course(a: InstallView, b: InstallView) -> bool {
    &&& a.agenda == b.agenda
    &&& a.unit_dir == b.unit_dir
    &&& a.units == b.units
    &&& a.removed == b.removed
    &&& a.lookalikes == b.lookalikes
}

/// Whether two series of replies differ at most in how disabling units went.
pub open spec fn differ_in_disables(s: InstallView, a: Seq<ReplyView>, b: Seq<ReplyView>) -> bool
    decreases a.len(),
{
    &&& a.len() == b.len()
    &&& a.len() > 0 ==> {
        &&& a[0] == b[0] || s.agenda[0] is Disable
        &&& schedule::step(s, a[0]) matches Ok(n) ==> differ_in_disables(
            n,
            a.subrange(1, a.len() as int),
            b.subrange(1, b.len() as int),
        )
    }
}

/// Disabling a left-over unit that fails stops neither the removal of its file
/// nor the rest of the installation: whatever else is done and written,
/// removed and enabled, is the same as where it had not failed.
pub proof fn a_failed_disable_stops_nothing(
    s: InstallView,
    a: Seq<ReplyView>,
    b: Seq<ReplyView>,
)
    requires
        is_run(s, a),
        is_run(s, b),
        differ_in_disables(s, a, b),
    ensures
        tasks(s, a) == tasks(s, b),
        match (run(s, a), run(s, b)) {
            (Ok(x), Ok(y)) => same_course(x, y),
            (Err(x), Err(y)) => x == y,
            _ => false,
        },
{
    lemma_same_course(s, s, a, b);
}

proof fn lemma_same_course(s: InstallView, t: InstallView, a: Seq<ReplyView>, b: Seq<ReplyView>)
    requires
        same_course(s, t),
        is_run(s, a),
        is_run(t, b),
        differ_in_disables(s, a, b),
    ensures
        tasks(s, a) == tasks(t, b),
        match (run(s, a), run(t, b)) {
            (Ok(x), Ok(y)) => same_course(x, y),
            (Err(x), Err(y)) => x == y,
            _ => false,
        },
    decreases a.len(),
{
    if a.len() > 0 {
        match (schedule::step(s, a[0]), schedule::step(t, b[0])) {
            (Ok(x), Ok(y)) => {
                assert(same_course(x, y));
                lemma_same_course(
                    x,
                    y,
                    a.subrange(1, a.len() as int),
                    b.subrange(1, b.len() as int),
                );
            },
            _ => {},
        }
    }
}

/// A failed disable is told, by the name of the unit.
pub proof fn a_failed_disable_is_told(s: InstallView, path: Seq<char>, why: Seq<char>)
    requires
        s.agenda.len() > 0,
        s.agenda[0] == TaskView::Disable(path),
    ensures
        schedule::step(s, ReplyView::Failed(why)) matches Ok(n) && n.warnings == s.warnings.push(
            schedule::disable_warning_text(schedule::unit_name(path), why),
        ),
{
}

// ---------------------------------------------------------------------------
// What is done
// ---------------------------------------------------------------------------

/// Every task on the agenda of an installation that goes through is done.
proof fn lemma_agenda_is_done(s: InstallView, replies: Seq<ReplyView>, k: int)
    requires
        completes(s, replies),
        0 <= k < s.agenda.len(),
    ensures
        tasks(s, replies).contains(s.agenda[k]),
    decreases replies.len(),
{
    let done = tasks(s, replies);
    assert(replies.len() > 0);
    assert(done[0] == s.agenda[0]);
    if k > 0 {
        let n = schedule::step(s, replies[0])->Ok_0;
        let later = replies.subrange(1, replies.len() as int);
        let rest = s.agenda.subrange(1, s.agenda.len() as int);
        let added = n.agenda.len() - rest.len();
        assert(n.agenda =~= n.agenda.subrange(0, added) + rest) by {
            match replies[0] {
                ReplyView::Orphans { owned, lookalikes } => {
                    let front = schedule::prune_all(owned);
                    assert((front + rest).subrange(0, added) =~= front);
                },
                ReplyView::Owned(there) => {
                    let front = schedule::prune_all(schedule::snapshot_paths(s.unit_dir));
                    if there {
                        assert((front + rest).subrange(0, added) =~= front);
                    }
                },
                ReplyView::Done => {
                    let front = schedule::enable_all(s.units);
                    if s.agenda[0] is Reload {
                        assert((front + rest).subrange(0, added) =~= front);
                    }
                },
                _ => {},
            }
        }
        assert(n.agenda[added + k - 1] == s.agenda[k]);
        lemma_agenda_is_done(n, later, added + k - 1);
        let j = choose|j: int|
            0 <= j < tasks(n, later).len() && tasks(n, later)[j] == s.agenda[k];
        assert(done[j + 1] == s.agenda[k]);
    }
}

proof fn lemma_pruned(paths: Seq<Seq<char>>, i: int)
    requires
        0 <= i < paths.len(),
    ensures
        schedule::prune_all(paths).contains(TaskView::Remove(paths[i])),
        schedule::is_timer(paths[i]) ==> schedule::prune_all(paths).contains(
            TaskView::Disable(paths[i]),
        ),
    decreases paths.len(),
{
    let before = schedule::prune_all(paths.drop_last());
    let last = schedule::prune_one(paths.last());
    let all = schedule::prune_all(paths);
    if i == paths.len() - 1 {
        if schedule::is_timer(paths[i]) {
            assert(all[before.len() as int] == TaskView::Disable(paths[i]));
            assert(all[before.len() as int + 1] == TaskView::Remove(paths[i]));
        } else {
            assert(all[before.len() as int] == TaskView::Remove(paths[i]));
        }
    } else {
        lemma_pruned(paths.drop_last(), i);
        let r = choose|r: int| 0 <= r < before.len() && before[r] == TaskView::Remove(paths[i]);
        assert(all[r] == TaskView::Remove(paths[i]));
        if schedule::is_timer(paths[i]) {
            let d = choose|d: int|
                0 <= d < before.len() && before[d] == TaskView::Disable(paths[i]);
            assert(all[d] == TaskView::Disable(paths[i]));
        }
    }
}

/// An installation that goes through deals with every left-over that carries
/// the ownership marker: its file is removed and, where it is a timer, it is
/// disabled.
pub proof fn every_left_over_is_dealt_with(
    s: InstallView,
    owned: Seq<Seq<char>>,
    lookalikes: Seq<Seq<char>>,
    replies: Seq<ReplyView>,
    i: int,
)
    requires
        completes(s, replies),
        s.agenda.len() > 0,
        replies.len() > 0,
        replies[0] == (ReplyView::Orphans { owned, lookalikes }),
        0 <= i < owned.len(),
    ensures
        tasks(s, replies).contains(TaskView::Remove(owned[i])),
        schedule::is_timer(owned[i]) ==> tasks(s, replies).contains(TaskView::Disable(owned[i])),
{
    let n = schedule::step(s, replies[0])->Ok_0;
    let later = replies.subrange(1, replies.len() as int);
    let front = schedule::prune_all(owned);
    lemma_pruned(owned, i);
    let r = choose|r: int| 0 <= r < front.len() && front[r] == TaskView::Remove(owned[i]);
    assert(n.agenda[r] == TaskView::Remove(owned[i]));
    lemma_agenda_is_done(n, later, r);
    let j = choose|j: int| 0 <= j < tasks(n, later).len() && tasks(n, later)[j] == n.agenda[r];
    assert(tasks(s, replies)[j + 1] == TaskView::Remove(owned[i]));
    if schedule::is_timer(owned[i]) {
        let d = choose|d: int| 0 <= d < front.len() && front[d] == TaskView::Disable(owned[i]);
        assert(n.agenda[d] == TaskView::Disable(owned[i]));
        lemma_agenda_is_done(n, later, d);
        let k = choose|k: int|
            0 <= k < tasks(n, later).len() && tasks(n, later)[k] == n.agenda[d];
        assert(tasks(s, replies)[k + 1] == TaskView::Disable(owned[i]));
    }
}

// ---------------------------------------------------------------------------
// What is left alone
// ---------------------------------------------------------------------------

/// Whether a task touches no unit file but the given left-overs and the
/// snapshot timer's own.
pub open spec fn spares_others(t: TaskView, owned: Seq<Seq<char>>, unit_dir: Seq<char>) -> bool {
    match t {
        TaskView::Disable(p) => owned.contains(p) || schedule::snapshot_paths(unit_dir).contains(p),
        TaskView::Remove(p) => owned.contains(p) || schedule::snapshot_paths(unit_dir).contains(p),
        _ => true,
    }
}

proof fn lemma_prune_spares(paths: Seq<Seq<char>>, k: int)
    requires
        0 <= k < schedule::prune_all(paths).len(),
    ensures
        match schedule::prune_all(paths)[k] {
            TaskView::Disable(p) => paths.contains(p),
            TaskView::Remove(p) => paths.contains(p),
            _ => false,
        },
    decreases paths.len(),
{
    let before = schedule::prune_all(paths.drop_last());
    if k < before.len() {
        lemma_prune_spares(paths.drop_last(), k);
        match before[k] {
            TaskView::Disable(p) => {
                let i = choose|i: int|
                    0 <= i < paths.drop_last().len() && paths.drop_last()[i] == p;
                assert(paths[i] == p);
            },
            TaskView::Remove(p) => {
                let i = choose|i: int|
                    0 <= i < paths.drop_last().len() && paths.drop_last()[i] == p;
                assert(paths[i] == p);
            },
            _ => {},
        }
    } else {
        assert(paths[paths.len() - 1] == paths.last());
    }
}

spec fn agenda_spares_others(s: InstallView, owned: Seq<Seq<char>>) -> bool {
    forall|k: int|
        0 <= k < s.agenda.len() ==> !(#[trigger] s.agenda[k] is ScanOrphans) && spares_others(
            s.agenda[k],
            owned,
            s.unit_dir,
        )
}

proof fn lemma_spares_others(s: InstallView, replies: Seq<ReplyView>, owned: Seq<Seq<char>>)
    requires
        is_run(s, replies),
        agenda_spares_others(s, owned),
    ensures
        forall|j: int|
            0 <= j < tasks(s, replies).len() ==> spares_others(
                #[trigger] tasks(s, replies)[j],
                owned,
                s.unit_dir,
            ),
    decreases replies.len(),
{
    if replies.len() > 0 {
        assert(spares_others(s.agenda[0], owned, s.unit_dir));
        if let Ok(n) = schedule::step(s, replies[0]) {
            let later = replies.subrange(1, replies.len() as int);
            let rest = s.agenda.subrange(1, s.agenda.len() as int);
            let mine = schedule::snapshot_paths(s.unit_dir);
            assert(agenda_spares_others(n, owned)) by {
                assert forall|k: int| 0 <= k < n.agenda.len() implies !(
                #[trigger] n.agenda[k] is ScanOrphans) && spares_others(
                    n.agenda[k],
                    owned,
                    n.unit_dir,
                ) by {
                    let added = n.agenda.len() - rest.len();
                    if k >= added {
                        assert(n.agenda[k] == rest[k - added]);
                        assert(rest[k - added] == s.agenda[k - added + 1]);
                    } else if replies[0] is Owned {
                        lemma_prune_spares(mine, k);
                    } else {
                        assert(n.agenda[k] == schedule::enable_all(s.units)[k]);
                    }
                }
            }
            lemma_spares_others(n, later, owned);
            assert forall|j: int| 0 <= j < tasks(s, replies).len() implies spares_others(
                #[trigger] tasks(s, replies)[j],
                owned,
                s.unit_dir,
            ) by {
                if j > 0 {
                    assert(tasks(s, replies)[j] == tasks(n, later)[j - 1]);
                }
            }
        }
    }
}

/// No unit file is disabled or removed but those that carry the ownership
/// marker: what only looks like a left-over is never touched.
pub proof fn only_owned_units_are_touched(
    unit_dir: Seq<char>,
    snapshots_enabled: bool,
    owned: Seq<Seq<char>>,
    lookalikes: Seq<Seq<char>>,
    replies: Seq<ReplyView>,
)
    requires
        is_run(schedule::begun(unit_dir, snapshots_enabled), replies),
        replies.len() > 0,
        replies[0] == (ReplyView::Orphans { owned, lookalikes }),
    ensures
        forall|j: int|
            0 <= j < tasks(schedule::begun(unit_dir, snapshots_enabled), replies).len()
                ==> spares_others(
                #[trigger] tasks(schedule::begun(unit_dir, snapshots_enabled), replies)[j],
                owned,
                unit_dir,
            ),
{
    let s = schedule::begun(unit_dir, snapshots_enabled);
    let n = schedule::step(s, replies[0])->Ok_0;
    let later = replies.subrange(1, replies.len() as int);
    let front = schedule::prune_all(owned);
    assert forall|k: int| 0 <= k < n.agenda.len() implies !(#[trigger] n.agenda[k] is ScanOrphans)
        && spares_others(n.agenda[k], owned, n.unit_dir) by {
        if k < front.len() {
            lemma_prune_spares(owned, k);
        } else {
            assert(n.agenda[k] == s.agenda[k - front.len() + 1]);
        }
    }
    lemma_spares_others(n, later, owned);
    assert forall|j: int| 0 <= j < tasks(s, replies).len() implies spares_others(
        #[trigger] tasks(s, replies)[j],
        owned,
        unit_dir,
    ) by {
        if j > 0 {
            assert(tasks(s, replies)[j] == tasks(n, later)[j - 1]);
        }
    }
}

// ---------------------------------------------------------------------------
// What is armed
// ---------------------------------------------------------------------------

/// Before the units are read anew: that comes last.
spec fn is_writing(s: InstallView) -> bool {
    &&& s.agenda.len() > 0
    &&& s.agenda.last() is Reload
    &&& forall|k: int| 0 <= k < s.agenda.len() - 1 ==> !(#[trigger] s.agenda[k] is Reload)
}

/// After the units were read anew: nothing is written any more.
spec fn is_enabling(s: InstallView) -> bool {
    forall|k: int| 0 <= k < s.agenda.len() ==> #[trigger] s.agenda[k] is Enable
}

proof fn lemma_enabling_writes_nothing(s: InstallView, replies: Seq<ReplyView>)
    requires
        is_run(s, replies),
        is_enabling(s),
    ensures
        run(s, replies) matches Ok(f) ==> f.units == s.units,
    decreases replies.len(),
{
    if replies.len() > 0 {
        assert(s.agenda[0] is Enable);
        if let Ok(n) = schedule::step(s, replies[0]) {
            assert forall|k: int| 0 <= k < n.agenda.len() implies #[trigger] n.agenda[k] is Enable by {
                assert(n.agenda[k] == s.agenda[k + 1]);
            }
            lemma_enabling_writes_nothing(n, replies.subrange(1, replies.len() as int));
        }
    }
}

proof fn lemma_arms(s: InstallView, replies: Seq<ReplyView>, path: Seq<char>)
    requires
        completes(s, replies),
        is_writing(s),
        schedule::timers((run(s, replies)->Ok_0).units).contains(path),
    ensures
        tasks(s, replies).contains(TaskView::Enable(path)),
    decreases replies.len(),
{
    let n = schedule::step(s, replies[0])->Ok_0;
    let later = replies.subrange(1, replies.len() as int);
    let rest = s.agenda.subrange(1, s.agenda.len() as int);
    if s.agenda[0] is Reload {
        assert(s.agenda.len() == 1) by {
            if s.agenda.len() > 1 {
                assert(!(s.agenda[0] is Reload));
            }
        }
        assert(n.agenda =~= schedule::enable_all(s.units));
        lemma_enabling_writes_nothing(n, later);
        let k = choose|k: int|
            0 <= k < schedule::timers(s.units).len() && schedule::timers(s.units)[k] == path;
        assert(n.agenda[k] == TaskView::Enable(path));
        lemma_agenda_is_done(n, later, k);
        let j = choose|j: int|
            0 <= j < tasks(n, later).len() && tasks(n, later)[j] == TaskView::Enable(path);
        assert(tasks(s, replies)[j + 1] == TaskView::Enable(path));
    } else {
        assert(is_writing(n)) by {
            assert(rest.len() > 0);
            let added = n.agenda.len() - rest.len();
            assert(n.agenda.last() == s.agenda.last());
            assert forall|k: int| 0 <= k < n.agenda.len() - 1 implies !(
            #[trigger] n.agenda[k] is Reload) by {
                if k >= added {
                    assert(n.agenda[k] == s.agenda[k - added + 1]);
                } else {
                    match replies[0] {
                        ReplyView::Orphans { owned, lookalikes } => {
                            lemma_prune_spares(owned, k);
                        },
                        _ => {
                            lemma_prune_spares(schedule::snapshot_paths(s.unit_dir), k);
                        },
                    }
                }
            }
        }
        lemma_arms(n, later, path);
        let j = choose|j: int|
            0 <= j < tasks(n, later).len() && tasks(n, later)[j] == TaskView::Enable(path);
        assert(tasks(s, replies)[j + 1] == TaskView::Enable(path));
    }
}

/// An installation that goes through enables every timer that it wrote.
pub proof fn every_timer_written_is_enabled(
    unit_dir: Seq<char>,
    snapshots_enabled: bool,
    replies: Seq<ReplyView>,
    path: Seq<char>,
)
    requires
        completes(schedule::begun(unit_dir, snapshots_enabled), replies),
        schedule::timers(
            (run(schedule::begun(unit_dir, snapshots_enabled), replies)->Ok_0).units,
        ).contains(path),
    ensures
        tasks(schedule::begun(unit_dir, snapshots_enabled), replies).contains(
            TaskView::Enable(path),
        ),
{
    lemma_arms(schedule::begun(unit_dir, snapshots_enabled), replies, path);
}

// ---------------------------------------------------------------------------
// Names and timers
// ---------------------------------------------------------------------------

proof fn lemma_bare_keeps(path: Seq<char>)
    requires
        path.len() > 0,
        path.last() != '/',
        path.last() != '.',
    ensures
        schedule::bare(path) == path,
{
    reveal_strlit("/.");
    if text::ends_with(path, "/."@) {
        assert(path.subrange(path.len() - 2, path.len() as int)[1] == path.last());
    }
}

proof fn lemma_last_part(dir: Seq<char>, name: Seq<char>)
    requires
        forall|i: int| 0 <= i < name.len() ==> #[trigger] name[i] != '/',
    ensures
        schedule::last_part(dir.push('/') + name) == name,
        schedule::last_part(name) == name,
    decreases name.len(),
{
    let path = dir.push('/') + name;
    if name.len() == 0 {
        assert(path =~= dir.push('/'));
        assert(path.last() == '/');
        assert(schedule::last_part(path) =~= name);
        assert(schedule::last_part(name) =~= name);
    } else {
        let head = name.drop_last();
        assert forall|i: int| 0 <= i < head.len() implies #[trigger] head[i] != '/' by {
            assert(name[i] != '/');
        }
        lemma_last_part(dir, head);
        assert(name[name.len() - 1] != '/');
        assert(path.drop_last() =~= dir.push('/') + head);
        assert(path.last() == name.last());
        assert(head.push(name.last()) =~= name);
    }
}

/// The name of a unit is what stands behind the last slash of its path; a slash
/// at the end of the path does not count, with or without a dot behind it.
pub proof fn units_are_named_by_the_last_part_of_their_path(dir: Seq<char>, name: Seq<char>)
    requires
        name.len() > 0,
        name.last() != '.',
        forall|i: int| 0 <= i < name.len() ==> #[trigger] name[i] != '/',
    ensures
        schedule::unit_name(name) == name,
        schedule::unit_name(dir.push('/') + name) == name,
        schedule::unit_name((dir.push('/') + name).push('/')) == name,
        schedule::unit_name((dir.push('/') + name).push('/').push('.')) == name,
{
    reveal_strlit(".");
    reveal_strlit("..");
    let path = dir.push('/') + name;
    assert(name[name.len() - 1] != '/');
    assert(path.last() == name.last());
    lemma_bare_keeps(path);
    lemma_bare_keeps(name);
    lemma_last_part(dir, name);
    assert(path.push('/').drop_last() =~= path);
    assert(schedule::bare(path.push('/').push('.')) == path) by {
        reveal_strlit("/.");
        let dotted = path.push('/').push('.');
        crate::text_laws::beginnings_and_ends(dotted, "/."@, path);
        assert(dotted =~= path + "/."@);
        assert(dotted.drop_last() =~= path.push('/'));
        assert(path.push('/').last() == '/');
        reveal_with_fuel(schedule::bare, 3);
    }
    assert(name != "."@) by {
        assert("."@.last() == '.');
    }
    assert(name != ".."@) by {
        assert(".."@.last() == '.');
    }
}

/// A unit is a timer exactly when its name is something followed by `.timer`.
pub proof fn timers_are_told_by_their_names(path: Seq<char>, stem: Seq<char>)
    ensures
        stem.len() > 0 && schedule::unit_name(path) == stem + ".timer"@ ==> schedule::is_timer(path),
        schedule::is_timer(path) ==> ({
            let n = schedule::unit_name(path);
            n.len() > 6 && n == n.subrange(0, n.len() - 6) + ".timer"@
        }),
{
    reveal_strlit(".timer");
    crate::text_laws::beginnings_and_ends(schedule::unit_name(path), ".timer"@, stem);
}

/// Of the units, the timers are kept, in their order, and nothing else.
pub proof fn only_timers_are_counted(paths: Seq<Seq<char>>)
    ensures
        schedule::timers(paths) == paths.filter(|p: Seq<char>| schedule::is_timer(p)),
    decreases paths.len(),
{
    reveal(Seq::filter);
    if paths.len() > 0 {
        only_timers_are_counted(paths.drop_last());
    }
}

// ---------------------------------------------------------------------------
// The tasks one by one
// ---------------------------------------------------------------------------

/// An installation looks for what earlier groups left, writes the units for
/// error checks, for the speed of syncs, for the health check and, where the
/// policy has snapshots, for those; where it has none it looks for the timer
/// that an earlier policy left. Then it has the units read anew.
pub proof fn installations_begin_with_the_same_tasks(unit_dir: Seq<char>, snapshots: bool)
    ensures
        ({
            let s = schedule::begun(unit_dir, snapshots);
            &&& s.agenda.len() == 6
            &&& s.agenda[0] is ScanOrphans
            &&& s.agenda[1] is WriteScrubUnits
            &&& s.agenda[2] is WriteThrottleUnit
            &&& s.agenda[3] is WriteHealthUnit
            &&& snapshots ==> s.agenda[4] is WriteSnapshotUnit
            &&& !snapshots ==> s.agenda[4] is LookForSnapshotUnit
            &&& s.agenda[5] is Reload
            &&& s.unit_dir == unit_dir
            &&& s.units.len() == 0
            &&& s.removed.len() == 0
            &&& s.lookalikes.len() == 0
            &&& s.warnings.len() == 0
        }),
{
}

/// A task that is done leaves the agenda. What was removed and what was written
/// is noted; units that were read anew are followed by the enabling of every
/// timer among those that were written; left-overs that carry the ownership
/// marker, and a snapshot timer that does, are to be removed at once; what only
/// looks like one is kept in mind.
pub proof fn each_task_has_its_consequence(s: InstallView, r: ReplyView)
    requires
        s.agenda.len() > 0,
        schedule::fits(s.agenda[0], r),
        !(r is Failed),
    ensures
        ({
            let t = s.agenda[0];
            let rest = s.agenda.subrange(1, s.agenda.len() as int);
            &&& schedule::step(s, r) is Ok
            &&& ({
                let n = schedule::step(s, r)->Ok_0;
                &&& n.unit_dir == s.unit_dir
                &&& n.units == (match r {
                    ReplyView::Units(list) => s.units + list,
                    _ => s.units,
                })
                &&& n.removed == (match t {
                    TaskView::Remove(p) => if r is Done {
                        s.removed.push(p)
                    } else {
                        s.removed
                    },
                    _ => s.removed,
                })
                &&& n.lookalikes == (match r {
                    ReplyView::Orphans { lookalikes, .. } => lookalikes,
                    _ => s.lookalikes,
                })
                &&& !(t is WriteScrubUnits) ==> n.warnings == s.warnings
                &&& t is WriteScrubUnits ==> n.warnings.len() == s.warnings.len()
                    + s.lookalikes.len()
                &&& !(t is Reload) && !(t is ScanOrphans) && !(t is LookForSnapshotUnit)
                    ==> n.agenda == rest
                &&& t is Reload ==> n.agenda == s.units.filter(
                    |p: Seq<char>| schedule::is_timer(p),
                ).map_values(|p: Seq<char>| TaskView::Enable(p)) + rest
                &&& r is Owned && !r->Owned_0 ==> n.agenda == rest
                &&& r is Owned && r->Owned_0 ==> n.agenda == schedule::prune_all(
                    schedule::snapshot_paths(s.unit_dir),
                ) + rest
                &&& t is ScanOrphans ==> n.agenda == schedule::prune_all(
                    r->Orphans_owned,
                ) + rest
            })
        }),
{
    only_timers_are_counted(s.units);
}

/// A timer that is to go is disabled and then removed, any other unit is only
/// removed; one after the other.
pub proof fn timers_are_disabled_before_they_are_removed(
    paths: Seq<Seq<char>>,
    path: Seq<char>,
)
    ensures
        schedule::prune_all(Seq::empty()) == Seq::<TaskView>::empty(),
        schedule::is_timer(path) ==> schedule::prune_all(paths.push(path)) == schedule::prune_all(
            paths,
        ).push(TaskView::Disable(path)).push(TaskView::Remove(path)),
        !schedule::is_timer(path) ==> schedule::prune_all(paths.push(path)) == schedule::prune_all(
            paths,
        ).push(TaskView::Remove(path)),
{
    let all = paths.push(path);
    assert(all.drop_last() =~= paths);
    assert(all.last() == path);
    if schedule::is_timer(path) {
        assert(schedule::prune_all(all) =~= schedule::prune_all(paths).push(
            TaskView::Disable(path),
        ).push(TaskView::Remove(path)));
    } else {
        assert(schedule::prune_all(all) =~= schedule::prune_all(paths).push(
            TaskView::Remove(path),
        ));
    }
}

/// A task that fails ends the installation with what it was about and why it
/// failed; only a timer that cannot be disabled is told and passed over.
pub proof fn failed_tasks_end_the_installation(s: InstallView, why: Seq<char>)
    requires
        s.agenda.len() > 0,
    ensures
        ({
            let t = s.agenda[0];
            let r = schedule::step(s, ReplyView::Failed(why));
            let told = |what: Seq<char>|
                r == Err::<InstallView, Seq<char>>(what + ": "@ + why);
            &&& r is Err <==> !(t is Disable)
            &&& t is ScanOrphans ==> told("scanning for orphaned scrub timer units"@)
            &&& t is WriteScrubUnits ==> told("writing scrub timer units"@)
            &&& t is WriteThrottleUnit ==> told("writing throttle timer unit"@)
            &&& t is WriteHealthUnit ==> told("writing health check timer unit"@)
            &&& t is WriteSnapshotUnit ==> told("writing snapshot automation timer unit"@)
            &&& t is Reload ==> told("systemctl daemon-reload"@)
            &&& t matches TaskView::Remove(p) ==> told("removing "@ + p)
            &&& t matches TaskView::Enable(p) ==> told(
                "systemctl enable --now "@ + schedule::unit_name(p),
            )
            &&& t is Disable ==> r->Ok_0.agenda == s.agenda.subrange(1, s.agenda.len() as int)
                && r->Ok_0.units == s.units && r->Ok_0.removed == s.removed
        }),
{
}

/// The snapshot timer and its service stand in the directory of the units.
pub proof fn snapshot_units_stand_in_the_unit_directory(dir: Seq<char>)
    requires
        dir.len() > 0,
        dir.last() != '/',
    ensures
        schedule::snapshot_paths(dir).len() == 2,
        schedule::snapshot_paths(dir)[0] == dir + "/"@ + "shr-rs-snapshot-auto.timer"@,
        schedule::snapshot_paths(dir)[1] == dir + "/"@ + "shr-rs-snapshot-auto.service"@,
        schedule::snapshot_paths(dir.push('/'))[0] == dir.push('/') + "shr-rs-snapshot-auto.timer"@,
        schedule::snapshot_paths(dir.push('/'))[1] == dir.push('/')
            + "shr-rs-snapshot-auto.service"@,
{
}

} // verus!
