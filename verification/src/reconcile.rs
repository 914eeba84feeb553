//! What a reconcile run did and what it leaves unfinished, told in sentences
//! and as JSON.

use vstd::prelude::*;
use crate::answers;
use crate::answers::{Answer, AnswerView};
use crate::inventory::{ArrayState, StateBand, StateFile};
use crate::json;
use crate::json::{Json, JsonView};
use crate::sink::ProgressUpdate;
use crate::text;

verus! {

/// One thing that a reconcile run did.
#[derive(Debug, PartialEq, Eq)]
pub enum ReconcileAction {
    /// An old member left its array, its replacement being in sync.
    MemberRemoved { group: String, band_index: u8, md_name: String, member_path: String },
    /// The storage grew onto space that a rebuild had added.
    ResizeCompleted { group: String, band_index: u8, md_name: String },
    /// An error check was found to have ended, and its result was recorded.
    ScrubSelfHealed { group: String, band_index: u8, md_name: String, error_count: u64 },
    /// The host-wide sync speed limit was put back.
    SpeedLimitRestored { speed_kb: u64 },
}

/// What a reconcile run did, and the state that it left.
#[derive(Debug)]
pub struct ReconcileOutcome {
    pub performed: Vec<ReconcileAction>,
    pub state: StateFile,
}

// ---------------------------------------------------------------------------
// What was done
// ---------------------------------------------------------------------------

/// The sentence about an old member that left its array.
pub open spec fn member_removed_text(
    group: Seq<char>,
    band_index: nat,
    md_name: Seq<char>,
    member_path: Seq<char>,
) -> Seq<char> {
    "Group `"@ + group + "` band "@ + text::dec(band_index) + " ("@ + md_name
        + "): removed the old disk `"@ + member_path
        + "` -- its replacement had finished syncing."@
}

fn member_removed(group: &str, band_index: u64, md_name: &str, member_path: &str) -> (out: String)
    ensures
        out@ == member_removed_text(group@, band_index as nat, md_name@, member_path@),
{
    let mut out = "Group `".to_owned();
    out.append(group);
    out.append("` band ");
    text::append_decimal(&mut out, band_index);
    out.append(" (");
    out.append(md_name);
    out.append("): removed the old disk `");
    out.append(member_path);
    out.append("` -- its replacement had finished syncing.");
    out
}

/// The sentence about storage that grew.
pub open spec fn resize_completed_text(
    group: Seq<char>,
    band_index: nat,
    md_name: Seq<char>,
) -> Seq<char> {
    "Group `"@ + group + "` band "@ + text::dec(band_index) + " ("@ + md_name
        + "): finished growing the storage onto the new space -- its RAID rebuild "@
        + "had completed."@
}

fn resize_completed(group: &str, band_index: u64, md_name: &str) -> (out: String)
    ensures
        out@ == resize_completed_text(group@, band_index as nat, md_name@),
{
    let mut out = "Group `".to_owned();
    out.append(group);
    out.append("` band ");
    text::append_decimal(&mut out, band_index);
    out.append(" (");
    out.append(md_name);
    out.append("): finished growing the storage onto the new space -- its RAID rebuild ");
    out.append("had completed.");
    out
}

/// The sentence about an error check that had ended.
pub open spec fn scrub_self_healed_text(
    group: Seq<char>,
    band_index: nat,
    md_name: Seq<char>,
    error_count: nat,
) -> Seq<char> {
    "Group `"@ + group + "` band "@ + text::dec(band_index) + " ("@ + md_name
        + "): a scheduled error check had finished on its own; recorded the result "@ + "("@
        + text::dec(error_count) + " error(s))."@
}

fn scrub_self_healed(group: &str, band_index: u64, md_name: &str, error_count: u64) -> (out: String)
    ensures
        out@ == scrub_self_healed_text(group@, band_index as nat, md_name@, error_count as nat),
{
    let mut out = "Group `".to_owned();
    out.append(group);
    out.append("` band ");
    text::append_decimal(&mut out, band_index);
    out.append(" (");
    out.append(md_name);
    out.append("): a scheduled error check had finished on its own; recorded the result ");
    out.append("(");
    text::append_decimal(&mut out, error_count);
    out.append(" error(s)).");
    out
}

/// The sentence about a speed limit that was put back.
pub open spec fn speed_limit_restored_text(speed_kb: nat) -> Seq<char> {
    "Restored the system's RAID speed limit to "@ + text::dec(speed_kb)
        + " KB/s -- the rebuild or error check that had lowered it has finished."@
}

fn speed_limit_restored(speed_kb: u64) -> (out: String)
    ensures
        out@ == speed_limit_restored_text(speed_kb as nat),
{
    let mut out = "Restored the system's RAID speed limit to ".to_owned();
    text::append_decimal(&mut out, speed_kb);
    out.append(" KB/s -- the rebuild or error check that had lowered it has finished.");
    out
}

/// The sentence for one thing that was done.
pub open spec fn action_text(a: ReconcileAction) -> Seq<char> {
    match a {
        ReconcileAction::MemberRemoved { group, band_index, md_name, member_path } =>
            member_removed_text(group@, band_index as nat, md_name@, member_path@),
        ReconcileAction::ResizeCompleted { group, band_index, md_name } =>
            resize_completed_text(group@, band_index as nat, md_name@),
        ReconcileAction::ScrubSelfHealed { group, band_index, md_name, error_count } =>
            scrub_self_healed_text(group@, band_index as nat, md_name@, error_count as nat),
        ReconcileAction::SpeedLimitRestored { speed_kb } =>
            speed_limit_restored_text(speed_kb as nat),
    }
}

/// The sentences for what was done, in the order in which it was done.
pub open spec fn action_texts(list: Seq<ReconcileAction>) -> Seq<Seq<char>> {
    list.map_values(|a: ReconcileAction| action_text(a))
}

/// One human-readable line per thing that a reconcile run did.
pub fn describe_reconcile_action(action: &ReconcileAction) -> (out: String)
    ensures
        out@ == action_text(*action),
{
    match action {
        ReconcileAction::MemberRemoved { group, band_index, md_name, member_path } =>
            member_removed(group.as_str(), *band_index as u64, md_name.as_str(), member_path.as_str()),
        ReconcileAction::ResizeCompleted { group, band_index, md_name } =>
            resize_completed(group.as_str(), *band_index as u64, md_name.as_str()),
        ReconcileAction::ScrubSelfHealed { group, band_index, md_name, error_count } =>
            scrub_self_healed(group.as_str(), *band_index as u64, md_name.as_str(), *error_count),
        ReconcileAction::SpeedLimitRestored { speed_kb } => speed_limit_restored(*speed_kb),
    }
}

// ---------------------------------------------------------------------------
// What is left
// ---------------------------------------------------------------------------

/// The name of a band whose expansion is unfinished.
pub open spec fn pending_band_text(group: Seq<char>, index: nat) -> Seq<char> {
    "`"@ + group + "` band "@ + text::dec(index)
}

fn pending_band(group: &str, index: u64) -> (out: String)
    ensures
        out@ == pending_band_text(group@, index as nat),
{
    let mut out = "`".to_owned();
    out.append(group);
    out.append("` band ");
    text::append_decimal(&mut out, index);
    out
}

/// The bands of a group whose expansion is unfinished, in their order.
pub open spec fn pending_in(name: Seq<char>, bands: Seq<StateBand>) -> Seq<Seq<char>>
    decreases bands.len(),
{
    if bands.len() == 0 {
        Seq::empty()
    } else if bands.last().resize_pending {
        pending_in(name, bands.drop_last()).push(pending_band_text(name, bands.last().index as nat))
    } else {
        pending_in(name, bands.drop_last())
    }
}

/// The unfinished bands of all groups, group by group.
pub open spec fn pending_of(groups: Seq<ArrayState>) -> Seq<Seq<char>>
    decreases groups.len(),
{
    if groups.len() == 0 {
        Seq::empty()
    } else {
        pending_of(groups.drop_last()) + pending_in(groups.last().name@, groups.last().bands@)
    }
}

/// The closing line of the report: what is still unfinished or, where nothing
/// was done either, that nothing is left.
pub open spec fn closing(done: nat, pending: Seq<Seq<char>>) -> Seq<Seq<char>> {
    if pending.len() > 0 {
        seq![
            "Still rebuilding, so the expansion stays unfinished for now: "@
                + text::joined(pending, ", "@) + "."@,
        ]
    } else if done == 0 {
        seq!["Nothing left to finish."@]
    } else {
        Seq::empty()
    }
}

/// The whole report in sentences: what was done first, then what is left.
pub open spec fn report_lines(performed: Seq<ReconcileAction>, groups: Seq<ArrayState>) -> Seq<
    Seq<char>,
> {
    action_texts(performed) + closing(performed.len(), pending_of(groups))
}

fn add_pending(g: &ArrayState, list: &mut Vec<String>)
    ensures
        text::views(final(list)@) == text::views(old(list)@) + pending_in(g.name@, g.bands@),
{
    let ghost start = text::views(list@);
    let mut i: usize = 0;
    assert(g.bands@.take(0) =~= Seq::empty());
    assert(start + Seq::<Seq<char>>::empty() =~= start);
    while i < g.bands.len()
        invariant
            i <= g.bands.len(),
            text::views(list@) == start + pending_in(g.name@, g.bands@.take(i as int)),
        decreases g.bands.len() - i,
    {
        let b = &g.bands[i];
        proof {
            let more = g.bands@.take(i + 1);
            assert(more.drop_last() =~= g.bands@.take(i as int));
            assert(more.last() == *b);
        }
        if b.resize_pending {
            text::add_line(list, pending_band(g.name.as_str(), b.index as u64));
            assert(text::views(list@) =~= start + pending_in(g.name@, g.bands@.take(i + 1)));
        }
        i = i + 1;
    }
    assert(g.bands@.take(i as int) =~= g.bands@);
}

/// The bands whose expansion is unfinished, of every group.
pub fn pending_bands(state: &StateFile) -> (r: Vec<String>)
    ensures
        text::views(r@) == pending_of(state.groups@),
{
    let mut r: Vec<String> = Vec::new();
    let mut i: usize = 0;
    assert(state.groups@.take(0) =~= Seq::empty());
    assert(text::views(r@) =~= Seq::empty());
    while i < state.groups.len()
        invariant
            i <= state.groups.len(),
            text::views(r@) == pending_of(state.groups@.take(i as int)),
        decreases state.groups.len() - i,
    {
        proof {
            let more = state.groups@.take(i + 1);
            assert(more.drop_last() =~= state.groups@.take(i as int));
            assert(more.last() == state.groups@[i as int]);
        }
        add_pending(&state.groups[i], &mut r);
        i = i + 1;
    }
    assert(state.groups@.take(i as int) =~= state.groups@);
    r
}

fn action_lines(performed: &Vec<ReconcileAction>) -> (r: Vec<String>)
    ensures
        text::views(r@) == action_texts(performed@),
{
    let mut r: Vec<String> = Vec::new();
    let mut i: usize = 0;
    while i < performed.len()
        invariant
            i <= performed.len(),
            text::views(r@) =~= action_texts(performed@).take(i as int),
        decreases performed.len() - i,
    {
        text::add_line(&mut r, describe_reconcile_action(&performed[i]));
        i = i + 1;
    }
    assert(action_texts(performed@).take(i as int) =~= action_texts(performed@));
    r
}

/// The report of a reconcile run in sentences: what this run actually did
/// first, before anything about what remains.
pub fn reconcile_lines(outcome: &ReconcileOutcome) -> (r: Vec<String>)
    ensures
        text::views(r@) == report_lines(outcome.performed@, outcome.state.groups@),
{
    let mut r = action_lines(&outcome.performed);
    let ghost done = text::views(r@);
    let pending = pending_bands(&outcome.state);
    if pending.len() > 0 {
        let mut line = "Still rebuilding, so the expansion stays unfinished for now: ".to_owned();
        line.append(text::join(&pending, ", ").as_str());
        line.append(".");
        text::add_line(&mut r, line);
    } else if outcome.performed.len() == 0 {
        text::add_line(&mut r, "Nothing left to finish.".to_owned());
    }
    assert(text::views(r@) =~= report_lines(outcome.performed@, outcome.state.groups@));
    r
}

// ---------------------------------------------------------------------------
// JSON
// ---------------------------------------------------------------------------

/// The object for one thing that was done.
pub open spec fn action_object(a: ReconcileAction) -> JsonView {
    JsonView::Object(
        match a {
            ReconcileAction::MemberRemoved { group, band_index, md_name, member_path } => seq![
                ("kind"@, JsonView::Text("member_removed"@)),
                ("group"@, JsonView::Text(group@)),
                ("band_index"@, JsonView::Number(band_index as int)),
                ("md_name"@, JsonView::Text(md_name@)),
                ("member_path"@, JsonView::Text(member_path@)),
            ],
            ReconcileAction::ResizeCompleted { group, band_index, md_name } => seq![
                ("kind"@, JsonView::Text("resize_completed"@)),
                ("group"@, JsonView::Text(group@)),
                ("band_index"@, JsonView::Number(band_index as int)),
                ("md_name"@, JsonView::Text(md_name@)),
            ],
            ReconcileAction::ScrubSelfHealed { group, band_index, md_name, error_count } => seq![
                ("kind"@, JsonView::Text("scrub_self_healed"@)),
                ("group"@, JsonView::Text(group@)),
                ("band_index"@, JsonView::Number(band_index as int)),
                ("md_name"@, JsonView::Text(md_name@)),
                ("error_count"@, JsonView::Number(error_count as int)),
            ],
            ReconcileAction::SpeedLimitRestored { speed_kb } => seq![
                ("kind"@, JsonView::Text("speed_limit_restored"@)),
                ("speed_kb"@, JsonView::Number(speed_kb as int)),
            ],
        },
    )
}

/// The objects for what was done, in the order in which it was done.
pub open spec fn action_objects(list: Seq<ReconcileAction>) -> Seq<JsonView> {
    list.map_values(|a: ReconcileAction| action_object(a))
}

/// The whole report as an object; `state` is the state that the run left.
pub open spec fn report_object(performed: Seq<ReconcileAction>, state: JsonView) -> JsonView {
    JsonView::Object(
        seq![("performed"@, JsonView::List(action_objects(performed))), ("state"@, state)],
    )
}

fn put_band(
    fields: &mut Vec<(String, Json)>,
    kind: &str,
    group: &String,
    band_index: u8,
    md_name: &String,
)
    requires
        old(fields)@.len() == 0,
    ensures
        json::pairs(final(fields)@) == seq![
            ("kind"@, JsonView::Text(kind@)),
            ("group"@, JsonView::Text(group@)),
            ("band_index"@, JsonView::Number(band_index as int)),
            ("md_name"@, JsonView::Text(md_name@)),
        ],
{
    assert(json::pairs(fields@) =~= Seq::empty());
    json::put(fields, "kind", json::string(kind));
    json::put(fields, "group", json::string(group.as_str()));
    json::put(fields, "band_index", Json::Number(band_index as u64));
    json::put(fields, "md_name", json::string(md_name.as_str()));
}

fn action_json(action: &ReconcileAction) -> (r: Json)
    ensures
        r@ == action_object(*action),
{
    let mut fields: Vec<(String, Json)> = Vec::new();
    assert(json::pairs(fields@) =~= Seq::empty());
    match action {
        ReconcileAction::MemberRemoved { group, band_index, md_name, member_path } => {
            put_band(&mut fields, "member_removed", group, *band_index, md_name);
            json::put(&mut fields, "member_path", json::string(member_path.as_str()));
        },
        ReconcileAction::ResizeCompleted { group, band_index, md_name } => {
            put_band(&mut fields, "resize_completed", group, *band_index, md_name);
        },
        ReconcileAction::ScrubSelfHealed { group, band_index, md_name, error_count } => {
            put_band(&mut fields, "scrub_self_healed", group, *band_index, md_name);
            json::put(&mut fields, "error_count", Json::Number(*error_count));
        },
        ReconcileAction::SpeedLimitRestored { speed_kb } => {
            json::put(&mut fields, "kind", json::string("speed_limit_restored"));
            json::put(&mut fields, "speed_kb", Json::Number(*speed_kb));
        },
    }
    let ghost seen = json::pairs(fields@);
    proof {
        if let JsonView::Object(wanted) = action_object(*action) {
            assert(seen =~= wanted);
        }
    }
    json::object(fields)
}

/// The report of a reconcile run as JSON: the same facts as the sentences, in
/// the same order, each tagged with a stable `kind`. `state` is the state that
/// the run left.
pub fn reconcile_report_json(performed: &Vec<ReconcileAction>, state: Json) -> (r: Json)
    ensures
        r@ == report_object(performed@, state@),
{
    let mut values: Vec<Json> = Vec::new();
    let mut i: usize = 0;
    while i < performed.len()
        invariant
            i <= performed.len(),
            json::trees(values@) =~= action_objects(performed@).take(i as int),
        decreases performed.len() - i,
    {
        let value = action_json(&performed[i]);
        let ghost before = values@;
        values.push(value);
        assert(json::trees(values@) =~= json::trees(before).push(value@));
        i = i + 1;
    }
    assert(action_objects(performed@).take(i as int) =~= action_objects(performed@));
    let mut fields: Vec<(String, Json)> = Vec::new();
    assert(json::pairs(fields@) =~= Seq::empty());
    json::put(&mut fields, "performed", json::list(values));
    json::put(&mut fields, "state", state);
    assert(json::pairs(fields@) =~= seq![
        ("performed"@, JsonView::List(action_objects(performed@))),
        ("state"@, state@),
    ]);
    json::object(fields)
}

/// What a reconcile run prints; without any recorded group there is nothing
/// to reconcile.
pub open spec fn reconciled_view(
    as_json: bool,
    outcome: Option<ReconcileOutcome>,
    state: JsonView,
) -> AnswerView {
    match outcome {
        Some(o) => if as_json {
            AnswerView::Pretty(report_object(o.performed@, state))
        } else {
            AnswerView::Lines(report_lines(o.performed@, o.state.groups@))
        },
        None => if as_json {
            AnswerView::Pretty(
                JsonView::Object(seq![("error"@, JsonView::Text("no active array"@))]),
            )
        } else {
            AnswerView::Lines(seq!["No storage group found."@])
        },
    }
}

/// What a reconcile run prints. `state` is the state that the run left, as
/// JSON.
pub fn reconciled(as_json: bool, outcome: &Option<ReconcileOutcome>, state: Json) -> (r: Answer)
    ensures
        r@ == reconciled_view(as_json, *outcome, state@),
{
    match outcome {
        Some(o) => if as_json {
            Answer::Pretty(reconcile_report_json(&o.performed, state))
        } else {
            Answer::Lines(reconcile_lines(o))
        },
        None => if as_json {
            let mut fields: Vec<(String, Json)> = Vec::new();
            assert(json::pairs(fields@) =~= Seq::empty());
            json::put(&mut fields, "error", json::string("no active array"));
            assert(json::pairs(fields@) =~= seq![("error"@, JsonView::Text("no active array"@))]);
            Answer::Pretty(json::object(fields))
        } else {
            Answer::line("No storage group found.".to_owned())
        },
    }
}

/// The progress of a reconcile run, told beside what it prints: only where it
/// prints sentences about what it did.
pub fn reconcile_notes(
    as_json: bool,
    outcome: &Option<ReconcileOutcome>,
    updates: &[ProgressUpdate],
) -> (r: Vec<String>)
    ensures
        text::views(r@) == if !as_json && *outcome is Some {
            answers::note_texts(updates@)
        } else {
            Seq::empty()
        },
{
    match outcome {
        Some(_) => if !as_json {
            return answers::notes(updates);
        },
        None => {},
    }
    let r: Vec<String> = Vec::new();
    assert(text::views(r@) =~= Seq::empty());
    r
}

// ---------------------------------------------------------------------------
// Laws
// ---------------------------------------------------------------------------

/// "Nothing left to finish." is said exactly where nothing was done and
/// nothing remains pending; whatever was done is told, one sentence each,
/// before anything else.
pub proof fn nothing_is_claimed_only_when_nothing_happened(
    performed: Seq<ReconcileAction>,
    groups: Seq<ArrayState>,
)
    ensures
        report_lines(performed, groups) == seq!["Nothing left to finish."@] <==> performed.len()
            == 0 && pending_of(groups).len() == 0,
        report_lines(performed, groups).len() >= performed.len(),
        forall|i: int|
            0 <= i < performed.len() ==> #[trigger] report_lines(performed, groups)[i]
                == action_text(performed[i]),
{
    let said = seq!["Nothing left to finish."@];
    if report_lines(performed, groups) == said {
        reveal_strlit("Nothing left to finish.");
        if performed.len() > 0 {
            assert(report_lines(performed, groups)[0] == action_text(performed[0]));
            reveal_strlit("Group `");
            reveal_strlit("Restored the system's RAID speed limit to ");
            assert(said[0][0] == 'N');
            match performed[0] {
                ReconcileAction::MemberRemoved { group, band_index, md_name, member_path } => {
                    assert(action_text(performed[0])[0] == 'G');
                },
                ReconcileAction::ResizeCompleted { group, band_index, md_name } => {
                    assert(action_text(performed[0])[0] == 'G');
                },
                ReconcileAction::ScrubSelfHealed { group, band_index, md_name, error_count } => {
                    assert(action_text(performed[0])[0] == 'G');
                },
                ReconcileAction::SpeedLimitRestored { speed_kb } => {
                    assert(action_text(performed[0])[0] == 'R');
                },
            }
        } else if pending_of(groups).len() > 0 {
            reveal_strlit("Still rebuilding, so the expansion stays unfinished for now: ");
            let line = "Still rebuilding, so the expansion stays unfinished for now: "@
                + text::joined(pending_of(groups), ", "@) + "."@;
            assert(report_lines(performed, groups)[0] == line);
            assert(line[0] == 'S');
            assert(said[0][0] == 'N');
        }
    }
    if performed.len() == 0 && pending_of(groups).len() == 0 {
        assert(report_lines(performed, groups) =~= said);
    }
}

/// Every unfinished band of every group is named.
pub proof fn every_unfinished_band_is_named(groups: Seq<ArrayState>, g: int, b: int)
    requires
        0 <= g < groups.len(),
        0 <= b < groups[g].bands@.len(),
        groups[g].bands@[b].resize_pending,
    ensures
        pending_of(groups).contains(
            pending_band_text(groups[g].name@, groups[g].bands@[b].index as nat),
        ),
    decreases groups.len(),
{
    let name = pending_band_text(groups[g].name@, groups[g].bands@[b].index as nat);
    let earlier = pending_of(groups.drop_last());
    let here = pending_in(groups.last().name@, groups.last().bands@);
    if g == groups.len() - 1 {
        lemma_pending_in(groups[g].name@, groups[g].bands@, b);
        let k = choose|k: int| 0 <= k < here.len() && here[k] == name;
        assert((earlier + here)[earlier.len() + k] == name);
    } else {
        every_unfinished_band_is_named(groups.drop_last(), g, b);
        let k = choose|k: int| 0 <= k < earlier.len() && earlier[k] == name;
        assert((earlier + here)[k] == name);
    }
}

proof fn lemma_pending_in(name: Seq<char>, bands: Seq<StateBand>, b: int)
    requires
        0 <= b < bands.len(),
        bands[b].resize_pending,
    ensures
        pending_in(name, bands).contains(pending_band_text(name, bands[b].index as nat)),
    decreases bands.len(),
{
    let line = pending_band_text(name, bands[b].index as nat);
    let earlier = pending_in(name, bands.drop_last());
    if b == bands.len() - 1 {
        assert(pending_in(name, bands)[earlier.len() as int] == line);
    } else {
        lemma_pending_in(name, bands.drop_last(), b);
        let k = choose|k: int| 0 <= k < earlier.len() && earlier[k] == line;
        assert(pending_in(name, bands)[k] == line);
    }
}

} // verus!
