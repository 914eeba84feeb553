//! What every command answers: to a machine an object that has the facts under
//! their keys, to a person the sentence that has them in it.

use vstd::prelude::*;
use crate::answers;
use crate::answers::AnswerView;
use crate::confirm;
use crate::dry_run;
use crate::inventory::{ArrayState, StateBand};
use crate::json;
use crate::json::JsonView;
use crate::json_laws;
use crate::json_laws::has;
use crate::reconcile;
use crate::reconcile::ReconcileAction;
use crate::report::{DiskStatus, SmartState};
use crate::sink::ProgressUpdate;
use crate::text;
use crate::workflow_courses;

verus! {

/// Whether an answer is the one-line object `o`, or one that has `n` keys.
pub open spec fn is_object(a: AnswerView, n: nat) -> bool {
    a matches AnswerView::Compact(o) && json_laws::width(o) == n
}

/// The object of an answer to a machine.
pub open spec fn object_of(a: AnswerView) -> JsonView {
    match a {
        AnswerView::Compact(o) => o,
        AnswerView::Pretty(o) => o,
        _ => JsonView::Null,
    }
}

/// A failure is told with its message.
pub proof fn failures_are_told(message: Seq<char>)
    ensures
        is_object(answers::failed_view(true, message), 1),
        has(object_of(answers::failed_view(true, message)), "error"@, JsonView::Text(message)),
        answers::failed_view(false, message) == AnswerView::Lines(seq!["error: "@ + message]),
{
    let o = object_of(answers::failed_view(true, message));
    assert(o->Object_0[0] == ("error"@, JsonView::Text(message)));
}

/// An error check that was started, or cancelled, is told with its group, and
/// with the priority where one was given.
pub proof fn error_checks_are_told(group: Seq<char>, priority: Seq<char>)
    ensures
        ({
            let o = object_of(answers::scrub_started_view(true, group, Some(priority)));
            &&& has(o, "group"@, JsonView::Text(group))
            &&& has(o, "status"@, JsonView::Text("started"@))
            &&& has(o, "priority"@, JsonView::Text(priority))
            &&& is_object(answers::scrub_started_view(true, group, Some(priority)), 3)
        }),
        ({
            let o = object_of(answers::scrub_started_view(true, group, None));
            &&& has(o, "group"@, JsonView::Text(group))
            &&& has(o, "status"@, JsonView::Text("started"@))
            &&& is_object(answers::scrub_started_view(true, group, None), 2)
        }),
        ({
            let o = object_of(answers::scrub_cancelled_view(true, group));
            &&& has(o, "group"@, JsonView::Text(group))
            &&& has(o, "status"@, JsonView::Text("cancelled"@))
            &&& is_object(answers::scrub_cancelled_view(true, group), 2)
        }),
        answers::scrub_started_view(false, group, Some(priority)) == AnswerView::Lines(
            seq!["scrub started (priority "@ + priority + ")"@],
        ),
        answers::scrub_started_view(false, group, None) == AnswerView::Lines(
            seq!["scrub started"@],
        ),
        answers::scrub_cancelled_view(false, group) == AnswerView::Lines(seq!["scrub cancelled"@]),
{
    let a = object_of(answers::scrub_started_view(true, group, Some(priority)))->Object_0;
    assert(a[0] == ("group"@, JsonView::Text(group)));
    assert(a[1] == ("status"@, JsonView::Text("started"@)));
    assert(a[2] == ("priority"@, JsonView::Text(priority)));
    let b = object_of(answers::scrub_started_view(true, group, None))->Object_0;
    assert(b[0] == ("group"@, JsonView::Text(group)));
    assert(b[1] == ("status"@, JsonView::Text("started"@)));
    let c = object_of(answers::scrub_cancelled_view(true, group))->Object_0;
    assert(c[0] == ("group"@, JsonView::Text(group)));
    assert(c[1] == ("status"@, JsonView::Text("cancelled"@)));
}

/// How an error check stands is told with its group, whether it still runs and
/// how many errors it found.
pub proof fn running_error_checks_are_told(group: Seq<char>, running: bool, errors: nat)
    ensures
        ({
            let o = object_of(answers::scrub_reported_view(true, group, running, errors));
            &&& has(o, "group"@, JsonView::Text(group))
            &&& has(o, "running"@, JsonView::Bool(running))
            &&& has(o, "error_count"@, JsonView::Number(errors as int))
            &&& is_object(answers::scrub_reported_view(true, group, running, errors), 3)
        }),
        running ==> answers::scrub_reported_view(false, group, running, errors)
            == AnswerView::Lines(
            seq![
                "group `"@ + group + "`: "@ + "running"@ + " -- "@ + text::dec(errors)
                    + " error(s) found"@,
            ],
        ),
        !running ==> answers::scrub_reported_view(false, group, running, errors)
            == AnswerView::Lines(
            seq![
                "group `"@ + group + "`: "@ + "finished"@ + " -- "@ + text::dec(errors)
                    + " error(s) found"@,
            ],
        ),
{
    let a = object_of(answers::scrub_reported_view(true, group, running, errors))->Object_0;
    assert(a[0] == ("group"@, JsonView::Text(group)));
    assert(a[1] == ("running"@, JsonView::Bool(running)));
    assert(a[2] == ("error_count"@, JsonView::Number(errors as int)));
}

/// A recompression and a snapshot are told with their group and with what was
/// asked for.
pub proof fn recompressions_and_snapshots_are_told(group: Seq<char>, what: Seq<char>)
    ensures
        ({
            let o = object_of(answers::recompressed_view(true, group, what));
            &&& has(o, "group"@, JsonView::Text(group))
            &&& has(o, "compression"@, JsonView::Text(what))
            &&& has(o, "status"@, JsonView::Text("started"@))
            &&& is_object(answers::recompressed_view(true, group, what), 3)
        }),
        ({
            let o = object_of(answers::snapshot_created_view(true, group, what));
            &&& has(o, "group"@, JsonView::Text(group))
            &&& has(o, "name"@, JsonView::Text(what))
            &&& has(o, "status"@, JsonView::Text("created"@))
            &&& is_object(answers::snapshot_created_view(true, group, what), 3)
        }),
        answers::recompressed_view(false, group, what) == AnswerView::Lines(
            seq!["recompress started at "@ + what],
        ),
        answers::snapshot_created_view(false, group, what) == AnswerView::Lines(
            seq!["snapshot `"@ + what + "` created"@],
        ),
{
    let a = object_of(answers::recompressed_view(true, group, what))->Object_0;
    assert(a[0] == ("group"@, JsonView::Text(group)));
    assert(a[1] == ("compression"@, JsonView::Text(what)));
    assert(a[2] == ("status"@, JsonView::Text("started"@)));
    let b = object_of(answers::snapshot_created_view(true, group, what))->Object_0;
    assert(b[0] == ("group"@, JsonView::Text(group)));
    assert(b[1] == ("name"@, JsonView::Text(what)));
    assert(b[2] == ("status"@, JsonView::Text("created"@)));
}

/// An installation is told with how many timers it enabled and how many
/// left-over files it removed.
pub proof fn installations_are_told(timers: nat, removed: nat)
    ensures
        ({
            let o = object_of(answers::schedule_installed_view(true, timers, removed));
            &&& has(o, "installed_timers"@, JsonView::Number(timers as int))
            &&& has(o, "pruned"@, JsonView::Number(removed as int))
            &&& is_object(answers::schedule_installed_view(true, timers, removed), 2)
        }),
        answers::schedule_installed_view(false, timers, removed) == AnswerView::Lines(
            seq![
                "installed and enabled "@ + text::dec(timers) + " timer unit(s); pruned "@
                    + text::dec(removed) + " orphaned unit file(s)"@,
            ],
        ),
{
    let a = object_of(answers::schedule_installed_view(true, timers, removed))->Object_0;
    assert(a[0] == ("installed_timers"@, JsonView::Number(timers as int)));
    assert(a[1] == ("pruned"@, JsonView::Number(removed as int)));
}

/// What the timers did is told: how many bands they slowed down or sped up,
/// that a check was made, which snapshots were taken and whether they are taken
/// at all.
pub proof fn timers_tell_what_they_did(bands: nat, summary: Seq<Seq<char>>)
    ensures
        has(object_of(answers::throttled_view(true, bands)), "bands_ticked"@, JsonView::Number(
            bands as int,
        )),
        answers::throttled_view(false, bands) == AnswerView::Lines(
            seq!["ticked "@ + text::dec(bands) + " syncing band(s)"@],
        ),
        has(object_of(answers::health_checked_view(true)), "ok"@, JsonView::Bool(true)),
        answers::health_checked_view(false) == AnswerView::Lines(seq!["health check complete"@]),
        has(object_of(answers::snapshots_off_view(true)), "enabled"@, JsonView::Bool(false)),
        answers::snapshots_off_view(false) == AnswerView::Lines(
            seq!["snapshot automation is disabled in policy.toml; nothing to do"@],
        ),
        ({
            let o = object_of(answers::snapshots_taken_view(true, summary));
            &&& has(o, "ok"@, JsonView::Bool(true))
            &&& has(o, "enabled"@, JsonView::Bool(true))
            &&& has(
                o,
                "snapshots"@,
                JsonView::List(Seq::new(summary.len(), |i: int| JsonView::Text(summary[i]))),
            )
        }),
        summary.len() > 0 ==> answers::snapshots_taken_view(false, summary) == AnswerView::Lines(
            summary,
        ),
        summary.len() == 0 ==> answers::snapshots_taken_view(false, summary) == AnswerView::Lines(
            seq!["no storage group found; nothing to snapshot yet"@],
        ),
{
    let a = object_of(answers::throttled_view(true, bands))->Object_0;
    assert(a[0] == ("bands_ticked"@, JsonView::Number(bands as int)));
    let b = object_of(answers::health_checked_view(true))->Object_0;
    assert(b[0] == ("ok"@, JsonView::Bool(true)));
    let c = object_of(answers::snapshots_off_view(true))->Object_0;
    assert(c[1] == ("enabled"@, JsonView::Bool(false)));
    let d = object_of(answers::snapshots_taken_view(true, summary))->Object_0;
    assert(json::text_values(summary) =~= Seq::new(
        summary.len(),
        |i: int| JsonView::Text(summary[i]),
    ));
    assert(d[0] == ("ok"@, JsonView::Bool(true)));
    assert(d[1] == ("enabled"@, JsonView::Bool(true)));
    assert(d[2] == (
        "snapshots"@,
        JsonView::List(Seq::new(summary.len(), |i: int| JsonView::Text(summary[i]))),
    ));
}

/// The loop tells of every group its name, its mode, its layout version and the
/// number of its disks.
pub proof fn the_loop_tells_every_group(groups: Seq<ArrayState>, i: int)
    requires
        0 <= i < groups.len(),
    ensures
        ({
            let g = groups[i];
            let o = object_of(answers::daemon_tick_view(true, groups));
            &&& o matches JsonView::Object(fields) && fields.len() == 1 && fields[0].0 == "groups"@
                && (fields[0].1 matches JsonView::List(list) && list.len() == groups.len() && has(
                list[i],
                "name"@,
                JsonView::Text(g.name@),
            ) && has(list[i], "mode"@, JsonView::Text(g.mode@)) && has(
                list[i],
                "layout_version"@,
                JsonView::Number(g.layout_version as int),
            ) && has(list[i], "disks"@, JsonView::Number(g.disks@.len() as int)))
            &&& answers::daemon_tick_view(false, groups) matches AnswerView::Lines(lines)
                && lines.len() == groups.len() && lines[i] == "[status] group "@ + g.name@
                + ": mode: "@ + g.mode@ + ", layout "@ + text::dec(g.layout_version as nat)
                + ", disks: "@ + text::dec(g.disks@.len())
        }),
{
    let g = groups[i];
    let x = answers::tick_group_object(g)->Object_0;
    assert(x[0] == ("name"@, JsonView::Text(g.name@)));
    assert(x[1] == ("mode"@, JsonView::Text(g.mode@)));
    assert(x[2] == ("layout_version"@, JsonView::Number(g.layout_version as int)));
    assert(x[3] == ("disks"@, JsonView::Number(g.disks@.len() as int)));
    assert(answers::tick_group_objects(groups)[i] == answers::tick_group_object(g));
}

/// The list of groups tells of every group its name, mode, number of disks and
/// of bands and where it is mounted, and whether an expansion is under way.
pub proof fn the_list_tells_every_group(groups: Seq<ArrayState>, state: JsonView, i: int)
    requires
        0 <= i < groups.len(),
    ensures
        ({
            let g = groups[i];
            let line = g.name@ + "  mode="@ + g.mode@ + "  disks="@ + text::dec(g.disks@.len())
                + "  bands="@ + text::dec(g.bands@.len()) + "  mount="@
                + g.filesystem.mount_point@;
            &&& answers::groups_listed_view(true, groups, state) == AnswerView::Pretty(state)
            &&& answers::groups_listed_view(false, groups, state) matches AnswerView::Lines(lines)
                && lines.len() == groups.len() && lines[i] == (if g.expansion_in_progress {
                line + "  [expansion in progress]"@
            } else {
                line
            })
        }),
{
}

/// A disk's health is told with its name, its verdict, its temperature and its
/// counts of bad sectors, each under its own word.
pub proof fn the_health_of_a_disk_is_told(d: DiskStatus)
    ensures
        answers::smart_line_text(d) == d.name@ + "  health="@ + (match d.smart.state {
            SmartState::Good => "ok"@,
            SmartState::Warning => "warning"@,
            SmartState::Unknown => "unknown"@,
        }) + "  temp="@ + (match d.smart.temperature_c {
            Some(c) => text::signed_dec(c as int) + "C"@,
            None => "unknown"@,
        }) + "  reallocated-sectors="@ + (match d.smart.reallocated_sectors {
            Some(n) => text::dec(n as nat),
            None => "unknown"@,
        }) + "  pending-sectors="@ + (match d.smart.pending_sectors {
            Some(n) => text::dec(n as nat),
            None => "unknown"@,
        }),
{
}

/// What was done to a group is told with its name: that it was created, in
/// which mode and where it is mounted; that it was expanded, and to which layout
/// version; which disk took the place of which; that it was destroyed.
pub proof fn what_was_done_to_a_group_is_told(
    name: Seq<char>,
    a: Seq<char>,
    b: Seq<char>,
    version: nat,
)
    ensures
        answers::created_line_text(name, a, b) == "Storage group `"@ + name + "` created ("@ + a
            + "), mounted at "@ + b + "."@,
        answers::expanded_line_text(name, version) == "Array expanded successfully! Name: "@ + name
            + ", Layout Version: "@ + text::dec(version),
        answers::replaced_line_text(a, b, name) == "disk `"@ + a + "` replaced with `"@ + b
            + "` in group `"@ + name + "`"@,
        answers::destroyed_view(false, name) == AnswerView::Lines(
            seq!["group `"@ + name + "` destroyed"@],
        ),
        has(object_of(answers::destroyed_view(true, name)), "destroyed"@, JsonView::Text(name)),
{
    let o = object_of(answers::destroyed_view(true, name))->Object_0;
    assert(o[0] == ("destroyed"@, JsonView::Text(name)));
}

/// A report without a name is about the first group.
pub proof fn the_first_group_is_meant_without_a_name(
    name: Seq<char>,
    groups: Seq<ArrayState>,
)
    ensures
        answers::reported_group(Some(name), groups) == name,
        groups.len() > 0 ==> answers::reported_group(None, groups) == groups[0].name@,
        groups.len() > 0 ==> confirm::meant_group(None, groups) == Some(groups[0]),
        groups.len() == 0 ==> confirm::meant_group(None, groups) is None,
{
}

/// A group is meant by its name: the first that has it, and none where none
/// has.
pub proof fn groups_are_meant_by_their_names(
    name: Seq<char>,
    groups: Seq<ArrayState>,
    k: int,
)
    ensures
        0 <= k < groups.len() && groups[k].name@ == name && (forall|j: int|
            0 <= j < k ==> (#[trigger] groups[j]).name@ != name) ==> confirm::meant_group(
            Some(name),
            groups,
        ) == Some(groups[k]),
        (forall|j: int| 0 <= j < groups.len() ==> (#[trigger] groups[j]).name@ != name)
            ==> confirm::meant_group(Some(name), groups) is None,
    decreases groups.len(),
{
    if groups.len() > 0 {
        let rest = groups.subrange(1, groups.len() as int);
        groups_are_meant_by_their_names(name, rest, k - 1);
        if groups[0].name@ != name {
            if 0 <= k < groups.len() && groups[k].name@ == name && (forall|j: int|
                0 <= j < k ==> (#[trigger] groups[j]).name@ != name) {
                assert(rest[k - 1] == groups[k]);
                assert forall|j: int| 0 <= j < k - 1 implies (#[trigger] rest[j]).name@ != name by {
                    assert(groups[j + 1].name@ != name);
                }
            }
            if forall|j: int| 0 <= j < groups.len() ==> (#[trigger] groups[j]).name@ != name {
                assert forall|j: int| 0 <= j < rest.len() implies (#[trigger] rest[j]).name@
                    != name by {
                    assert(groups[j + 1].name@ != name);
                }
            }
        } else if k > 0 {
            assert(groups[0].name@ == name);
        }
    }
}

// ---------------------------------------------------------------------------
// Gates and dry runs
// ---------------------------------------------------------------------------

/// What a recompression would do is told with the mount point of the group that
/// is meant, the new compression and the group's name.
pub proof fn recompressions_are_told_beforehand(
    name: Option<Seq<char>>,
    groups: Seq<ArrayState>,
    group: Seq<char>,
    compression: Seq<char>,
)
    ensures
        confirm::meant_group(name, groups) is None ==> confirm::recompress_plan(
            name,
            groups,
            group,
            compression,
        ).len() == 0,
        confirm::meant_group(name, groups) is Some ==> ({
            let plan = confirm::recompress_plan(name, groups, group, compression);
            let mount = confirm::meant_group(name, groups)->0.filesystem.mount_point@;
            &&& plan.len() == 3
            &&& plan[0] == "mount -o remount,compress="@ + compression + " "@ + mount
            &&& text::starts_with(plan[1], "btrfs filesystem defragment -r "@ + mount)
            &&& plan[2] == "update `compress=` in /etc/fstab for group `"@ + group + "`"@
        }),
{
    if confirm::meant_group(name, groups) is Some {
        let mount = confirm::meant_group(name, groups)->0.filesystem.mount_point@;
        let start = "btrfs filesystem defragment -r "@ + mount;
        let line = confirm::defragment_text(mount);
        assert(line.subrange(0, start.len() as int) =~= start);
    }
}

/// Before a name is typed, every planned command is shown on a line of its own,
/// then what the command does to which group, and which name to type.
pub proof fn the_question_shows_every_planned_command(
    group: Seq<char>,
    commands: Seq<Seq<char>>,
    more: Seq<char>,
    operation: Seq<char>,
)
    ensures
        confirm::planned_text(Seq::empty()) == "Planned commands:\n"@,
        confirm::planned_text(commands.push(more)) == confirm::planned_text(commands) + "  "@
            + more + "\n"@,
        confirm::prompt_text(group, commands, operation) == confirm::planned_text(commands)
            + ("This will make real, IRREVERSIBLE changes to group `"@ + group + "` ("@ + operation
            + ") -- it cannot be undone once started.\nType the group name (`"@ + group
            + "`) to confirm, anything else cancels: "@),
{
    let all = commands.push(more);
    assert(all.drop_last() =~= commands);
    assert(confirm::planned_text(Seq::empty()) =~= "Planned commands:\n"@);
    assert(confirm::planned_text(all) =~= confirm::planned_text(commands) + "  "@ + more + "\n"@);
}

/// The decision about the RAID markers: both flags contradict each other; one
/// flag decides; without one, who cannot be asked has not decided, and who can
/// is taken at their word, yes or no, and at nothing else.
pub proof fn the_markers_are_decided_by_flag_or_word(
    zero: bool,
    no_zero: bool,
    yes: bool,
    interactive: bool,
    line: Seq<char>,
)
    ensures
        ({
            let d = confirm::marker_decision(zero, no_zero, yes, interactive, line);
            let asked = !zero && !no_zero && !yes && interactive;
            &&& d is Contradiction <==> zero && no_zero
            &&& d is Erase <==> (zero && !no_zero) || (asked && workflow_courses::says_yes(line))
            &&& d is Leave <==> (no_zero && !zero) || (asked && !workflow_courses::says_yes(line)
                && workflow_courses::says_no(line))
            &&& d is Undecided <==> !zero && !no_zero && (yes || !interactive)
            &&& d is Unclear <==> asked && !workflow_courses::says_yes(line)
                && !workflow_courses::says_no(line)
        }),
        confirm::must_ask(yes, interactive) <==> !yes && interactive,
{
}

/// A dry run of destroying a group tells every planned command and whether the
/// markers would go; one of creating or expanding one tells the group.
pub proof fn dry_runs_are_told(
    commands: Seq<Seq<char>>,
    erase: bool,
    name: Seq<char>,
    mode: Seq<char>,
    version: nat,
)
    ensures
        ({
            let o = dry_run::destroy_dry_run_object(commands, erase);
            &&& has(o, "zero_superblocks"@, JsonView::Bool(erase))
            &&& has(
                o,
                "planned_commands"@,
                JsonView::List(Seq::new(commands.len(), |i: int| JsonView::Text(commands[i]))),
            )
        }),
        dry_run::create_dry_run_line_text(name, mode, version)
            == "Dry run -- array would be created. Name: "@ + name + ", Mode: "@ + mode
            + ", Version: "@ + text::dec(version),
        dry_run::expand_dry_run_line_text(name, version)
            == "Dry run -- array would be expanded. Name: "@ + name + ", Layout Version: "@
            + text::dec(version),
        dry_run::recorded_mode("shr"@) == Some(crate::raid::RedundancyMode::Shr),
        dry_run::recorded_mode("shr2"@) == Some(crate::raid::RedundancyMode::Shr2),
        mode != "shr"@ && mode != "shr2"@ ==> dry_run::recorded_mode(mode) is None,
{
    reveal_strlit("shr");
    reveal_strlit("shr2");
    assert("shr"@.len() != "shr2"@.len());
    let o = dry_run::destroy_dry_run_object(commands, erase)->Object_0;
    assert(json::text_values(commands) =~= Seq::new(
        commands.len(),
        |i: int| JsonView::Text(commands[i]),
    ));
    assert(o[0] == (
        "planned_commands"@,
        JsonView::List(Seq::new(commands.len(), |i: int| JsonView::Text(commands[i]))),
    ));
    assert(o[1] == ("zero_superblocks"@, JsonView::Bool(erase)));
}

// ---------------------------------------------------------------------------
// What was finished
// ---------------------------------------------------------------------------

/// Everything that was finished is told with its group, its band and its array,
/// and with what is particular to it, to a machine as well.
pub proof fn everything_finished_is_told(a: ReconcileAction)
    ensures
        ({
            let o = reconcile::action_object(a);
            match a {
                ReconcileAction::MemberRemoved { group, band_index, md_name, member_path } => {
                    &&& has(o, "kind"@, JsonView::Text("member_removed"@))
                    &&& has(o, "group"@, JsonView::Text(group@))
                    &&& has(o, "band_index"@, JsonView::Number(band_index as int))
                    &&& has(o, "md_name"@, JsonView::Text(md_name@))
                    &&& has(o, "member_path"@, JsonView::Text(member_path@))
                    &&& text::starts_with(
                        reconcile::action_text(a),
                        "Group `"@ + group@ + "` band "@ + text::dec(band_index as nat) + " ("@
                            + md_name@ + "): removed the old disk `"@ + member_path@,
                    )
                },
                ReconcileAction::ResizeCompleted { group, band_index, md_name } => {
                    &&& has(o, "kind"@, JsonView::Text("resize_completed"@))
                    &&& has(o, "group"@, JsonView::Text(group@))
                    &&& has(o, "band_index"@, JsonView::Number(band_index as int))
                    &&& has(o, "md_name"@, JsonView::Text(md_name@))
                    &&& text::starts_with(
                        reconcile::action_text(a),
                        "Group `"@ + group@ + "` band "@ + text::dec(band_index as nat) + " ("@
                            + md_name@ + "): finished growing the storage"@,
                    )
                },
                ReconcileAction::ScrubSelfHealed { group, band_index, md_name, error_count } => {
                    &&& has(o, "kind"@, JsonView::Text("scrub_self_healed"@))
                    &&& has(o, "group"@, JsonView::Text(group@))
                    &&& has(o, "band_index"@, JsonView::Number(band_index as int))
                    &&& has(o, "md_name"@, JsonView::Text(md_name@))
                    &&& has(o, "error_count"@, JsonView::Number(error_count as int))
                    &&& text::ends_with(
                        reconcile::action_text(a),
                        "("@ + text::dec(error_count as nat) + " error(s))."@,
                    )
                },
                ReconcileAction::SpeedLimitRestored { speed_kb } => {
                    &&& has(o, "kind"@, JsonView::Text("speed_limit_restored"@))
                    &&& has(o, "speed_kb"@, JsonView::Number(speed_kb as int))
                    &&& text::starts_with(
                        reconcile::action_text(a),
                        "Restored the system's RAID speed limit to "@ + text::dec(speed_kb as nat)
                            + " KB/s"@,
                    )
                },
            }
        }),
{
    let f = reconcile::action_object(a)->Object_0;
    let t = reconcile::action_text(a);
    match a {
        ReconcileAction::MemberRemoved { group, band_index, md_name, member_path } => {
            assert(f[0] == ("kind"@, JsonView::Text("member_removed"@)));
            assert(f[1] == ("group"@, JsonView::Text(group@)));
            assert(f[2] == ("band_index"@, JsonView::Number(band_index as int)));
            assert(f[3] == ("md_name"@, JsonView::Text(md_name@)));
            assert(f[4] == ("member_path"@, JsonView::Text(member_path@)));
            let s = "Group `"@ + group@ + "` band "@ + text::dec(band_index as nat) + " ("@
                + md_name@ + "): removed the old disk `"@ + member_path@;
            assert(t.subrange(0, s.len() as int) =~= s);
        },
        ReconcileAction::ResizeCompleted { group, band_index, md_name } => {
            reveal_strlit("): finished growing the storage onto the new space -- its RAID rebuild ");
            reveal_strlit("): finished growing the storage");
            assert(f[0] == ("kind"@, JsonView::Text("resize_completed"@)));
            assert(f[1] == ("group"@, JsonView::Text(group@)));
            assert(f[2] == ("band_index"@, JsonView::Number(band_index as int)));
            assert(f[3] == ("md_name"@, JsonView::Text(md_name@)));
            let s = "Group `"@ + group@ + "` band "@ + text::dec(band_index as nat) + " ("@
                + md_name@ + "): finished growing the storage"@;
            assert(t.subrange(0, s.len() as int) =~= s);
        },
        ReconcileAction::ScrubSelfHealed { group, band_index, md_name, error_count } => {
            assert(f[0] == ("kind"@, JsonView::Text("scrub_self_healed"@)));
            assert(f[1] == ("group"@, JsonView::Text(group@)));
            assert(f[2] == ("band_index"@, JsonView::Number(band_index as int)));
            assert(f[3] == ("md_name"@, JsonView::Text(md_name@)));
            assert(f[4] == ("error_count"@, JsonView::Number(error_count as int)));
            let s = "("@ + text::dec(error_count as nat) + " error(s))."@;
            assert(t.subrange(t.len() - s.len(), t.len() as int) =~= s);
        },
        ReconcileAction::SpeedLimitRestored { speed_kb } => {
            reveal_strlit(
                " KB/s -- the rebuild or error check that had lowered it has finished.",
            );
            reveal_strlit(" KB/s");
            assert(f[0] == ("kind"@, JsonView::Text("speed_limit_restored"@)));
            assert(f[1] == ("speed_kb"@, JsonView::Number(speed_kb as int)));
            let s = "Restored the system's RAID speed limit to "@ + text::dec(speed_kb as nat)
                + " KB/s"@;
            assert(t.subrange(0, s.len() as int) =~= s);
        },
    }
}

/// A band is told as unfinished exactly when its resize is pending; what is
/// unfinished is told in one sentence behind what was done.
pub proof fn only_unfinished_bands_are_named(groups: Seq<ArrayState>, text: Seq<char>)
    ensures
        reconcile::pending_of(groups).contains(text) <==> exists|g: int, b: int|
            0 <= g < groups.len() && 0 <= b < groups[g].bands@.len() && (
            #[trigger] groups[g].bands@[b]).resize_pending && text == "`"@ + groups[g].name@
                + "` band "@ + crate::text::dec(groups[g].bands@[b].index as nat),
    decreases groups.len(),
{
    let all = reconcile::pending_of(groups);
    if groups.len() > 0 {
        let head = groups.drop_last();
        let last = groups.last();
        let before = reconcile::pending_of(head);
        let own = reconcile::pending_in(last.name@, last.bands@);
        only_unfinished_bands_are_named(head, text);
        lemma_own_pending(last.name@, last.bands@, text);
        if all.contains(text) {
            let i = choose|i: int| 0 <= i < all.len() && all[i] == text;
            if i < before.len() {
                assert(before[i] == text);
                assert(before.contains(text));
                let (g, b) = choose|g: int, b: int|
                    0 <= g < head.len() && 0 <= b < head[g].bands@.len() && (
                    #[trigger] head[g].bands@[b]).resize_pending && text == "`"@ + head[g].name@
                        + "` band "@ + crate::text::dec(head[g].bands@[b].index as nat);
                assert(groups[g] == head[g]);
                assert(groups[g].bands@[b].resize_pending);
            } else {
                assert(own[i - before.len()] == text);
                assert(own.contains(text));
                let b = choose|b: int|
                    0 <= b < last.bands@.len() && (#[trigger] last.bands@[b]).resize_pending && text
                        == "`"@ + last.name@ + "` band "@ + crate::text::dec(
                        last.bands@[b].index as nat,
                    );
                assert(groups[groups.len() - 1].bands@[b].resize_pending);
            }
        }
        if exists|g: int, b: int|
            0 <= g < groups.len() && 0 <= b < groups[g].bands@.len() && (
            #[trigger] groups[g].bands@[b]).resize_pending && text == "`"@ + groups[g].name@
                + "` band "@ + crate::text::dec(groups[g].bands@[b].index as nat) {
            let (g, b) = choose|g: int, b: int|
                0 <= g < groups.len() && 0 <= b < groups[g].bands@.len() && (
                #[trigger] groups[g].bands@[b]).resize_pending && text == "`"@ + groups[g].name@
                    + "` band "@ + crate::text::dec(groups[g].bands@[b].index as nat);
            if g < head.len() {
                assert(head[g] == groups[g]);
                assert(head[g].bands@[b].resize_pending);
                assert(before.contains(text));
                let i = choose|i: int| 0 <= i < before.len() && before[i] == text;
                assert(all[i] == text);
            } else {
                assert(last.bands@[b].resize_pending);
                assert(own.contains(text));
                let i = choose|i: int| 0 <= i < own.len() && own[i] == text;
                assert(all[before.len() + i] == text);
            }
        }
    }
}

proof fn lemma_own_pending(name: Seq<char>, bands: Seq<StateBand>, text: Seq<char>)
    ensures
        reconcile::pending_in(name, bands).contains(text) <==> exists|b: int|
            0 <= b < bands.len() && (#[trigger] bands[b]).resize_pending && text == "`"@ + name
                + "` band "@ + crate::text::dec(bands[b].index as nat),
    decreases bands.len(),
{
    let all = reconcile::pending_in(name, bands);
    if bands.len() > 0 {
        let head = bands.drop_last();
        let before = reconcile::pending_in(name, head);
        lemma_own_pending(name, head, text);
        if all.contains(text) {
            let i = choose|i: int| 0 <= i < all.len() && all[i] == text;
            if i < before.len() {
                assert(before[i] == text);
                assert(before.contains(text));
                let b = choose|b: int|
                    0 <= b < head.len() && (#[trigger] head[b]).resize_pending && text == "`"@ + name
                        + "` band "@ + crate::text::dec(head[b].index as nat);
                assert(bands[b] == head[b]);
            } else {
                assert(bands[bands.len() - 1].resize_pending);
            }
        }
        if exists|b: int|
            0 <= b < bands.len() && (#[trigger] bands[b]).resize_pending && text == "`"@ + name
                + "` band "@ + crate::text::dec(bands[b].index as nat) {
            let b = choose|b: int|
                0 <= b < bands.len() && (#[trigger] bands[b]).resize_pending && text == "`"@ + name
                    + "` band "@ + crate::text::dec(bands[b].index as nat);
            if b < head.len() {
                assert(head[b] == bands[b]);
                assert(before.contains(text));
                let i = choose|i: int| 0 <= i < before.len() && before[i] == text;
                assert(all[i] == text);
            } else {
                assert(all[all.len() - 1] == text);
            }
        }
    }
}

/// Behind what was done stands what is still unfinished; where there is neither
/// it is told that nothing was left, and a host without a group is told as one.
pub proof fn the_rest_is_told_behind_what_was_done(
    performed: Seq<ReconcileAction>,
    groups: Seq<ArrayState>,
    state: JsonView,
)
    ensures
        ({
            let lines = reconcile::report_lines(performed, groups);
            let pending = reconcile::pending_of(groups);
            &&& pending.len() > 0 ==> lines.len() == performed.len() + 1 && lines.last()
                == "Still rebuilding, so the expansion stays unfinished for now: "@ + text::joined(
                pending,
                ", "@,
            ) + "."@
            &&& pending.len() == 0 && performed.len() == 0 ==> lines == seq![
                "Nothing left to finish."@,
            ]
            &&& pending.len() == 0 && performed.len() > 0 ==> lines.len() == performed.len()
        }),
        reconcile::reconciled_view(false, None, state) == AnswerView::Lines(
            seq!["No storage group found."@],
        ),
        has(
            object_of(reconcile::reconciled_view(true, None, state)),
            "error"@,
            JsonView::Text("no active array"@),
        ),
{
    let o = object_of(reconcile::reconciled_view(true, None, state))->Object_0;
    assert(o[0] == ("error"@, JsonView::Text("no active array"@)));
    if performed.len() == 0 {
        assert(reconcile::action_texts(performed) =~= Seq::empty());
        assert(reconcile::report_lines(performed, groups) =~= reconcile::closing(
            0,
            reconcile::pending_of(groups),
        ));
    }
}

// ---------------------------------------------------------------------------
// Progress
// ---------------------------------------------------------------------------

/// Progress is told with the operation, the stage and the message, and with the
/// percentage, rounded, where it is known.
pub proof fn progress_is_told(u: ProgressUpdate)
    ensures
        u.percent is None ==> crate::sink::update_text(u) == "["@ + u.operation@ + "] "@ + u.stage@
            + ": "@ + u.message@ + "\n"@,
        u.percent is Some ==> crate::sink::update_text(u) == "["@ + u.operation@ + "] "@ + u.stage@
            + " ("@ + crate::figures::rounded_text(u.percent->0) + "%): "@ + u.message@ + "\n"@,
        answers::note_text(u) == "["@ + u.operation@ + "] "@ + u.stage@ + ": "@ + u.message@,
{
}

} // verus!
