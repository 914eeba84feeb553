//! The gates before anything that cannot be undone: the typed group name, and
//! the decision about the RAID markers that a destroyed group leaves behind.

use vstd::prelude::*;
use crate::inventory::{ArrayState, StateFile};
use crate::ops;
use crate::text;

verus! {

// ---------------------------------------------------------------------------
// Planned commands
// ---------------------------------------------------------------------------

/// The commands, each on a line of its own.
pub open spec fn command_lines(commands: Seq<Seq<char>>) -> Seq<char>
    decreases commands.len(),
{
    if commands.len() == 0 {
        Seq::empty()
    } else {
        command_lines(commands.drop_last()) + "  "@ + commands.last() + "\n"@
    }
}

/// A list of planned commands, in the order in which they would run.
pub open spec fn planned_text(commands: Seq<Seq<char>>) -> Seq<char> {
    "Planned commands:\n"@ + command_lines(commands)
}

/// Human-readable rendering of a list of planned commands, in the exact order
/// in which they would run.
pub fn render_planned_commands_text(commands: &[String]) -> (out: String)
    ensures
        out@ == planned_text(text::views(commands@)),
{
    let ghost all = text::views(commands@);
    let ghost head = "Planned commands:\n"@;
    let mut out = "Planned commands:\n".to_owned();
    let mut i: usize = 0;
    assert(all.take(0) =~= Seq::empty());
    assert(head + Seq::<char>::empty() =~= head);
    while i < commands.len()
        invariant
            i <= commands.len(),
            all == text::views(commands@),
            out@ == head + command_lines(all.take(i as int)),
        decreases commands.len() - i,
    {
        let ghost so_far = command_lines(all.take(i as int));
        out.append("  ");
        out.append(commands[i].as_str());
        out.append("\n");
        proof {
            let more = all.take(i + 1);
            assert(more.drop_last() =~= all.take(i as int));
            assert(more.last() == commands@[i as int]@);
            assert(out@ =~= head + (so_far + "  "@ + commands@[i as int]@ + "\n"@));
        }
        i = i + 1;
    }
    assert(all.take(i as int) =~= all);
    out
}

/// The first group of that name, or the first of all where no name is given.
pub open spec fn meant_group(name: Option<Seq<char>>, groups: Seq<ArrayState>) -> Option<
    ArrayState,
>
    decreases groups.len(),
{
    if groups.len() == 0 {
        None
    } else {
        match name {
            None => Some(groups[0]),
            Some(n) => if groups[0].name@ == n {
                Some(groups[0])
            } else {
                meant_group(name, groups.subrange(1, groups.len() as int))
            },
        }
    }
}

/// The line about mounting with the new compression.
pub open spec fn remount_text(compression: Seq<char>, mount: Seq<char>) -> Seq<char> {
    "mount -o remount,compress="@ + compression + " "@ + mount
}

fn remount(compression: &str, mount: &str) -> (out: String)
    ensures
        out@ == remount_text(compression@, mount@),
{
    let mut out = "mount -o remount,compress=".to_owned();
    out.append(compression);
    out.append(" ");
    out.append(mount);
    out
}

/// The line about rewriting the data.
pub open spec fn defragment_text(mount: Seq<char>) -> Seq<char> {
    "btrfs filesystem defragment -r "@ + mount
        + "  (rewrites EVERY file's data extents at the new compression level; if "@
        + "`@snapshots` exist, this breaks their extent sharing with `@` and can "@
        + "sharply increase used space)"@
}

fn defragment(mount: &str) -> (out: String)
    ensures
        out@ == defragment_text(mount@),
{
    let mut out = "btrfs filesystem defragment -r ".to_owned();
    out.append(mount);
    out.append("  (rewrites EVERY file's data extents at the new compression level; if ");
    out.append("`@snapshots` exist, this breaks their extent sharing with `@` and can ");
    out.append("sharply increase used space)");
    out
}

/// The line about recording the new compression.
pub open spec fn fstab_update_text(group: Seq<char>) -> Seq<char> {
    "update `compress=` in /etc/fstab for group `"@ + group + "`"@
}

fn fstab_update(group: &str) -> (out: String)
    ensures
        out@ == fstab_update_text(group@),
{
    let mut out = "update `compress=` in /etc/fstab for group `".to_owned();
    out.append(group);
    out.append("`");
    out
}

/// What a recompression changes, in words: nothing where the group is not
/// known.
pub open spec fn recompress_plan(
    name: Option<Seq<char>>,
    groups: Seq<ArrayState>,
    group: Seq<char>,
    compression: Seq<char>,
) -> Seq<Seq<char>> {
    match meant_group(name, groups) {
        Some(g) => seq![
            remount_text(compression, g.filesystem.mount_point@),
            defragment_text(g.filesystem.mount_point@),
            fstab_update_text(group),
        ],
        None => Seq::empty(),
    }
}

fn find_meant(state: Option<&StateFile>, name: Option<&str>) -> (r: Option<usize>)
    ensures
        r is Some <==> meant_group(text::opt_view(name), ops::recorded(state)) is Some,
        r matches Some(i) ==> i < ops::recorded(state).len() && meant_group(
            text::opt_view(name),
            ops::recorded(state),
        ) == Some(ops::recorded(state)[i as int]),
{
    match state {
        None => None,
        Some(s) => {
            let ghost all = s.groups@;
            let mut i: usize = 0;
            assert(all.subrange(0, all.len() as int) =~= all);
            while i < s.groups.len()
                invariant
                    all == s.groups@,
                    all == ops::recorded(state),
                    i <= all.len(),
                    i > 0 ==> name is Some,
                    meant_group(text::opt_view(name), all) == meant_group(
                        text::opt_view(name),
                        all.subrange(i as int, all.len() as int),
                    ),
                decreases all.len() - i,
            {
                let ghost rest = all.subrange(i as int, all.len() as int);
                assert(rest[0] == all[i as int]);
                assert(rest.subrange(1, rest.len() as int) =~= all.subrange(
                    i + 1,
                    all.len() as int,
                ));
                match name {
                    None => {
                        return Some(i);
                    },
                    Some(n) => {
                        if text::same(s.groups[i].name.as_str(), n) {
                            return Some(i);
                        }
                    },
                }
                i = i + 1;
            }
            None
        },
    }
}

/// What a recompression changes and why it cannot be undone, in words: a
/// summary to confirm, not a replay of the commands.
pub fn recompress_planned_commands(
    state: Option<&StateFile>,
    name: Option<&str>,
    group: &str,
    compression: &str,
) -> (r: Vec<String>)
    ensures
        text::views(r@) == recompress_plan(
            text::opt_view(name),
            ops::recorded(state),
            group@,
            compression@,
        ),
{
    let mut r: Vec<String> = Vec::new();
    assert(text::views(r@) =~= Seq::empty());
    let found: Option<usize> = find_meant(state, name);
    match (found, state) {
        (Some(i), Some(s)) => {
            let mount = s.groups[i].filesystem.mount_point.as_str();
            text::add_line(&mut r, remount(compression, mount));
            text::add_line(&mut r, defragment(mount));
            text::add_line(&mut r, fstab_update(group));
            assert(text::views(r@) =~= recompress_plan(
                text::opt_view(name),
                ops::recorded(state),
                group@,
                compression@,
            ));
        },
        _ => {},
    }
    r
}

// ---------------------------------------------------------------------------
// The typed name
// ---------------------------------------------------------------------------

/// Whether the operator has to type the group's name: an explicit consent
/// beforehand and an input that nobody sits at both stand for it.
pub open spec fn must_ask(yes: bool, interactive: bool) -> bool {
    !yes && interactive
}

/// A typed line without its line end.
pub open spec fn without_line_end(s: Seq<char>) -> Seq<char>
    decreases s.len(),
{
    if s.len() > 0 && (s.last() == '\n' || s.last() == '\r') {
        without_line_end(s.drop_last())
    } else {
        s
    }
}

/// The warning that what follows cannot be undone.
pub open spec fn irreversible_text(group: Seq<char>, operation: Seq<char>) -> Seq<char> {
    "This will make real, IRREVERSIBLE changes to group `"@ + group + "` ("@ + operation
        + ") -- it cannot be undone once started.\nType the group name (`"@ + group
        + "`) to confirm, anything else cancels: "@
}

fn irreversible(group: &str, operation: &str) -> (out: String)
    ensures
        out@ == irreversible_text(group@, operation@),
{
    let mut out = "This will make real, IRREVERSIBLE changes to group `".to_owned();
    out.append(group);
    out.append("` (");
    out.append(operation);
    out.append(") -- it cannot be undone once started.\nType the group name (`");
    out.append(group);
    out.append("`) to confirm, anything else cancels: ");
    out
}

/// The sentence about a name that was not typed.
pub open spec fn mismatch_text(group: Seq<char>, operation: Seq<char>) -> Seq<char> {
    operation + " of group `"@ + group + "` cancelled: confirmation text did not match"@
}

fn mismatch(group: &str, operation: &str) -> (out: String)
    ensures
        out@ == mismatch_text(group@, operation@),
{
    let mut out = operation.to_owned();
    out.append(" of group `");
    out.append(group);
    out.append("` cancelled: confirmation text did not match");
    out
}

/// What is shown before the name is typed: the planned commands, the warning
/// and the question.
pub open spec fn prompt_text(group: Seq<char>, commands: Seq<Seq<char>>, operation: Seq<char>) ->
    Seq<char> {
    planned_text(commands) + irreversible_text(group, operation)
}

/// What is shown before the name is typed; nothing where it has not to be.
pub fn confirmation_prompt(
    expected_name: &str,
    planned_commands: &[String],
    yes: bool,
    operation: &str,
    interactive: bool,
) -> (r: Option<String>)
    ensures
        r is Some <==> must_ask(yes, interactive),
        r matches Some(s) ==> s@ == prompt_text(
            expected_name@,
            text::views(planned_commands@),
            operation@,
        ),
{
    if yes || !interactive {
        return None;
    }
    let mut out = render_planned_commands_text(planned_commands);
    out.append(irreversible(expected_name, operation).as_str());
    Some(out)
}

/// `s` without its line end.
fn cut_line_end(s: &str) -> (r: &str)
    ensures
        r@ == without_line_end(s@),
{
    let len: usize = s.unicode_len();
    let mut to: usize = len;
    assert(s@.subrange(0, len as int) =~= s@);
    while to > 0 && (s.get_char(to - 1) == '\n' || s.get_char(to - 1) == '\r')
        invariant
            len == s@.len(),
            to <= len,
            without_line_end(s@) == without_line_end(s@.subrange(0, to as int)),
        decreases to,
    {
        assert(s@.subrange(0, to as int).drop_last() =~= s@.subrange(0, to - 1));
        to = to - 1;
    }
    s.substring_char(0, to)
}

/// The confirmation of a destructive operation. Consent given beforehand, or an
/// input that nobody sits at, stands for it without a look at `line`; otherwise
/// `line`, what the operator typed, has to be the group's exact name. Only its
/// line end is insignificant.
pub fn require_typed_confirmation(
    expected_name: &str,
    yes: bool,
    operation: &str,
    interactive: bool,
    line: &str,
) -> (r: Result<(), String>)
    ensures
        r is Ok <==> !must_ask(yes, interactive) || without_line_end(line@) == expected_name@,
        r matches Err(m) ==> m@ == mismatch_text(expected_name@, operation@),
{
    if yes || !interactive {
        return Ok(());
    }
    let typed = cut_line_end(line);
    if !text::same(typed, expected_name) {
        return Err(mismatch(expected_name, operation));
    }
    Ok(())
}

// ---------------------------------------------------------------------------
// The RAID markers
// ---------------------------------------------------------------------------

/// What becomes of the decision about the RAID markers.
pub enum MarkerDecision {
    /// Erase them.
    Erase,
    /// Leave them in place.
    Leave,
    /// Both flags were given.
    Contradiction,
    /// Nobody decided, and nobody can be asked.
    Undecided,
    /// The operator gave no clear answer.
    Unclear(Seq<char>),
}

/// The decision about the RAID markers, from the two flags and, where neither
/// is given, from what the operator typed. There is no default.
pub open spec fn marker_decision(
    zero: bool,
    no_zero: bool,
    yes: bool,
    interactive: bool,
    line: Seq<char>,
) -> MarkerDecision {
    let answer = text::trimmed(line);
    if zero && no_zero {
        MarkerDecision::Contradiction
    } else if zero {
        MarkerDecision::Erase
    } else if no_zero {
        MarkerDecision::Leave
    } else if !must_ask(yes, interactive) {
        MarkerDecision::Undecided
    } else if answer == "yes"@ || answer == "y"@ {
        MarkerDecision::Erase
    } else if answer == "no"@ || answer == "n"@ {
        MarkerDecision::Leave
    } else {
        MarkerDecision::Unclear(answer)
    }
}

/// The error for both flags at once.
pub open spec fn contradiction_text() -> Seq<char> {
    "--zero-superblocks and --no-zero-superblocks cannot both be given"@
}

/// The error where nobody decided and nobody can be asked; it names both flags.
pub open spec fn undecided_text() -> Seq<char> {
    "destroy needs an explicit decision about the RAID markers on these "@
        + "disks: pass --zero-superblocks to erase them (disks left blank) or "@
        + "--no-zero-superblocks to leave them in place (recoverable by hand). "@
        + "Either way the array is recorded so it is never auto-assembled again."@
}

fn undecided() -> (out: String)
    ensures
        out@ == undecided_text(),
{
    let mut out = "destroy needs an explicit decision about the RAID markers on these ".to_owned();
    out.append("disks: pass --zero-superblocks to erase them (disks left blank) or ");
    out.append("--no-zero-superblocks to leave them in place (recoverable by hand). ");
    out.append("Either way the array is recorded so it is never auto-assembled again.");
    out
}

/// The question to the operator.
pub open spec fn markers_question_text() -> Seq<char> {
    "Erase the RAID markers on these disks as well?\n  yes -- the disks are "@
        + "left completely blank\n  no  -- the markers stay, so the old arrangement "@
        + "can still be pieced back together by hand\nType `yes` or `no`: "@
}

fn markers_question() -> (out: String)
    ensures
        out@ == markers_question_text(),
{
    let mut out = "Erase the RAID markers on these disks as well?\n  yes -- the disks are ".to_owned();
    out.append("left completely blank\n  no  -- the markers stay, so the old arrangement ");
    out.append("can still be pieced back together by hand\nType `yes` or `no`: ");
    out
}

/// The sentence about an answer that is neither yes nor no.
pub open spec fn unclear_text(answer: Seq<char>) -> Seq<char> {
    "destroy cancelled: expected `yes` or `no` for the RAID marker decision, "@ + "got `"@
        + answer + "`"@
}

fn unclear(answer: &str) -> (out: String)
    ensures
        out@ == unclear_text(answer@),
{
    let mut out = "destroy cancelled: expected `yes` or `no` for the RAID marker decision, ".to_owned();
    out.append("got `");
    out.append(answer);
    out.append("`");
    out
}

/// The question to the operator; none where the flags decide, or where nobody
/// can be asked.
pub fn markers_prompt(zero: bool, no_zero: bool, yes: bool, interactive: bool) -> (r: Option<
    String,
>)
    ensures
        r is Some <==> !zero && !no_zero && must_ask(yes, interactive),
        r matches Some(s) ==> s@ == markers_question_text(),
{
    if zero || no_zero || yes || !interactive {
        None
    } else {
        Some(markers_question())
    }
}

/// Decide whether destroying a group also erases the RAID markers on its
/// disks. `line` is what the operator typed; it counts only where
/// [`markers_prompt`] asks.
pub fn resolve_zero_superblocks(
    zero: bool,
    no_zero: bool,
    yes: bool,
    interactive: bool,
    line: &str,
) -> (r: Result<bool, String>)
    ensures
        match marker_decision(zero, no_zero, yes, interactive, line@) {
            MarkerDecision::Erase => r == Ok::<bool, String>(true),
            MarkerDecision::Leave => r == Ok::<bool, String>(false),
            MarkerDecision::Contradiction => r matches Err(m) && m@ == contradiction_text(),
            MarkerDecision::Undecided => r matches Err(m) && m@ == undecided_text(),
            MarkerDecision::Unclear(answer) => r matches Err(m) && m@ == unclear_text(answer),
        },
{
    if zero && no_zero {
        return Err("--zero-superblocks and --no-zero-superblocks cannot both be given".to_owned());
    }
    if zero {
        return Ok(true);
    }
    if no_zero {
        return Ok(false);
    }
    if yes || !interactive {
        return Err(undecided());
    }
    let answer = text::trim(line);
    if text::same(answer, "yes") || text::same(answer, "y") {
        Ok(true)
    } else if text::same(answer, "no") || text::same(answer, "n") {
        Ok(false)
    } else {
        Err(unclear(answer))
    }
}

/// Without one of the two flags nothing is ever decided for somebody who was
/// not asked.
pub proof fn markers_are_never_decided_by_default(yes: bool, interactive: bool, line: Seq<char>)
    requires
        !must_ask(yes, interactive),
    ensures
        marker_decision(false, false, yes, interactive, line) is Undecided,
{
}

/// Where a flag decides, what is typed has no part in it.
pub proof fn marker_flags_are_taken_at_face_value(
    zero: bool,
    yes: bool,
    interactive: bool,
    line: Seq<char>,
)
    ensures
        marker_decision(zero, !zero, yes, interactive, line) == if zero {
            MarkerDecision::Erase
        } else {
            MarkerDecision::Leave
        },
{
}

} // verus!
