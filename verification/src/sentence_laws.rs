//! What is said to the operator, in full: the questions, the refusals and the
//! warnings, with every name and figure in its place.

use vstd::prelude::*;
use crate::answers;
use crate::answers::AnswerView;
use crate::band;
use crate::band::{BandError, BandView};
use crate::confirm;
use crate::detail;
use crate::dry_run;
use crate::expansion;
use crate::expansion::SnapshotView;
use crate::figures;
use crate::inventory::{ChunkUsage, StateDisk, StateFile};
use crate::json::{Json, JsonView};
use crate::json_laws::{has, width};
use crate::ops;
use crate::ops::ShrError;
use crate::plan_view;
use crate::planner;
use crate::planner::PlanError;
use crate::preflight;
use crate::preflight::{Blocker, WritePreflight};
use crate::raid::{RaidLevel, RedundancyMode};
use crate::reconcile;
use crate::reconcile::ReconcileAction;
use crate::render;
use crate::report::{
    DiskStatus, FsDfReport, GroupBandStatus, GroupStatus, MetricsReport, PlanReport, ScrubOutcome,
    StatusReport,
};
use crate::schedule;
use crate::schedule::TaskView;
use crate::sink::ProgressUpdate;
use crate::status;
use crate::table;
use crate::text;
use crate::watch;
use crate::workflow;
use crate::workflow::Operation;

verus! {

/// The name of a level in a refusal.
pub open spec fn name_of(level: RaidLevel) -> Seq<char> {
    match level {
        RaidLevel::Raid1 => "Raid1"@,
        RaidLevel::Raid5 => "Raid5"@,
        RaidLevel::Raid6 => "Raid6"@,
    }
}

/// The name of a mode in a refusal.
pub open spec fn mode_of(mode: RedundancyMode) -> Seq<char> {
    match mode {
        RedundancyMode::Shr => "Shr"@,
        RedundancyMode::Shr2 => "Shr2"@,
    }
}

/// How an error check ended.
pub open spec fn ended(o: ScrubOutcome) -> Seq<char> {
    match o {
        ScrubOutcome::Completed => "completed"@,
        ScrubOutcome::Cancelled => "cancelled"@,
        ScrubOutcome::Failed => "FAILED"@,
    }
}

/// What the operator is asked, and told where the answer does not decide.
pub proof fn what_the_operator_is_asked(
    group: Seq<char>,
    operation: Seq<char>,
    answer: Seq<char>,
)
    ensures
        confirm::irreversible_text(group, operation)
            == "This will make real, IRREVERSIBLE changes to group `"@ + group + "` ("@ + operation
            + ") -- it cannot be undone once started.\nType the group name (`"@ + group
            + "`) to confirm, anything else cancels: "@,
        confirm::mismatch_text(group, operation) == operation + " of group `"@ + group
            + "` cancelled: confirmation text did not match"@,
        confirm::markers_question_text()
            == "Erase the RAID markers on these disks as well?\n  yes -- the disks are "@
            + "left completely blank\n  no  -- the markers stay, so the old arrangement "@
            + "can still be pieced back together by hand\nType `yes` or `no`: "@,
        confirm::unclear_text(answer)
            == "destroy cancelled: expected `yes` or `no` for the RAID marker decision, "@
            + "got `"@ + answer + "`"@,
        confirm::contradiction_text()
            == "--zero-superblocks and --no-zero-superblocks cannot both be given"@,
        confirm::undecided_text()
            == "destroy needs an explicit decision about the RAID markers on these "@
            + "disks: pass --zero-superblocks to erase them (disks left blank) or "@
            + "--no-zero-superblocks to leave them in place (recoverable by hand). "@
            + "Either way the array is recorded so it is never auto-assembled again."@,
{
}

/// What a recompression is announced as: the two commands it runs, and what it
/// writes to the table of mounts.
pub proof fn what_a_recompression_does(
    group: Seq<char>,
    compression: Seq<char>,
    mount: Seq<char>,
)
    ensures
        confirm::remount_text(compression, mount) == "mount -o remount,compress="@ + compression
            + " "@ + mount,
        confirm::defragment_text(mount) == "btrfs filesystem defragment -r "@ + mount
            + "  (rewrites EVERY file's data extents at the new compression level; if "@
            + "`@snapshots` exist, this breaks their extent sharing with `@` and can "@
            + "sharply increase used space)"@,
        confirm::fstab_update_text(group) == "update `compress=` in /etc/fstab for group `"@
            + group + "`"@,
{
}

/// What the status says beside the report: that a lowered speed limit was left
/// behind, and why a watch is refused.
pub proof fn what_the_status_says(saved_kb: nat)
    ensures
        status::left_behind_text(saved_kb)
            == "warning: shr-rs still holds the host-wide sync speed limit ("@ + text::dec(saved_kb)
            + " KB/s was here before), but nothing is syncing -- run `shr-rs "@
            + "reconcile` to put it back"@,
        status::watch_json_text()
            == "`status --watch` cannot be combined with --json -- run `status --json` "@
            + "(without --watch) on your own interval instead"@,
        status::watch_redirected_text()
            == "`status --watch` needs a real terminal, and this output is redirected "@
            + "-- for scripts or piped output, run `status --detail` on your own "@
            + "interval instead, e.g. `watch -n2 shr-rs status --detail`"@,
{
}

/// The status is shown in detail where that was asked for, and otherwise in
/// summary; the warning about a speed limit that was left behind comes last.
pub proof fn the_status_is_shown_as_asked(saved: Option<u64>, r: StatusReport)
    ensures
        status::stale_limit(saved, r.groups@) is None ==> status::shown_text(true, saved, r)
            == text::lines(detail::detail_lines(r)) && status::shown_text(false, saved, r)
            == text::lines(render::status_lines(r)),
        status::stale_limit(saved, r.groups@) matches Some(w) ==> status::shown_text(true, saved, r)
            == text::lines(detail::detail_lines(r)) + w + "\n"@ && status::shown_text(
            false,
            saved,
            r,
        ) == text::lines(render::status_lines(r)) + w + "\n"@,
{
}

/// The saved speed limit is the one in the state file; without a state file
/// there is none.
pub proof fn the_saved_limit_is_that_of_the_state(s: &StateFile)
    ensures
        status::saved_limit(Some(s)) == s.saved_speed_limit_max_kb,
        status::saved_limit(None) is None,
{
}

/// What the loop says before its first tick, what is said of errors that were
/// found, and what a timer says that was not its turn.
pub proof fn what_runs_say(state_path: Seq<char>, group: Seq<char>, errors: nat)
    ensures
        answers::daemon_banner_text(state_path)
            == "shr-rs daemon: this is NOT a monitoring daemon. It only reprints each "@
            + "group's status from "@ + state_path
            + " every 10 seconds until you stop it (Ctrl-C) -- it detects nothing and "@
            + "acts on nothing. To set up the routine background work that keeps a "@
            + "group healthy (error checks, rebuild throttling, health checks, "@
            + "snapshots), run `shr-rs schedule install` instead."@,
        answers::scrub_errors_text(group, errors) == "scrub found "@ + text::dec(errors)
            + " error(s) in group `"@ + group + "`"@,
        answers::skipped_line()
            == "another shr-rs command is working on the state file right now; "@
            + "skipping this run (lock: "@ + "/var/lib/shr-rs/.shr-rs.lock"@ + ")"@,
{
}

/// Every update has its note, and every disk its line of health, in its place.
pub proof fn every_update_and_every_disk_has_its_line(
    updates: Seq<ProgressUpdate>,
    disks: Seq<DiskStatus>,
    i: int,
)
    ensures
        answers::note_texts(updates).len() == updates.len(),
        0 <= i < updates.len() ==> answers::note_texts(updates)[i] == "["@ + updates[i].operation@
            + "] "@ + updates[i].stage@ + ": "@ + updates[i].message@,
        answers::smart_line_texts(disks).len() == disks.len(),
        0 <= i < disks.len() ==> answers::smart_line_texts(disks)[i] == answers::smart_line_text(
            disks[i],
        ),
{
}

/// Every blocker is told in its own words, and a name is a disk's exactly if a
/// disk of the host has it.
pub proof fn blockers_and_names_are_the_hosts(
    blockers: Seq<Blocker>,
    disks: Seq<String>,
    name: Seq<char>,
)
    ensures
        preflight::blocker_texts(blockers).len() == blockers.len(),
        forall|i: int|
            0 <= i < blockers.len() ==> #[trigger] preflight::blocker_texts(blockers)[i]
                == blockers[i].text@,
        preflight::is_kernel_name(disks, name) <==> exists|i: int|
            0 <= i < disks.len() && (#[trigger] disks[i])@ == name,
{
    let names = text::views(disks);
    if preflight::is_kernel_name(disks, name) {
        let i = choose|i: int| 0 <= i < names.len() && names[i] == name;
        assert(disks[i]@ == name);
    }
    if exists|i: int| 0 <= i < disks.len() && (#[trigger] disks[i])@ == name {
        let i = choose|i: int| 0 <= i < disks.len() && (#[trigger] disks[i])@ == name;
        assert(names[i] == name);
    }
}

/// A dry run says what would come out, then every planned command, then how
/// the disks would be laid out.
pub proof fn a_dry_run_says_everything(
    first: Seq<char>,
    commands: Seq<Seq<char>>,
    diagram: Seq<char>,
    last: Seq<char>,
)
    ensures
        dry_run::dry_run_text(first, Seq::empty(), diagram) == first + "\n"@
            + "Planned commands:\n"@ + diagram,
        dry_run::dry_run_text(first, commands.push(last), Seq::empty()) == dry_run::dry_run_text(
            first,
            commands,
            Seq::empty(),
        ) + "  "@ + last + "\n"@,
        dry_run::dry_run_text(first, commands, diagram) == dry_run::dry_run_text(
            first,
            commands,
            Seq::empty(),
        ) + diagram,
{
    assert(commands.push(last).drop_last() =~= commands);
    assert(dry_run::dry_run_text(first, Seq::empty(), diagram) =~= first + "\n"@
        + "Planned commands:\n"@ + diagram);
    assert(dry_run::dry_run_text(first, commands.push(last), Seq::empty())
        =~= dry_run::dry_run_text(first, commands, Seq::empty()) + "  "@ + last + "\n"@);
    assert(dry_run::dry_run_text(first, commands, diagram) =~= dry_run::dry_run_text(
        first,
        commands,
        Seq::empty(),
    ) + diagram);
}

/// A dry run plans with the recorded disks, at their recorded sizes.
pub proof fn dry_runs_take_the_recorded_disks(disks: Seq<StateDisk>, i: int)
    ensures
        dry_run::recorded_drives(disks).len() == disks.len(),
        0 <= i < disks.len() ==> dry_run::recorded_drives(disks)[i].0 == disks[i].id@
            && dry_run::recorded_drives(disks)[i].1 == disks[i].size_bytes,
{
}

/// An error is told by what caused it: the inspection's own words, or those of
/// the planner.
pub proof fn errors_say_what_caused_them(e: ShrError, p: PlanError)
    ensures
        e matches ShrError::Inspect(why) ==> ops::shr_error_text(e) == why@,
        ops::shr_error_text(ShrError::Plan(p)) == planner::plan_fault_text(p@),
{
}

/// Of a filesystem's figures each is read from its own place.
pub proof fn figures_are_read_from_their_places(c: ChunkUsage, avail: Option<u64>)
    ensures
        ({
            let u = ops::usage_read(Some(c), avail);
            &&& u.data_used_bytes == c.data_used_bytes
            &&& u.data_total_bytes == c.data_total_bytes
            &&& u.metadata_used_bytes == c.metadata_used_bytes
            &&& u.metadata_total_bytes == c.metadata_total_bytes
            &&& u.unallocated_bytes == c.unallocated_bytes
            &&& u.statvfs_avail_bytes == avail
        }),
        ({
            let u = ops::usage_read(None, avail);
            &&& u.data_used_bytes is None
            &&& u.data_total_bytes is None
            &&& u.metadata_used_bytes is None
            &&& u.metadata_total_bytes is None
            &&& u.unallocated_bytes is None
            &&& u.statvfs_avail_bytes == avail
        }),
{
}

/// The inventory counts the disks in its heading and gives each its row.
pub proof fn the_inventory_lists_every_disk(r: StatusReport, i: int)
    ensures
        render::inventory_lines(r).len() == r.disks@.len() + 1,
        render::inventory_lines(r)[0] == render::inventory_header(r.disks@.len()),
        0 <= i < r.disks@.len() ==> render::inventory_lines(r)[i + 1] == render::inventory_row(
            r.disks@[i],
        ),
        render::inventory_header(r.disks@.len()) == "Disks ("@ + text::dec(r.disks@.len()) + "):  "@
            + text::left_aligned("NODE"@, 10) + text::left_aligned("ID"@, 26)
            + text::right_aligned("SIZE"@, 10) + "  "@ + text::left_aligned("MODEL"@, 24)
            + text::left_aligned("SERIAL"@, 16) + text::left_aligned("ROTA"@, 6)
            + text::left_aligned("SYSTEM"@, 8) + "ARRAYS"@,
{
}

/// What is said of the last error check of a band, and of a member whose
/// replacement is still being copied.
pub proof fn what_is_said_of_checks_and_removals(b: GroupBandStatus, name: String)
    ensures
        b.last_scrub is None && !b.scrub_in_progress ==> detail::scrub_text(b)
            == "last scrub: never"@,
        b.last_scrub is None && b.scrub_in_progress ==> detail::scrub_text(b)
            == "scrub running; "@ + "last scrub: never"@,
        b.last_scrub matches Some(s) ==> ({
            let told = "last scrub "@ + ended(s.outcome) + " at "@ + s.finished_at@ + " ("@
                + text::dec(s.error_count as nat) + " errors)"@;
            &&& !b.scrub_in_progress ==> detail::scrub_text(b) == told
            &&& b.scrub_in_progress ==> detail::scrub_text(b) == "scrub running; "@ + told
        }),
        detail::removal_text(Some(name)) == "  pending-removal: "@ + name@
            + " (its replace copy is still finishing -- not a new fault)"@,
        detail::removal_text(None) == Seq::<char>::empty(),
{
    reveal_strlit("");
    assert(""@ =~= Seq::<char>::empty());
    if b.last_scrub is None {
        assert(""@ + "last scrub: never"@ =~= "last scrub: never"@);
    } else {
        let s = b.last_scrub->0;
        let told = "last scrub "@ + ended(s.outcome) + " at "@ + s.finished_at@ + " ("@
            + text::dec(s.error_count as nat) + " errors)"@;
        if b.scrub_in_progress {
            assert(detail::scrub_text(b) =~= "scrub running; "@ + told);
        } else {
            assert(detail::scrub_text(b) =~= told);
        }
    }
}

/// The totals of a plan are told under their names.
pub proof fn the_totals_are_told_by_name(m: MetricsReport)
    ensures
        plan_view::totals_text(m) == "  Usable "@ + figures::bytes_text(m.total_usable as nat)
            + "   Parity "@ + figures::bytes_text(m.redundancy_overhead as nat) + "   Stranded "@
            + figures::bytes_text(m.stranded_bytes as nat) + "   Raw "@ + figures::bytes_text(
            m.total_raw as nat,
        ),
{
}

/// A file that only looks like one of this program's is named in the warning.
pub proof fn lookalikes_are_named(paths: Seq<Seq<char>>, i: int)
    ensures
        schedule::lookalike_warnings(paths).len() == paths.len(),
        0 <= i < paths.len() ==> schedule::lookalike_warnings(paths)[i] == "warning: `"@ + paths[i]
            + "` looks like a shr-rs error-check unit for a group that no longer "@
            + "exists, but carries no shr-rs ownership marker -- left untouched (looks "@
            + "hand-written)"@,
{
}

/// What is said of a layout that contradicts itself.
pub proof fn what_is_said_of_a_broken_layout(
    s: SnapshotView,
    mode: RedundancyMode,
    b: BandView,
    id: Seq<char>,
    size: u64,
    expected: u64,
)
    requires
        b.offset + b.size <= u64::MAX,
    ensures
        expansion::twin_text(id) == "duplicate disk id "@ + id,
        expansion::twin_index_text(b.index) == "duplicate band_index "@ + text::dec(b.index as nat),
        expansion::few_members_text(mode, b) == "band "@ + text::dec(b.index as nat) + " has "@
            + text::dec(b.members.len()) + " members, below the "@ + mode_of(mode) + " minimum "@
            + text::dec(
            if mode is Shr {
                2
            } else {
                4
            },
        ),
        expansion::wrong_level_text(mode, b) == "band "@ + text::dec(b.index as nat) + " level "@
            + name_of(b.level) + " violates "@ + mode_of(mode) + " policy for "@ + text::dec(
            b.members.len(),
        ) + " members"@,
        expansion::gap_text(b, expected) == "band "@ + text::dec(b.index as nat) + " offset "@
            + text::dec(b.offset as nat) + " is not contiguous (expected "@ + text::dec(
            expected as nat,
        ) + ")"@,
        expansion::unlisted_text(b, id) == "band "@ + text::dec(b.index as nat) + " member "@ + id
            + " is not in the disk list"@,
        s.reserved_head + s.reserved_tail <= size ==> expansion::too_small_text(s, b, id, size)
            == "disk "@ + id + " (size "@ + text::dec(size as nat) + ", usable "@ + text::dec(
            (size - s.reserved_head - s.reserved_tail) as nat,
        ) + " after "@ + text::dec(s.reserved_head as nat) + " reserved_head + "@ + text::dec(
            s.reserved_tail as nat,
        ) + " reserved_tail) is too small for band "@ + text::dec(b.index as nat) + " extent "@
            + text::dec((b.offset + b.size) as nat),
{
}

/// What is said of an expansion that would take something away.
pub proof fn what_is_said_of_an_unsafe_expansion(
    b: BandView,
    t: BandView,
    id: Seq<char>,
    top: u64,
)
    ensures
        expansion::new_twin_text(id) == "new disk id "@ + id
            + " is duplicated or already in the array"@,
        expansion::vanish_text(b) == "band "@ + text::dec(b.index as nat)
            + " would disappear after replanning"@,
        expansion::reslice_text(b, t) == "band "@ + text::dec(b.index as nat)
            + " geometry would change ("@ + text::dec(b.offset as nat) + "+"@ + text::dec(
            b.size as nat,
        ) + " -> "@ + text::dec(t.offset as nat) + "+"@ + text::dec(t.size as nat)
            + "); re-slicing existing bands is not allowed"@,
        expansion::downgrade_text(b, t) == "band "@ + text::dec(b.index as nat)
            + " would downgrade "@ + name_of(b.level) + " -> "@ + name_of(t.level),
        expansion::lose_text(b, id) == "band "@ + text::dec(b.index as nat) + " would lose member "@
            + id,
        expansion::overlap_text(b, top) == "new band "@ + text::dec(b.index as nat) + " at offset "@
            + text::dec(b.offset as nat) + " would overlap existing extent (top "@ + text::dec(
            top as nat,
        ) + ")"@,
{
}

/// What is said where there is nothing to list.
pub proof fn what_is_said_of_nothing(r: StatusReport, state: JsonView)
    ensures
        answers::daemon_tick_view(false, Seq::empty()) == AnswerView::Lines(
            seq!["[status] No storage group configured yet."@],
        ),
        answers::groups_listed_view(false, Seq::empty(), state) == AnswerView::Lines(
            seq!["No groups."@],
        ),
        r.groups@.len() == 0 ==> detail::group_section(r) == seq!["Groups: (none)"@],
        detail::unassigned(r.disks@).len() == 0 ==> detail::unassigned_section(r)
            == seq!["Unassigned capacity: none"@],
        r.arrays@.len() == 0 ==> watch::array_section(r) == seq!["No arrays."@],
        r.arrays@.len() == 0 ==> render::status_array_section(r) == Seq::<Seq<char>>::empty(),
        r.groups@.len() == 0 ==> render::status_group_section(r) == Seq::<Seq<char>>::empty(),
{
}

/// Every list is headed by how many there are of what it lists.
pub proof fn lists_are_headed_by_their_counts(r: StatusReport)
    ensures
        r.groups@.len() > 0 ==> detail::group_section(r)[0] == "Groups ("@ + text::dec(
            r.groups@.len(),
        ) + "):"@,
        detail::unassigned(r.disks@).len() > 0 ==> detail::unassigned_section(r)[0]
            == "Unassigned disks ("@ + text::dec(detail::unassigned(r.disks@).len()) + "): "@
            + figures::bytes_text(table::total(detail::known_sizes(detail::unassigned(r.disks@))))
            + " not backing any array"@,
        detail::detail_lines(r)[1] == ""@,
        detail::detail_lines(r)[2] == "Disks ("@ + text::dec(r.disks@.len()) + "):"@,
        r.arrays@.len() > 0 ==> watch::array_section(r)[0] == "Arrays ("@ + text::dec(
            r.arrays@.len(),
        ) + "):"@,
        watch::band_texts(r.groups@).len() > 0 ==> watch::band_section(r)[0] == ""@
            && watch::band_section(r)[1] == "Bands ("@ + text::dec(
            watch::band_texts(r.groups@).len(),
        ) + "):"@,
        r.arrays@.len() > 0 ==> render::status_array_section(r)[0] == ""@
            && render::status_array_section(r)[1] == "Arrays ("@ + text::dec(r.arrays@.len())
            + "): "@ + text::left_aligned("NAME"@, 8) + text::left_aligned("LEVEL"@, 8)
            + text::left_aligned("STATE"@, 10) + text::left_aligned("DISKS"@, 8) + "PROGRESS"@,
        r.groups@.len() > 0 ==> render::status_group_section(r)[0] == ""@
            && render::status_group_section(r)[1] == "Groups ("@ + text::dec(r.groups@.len())
            + "): "@ + text::left_aligned("NAME"@, 10) + text::left_aligned("MODE"@, 8)
            + text::left_aligned("DISKS"@, 8) + text::left_aligned("USABLE"@, 10) + "MOUNT"@,
        render::status_lines(r)[1] == ""@,
        render::status_lines(r)[2] == "Disks ("@ + text::dec(r.disks@.len()) + "):  "@
            + text::left_aligned("NODE"@, 10) + text::right_aligned("SIZE"@, 10) + "  "@
            + text::left_aligned("MODEL"@, 24) + text::left_aligned("SMART"@, 10)
            + text::left_aligned("TEMP"@, 8) + "ARRAYS"@,
{
}

/// The table of filesystems comes behind the note on what its figures mean.
pub proof fn the_table_of_filesystems_has_its_note(r: FsDfReport)
    ensures
        render::df_lines(r)[0] == "Filesystem capacity"@,
        render::df_lines(r)[1] == ""@,
        render::df_lines(r)[2]
            == "  NOTE: Btrfs allocates data/metadata chunks separately from a plain"@,
        render::df_lines(r)[3]
            == "  df's view -- DF-AVAIL below can read more optimistic or pessimistic"@,
        render::df_lines(r)[4]
            == "  than reality. UNALLOC (raw space not yet claimed by any chunk) is"@,
        render::df_lines(r)[5] == "  the more trustworthy free-space signal when known."@,
        render::df_lines(r)[6] == ""@,
        render::df_lines(r)[7] == render::df_header(),
{
}

/// What the lines of a detailed status tell: of a group its name, mode, disks,
/// compression and mount point; of a band its place, level, array, capacity,
/// members and what it is doing; of an idle disk its name and size.
pub proof fn what_the_lines_of_a_detail_tell(g: GroupStatus, b: GroupBandStatus, d: DiskStatus)
    ensures
        g.compression@.len() > 0 ==> detail::group_text(g) == "  "@ + g.name@ + " (mode="@ + g.mode@
            + ", disks="@ + text::dec(g.disks@.len()) + ", compression="@ + g.compression@
            + ") -> "@ + g.mount_point@,
        g.compression@.len() == 0 ==> detail::group_text(g) == "  "@ + g.name@ + " (mode="@
            + g.mode@ + ", disks="@ + text::dec(g.disks@.len()) + ", compression="@ + "-"@
            + ") -> "@ + g.mount_point@,
        detail::band_text(b) == "    band"@ + text::left_aligned(text::dec(b.index as nat), 3)
            + text::left_aligned(b.level@, 7) + text::left_aligned(b.md_name@, 10)
            + text::right_aligned(figures::bytes_text(b.usable_bytes as nat), 12)
            + render::pending_text(b.resize_pending) + "  members: "@ + detail::members_text(b)
            + "  ["@ + detail::activity_text(b) + "]  "@ + detail::scrub_text(b)
            + detail::removal_text(b.pending_member_removal),
        detail::idle_row(d) == "    "@ + text::left_aligned(d.name@, 10) + render::size_text(
            d.size,
        ),
{
}

/// What a band is doing: its sync with how far it is and when it will be done,
/// as far as these are known.
pub proof fn what_a_band_is_doing(b: GroupBandStatus)
    requires
        b.members@.len() > 0,
    ensures
        b.sync matches Some(s) ==> ({
            let head = match s.percent {
                Some(p) => s.action@ + " "@ + figures::decimal_text(p) + "%"@,
                None => s.action@ + " pending"@,
            };
            &&& s.finish_min is None ==> detail::activity_text(b) == head
            &&& s.finish_min matches Some(m) ==> detail::activity_text(b) == head + (
            ", finish ~"@ + figures::decimal_text(m) + " min"@)
        }),
{
    reveal_strlit("");
    if let Some(s) = b.sync {
        let head = match s.percent {
            Some(p) => s.action@ + " "@ + figures::decimal_text(p) + "%"@,
            None => s.action@ + " pending"@,
        };
        assert(head + ""@ =~= head);
    }
}

/// A plan is headed by its mode; the bar comes with the share that is wasted,
/// and the warnings behind a blank line.
pub proof fn what_frames_a_plan(r: PlanReport)
    ensures
        plan_view::plan_lines(r)[0] == "Planned layout (mode: "@ + r.mode@ + ", DRY RUN)"@,
        plan_view::plan_lines(r)[1] == ""@,
        plan_view::plan_lines(r)[2] == plan_view::plan_header(),
        plan_view::plan_lines(r)[3 + r.bands@.len() as int] == ""@,
        plan_view::plan_lines(r)[5 + r.bands@.len() as int] == "  ["@
            + plan_view::capacity_bar_text(
            r.metrics.total_usable,
            r.metrics.redundancy_overhead,
            r.metrics.stranded_bytes,
            r.metrics.total_raw,
            40,
        ) + "]  ("@ + text::dec(figures::percent_of(r.metrics.waste_ratio)) + "% wasted)"@,
        r.warnings@.len() > 0 ==> plan_view::plan_lines(r)[6 + r.bands@.len() as int] == ""@,
{
}

/// How to reuse a disk that has content is told last, where content blocks.
pub proof fn content_is_told_how_to_be_reused(r: WritePreflight, i: int)
    requires
        0 <= i < r.blockers@.len(),
        r.blockers@[i].has_content,
    ensures
        preflight::preflight_lines(r).last()
            == "  (pass --force-content to reuse a disk with existing content anyway)"@,
{
}

/// What a finished piece of work is told as.
pub proof fn what_is_said_of_finished_work(
    group: Seq<char>,
    band: nat,
    md_name: Seq<char>,
    path: Seq<char>,
    errors: nat,
)
    ensures
        reconcile::member_removed_text(group, band, md_name, path) == "Group `"@ + group
            + "` band "@ + text::dec(band) + " ("@ + md_name + "): removed the old disk `"@ + path
            + "` -- its replacement had finished syncing."@,
        reconcile::resize_completed_text(group, band, md_name) == "Group `"@ + group + "` band "@
            + text::dec(band) + " ("@ + md_name
            + "): finished growing the storage onto the new space -- its RAID rebuild "@
            + "had completed."@,
        reconcile::scrub_self_healed_text(group, band, md_name, errors) == "Group `"@ + group
            + "` band "@ + text::dec(band) + " ("@ + md_name
            + "): a scheduled error check had finished on its own; recorded the result "@ + "("@
            + text::dec(errors) + " error(s))."@,
{
}

/// The report for a machine has every piece of work that was done, in order,
/// and the state that it left.
pub proof fn a_machine_is_told_what_was_done(
    performed: Seq<ReconcileAction>,
    state: JsonView,
    i: int,
)
    ensures
        ({
            let o = reconcile::report_object(performed, state);
            let list = reconcile::action_objects(performed);
            &&& has(o, "performed"@, JsonView::List(list))
            &&& has(o, "state"@, state)
            &&& width(o) == 2
            &&& list.len() == performed.len()
            &&& 0 <= i < performed.len() ==> list[i] == reconcile::action_object(performed[i])
        }),
{
    let o = reconcile::report_object(performed, state)->Object_0;
    assert(o[0] == ("performed"@, JsonView::List(reconcile::action_objects(performed))));
    assert(o[1] == ("state"@, state));
}

/// What is said of a band that cannot be, of a layout without bands, of a mode
/// that nobody knows, and of members that are not shown.
pub proof fn what_is_said_of_bad_input(e: BandError, s: SnapshotView, mode: Seq<char>, n: nat)
    ensures
        e matches BandError::InsufficientForLevel { got, min, level } ==> band::band_error_text(e)
            == name_of(level) + " needs at least "@ + text::dec(min as nat) + " members, got "@
            + text::dec(got as nat),
        e matches BandError::NoLevelAvailable(k) ==> band::band_error_text(e)
            == "no redundant RAID level is available for "@ + text::dec(k as nat)
            + " members in this mode"@,
        e matches BandError::LevelMismatch { expected, got } ==> band::band_error_text(e)
            == "level mismatch: expected "@ + name_of(expected) + " for this member count, got "@
            + name_of(got),
        s.bands.len() == 0 && expansion::twin(s.drives) is None ==> expansion::snapshot_fault(s)
            == Some("layout snapshot has no bands"@),
        dry_run::unknown_mode_text(mode) == "unknown redundancy mode `"@ + mode
            + "` in the shr-rs configuration"@,
        render::more_text(n) == " +"@ + text::dec(n) + " more"@,
{
}

/// What is said when a timer could not be switched off, and how the command is
/// called where an operator answered wrongly.
pub proof fn what_is_said_of_failed_steps(name: Seq<char>, why: Seq<char>)
    ensures
        schedule::context(TaskView::Disable(name)) == "systemctl disable --now "@
            + schedule::unit_name(name),
        schedule::disable_warning_text(name, why) == "warning: `systemctl disable --now "@ + name
            + "` failed ("@ + why
            + ") -- removing the unit file anyway so it stops being reported as "@
            + "orphaned on the next run"@,
        workflow::operation_word(Operation::Create) == "create"@,
        workflow::operation_word(Operation::Expand) == "expand"@,
        workflow::operation_word(Operation::Destroy) == "destroy"@,
        workflow::operation_word(Operation::Recompress) == "recompress"@,
{
}

/// The model of a JSON value is the value: a text its characters, a list its
/// items in their places, an object its keys with their values.
pub proof fn json_values_are_modelled_as_they_are(j: Json)
    ensures
        j is Null ==> j@ is Null,
        j matches Json::Bool(b) ==> j@ == JsonView::Bool(b),
        j matches Json::Number(n) ==> j@ == JsonView::Number(n as int),
        j matches Json::Literal(s) ==> j@ == JsonView::Literal(s@),
        j matches Json::Quotient(n, d) ==> j@ == JsonView::Quotient(n as int, d as int),
        j matches Json::Text(s) ==> j@ == JsonView::Text(s@),
        j matches Json::List(l) ==> (j@ matches JsonView::List(v) && v.len() == l@.len()
            && forall|i: int| 0 <= i < l@.len() ==> #[trigger] v[i] == l@[i]@),
        j matches Json::Object(l) ==> (j@ matches JsonView::Object(v) && v.len() == l@.len()
            && forall|i: int|
            0 <= i < l@.len() ==> (#[trigger] v[i]).0 == l@[i].0@ && v[i].1 == l@[i].1@),
{
}

} // verus!
