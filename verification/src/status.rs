//! What the status command decides: which state file it tells of, when it
//! warns of a speed limit left behind, and when it may redraw in place.

use vstd::prelude::*;
use crate::detail;
use crate::inventory::StateFile;
use crate::paths::STATE_PATH;
use crate::render;
use crate::report::{GroupBandStatus, GroupStatus, StatusReport};
use crate::table;
use crate::text;
use crate::watch::WatchFrameMeta;

verus! {

/// The same report, telling the state file that was read: the one at
/// [`STATE_PATH`].
pub open spec fn stamped(before: StatusReport, after: StatusReport) -> bool {
    &&& after.state_path matches Some(p) && p@ == STATE_PATH@
    &&& after.schema_version == before.schema_version
    &&& after.health == before.health
    &&& after.disks == before.disks
    &&& after.arrays == before.arrays
    &&& after.groups == before.groups
}

/// Stamp a status report with the path of the state file that was read.
pub fn attach_state_path(report: StatusReport) -> (r: StatusReport)
    ensures
        stamped(report, r),
        r.state_path matches Some(p) && p@ == STATE_PATH@,
        r.schema_version == report.schema_version,
        r.health == report.health,
        r.disks == report.disks,
        r.arrays == report.arrays,
        r.groups == report.groups,
{
    StatusReport {
        schema_version: report.schema_version,
        health: report.health,
        disks: report.disks,
        arrays: report.arrays,
        groups: report.groups,
        state_path: Some(STATE_PATH.to_owned()),
    }
}

/// What was being done when reading the state failed; it names the file, which
/// the failure itself does not.
pub fn state_load_ctx() -> (out: String)
    ensures
        out@ == "reading the shr-rs configuration ("@ + STATE_PATH@ + ")"@,
{
    let mut out = "reading the shr-rs configuration (".to_owned();
    out.append(STATE_PATH);
    out.append(")");
    out
}

// ---------------------------------------------------------------------------
// The speed limit left behind
// ---------------------------------------------------------------------------

/// Whether a band is being synced.
pub open spec fn any_band_syncing(bands: Seq<GroupBandStatus>) -> bool {
    exists|i: int| 0 <= i < bands.len() && (#[trigger] bands[i]).sync is Some
}

/// Whether a band of any group is being synced.
pub open spec fn any_syncing(groups: Seq<GroupStatus>) -> bool {
    exists|i: int| 0 <= i < groups.len() && any_band_syncing((#[trigger] groups[i]).bands@)
}

/// The warning about a speed limit that was left behind.
pub open spec fn left_behind_text(saved_kb: nat) -> Seq<char> {
    "warning: shr-rs still holds the host-wide sync speed limit ("@ + text::dec(saved_kb)
        + " KB/s was here before), but nothing is syncing -- run `shr-rs "@
        + "reconcile` to put it back"@
}

fn left_behind(saved_kb: u64) -> (out: String)
    ensures
        out@ == left_behind_text(saved_kb as nat),
{
    let mut out = "warning: shr-rs still holds the host-wide sync speed limit (".to_owned();
    text::append_decimal(&mut out, saved_kb);
    out.append(" KB/s was here before), but nothing is syncing -- run `shr-rs ");
    out.append("reconcile` to put it back");
    out
}

fn bands_sync(bands: &Vec<GroupBandStatus>) -> (r: bool)
    ensures
        r == any_band_syncing(bands@),
{
    let mut i: usize = 0;
    while i < bands.len()
        invariant
            i <= bands.len(),
            forall|k: int| 0 <= k < i ==> !((#[trigger] bands@[k]).sync is Some),
        decreases bands.len() - i,
    {
        if let Some(_) = &bands[i].sync {
            assert(bands@[i as int].sync is Some);
            return true;
        }
        i = i + 1;
    }
    false
}

fn groups_sync(groups: &Vec<GroupStatus>) -> (r: bool)
    ensures
        r == any_syncing(groups@),
{
    let mut i: usize = 0;
    while i < groups.len()
        invariant
            i <= groups.len(),
            forall|k: int| 0 <= k < i ==> !any_band_syncing((#[trigger] groups@[k]).bands@),
        decreases groups.len() - i,
    {
        if bands_sync(&groups[i].bands) {
            assert(any_band_syncing(groups@[i as int].bands@));
            return true;
        }
        i = i + 1;
    }
    false
}

/// The limit that was saved when the sync speed was lowered, where one was.
pub open spec fn saved_limit(state: Option<&StateFile>) -> Option<u64> {
    match state {
        Some(s) => s.saved_speed_limit_max_kb,
        None => None,
    }
}

/// The warning about a speed limit, where there is something to warn of: one
/// is saved, and nothing is syncing.
pub open spec fn stale_limit(saved: Option<u64>, groups: Seq<GroupStatus>) -> Option<Seq<char>> {
    match saved {
        Some(kb) => if any_syncing(groups) {
            None
        } else {
            Some(left_behind_text(kb as nat))
        },
        None => None,
    }
}

/// The warning that the host-wide sync speed limit is still lowered although
/// nothing is syncing any more, with the command that puts it back. There is
/// nothing to say where no limit is saved, or while the limit does what it is
/// there for.
pub fn stale_speed_limit_warning(state: Option<&StateFile>, report: &StatusReport) -> (r: Option<
    String,
>)
    ensures
        match (r, stale_limit(saved_limit(state), report.groups@)) {
            (Some(w), Some(t)) => w@ == t,
            (None, None) => true,
            _ => false,
        },
        state is None ==> r is None,
        state matches Some(s) ==> s.saved_speed_limit_max_kb is None ==> r is None,
        any_syncing(report.groups@) ==> r is None,
        state matches Some(s) ==> s.saved_speed_limit_max_kb is Some && !any_syncing(
            report.groups@,
        ) ==> r is Some,
{
    match state {
        Some(s) => match s.saved_speed_limit_max_kb {
            Some(kb) => if groups_sync(&report.groups) {
                None
            } else {
                Some(left_behind(kb))
            },
            None => None,
        },
        None => None,
    }
}

/// The status as text: the summary or the detail, and behind it the warning
/// about a speed limit that was left behind.
pub open spec fn shown_text(detailed: bool, saved: Option<u64>, r: StatusReport) -> Seq<char> {
    let told = text::lines(
        if detailed {
            detail::detail_lines(r)
        } else {
            render::status_lines(r)
        },
    );
    match stale_limit(saved, r.groups@) {
        Some(w) => told + w + "\n"@,
        None => told,
    }
}

/// The status as text, in summary or in detail, with the warning about a speed
/// limit that was left behind.
pub fn show_status(detailed: bool, state: Option<&StateFile>, report: &StatusReport) -> (out:
    String)
    requires
        detailed ==> table::total(detail::known_sizes(detail::unassigned(report.disks@)))
            <= u64::MAX,
    ensures
        out@ == shown_text(detailed, saved_limit(state), *report),
{
    let mut out = if detailed {
        detail::render_status_detail(report)
    } else {
        render::render_status(report)
    };
    match stale_speed_limit_warning(state, report) {
        Some(w) => {
            out.append(w.as_str());
            out.append("\n");
        },
        None => {},
    }
    out
}

// ---------------------------------------------------------------------------
// Redrawing in place
// ---------------------------------------------------------------------------

/// Why a status that is redrawn in place has no JSON form.
pub open spec fn watch_json_text() -> Seq<char> {
    "`status --watch` cannot be combined with --json -- run `status --json` "@
        + "(without --watch) on your own interval instead"@
}

fn watch_json() -> (out: String)
    ensures
        out@ == watch_json_text(),
{
    let mut out = "`status --watch` cannot be combined with --json -- run `status --json` ".to_owned();
    out.append("(without --watch) on your own interval instead");
    out
}

/// Why a status cannot be redrawn in place on what is no terminal.
pub open spec fn watch_redirected_text() -> Seq<char> {
    "`status --watch` needs a real terminal, and this output is redirected "@
        + "-- for scripts or piped output, run `status --detail` on your own "@
        + "interval instead, e.g. `watch -n2 shr-rs status --detail`"@
}

fn watch_redirected() -> (out: String)
    ensures
        out@ == watch_redirected_text(),
{
    let mut out = "`status --watch` needs a real terminal, and this output is redirected ".to_owned();
    out.append("-- for scripts or piped output, run `status --detail` on your own ");
    out.append("interval instead, e.g. `watch -n2 shr-rs status --detail`");
    out
}

/// Whether the status may be redrawn in place. Refused under JSON, whatever
/// the output is; refused where the output is no terminal.
pub fn watch_allowed(as_json: bool, stdout_is_terminal: bool) -> (r: Result<(), String>)
    ensures
        r is Ok <==> !as_json && stdout_is_terminal,
        r matches Err(m) ==> m@ == if as_json {
            watch_json_text()
        } else {
            watch_redirected_text()
        },
{
    if as_json {
        Err(watch_json())
    } else if !stdout_is_terminal {
        Err(watch_redirected())
    } else {
        Ok(())
    }
}

/// The size of a frame for a terminal of `cols` columns and `rows` rows. One
/// row stays free, so that the frame's own line end never scrolls the
/// terminal; a terminal of one row still gets a frame of one.
pub fn watch_frame_meta_from(cols: u16, rows: u16) -> (r: WatchFrameMeta)
    ensures
        r.width == cols,
        r.max_height == if rows > 1 {
            rows - 1
        } else {
            1
        },
{
    let height: u16 = if rows > 1 {
        rows - 1
    } else {
        1
    };
    WatchFrameMeta { width: cols as usize, max_height: height as usize }
}

} // verus!
