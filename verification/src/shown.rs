//! What the commands that only look show: a report as JSON for machines, or as
//! text for people.

use vstd::prelude::*;
use crate::answers::{Answer, AnswerView};
use crate::detail;
use crate::inventory::StateFile;
use crate::json::{Json, JsonView};
use crate::plan_view;
use crate::preflight;
use crate::preflight::WritePreflight;
use crate::render;
use crate::report::{FsDfReport, PlanReport, StatusReport};
use crate::report_json;
use crate::status;
use crate::table;
use crate::text;

verus! {

/// How the status command answers.
pub open spec fn status_view(
    as_json: bool,
    detailed: bool,
    saved: Option<u64>,
    r: StatusReport,
) -> AnswerView {
    if as_json {
        AnswerView::Pretty(report_json::status_object(r))
    } else {
        AnswerView::Text(status::shown_text(detailed, saved, r))
    }
}

/// What the status command shows: all there is, as JSON; or the summary or the
/// detail, as text.
pub fn status_shown(
    as_json: bool,
    detailed: bool,
    state: Option<&StateFile>,
    report: &StatusReport,
) -> (r: Answer)
    requires
        !as_json && detailed ==> table::total(
            detail::known_sizes(detail::unassigned(report.disks@)),
        ) <= u64::MAX,
    ensures
        r@ == status_view(as_json, detailed, status::saved_limit(state), *report),
{
    if as_json {
        Answer::Pretty(report_json::status_json(report))
    } else {
        Answer::Text(status::show_status(detailed, state, report))
    }
}

/// What trying out a layout shows.
pub fn plan_shown(as_json: bool, report: &PlanReport) -> (r: Answer)
    ensures
        r@ == if as_json {
            AnswerView::Pretty(report_json::plan_object(*report))
        } else {
            AnswerView::Text(text::lines(plan_view::plan_lines(*report)))
        },
{
    if as_json {
        Answer::Pretty(report_json::plan_json(report))
    } else {
        Answer::Text(plan_view::render_plan(report))
    }
}

/// What asking how full the filesystems are shows.
pub fn usage_shown(as_json: bool, report: &FsDfReport) -> (r: Answer)
    ensures
        r@ == if as_json {
            AnswerView::Pretty(report_json::fs_df_object(*report))
        } else {
            AnswerView::Text(text::lines(render::df_lines(*report)))
        },
{
    if as_json {
        Answer::Pretty(report_json::fs_df_json(report))
    } else {
        Answer::Text(render::render_fs_df(report))
    }
}

/// What listing the disks shows.
pub fn inventory_shown(as_json: bool, report: &StatusReport) -> (r: Answer)
    ensures
        r@ == if as_json {
            AnswerView::Pretty(JsonView::List(report_json::disk_objects(report.disks@)))
        } else {
            AnswerView::Text(text::lines(render::inventory_lines(*report)))
        },
{
    if as_json {
        Answer::Pretty(report_json::disks_json(&report.disks))
    } else {
        Answer::Text(render::render_disk_list(report))
    }
}

/// What the safety checks show; `as_checked` is their result as JSON.
pub fn checks_shown(as_json: bool, checks: &WritePreflight, as_checked: Json) -> (r: Answer)
    ensures
        r@ == if as_json {
            AnswerView::Pretty(as_checked@)
        } else {
            AnswerView::Text(text::lines(preflight::preflight_lines(*checks)))
        },
{
    if as_json {
        Answer::Pretty(as_checked)
    } else {
        Answer::Text(preflight::render_preflight(checks))
    }
}

/// Asking for detail changes nothing for machines: they are told everything
/// either way.
pub proof fn machines_are_always_told_everything(saved: Option<u64>, r: StatusReport)
    ensures
        status_view(true, true, saved, r) == status_view(true, false, saved, r),
        status_view(true, true, saved, r) == AnswerView::Pretty(report_json::status_object(r)),
{
}

} // verus!
