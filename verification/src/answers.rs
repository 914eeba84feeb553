//! What commands print: a sentence for people, or JSON for machines. Each
//! command has one function here that decides between the two.

use vstd::prelude::*;
use crate::inventory::{ArrayState, StateFile};
use crate::json;
use crate::json::{Json, JsonView};
use crate::ops;
use crate::paths::STATE_LOCK_PATH;
use crate::report::{DiskStatus, SmartState};
use crate::report_json;
use crate::sink::ProgressUpdate;
use crate::text;

verus! {

/// What a command prints on its standard output.
#[derive(Debug, PartialEq, Eq)]
pub enum Answer {
    /// JSON on one line.
    Compact(Json),
    /// JSON with indentation.
    Pretty(Json),
    /// Lines of text.
    Lines(Vec<String>),
    /// Text that has its line ends already.
    Text(String),
}

/// The model of an [`Answer`].
pub enum AnswerView {
    Compact(JsonView),
    Pretty(JsonView),
    Lines(Seq<Seq<char>>),
    Text(Seq<char>),
}

impl View for Answer {
    type V = AnswerView;

    open spec fn view(&self) -> AnswerView {
        match *self {
            Answer::Compact(j) => AnswerView::Compact(j@),
            Answer::Pretty(j) => AnswerView::Pretty(j@),
            Answer::Lines(l) => AnswerView::Lines(text::views(l@)),
            Answer::Text(s) => AnswerView::Text(s@),
        }
    }
}

impl Answer {
    /// One line of text.
    pub fn line(s: String) -> (r: Self)
        ensures
            r@ == AnswerView::Lines(seq![s@]),
    {
        let mut lines: Vec<String> = Vec::new();
        text::add_line(&mut lines, s);
        assert(text::views(lines@) =~= seq![s@]);
        Answer::Lines(lines)
    }
}

// ---------------------------------------------------------------------------
// Failure
// ---------------------------------------------------------------------------

/// The JSON object about a failure.
pub open spec fn failure_object(message: Seq<char>) -> JsonView {
    JsonView::Object(
        seq![
            ("error"@, JsonView::Text(message)),
        ],
    )
}

/// The JSON that stands for a failed command.
pub fn failure_report_json(message: &str) -> (r: Json)
    ensures
        r@ == failure_object(message@),
{
    let mut fields: Vec<(String, Json)> = Vec::new();
    assert(json::pairs(fields@) =~= Seq::empty());
    json::put(&mut fields, "error", json::string(message));
    proof {
        if let JsonView::Object(wanted) = failure_object(message@) {
            assert(json::pairs(fields@) =~= wanted);
        }
    }
    json::object(fields)
}

/// The line about a failure.
pub open spec fn failure_line_text(message: Seq<char>) -> Seq<char> {
    "error: "@ + message
}

fn failure_line(message: &str) -> (out: String)
    ensures
        out@ == failure_line_text(message@),
{
    let mut out = "error: ".to_owned();
    out.append(message);
    out
}

/// How a failed command answers.
pub open spec fn failed_view(as_json: bool, message: Seq<char>) -> AnswerView {
    if as_json {
        AnswerView::Compact(failure_object(message))
    } else {
        AnswerView::Lines(seq![failure_line_text(message)])
    }
}

/// What a failed command prints, on the standard error.
pub fn failed(as_json: bool, message: &str) -> (r: Answer)
    ensures
        r@ == failed_view(as_json, message@),
{
    if as_json {
        Answer::Compact(failure_report_json(message))
    } else {
        Answer::line(failure_line(message))
    }
}

// ---------------------------------------------------------------------------
// Error checks
// ---------------------------------------------------------------------------

/// The JSON object about a step in the course of an error check.
pub open spec fn scrub_action_object(group: Seq<char>, status: Seq<char>) -> JsonView {
    JsonView::Object(
        seq![
            ("group"@, JsonView::Text(group)),
            ("status"@, JsonView::Text(status)),
        ],
    )
}

/// The JSON for an error check that was started or cancelled.
pub fn scrub_action_report_json(group: &str, status: &str) -> (r: Json)
    ensures
        r@ == scrub_action_object(group@, status@),
{
    let mut fields: Vec<(String, Json)> = Vec::new();
    assert(json::pairs(fields@) =~= Seq::empty());
    json::put(&mut fields, "group", json::string(group));
    json::put(&mut fields, "status", json::string(status));
    proof {
        if let JsonView::Object(wanted) = scrub_action_object(group@, status@) {
            assert(json::pairs(fields@) =~= wanted);
        }
    }
    json::object(fields)
}

/// The object for an error check that was started. Without a priority the key
/// is absent, not null: no kernel parameter was touched.
pub open spec fn scrub_start_object(group: Seq<char>, priority: Option<Seq<char>>) -> JsonView {
    match priority {
        Some(p) => JsonView::Object(
            seq![
                ("group"@, JsonView::Text(group)),
                ("status"@, JsonView::Text("started"@)),
                ("priority"@, JsonView::Text(p)),
            ],
        ),
        None => scrub_action_object(group, "started"@),
    }
}

/// The JSON for an error check that was started, with the speed profile that
/// was asked for, if any.
pub fn scrub_start_report_json(group: &str, priority: Option<&str>) -> (r: Json)
    ensures
        r@ == scrub_start_object(group@, text::opt_view(priority)),
{
    match priority {
        Some(p) => {
            let mut fields: Vec<(String, Json)> = Vec::new();
            assert(json::pairs(fields@) =~= Seq::empty());
            json::put(&mut fields, "group", json::string(group));
            json::put(&mut fields, "status", json::string("started"));
            json::put(&mut fields, "priority", json::string(p));
            assert(json::pairs(fields@) =~= seq![
                ("group"@, JsonView::Text(group@)),
                ("status"@, JsonView::Text("started"@)),
                ("priority"@, JsonView::Text(p@)),
            ]);
            json::object(fields)
        },
        None => scrub_action_report_json(group, "started"),
    }
}

/// The line for an error check that was started.
pub open spec fn scrub_started_line(priority: Option<Seq<char>>) -> Seq<char> {
    match priority {
        Some(p) => "scrub started (priority "@ + p + ")"@,
        None => "scrub started"@,
    }
}

fn scrub_started_sentence(priority: Option<&str>) -> (out: String)
    ensures
        out@ == scrub_started_line(text::opt_view(priority)),
{
    match priority {
        Some(p) => {
            let mut out = "scrub started (priority ".to_owned();
            out.append(p);
            out.append(")");
            out
        },
        None => "scrub started".to_owned(),
    }
}

/// How starting an error check answers.
pub open spec fn scrub_started_view(as_json: bool, group: Seq<char>, priority: Option<Seq<char>>) -> AnswerView {
    if as_json {
        AnswerView::Compact(scrub_start_object(group, priority))
    } else {
        AnswerView::Lines(seq![scrub_started_line(priority)])
    }
}

/// What starting an error check prints.
pub fn scrub_started(as_json: bool, group: &str, priority: Option<&str>) -> (r: Answer)
    ensures
        r@ == scrub_started_view(as_json, group@, text::opt_view(priority)),
{
    if as_json {
        Answer::Compact(scrub_start_report_json(group, priority))
    } else {
        Answer::line(scrub_started_sentence(priority))
    }
}

/// How stopping an error check answers.
pub open spec fn scrub_cancelled_view(as_json: bool, group: Seq<char>) -> AnswerView {
    if as_json {
        AnswerView::Compact(scrub_action_object(group, "cancelled"@))
    } else {
        AnswerView::Lines(seq!["scrub cancelled"@])
    }
}

/// What cancelling an error check prints.
pub fn scrub_cancelled(as_json: bool, group: &str) -> (r: Answer)
    ensures
        r@ == scrub_cancelled_view(as_json, group@),
{
    if as_json {
        Answer::Compact(scrub_action_report_json(group, "cancelled"))
    } else {
        Answer::line("scrub cancelled".to_owned())
    }
}

/// The JSON object about how far an error check is.
pub open spec fn scrub_status_object(group: Seq<char>, running: bool, error_count: int) -> JsonView {
    JsonView::Object(
        seq![
            ("group"@, JsonView::Text(group)),
            ("running"@, JsonView::Bool(running)),
            ("error_count"@, JsonView::Number(error_count)),
        ],
    )
}

/// The JSON for the progress of an error check.
pub fn scrub_status_report_json(group: &str, running: bool, error_count: u64) -> (r: Json)
    ensures
        r@ == scrub_status_object(group@, running, error_count as int),
{
    let mut fields: Vec<(String, Json)> = Vec::new();
    assert(json::pairs(fields@) =~= Seq::empty());
    json::put(&mut fields, "group", json::string(group));
    json::put(&mut fields, "running", Json::Bool(running));
    json::put(&mut fields, "error_count", Json::Number(error_count));
    proof {
        if let JsonView::Object(wanted) = scrub_status_object(group@, running, error_count as int) {
            assert(json::pairs(fields@) =~= wanted);
        }
    }
    json::object(fields)
}

/// The line for the progress of an error check.
pub open spec fn scrub_status_line(group: Seq<char>, running: bool, error_count: nat) -> Seq<char> {
    "group `"@ + group + "`: "@ + (if running {
        "running"@
    } else {
        "finished"@
    }) + " -- "@ + text::dec(error_count) + " error(s) found"@
}

fn scrub_status_sentence(group: &str, running: bool, error_count: u64) -> (out: String)
    ensures
        out@ == scrub_status_line(group@, running, error_count as nat),
{
    let mut out = "group `".to_owned();
    out.append(group);
    out.append("`: ");
    if running {
        out.append("running");
    } else {
        out.append("finished");
    }
    out.append(" -- ");
    text::append_decimal(&mut out, error_count);
    out.append(" error(s) found");
    out
}

/// How asking after an error check answers.
pub open spec fn scrub_reported_view(as_json: bool, group: Seq<char>, running: bool, error_count: nat) -> AnswerView {
    if as_json {
        AnswerView::Compact(scrub_status_object(group, running, error_count as int))
    } else {
        AnswerView::Lines(seq![scrub_status_line(group, running, error_count)])
    }
}

/// What asking for the progress of an error check prints.
pub fn scrub_reported(as_json: bool, group: &str, running: bool, error_count: u64) -> (r: Answer)
    ensures
        r@ == scrub_reported_view(as_json, group@, running, error_count as nat),
{
    if as_json {
        Answer::Compact(scrub_status_report_json(group, running, error_count))
    } else {
        Answer::line(scrub_status_sentence(group, running, error_count))
    }
}

/// The sentence about errors that a check found.
pub open spec fn scrub_errors_text(group: Seq<char>, error_count: nat) -> Seq<char> {
    "scrub found "@ + text::dec(error_count) + " error(s) in group `"@ + group + "`"@
}

fn scrub_errors(group: &str, error_count: u64) -> (out: String)
    ensures
        out@ == scrub_errors_text(group@, error_count as nat),
{
    let mut out = "scrub found ".to_owned();
    text::append_decimal(&mut out, error_count);
    out.append(" error(s) in group `");
    out.append(group);
    out.append("`");
    out
}

/// With which error asking for the progress ends: JSON is for machines, which
/// read the count; a person's command fails where errors were found.
pub fn scrub_failure(as_json: bool, group: &str, error_count: u64) -> (r: Option<String>)
    ensures
        r is Some <==> !as_json && error_count > 0,
        r matches Some(m) ==> m@ == scrub_errors_text(group@, error_count as nat),
{
    if !as_json && error_count > 0 {
        Some(scrub_errors(group, error_count))
    } else {
        None
    }
}

// ---------------------------------------------------------------------------
// Filesystem
// ---------------------------------------------------------------------------

/// The JSON object about rewriting with a new compression.
pub open spec fn recompress_object(group: Seq<char>, compression: Seq<char>) -> JsonView {
    JsonView::Object(
        seq![
            ("group"@, JsonView::Text(group)),
            ("compression"@, JsonView::Text(compression)),
            ("status"@, JsonView::Text("started"@)),
        ],
    )
}

/// The JSON for a recompression that was started.
pub fn recompress_report_json(group: &str, compression: &str) -> (r: Json)
    ensures
        r@ == recompress_object(group@, compression@),
{
    let mut fields: Vec<(String, Json)> = Vec::new();
    assert(json::pairs(fields@) =~= Seq::empty());
    json::put(&mut fields, "group", json::string(group));
    json::put(&mut fields, "compression", json::string(compression));
    json::put(&mut fields, "status", json::string("started"));
    proof {
        if let JsonView::Object(wanted) = recompress_object(group@, compression@) {
            assert(json::pairs(fields@) =~= wanted);
        }
    }
    json::object(fields)
}

/// The line about rewriting with a new compression.
pub open spec fn recompress_line_text(compression: Seq<char>) -> Seq<char> {
    "recompress started at "@ + compression
}

fn recompress_line(compression: &str) -> (out: String)
    ensures
        out@ == recompress_line_text(compression@),
{
    let mut out = "recompress started at ".to_owned();
    out.append(compression);
    out
}

/// How rewriting with a new compression answers.
pub open spec fn recompressed_view(as_json: bool, group: Seq<char>, compression: Seq<char>) -> AnswerView {
    if as_json {
        AnswerView::Compact(recompress_object(group, compression))
    } else {
        AnswerView::Lines(seq![recompress_line_text(compression)])
    }
}

/// What starting a recompression prints.
pub fn recompressed(as_json: bool, group: &str, compression: &str) -> (r: Answer)
    ensures
        r@ == recompressed_view(as_json, group@, compression@),
{
    if as_json {
        Answer::Compact(recompress_report_json(group, compression))
    } else {
        Answer::line(recompress_line(compression))
    }
}

/// The JSON object about a snapshot that was taken.
pub open spec fn snapshot_create_object(group: Seq<char>, name: Seq<char>) -> JsonView {
    JsonView::Object(
        seq![
            ("group"@, JsonView::Text(group)),
            ("name"@, JsonView::Text(name)),
            ("status"@, JsonView::Text("created"@)),
        ],
    )
}

/// The JSON for a snapshot that was taken.
pub fn snapshot_create_report_json(group: &str, name: &str) -> (r: Json)
    ensures
        r@ == snapshot_create_object(group@, name@),
{
    let mut fields: Vec<(String, Json)> = Vec::new();
    assert(json::pairs(fields@) =~= Seq::empty());
    json::put(&mut fields, "group", json::string(group));
    json::put(&mut fields, "name", json::string(name));
    json::put(&mut fields, "status", json::string("created"));
    proof {
        if let JsonView::Object(wanted) = snapshot_create_object(group@, name@) {
            assert(json::pairs(fields@) =~= wanted);
        }
    }
    json::object(fields)
}

/// The line about a snapshot that was taken.
pub open spec fn snapshot_line_text(name: Seq<char>) -> Seq<char> {
    "snapshot `"@ + name + "` created"@
}

fn snapshot_line(name: &str) -> (out: String)
    ensures
        out@ == snapshot_line_text(name@),
{
    let mut out = "snapshot `".to_owned();
    out.append(name);
    out.append("` created");
    out
}

/// How taking a snapshot answers.
pub open spec fn snapshot_created_view(as_json: bool, group: Seq<char>, name: Seq<char>) -> AnswerView {
    if as_json {
        AnswerView::Compact(snapshot_create_object(group, name))
    } else {
        AnswerView::Lines(seq![snapshot_line_text(name)])
    }
}

/// What taking a snapshot prints.
pub fn snapshot_created(as_json: bool, group: &str, name: &str) -> (r: Answer)
    ensures
        r@ == snapshot_created_view(as_json, group@, name@),
{
    if as_json {
        Answer::Compact(snapshot_create_report_json(group, name))
    } else {
        Answer::line(snapshot_line(name))
    }
}

// ---------------------------------------------------------------------------
// Schedule and timers
// ---------------------------------------------------------------------------

/// The JSON object about an installed schedule.
pub open spec fn schedule_install_object(installed_timers: int, pruned: int) -> JsonView {
    JsonView::Object(
        seq![
            ("installed_timers"@, JsonView::Number(installed_timers)),
            ("pruned"@, JsonView::Number(pruned)),
        ],
    )
}

/// The JSON for an installed schedule: how many timers were installed, and how
/// many left-over unit files were removed.
pub fn schedule_install_report_json(installed_timers: usize, pruned: usize) -> (r: Json)
    ensures
        r@ == schedule_install_object(installed_timers as int, pruned as int),
{
    let mut fields: Vec<(String, Json)> = Vec::new();
    assert(json::pairs(fields@) =~= Seq::empty());
    json::put(&mut fields, "installed_timers", Json::Number(installed_timers as u64));
    json::put(&mut fields, "pruned", Json::Number(pruned as u64));
    proof {
        if let JsonView::Object(wanted) = schedule_install_object(installed_timers as int, pruned as int) {
            assert(json::pairs(fields@) =~= wanted);
        }
    }
    json::object(fields)
}

/// The line about an installed schedule.
pub open spec fn schedule_line_text(installed_timers: nat, pruned: nat) -> Seq<char> {
    "installed and enabled "@ + text::dec(installed_timers) + " timer unit(s); pruned "@
        + text::dec(pruned) + " orphaned unit file(s)"@
}

fn schedule_line(installed_timers: usize, pruned: usize) -> (out: String)
    ensures
        out@ == schedule_line_text(installed_timers as nat, pruned as nat),
{
    let mut out = "installed and enabled ".to_owned();
    text::append_decimal(&mut out, installed_timers as u64);
    out.append(" timer unit(s); pruned ");
    text::append_decimal(&mut out, pruned as u64);
    out.append(" orphaned unit file(s)");
    out
}

/// How installing the schedule answers.
pub open spec fn schedule_installed_view(as_json: bool, installed_timers: nat, pruned: nat) -> AnswerView {
    if as_json {
        AnswerView::Compact(schedule_install_object(installed_timers as int, pruned as int))
    } else {
        AnswerView::Lines(seq![schedule_line_text(installed_timers, pruned)])
    }
}

/// What installing the schedule prints.
pub fn schedule_installed(as_json: bool, installed_timers: usize, pruned: usize) -> (r: Answer)
    ensures
        r@ == schedule_installed_view(as_json, installed_timers as nat, pruned as nat),
{
    if as_json {
        Answer::Compact(schedule_install_report_json(installed_timers, pruned))
    } else {
        Answer::line(schedule_line(installed_timers, pruned))
    }
}

/// The JSON object about syncs whose speed was adapted.
pub open spec fn throttle_tick_object(ticked: int) -> JsonView {
    JsonView::Object(
        seq![
            ("bands_ticked"@, JsonView::Number(ticked)),
        ],
    )
}

/// The JSON for a throttle run.
pub fn throttle_tick_report_json(ticked: usize) -> (r: Json)
    ensures
        r@ == throttle_tick_object(ticked as int),
{
    let mut fields: Vec<(String, Json)> = Vec::new();
    assert(json::pairs(fields@) =~= Seq::empty());
    json::put(&mut fields, "bands_ticked", Json::Number(ticked as u64));
    proof {
        if let JsonView::Object(wanted) = throttle_tick_object(ticked as int) {
            assert(json::pairs(fields@) =~= wanted);
        }
    }
    json::object(fields)
}

/// The line about syncs whose speed was adapted.
pub open spec fn throttle_line_text(ticked: nat) -> Seq<char> {
    "ticked "@ + text::dec(ticked) + " syncing band(s)"@
}

fn throttle_line(ticked: usize) -> (out: String)
    ensures
        out@ == throttle_line_text(ticked as nat),
{
    let mut out = "ticked ".to_owned();
    text::append_decimal(&mut out, ticked as u64);
    out.append(" syncing band(s)");
    out
}

/// How the timer that adapts the speed of syncs answers.
pub open spec fn throttled_view(as_json: bool, ticked: nat) -> AnswerView {
    if as_json {
        AnswerView::Compact(throttle_tick_object(ticked as int))
    } else {
        AnswerView::Lines(seq![throttle_line_text(ticked)])
    }
}

/// What a throttle run prints.
pub fn throttled(as_json: bool, ticked: usize) -> (r: Answer)
    ensures
        r@ == throttled_view(as_json, ticked as nat),
{
    if as_json {
        Answer::Compact(throttle_tick_report_json(ticked))
    } else {
        Answer::line(throttle_line(ticked))
    }
}

/// The JSON object about a look for trouble.
pub open spec fn health_check_object() -> JsonView {
    JsonView::Object(
        seq![
            ("ok"@, JsonView::Bool(true)),
        ],
    )
}

/// The JSON for a health check.
pub fn health_check_report_json() -> (r: Json)
    ensures
        r@ == health_check_object(),
{
    let mut fields: Vec<(String, Json)> = Vec::new();
    assert(json::pairs(fields@) =~= Seq::empty());
    json::put(&mut fields, "ok", Json::Bool(true));
    proof {
        if let JsonView::Object(wanted) = health_check_object() {
            assert(json::pairs(fields@) =~= wanted);
        }
    }
    json::object(fields)
}

/// How the timer that looks for trouble answers.
pub open spec fn health_checked_view(as_json: bool) -> AnswerView {
    if as_json {
        AnswerView::Compact(health_check_object())
    } else {
        AnswerView::Lines(seq!["health check complete"@])
    }
}

/// What a health check prints.
pub fn health_checked(as_json: bool) -> (r: Answer)
    ensures
        r@ == health_checked_view(as_json),
{
    if as_json {
        Answer::Compact(health_check_report_json())
    } else {
        Answer::line("health check complete".to_owned())
    }
}

/// The JSON object about snapshots that the policy leaves off.
pub open spec fn snapshots_disabled_object() -> JsonView {
    JsonView::Object(
        seq![
            ("ok"@, JsonView::Bool(true)),
            ("enabled"@, JsonView::Bool(false)),
            ("snapshots"@, JsonView::List(Seq::empty())),
        ],
    )
}

/// The JSON for a snapshot run that is switched off.
pub fn snapshots_disabled_report_json() -> (r: Json)
    ensures
        r@ == snapshots_disabled_object(),
{
    let mut fields: Vec<(String, Json)> = Vec::new();
    assert(json::pairs(fields@) =~= Seq::empty());
    json::put(&mut fields, "ok", Json::Bool(true));
    json::put(&mut fields, "enabled", Json::Bool(false));
    json::put(&mut fields, "snapshots", json::list(Vec::new()));
    assert(json::trees(Seq::<Json>::empty()) =~= Seq::empty());
    proof {
        if let JsonView::Object(wanted) = snapshots_disabled_object() {
            assert(json::pairs(fields@) =~= wanted);
        }
    }
    json::object(fields)
}

/// How the snapshot timer answers where the policy leaves it off.
pub open spec fn snapshots_off_view(as_json: bool) -> AnswerView {
    if as_json {
        AnswerView::Compact(snapshots_disabled_object())
    } else {
        AnswerView::Lines(seq!["snapshot automation is disabled in policy.toml; nothing to do"@])
    }
}

/// What a snapshot run prints where it is switched off.
pub fn snapshots_off(as_json: bool) -> (r: Answer)
    ensures
        r@ == snapshots_off_view(as_json),
{
    if as_json {
        Answer::Compact(snapshots_disabled_report_json())
    } else {
        Answer::line("snapshot automation is disabled in policy.toml; nothing to do".to_owned())
    }
}

/// The JSON object about snapshots that the timer took.
pub open spec fn snapshots_object(summary: Seq<Seq<char>>) -> JsonView {
    JsonView::Object(
        seq![
            ("ok"@, JsonView::Bool(true)),
            ("enabled"@, JsonView::Bool(true)),
            ("snapshots"@, JsonView::List(json::text_values(summary))),
        ],
    )
}

/// The JSON for a snapshot run.
pub fn snapshots_report_json(summary: &[String]) -> (r: Json)
    ensures
        r@ == snapshots_object(text::views(summary@)),
{
    let mut fields: Vec<(String, Json)> = Vec::new();
    assert(json::pairs(fields@) =~= Seq::empty());
    json::put(&mut fields, "ok", Json::Bool(true));
    json::put(&mut fields, "enabled", Json::Bool(true));
    json::put(&mut fields, "snapshots", json::strings(summary));
    proof {
        if let JsonView::Object(wanted) = snapshots_object(text::views(summary@)) {
            assert(json::pairs(fields@) =~= wanted);
        }
    }
    json::object(fields)
}

/// What a snapshot run prints: a line per snapshot, or that there was nothing
/// to take one of.
pub open spec fn snapshots_taken_view(as_json: bool, summary: Seq<Seq<char>>) -> AnswerView {
    if as_json {
        AnswerView::Compact(snapshots_object(summary))
    } else if summary.len() == 0 {
        AnswerView::Lines(seq!["no storage group found; nothing to snapshot yet"@])
    } else {
        AnswerView::Lines(summary)
    }
}

/// What a snapshot run prints.
pub fn snapshots_taken(as_json: bool, summary: Vec<String>) -> (r: Answer)
    ensures
        r@ == snapshots_taken_view(as_json, text::views(summary@)),
{
    if as_json {
        Answer::Compact(snapshots_report_json(summary.as_slice()))
    } else if summary.len() == 0 {
        Answer::line("no storage group found; nothing to snapshot yet".to_owned())
    } else {
        Answer::Lines(summary)
    }
}

/// The object of a run that was skipped: every field of a run that was not,
/// and `skipped` beside them.
pub open spec fn skipped_object(base: JsonView) -> JsonView {
    match base {
        JsonView::Object(fields) => JsonView::Object(
            json::with_field(fields, "skipped"@, JsonView::Bool(true)),
        ),
        _ => JsonView::Object(seq![("skipped"@, JsonView::Bool(true))]),
    }
}

/// The JSON for a timer run that was skipped because another command is at
/// work. `base` is the run's own report, so that whoever reads it finds every
/// field that it always finds.
pub fn tick_skipped_report_json(base: Json) -> (r: Json)
    requires
        base is Object || base is Null,
    ensures
        r@ == skipped_object(base@),
{
    match base {
        Json::Object(fields) => {
            let ghost held = fields;
            proof {
                if let JsonView::Object(seen) = Json::Object(held)@ {
                    assert(seen =~= json::pairs(held@));
                }
            }
            json::object(json::set(fields, "skipped", Json::Bool(true)))
        },
        _ => {
            let mut fields: Vec<(String, Json)> = Vec::new();
            assert(json::pairs(fields@) =~= Seq::empty());
            json::put(&mut fields, "skipped", Json::Bool(true));
            assert(json::pairs(fields@) =~= seq![("skipped"@, JsonView::Bool(true))]);
            json::object(fields)
        },
    }
}

/// The line for a timer run that was skipped.
pub open spec fn skipped_line() -> Seq<char> {
    "another shr-rs command is working on the state file right now; "@
        + "skipping this run (lock: "@ + STATE_LOCK_PATH@ + ")"@
}

/// What a timer run prints that was skipped because another command is at
/// work: contention is normal for a timer, and the next run picks the work up.
pub fn tick_skipped(as_json: bool, base: Json) -> (r: Answer)
    requires
        base is Object || base is Null,
    ensures
        r@ == if as_json {
            AnswerView::Compact(skipped_object(base@))
        } else {
            AnswerView::Lines(seq![skipped_line()])
        },
{
    if as_json {
        Answer::Compact(tick_skipped_report_json(base))
    } else {
        let mut out =
            "another shr-rs command is working on the state file right now; ".to_owned();
        out.append("skipping this run (lock: ");
        out.append(STATE_LOCK_PATH);
        out.append(")");
        Answer::line(out)
    }
}

/// A skipped run reports every field that a run which is not skipped reports,
/// with the value it has there, and `skipped` beside them.
pub proof fn skipped_runs_keep_every_field(fields: Seq<(Seq<char>, JsonView)>, key: Seq<char>)
    requires
        key != "skipped"@,
    ensures
        skipped_object(JsonView::Object(fields)) matches JsonView::Object(all) && json::field(
            all,
            key,
        ) == json::field(fields, key) && json::field(all, "skipped"@) == Some(
            JsonView::Bool(true),
        ),
{
    json::setting_a_field_keeps_the_others(fields, "skipped"@, JsonView::Bool(true), key);
}

// ---------------------------------------------------------------------------
// Groups
// ---------------------------------------------------------------------------

/// The object for one group of a status tick.
pub open spec fn tick_group_object(g: ArrayState) -> JsonView {
    JsonView::Object(
        seq![
            ("name"@, JsonView::Text(g.name@)),
            ("mode"@, JsonView::Text(g.mode@)),
            ("layout_version"@, JsonView::Number(g.layout_version as int)),
            ("disks"@, JsonView::Number(g.disks@.len() as int)),
        ],
    )
}

/// The objects for the groups of a status tick.
pub open spec fn tick_group_objects(groups: Seq<ArrayState>) -> Seq<JsonView> {
    groups.map_values(|g: ArrayState| tick_group_object(g))
}

/// The object for a status tick.
pub open spec fn daemon_tick_object(groups: Seq<ArrayState>) -> JsonView {
    JsonView::Object(seq![("groups"@, JsonView::List(tick_group_objects(groups)))])
}

fn tick_group_json(g: &ArrayState) -> (r: Json)
    ensures
        r@ == tick_group_object(*g),
{
    let mut fields: Vec<(String, Json)> = Vec::new();
    assert(json::pairs(fields@) =~= Seq::empty());
    json::put(&mut fields, "name", json::string(g.name.as_str()));
    json::put(&mut fields, "mode", json::string(g.mode.as_str()));
    json::put(&mut fields, "layout_version", Json::Number(g.layout_version as u64));
    json::put(&mut fields, "disks", Json::Number(g.disks.len() as u64));
    proof {
        if let JsonView::Object(wanted) = tick_group_object(*g) {
            assert(json::pairs(fields@) =~= wanted);
        }
    }
    json::object(fields)
}

/// The JSON for one status tick: one object per tick, its groups an empty list
/// where there is none.
pub fn daemon_tick_report_json(groups: &[ArrayState]) -> (r: Json)
    ensures
        r@ == daemon_tick_object(groups@),
{
    let mut values: Vec<Json> = Vec::new();
    let mut i: usize = 0;
    while i < groups.len()
        invariant
            i <= groups.len(),
            json::trees(values@) =~= tick_group_objects(groups@).take(i as int),
        decreases groups.len() - i,
    {
        let value = tick_group_json(&groups[i]);
        let ghost before = values@;
        values.push(value);
        assert(json::trees(values@) =~= json::trees(before).push(value@));
        i = i + 1;
    }
    assert(tick_group_objects(groups@).take(i as int) =~= tick_group_objects(groups@));
    let mut fields: Vec<(String, Json)> = Vec::new();
    assert(json::pairs(fields@) =~= Seq::empty());
    json::put(&mut fields, "groups", json::list(values));
    assert(json::pairs(fields@) =~= seq![
        ("groups"@, JsonView::List(tick_group_objects(groups@))),
    ]);
    json::object(fields)
}

/// The line about one group.
pub open spec fn tick_line_text(
    name: Seq<char>,
    mode: Seq<char>,
    layout_version: nat,
    disks: nat,
) -> Seq<char> {
    "[status] group "@ + name + ": mode: "@ + mode + ", layout "@
        + text::dec(layout_version) + ", disks: "@ + text::dec(disks)
}

fn tick_line(name: &str, mode: &str, layout_version: u32, disks: usize) -> (out: String)
    ensures
        out@ == tick_line_text(name@, mode@, layout_version as nat, disks as nat),
{
    let mut out = "[status] group ".to_owned();
    out.append(name);
    out.append(": mode: ");
    out.append(mode);
    out.append(", layout ");
    text::append_decimal(&mut out, layout_version as u64);
    out.append(", disks: ");
    text::append_decimal(&mut out, disks as u64);
    out
}

/// The lines for the groups of a status tick.
pub open spec fn tick_lines(groups: Seq<ArrayState>) -> Seq<Seq<char>> {
    groups.map_values(
        |g: ArrayState|
            tick_line_text(g.name@, g.mode@, g.layout_version as nat, g.disks@.len()),
    )
}

/// What one status tick prints. A missing state and a state without groups are
/// told the same way.
pub open spec fn daemon_tick_view(as_json: bool, groups: Seq<ArrayState>) -> AnswerView {
    if as_json {
        AnswerView::Compact(daemon_tick_object(groups))
    } else if groups.len() == 0 {
        AnswerView::Lines(seq!["[status] No storage group configured yet."@])
    } else {
        AnswerView::Lines(tick_lines(groups))
    }
}

/// What one status tick prints.
pub fn daemon_tick(as_json: bool, groups: &[ArrayState]) -> (r: Answer)
    ensures
        r@ == daemon_tick_view(as_json, groups@),
{
    if as_json {
        return Answer::Compact(daemon_tick_report_json(groups));
    }
    if groups.len() == 0 {
        return Answer::line("[status] No storage group configured yet.".to_owned());
    }
    let mut lines: Vec<String> = Vec::new();
    let mut i: usize = 0;
    while i < groups.len()
        invariant
            i <= groups.len(),
            text::views(lines@) =~= tick_lines(groups@).take(i as int),
        decreases groups.len() - i,
    {
        let g = &groups[i];
        text::add_line(
            &mut lines,
            tick_line(g.name.as_str(), g.mode.as_str(), g.layout_version, g.disks.len()),
        );
        i = i + 1;
    }
    assert(tick_lines(groups@).take(i as int) =~= tick_lines(groups@));
    Answer::Lines(lines)
}

/// What the help says of the status loop: that it watches over nothing, and
/// which command sets up what does.
pub const DAEMON_HELP: &'static str = "Reprint every group's status every 10 seconds until interrupted, for watching progress on a second terminal. This is not a monitoring daemon -- it detects nothing and acts on nothing. The routine background work (error checks, rebuild throttling, health checks, snapshots) is set up by `shr-rs schedule install` instead.";

/// The sentence before the first status tick: this loop watches over nothing, and
/// it names the command that does.
pub open spec fn daemon_banner_text(state_path: Seq<char>) -> Seq<char> {
    "shr-rs daemon: this is NOT a monitoring daemon. It only reprints each "@
        + "group's status from "@ + state_path
        + " every 10 seconds until you stop it (Ctrl-C) -- it detects nothing and "@
        + "acts on nothing. To set up the routine background work that keeps a "@
        + "group healthy (error checks, rebuild throttling, health checks, "@
        + "snapshots), run `shr-rs schedule install` instead."@
}

fn daemon_banner(state_path: &str) -> (out: String)
    ensures
        out@ == daemon_banner_text(state_path@),
{
    let mut out = "shr-rs daemon: this is NOT a monitoring daemon. It only reprints each ".to_owned();
    out.append("group's status from ");
    out.append(state_path);
    out.append(" every 10 seconds until you stop it (Ctrl-C) -- it detects nothing and ");
    out.append("acts on nothing. To set up the routine background work that keeps a ");
    out.append("group healthy (error checks, rebuild throttling, health checks, ");
    out.append("snapshots), run `shr-rs schedule install` instead.");
    out
}

/// What the status loop prints before its first tick: under JSON nothing, for
/// every line of the stream is one object there.
pub fn daemon_started(as_json: bool, state_path: &str) -> (r: Option<String>)
    ensures
        r is Some <==> !as_json,
        r matches Some(s) ==> s@ == daemon_banner_text(state_path@),
{
    if as_json {
        None
    } else {
        Some(daemon_banner(state_path))
    }
}

/// The line for one group in the list of groups.
pub open spec fn group_line_text(g: ArrayState) -> Seq<char> {
    let line = g.name@ + "  mode="@ + g.mode@ + "  disks="@ + text::dec(g.disks@.len())
        + "  bands="@ + text::dec(g.bands@.len()) + "  mount="@ + g.filesystem.mount_point@;
    if g.expansion_in_progress {
        line + "  [expansion in progress]"@
    } else {
        line
    }
}

/// The lines for the groups of the list.
pub open spec fn group_line_texts(groups: Seq<ArrayState>) -> Seq<Seq<char>> {
    groups.map_values(|g: ArrayState| group_line_text(g))
}

fn group_line(g: &ArrayState) -> (out: String)
    ensures
        out@ == group_line_text(*g),
{
    let mut out = g.name.clone();
    out.append("  mode=");
    out.append(g.mode.as_str());
    out.append("  disks=");
    text::append_decimal(&mut out, g.disks.len() as u64);
    out.append("  bands=");
    text::append_decimal(&mut out, g.bands.len() as u64);
    out.append("  mount=");
    out.append(g.filesystem.mount_point.as_str());
    if g.expansion_in_progress {
        out.append("  [expansion in progress]");
    }
    out
}

/// What listing the groups prints. `state` is the whole state as JSON.
pub open spec fn groups_listed_view(as_json: bool, groups: Seq<ArrayState>, state: JsonView) ->
    AnswerView {
    if as_json {
        AnswerView::Pretty(state)
    } else if groups.len() == 0 {
        AnswerView::Lines(seq!["No groups."@])
    } else {
        AnswerView::Lines(group_line_texts(groups))
    }
}

/// What listing the groups prints. `state` is the whole state as JSON.
pub fn groups_listed(as_json: bool, groups: &[ArrayState], state: Json) -> (r: Answer)
    ensures
        r@ == groups_listed_view(as_json, groups@, state@),
{
    if as_json {
        return Answer::Pretty(state);
    }
    if groups.len() == 0 {
        return Answer::line("No groups.".to_owned());
    }
    let mut lines: Vec<String> = Vec::new();
    let mut i: usize = 0;
    while i < groups.len()
        invariant
            i <= groups.len(),
            text::views(lines@) =~= group_line_texts(groups@).take(i as int),
        decreases groups.len() - i,
    {
        text::add_line(&mut lines, group_line(&groups[i]));
        i = i + 1;
    }
    assert(group_line_texts(groups@).take(i as int) =~= group_line_texts(groups@));
    Answer::Lines(lines)
}

/// The name that a report gives for the group that a command worked on: the
/// one that was asked for, else the first that is recorded, else none.
pub open spec fn reported_group(name: Option<Seq<char>>, groups: Seq<ArrayState>) -> Seq<char> {
    match name {
        Some(n) => n,
        None => if groups.len() > 0 {
            groups[0].name@
        } else {
            ""@
        },
    }
}

/// The name that a report gives for the group that a command worked on.
pub fn resolve_group_name_for_report(state: Option<&StateFile>, name: Option<&str>) -> (r: String)
    ensures
        r@ == reported_group(
            text::opt_view(name),
            ops::recorded(state),
        ),
{
    match name {
        Some(n) => n.to_owned(),
        None => match state {
            Some(s) => if s.groups.len() > 0 {
                s.groups[0].name.clone()
            } else {
                "".to_owned()
            },
            None => "".to_owned(),
        },
    }
}

// ---------------------------------------------------------------------------
// Disks
// ---------------------------------------------------------------------------

/// The word for the health of a disk.
pub open spec fn smart_word(s: SmartState) -> Seq<char> {
    match s {
        SmartState::Good => "ok"@,
        SmartState::Warning => "warning"@,
        SmartState::Unknown => "unknown"@,
    }
}

/// A count, or that it is not known.
pub open spec fn count_text(n: Option<u64>) -> Seq<char> {
    match n {
        Some(n) => text::dec(n as nat),
        None => "unknown"@,
    }
}

/// A temperature, or that it is not known.
pub open spec fn temperature_text(t: Option<i64>) -> Seq<char> {
    match t {
        Some(c) => text::signed_dec(c as int) + "C"@,
        None => "unknown"@,
    }
}

/// The line for one disk in the health report.
pub open spec fn smart_line_text(d: DiskStatus) -> Seq<char> {
    d.name@ + "  health="@ + smart_word(d.smart.state) + "  temp="@ + temperature_text(
        d.smart.temperature_c,
    ) + "  reallocated-sectors="@ + count_text(d.smart.reallocated_sectors)
        + "  pending-sectors="@ + count_text(d.smart.pending_sectors)
}

/// The lines of the health report.
pub open spec fn smart_line_texts(disks: Seq<DiskStatus>) -> Seq<Seq<char>> {
    disks.map_values(|d: DiskStatus| smart_line_text(d))
}

fn count(n: Option<u64>) -> (out: String)
    ensures
        out@ == count_text(n),
{
    match n {
        Some(n) => text::decimal(n),
        None => "unknown".to_owned(),
    }
}

fn temperature(t: Option<i64>) -> (out: String)
    ensures
        out@ == temperature_text(t),
{
    match t {
        Some(c) => {
            let mut out = text::signed_decimal(c);
            out.append("C");
            out
        },
        None => "unknown".to_owned(),
    }
}

fn smart_line(d: &DiskStatus) -> (out: String)
    ensures
        out@ == smart_line_text(*d),
{
    let mut out = d.name.clone();
    out.append("  health=");
    match d.smart.state {
        SmartState::Good => {
            out.append("ok");
        },
        SmartState::Warning => {
            out.append("warning");
        },
        SmartState::Unknown => {
            out.append("unknown");
        },
    }
    out.append("  temp=");
    out.append(temperature(d.smart.temperature_c).as_str());
    out.append("  reallocated-sectors=");
    out.append(count(d.smart.reallocated_sectors).as_str());
    out.append("  pending-sectors=");
    out.append(count(d.smart.pending_sectors).as_str());
    out
}

/// What the health report prints.
pub fn smart_reported(as_json: bool, disks: &Vec<DiskStatus>) -> (r: Answer)
    ensures
        r@ == if as_json {
            AnswerView::Pretty(JsonView::List(report_json::disk_objects(disks@)))
        } else {
            AnswerView::Lines(smart_line_texts(disks@))
        },
{
    if as_json {
        return Answer::Pretty(report_json::disks_json(disks));
    }
    let mut lines: Vec<String> = Vec::new();
    let mut i: usize = 0;
    while i < disks.len()
        invariant
            i <= disks.len(),
            text::views(lines@) =~= smart_line_texts(disks@).take(i as int),
        decreases disks.len() - i,
    {
        text::add_line(&mut lines, smart_line(&disks[i]));
        i = i + 1;
    }
    assert(smart_line_texts(disks@).take(i as int) =~= smart_line_texts(disks@));
    Answer::Lines(lines)
}

/// With which error the health report ends: it fails where any disk reports a
/// problem, whichever way it was printed.
pub fn smart_failure(disks: &Vec<DiskStatus>) -> (r: Option<String>)
    ensures
        r is Some <==> exists|i: int|
            0 <= i < disks@.len() && (#[trigger] disks@[i]).smart.state == SmartState::Warning,
        r matches Some(m) ==> m@ == "one or more disks report a SMART warning"@,
{
    let mut i: usize = 0;
    while i < disks.len()
        invariant
            i <= disks.len(),
            forall|k: int|
                0 <= k < i ==> (#[trigger] disks@[k]).smart.state != SmartState::Warning,
        decreases disks.len() - i,
    {
        if let SmartState::Warning = disks[i].smart.state {
            return Some("one or more disks report a SMART warning".to_owned());
        }
        i = i + 1;
    }
    None
}

/// The line about a disk that was replaced.
pub open spec fn replaced_line_text(
    old_disk: Seq<char>,
    new_disk: Seq<char>,
    group: Seq<char>,
) -> Seq<char> {
    "disk `"@ + old_disk + "` replaced with `"@ + new_disk + "` in group `"@ + group + "`"@
}

fn replaced_line(old_disk: &str, new_disk: &str, group: &str) -> (out: String)
    ensures
        out@ == replaced_line_text(old_disk@, new_disk@, group@),
{
    let mut out = "disk `".to_owned();
    out.append(old_disk);
    out.append("` replaced with `");
    out.append(new_disk);
    out.append("` in group `");
    out.append(group);
    out.append("`");
    out
}

/// What replacing a disk prints. `state` is the group's new state as JSON.
pub fn replaced(as_json: bool, old_disk: &str, new_disk: &str, group: &str, state: Json) -> (r:
    Answer)
    ensures
        r@ == if as_json {
            AnswerView::Pretty(state@)
        } else {
            AnswerView::Lines(seq![replaced_line_text(old_disk@, new_disk@, group@)])
        },
{
    if as_json {
        Answer::Pretty(state)
    } else {
        Answer::line(replaced_line(old_disk, new_disk, group))
    }
}

// ---------------------------------------------------------------------------
// Creating, expanding and destroying
// ---------------------------------------------------------------------------

/// The line about a group that was created.
pub open spec fn created_line_text(
    name: Seq<char>,
    mode: Seq<char>,
    mount: Seq<char>,
) -> Seq<char> {
    "Storage group `"@ + name + "` created ("@ + mode + "), mounted at "@ + mount + "."@
}

fn created_line(name: &str, mode: &str, mount: &str) -> (out: String)
    ensures
        out@ == created_line_text(name@, mode@, mount@),
{
    let mut out = "Storage group `".to_owned();
    out.append(name);
    out.append("` created (");
    out.append(mode);
    out.append("), mounted at ");
    out.append(mount);
    out.append(".");
    out
}

/// What creating a group prints. `state` is the new group as JSON.
pub fn created(as_json: bool, group: &ArrayState, state: Json) -> (r: Answer)
    ensures
        r@ == if as_json {
            AnswerView::Pretty(state@)
        } else {
            AnswerView::Lines(
                seq![created_line_text(group.name@, group.mode@, group.filesystem.mount_point@)],
            )
        },
{
    if as_json {
        Answer::Pretty(state)
    } else {
        Answer::line(
            created_line(
                group.name.as_str(),
                group.mode.as_str(),
                group.filesystem.mount_point.as_str(),
            ),
        )
    }
}

/// The line about a group that was expanded.
pub open spec fn expanded_line_text(name: Seq<char>, version: nat) -> Seq<char> {
    "Array expanded successfully! Name: "@ + name + ", Layout Version: "@
        + text::dec(version)
}

fn expanded_line(name: &str, version: u32) -> (out: String)
    ensures
        out@ == expanded_line_text(name@, version as nat),
{
    let mut out = "Array expanded successfully! Name: ".to_owned();
    out.append(name);
    out.append(", Layout Version: ");
    text::append_decimal(&mut out, version as u64);
    out
}

/// What expanding a group prints. `state` is the group's new state as JSON.
pub fn expanded(as_json: bool, group: &ArrayState, state: Json) -> (r: Answer)
    ensures
        r@ == if as_json {
            AnswerView::Pretty(state@)
        } else {
            AnswerView::Lines(
                seq![expanded_line_text(group.name@, group.layout_version as nat)],
            )
        },
{
    if as_json {
        Answer::Pretty(state)
    } else {
        Answer::line(expanded_line(group.name.as_str(), group.layout_version))
    }
}

/// The JSON object about a group that was removed.
pub open spec fn destroyed_object(group: Seq<char>) -> JsonView {
    JsonView::Object(
        seq![
            ("destroyed"@, JsonView::Text(group)),
        ],
    )
}

/// The JSON for a group that was destroyed.
pub fn destroyed_report_json(group: &str) -> (r: Json)
    ensures
        r@ == destroyed_object(group@),
{
    let mut fields: Vec<(String, Json)> = Vec::new();
    assert(json::pairs(fields@) =~= Seq::empty());
    json::put(&mut fields, "destroyed", json::string(group));
    proof {
        if let JsonView::Object(wanted) = destroyed_object(group@) {
            assert(json::pairs(fields@) =~= wanted);
        }
    }
    json::object(fields)
}

/// The line about a group that was removed.
pub open spec fn destroyed_line_text(group: Seq<char>) -> Seq<char> {
    "group `"@ + group + "` destroyed"@
}

fn destroyed_line(group: &str) -> (out: String)
    ensures
        out@ == destroyed_line_text(group@),
{
    let mut out = "group `".to_owned();
    out.append(group);
    out.append("` destroyed");
    out
}

/// How removing a group answers.
pub open spec fn destroyed_view(as_json: bool, group: Seq<char>) -> AnswerView {
    if as_json {
        AnswerView::Pretty(destroyed_object(group))
    } else {
        AnswerView::Lines(seq![destroyed_line_text(group)])
    }
}

/// What destroying a group prints.
pub fn destroyed(as_json: bool, group: &str) -> (r: Answer)
    ensures
        r@ == destroyed_view(as_json, group@),
{
    if as_json {
        Answer::Pretty(destroyed_report_json(group))
    } else {
        Answer::line(destroyed_line(group))
    }
}

// ---------------------------------------------------------------------------
// Progress
// ---------------------------------------------------------------------------

/// The line for an update that is told after the operation has ended.
pub open spec fn note_text(u: ProgressUpdate) -> Seq<char> {
    "["@ + u.operation@ + "] "@ + u.stage@ + ": "@ + u.message@
}

/// The line for an update that is told after the operation has ended.
pub fn note(u: &ProgressUpdate) -> (out: String)
    ensures
        out@ == note_text(*u),
{
    let mut out = "[".to_owned();
    out.append(u.operation.as_str());
    out.append("] ");
    out.append(u.stage.as_str());
    out.append(": ");
    out.append(u.message.as_str());
    out
}

/// The lines for updates that are told after the operation has ended.
pub open spec fn note_texts(updates: Seq<ProgressUpdate>) -> Seq<Seq<char>> {
    updates.map_values(|u: ProgressUpdate| note_text(u))
}

/// The lines for updates that are told after the operation has ended, in the
/// order in which they were reported.
pub fn notes(updates: &[ProgressUpdate]) -> (r: Vec<String>)
    ensures
        text::views(r@) == note_texts(updates@),
{
    let mut r: Vec<String> = Vec::new();
    let mut i: usize = 0;
    while i < updates.len()
        invariant
            i <= updates.len(),
            r@.len() == i,
            forall|k: int| 0 <= k < i ==> (#[trigger] r@[k])@ == note_text(updates@[k]),
        decreases updates.len() - i,
    {
        r.push(note(&updates[i]));
        i = i + 1;
    }
    assert(text::views(r@) =~= note_texts(updates@));
    r
}

} // verus!
