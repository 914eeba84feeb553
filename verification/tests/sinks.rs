//! Progress and confirmation sinks.

use shr_rs::figures::Decimal;
use shr_rs::{
    AlwaysConfirmSink, AlwaysRejectConfirmSink, ConfirmRequest, ConfirmSink, Confirmation,
    NullProgressSink, ProgressSink, ProgressUpdate, RecordingConfirmSink, RecordingProgressSink,
    TextProgressSink,
};

fn update(stage: &str, percent: Option<i64>) -> ProgressUpdate {
    ProgressUpdate {
        operation: "create".to_string(),
        stage: stage.to_string(),
        percent: percent.map(|p| Decimal { tenths: p * 10 }),
        message: format!("{stage} in progress"),
    }
}

#[test]
fn null_progress_sink_does_nothing_and_never_panics() {
    let mut sink = NullProgressSink;
    sink.report(update("partition", Some(10)));
    sink.report(update("done", None));
}

#[test]
fn text_progress_sink_writes_one_line_per_update_with_percent() {
    let mut sink = TextProgressSink::new(String::new());
    sink.report(update("partition", Some(50)));
    let out = sink.into_inner();
    assert_eq!(out, "[create] partition (50%): partition in progress\n");
}

#[test]
fn text_progress_sink_omits_percent_when_unknown() {
    let mut sink = TextProgressSink::new(String::new());
    sink.report(update("filesystem", None));
    let out = sink.into_inner();
    assert_eq!(out, "[create] filesystem: filesystem in progress\n");
}

#[test]
fn text_progress_sink_keeps_what_was_written_before() {
    let mut sink = TextProgressSink::new("before\n".to_string());
    sink.report(update("a", Some(0)));
    sink.report(update("b", Some(100)));
    assert_eq!(
        sink.into_inner(),
        "before\n[create] a (0%): a in progress\n[create] b (100%): b in progress\n"
    );
}

#[test]
fn recording_progress_sink_captures_updates_in_order() {
    let mut sink = RecordingProgressSink::new();
    sink.report(update("partition", Some(0)));
    sink.report(update("array", Some(50)));
    sink.report(update("done", Some(100)));
    let stages: Vec<String> = sink.updates().into_iter().map(|u| u.stage).collect();
    assert_eq!(stages, vec!["partition", "array", "done"]);
    assert!(RecordingProgressSink::default().updates().is_empty());
}

fn request(irreversible: bool) -> ConfirmRequest {
    ConfirmRequest {
        operation: "create".to_string(),
        summary: "create group `default` (3 disks)".to_string(),
        irreversible,
    }
}

#[test]
fn always_confirm_sink_always_proceeds() {
    let mut sink = AlwaysConfirmSink;
    assert_eq!(sink.confirm(&request(true)), Confirmation::Proceed);
    assert_eq!(sink.confirm(&request(false)), Confirmation::Proceed);
}

#[test]
fn always_reject_confirm_sink_always_rejects() {
    let mut sink = AlwaysRejectConfirmSink;
    assert_eq!(sink.confirm(&request(true)), Confirmation::Reject);
}

#[test]
fn recording_confirm_sink_proceeding_returns_proceed_and_records_the_request() {
    let mut sink = RecordingConfirmSink::proceeding();
    let req = request(true);
    assert_eq!(sink.confirm(&req), Confirmation::Proceed);
    assert_eq!(sink.requests(), vec![req]);
}

#[test]
fn recording_confirm_sink_rejecting_returns_reject_and_records_the_request() {
    let mut sink = RecordingConfirmSink::rejecting();
    let req = request(true);
    assert_eq!(sink.confirm(&req), Confirmation::Reject);
    assert_eq!(sink.requests(), vec![req]);
}
