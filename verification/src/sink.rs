//! Progress reporting and destructive-action confirmation: what every
//! long-running operation reports through, and asks through before it does
//! anything that cannot be undone.

use vstd::prelude::*;
use crate::figures;
use crate::figures::Decimal;

verus! {

/// One update from a long-running operation: which stage it's in, how far
/// along (if known), and a human-readable message.
#[derive(Debug, PartialEq, Eq)]
pub struct ProgressUpdate {
    /// Which long-running operation this update belongs to (e.g. `"create"`,
    /// `"expand"`, `"scrub"`).
    pub operation: String,
    /// A short, stable, machine-friendly phase name (e.g. `"partition"`,
    /// `"mdadm"`, `"lvm"`, `"filesystem"`).
    pub stage: String,
    /// 0 to 100 when known; `None` when the underlying step has no meaningful
    /// fractional progress.
    pub percent: Option<Decimal>,
    pub message: String,
}

impl Clone for ProgressUpdate {
    fn clone(&self) -> (r: Self)
        ensures
            r == *self,
    {
        ProgressUpdate {
            operation: self.operation.clone(),
            stage: self.stage.clone(),
            percent: self.percent,
            message: self.message.clone(),
        }
    }
}

/// Receives [`ProgressUpdate`]s from a long-running operation. Implementors
/// decide what to do with them (print, serialize, record); the operation
/// itself never knows or cares which.
pub trait ProgressSink {
    fn report(&mut self, update: ProgressUpdate);
}

/// Default when a caller doesn't wire up a real sink: does nothing.
pub struct NullProgressSink;

impl ProgressSink for NullProgressSink {
    fn report(&mut self, update: ProgressUpdate)
        ensures
            *final(self) == *old(self),
    {
    }
}

/// Something that text can be written to.
pub trait TextWriter {
    /// All that was written so far.
    spec fn written(&self) -> Seq<char>;

    /// Writes `s` behind what was written before.
    fn write_text(&mut self, s: &str)
        ensures
            final(self).written() == old(self).written() + s@,
    ;
}

impl TextWriter for String {
    open spec fn written(&self) -> Seq<char> {
        self@
    }

    fn write_text(&mut self, s: &str) {
        self.append(s);
    }
}

/// The line that an update is written as.
pub open spec fn update_text(u: ProgressUpdate) -> Seq<char> {
    let head = "["@ + u.operation@ + "] "@ + u.stage@;
    match u.percent {
        Some(p) => head + " ("@ + figures::rounded_text(p) + "%): "@ + u.message@ + "\n"@,
        None => head + ": "@ + u.message@ + "\n"@,
    }
}

fn update_line(u: &ProgressUpdate) -> (out: String)
    ensures
        out@ == update_text(*u),
{
    let mut out = "[".to_owned();
    out.append(u.operation.as_str());
    out.append("] ");
    out.append(u.stage.as_str());
    match u.percent {
        Some(p) => {
            out.append(" (");
            out.append(p.rounded().as_str());
            out.append("%): ");
        },
        None => {
            out.append(": ");
        },
    }
    out.append(u.message.as_str());
    out.append("\n");
    out
}

/// Human-readable text, one line per update, written as it arrives: an
/// operation that runs for hours has to reach the operator *while* the work
/// happens.
pub struct TextProgressSink<W> {
    writer: W,
}

impl<W: TextWriter> TextProgressSink<W> {
    /// All that was written so far.
    pub closed spec fn written(&self) -> Seq<char> {
        self.writer.written()
    }

    /// The underlying writer.
    pub closed spec fn inner(&self) -> W {
        self.writer
    }

    pub fn new(writer: W) -> (r: Self)
        ensures
            r.inner() == writer,
            r.written() == writer.written(),
    {
        TextProgressSink { writer }
    }

    /// Unwrap back to the underlying writer.
    pub fn into_inner(self) -> (w: W)
        ensures
            w == self.inner(),
            w.written() == self.written(),
    {
        self.writer
    }
}

impl<W: TextWriter> ProgressSink for TextProgressSink<W> {
    fn report(&mut self, update: ProgressUpdate)
        ensures
            final(self).written() == old(self).written() + update_text(update),
    {
        let line = update_line(&update);
        self.writer.write_text(line.as_str());
    }
}

/// Records every update it receives instead of writing anywhere.
pub struct RecordingProgressSink {
    updates: Vec<ProgressUpdate>,
}

impl RecordingProgressSink {
    /// The updates received so far, in the order in which they came.
    pub closed spec fn log(&self) -> Seq<ProgressUpdate> {
        self.updates@
    }

    pub fn new() -> (r: Self)
        ensures
            r.log() == Seq::<ProgressUpdate>::empty(),
    {
        RecordingProgressSink { updates: Vec::new() }
    }

    /// The updates received so far, in the order in which they came.
    pub fn updates(&self) -> (r: Vec<ProgressUpdate>)
        ensures
            r@ == self.log(),
    {
        let mut r: Vec<ProgressUpdate> = Vec::new();
        let mut i: usize = 0;
        while i < self.updates.len()
            invariant
                i <= self.updates.len(),
                r@ =~= self.updates@.take(i as int),
            decreases self.updates.len() - i,
        {
            r.push(self.updates[i].clone());
            i = i + 1;
        }
        assert(self.updates@.take(i as int) =~= self.updates@);
        r
    }
}

impl Default for RecordingProgressSink {
    fn default() -> (r: Self)
        ensures
            r.log() == Seq::<ProgressUpdate>::empty(),
    {
        RecordingProgressSink::new()
    }
}

impl ProgressSink for RecordingProgressSink {
    fn report(&mut self, update: ProgressUpdate)
        ensures
            final(self).log() == old(self).log().push(update),
    {
        self.updates.push(update);
    }
}

/// A caller's answer to a [`ConfirmSink::confirm`] request. A dedicated enum,
/// not a bare `bool`, so that "proceed" and "cancel" can't be misread.
#[derive(Debug, Clone, Copy, PartialEq, Eq, Structural)]
pub enum Confirmation {
    Proceed,
    Reject,
}

/// What's about to happen, for a [`ConfirmSink`] to show/ask about.
#[derive(Debug, PartialEq, Eq)]
pub struct ConfirmRequest {
    /// Which operation is asking (e.g. `"create"`, `"expand"`).
    pub operation: String,
    /// Human-readable description of what will happen (which disks, which
    /// group).
    pub summary: String,
    /// True when the action, once started, cannot be cleanly undone.
    pub irreversible: bool,
}

impl Clone for ConfirmRequest {
    fn clone(&self) -> (r: Self)
        ensures
            r == *self,
    {
        ConfirmRequest {
            operation: self.operation.clone(),
            summary: self.summary.clone(),
            irreversible: self.irreversible,
        }
    }
}

/// Asks whether a destructive action should proceed. A `Reject` answer MUST
/// stop the action before it touches anything real.
pub trait ConfirmSink {
    fn confirm(&mut self, request: &ConfirmRequest) -> Confirmation;
}

/// Always answers `Proceed`: the only sink that reproduces "no confirmation
/// ever happens". Not a generic shortcut for an unattended call site.
pub struct AlwaysConfirmSink;

impl ConfirmSink for AlwaysConfirmSink {
    fn confirm(&mut self, request: &ConfirmRequest) -> (r: Confirmation)
        ensures
            r == Confirmation::Proceed,
            *final(self) == *old(self),
    {
        Confirmation::Proceed
    }
}

/// Fails closed: always answers `Reject`. "There is no one to ask" must never
/// silently become "yes".
pub struct AlwaysRejectConfirmSink;

impl ConfirmSink for AlwaysRejectConfirmSink {
    fn confirm(&mut self, request: &ConfirmRequest) -> (r: Confirmation)
        ensures
            r == Confirmation::Reject,
            *final(self) == *old(self),
    {
        Confirmation::Reject
    }
}

/// Returns a fixed, caller-chosen answer and records every request it was
/// asked about.
pub struct RecordingConfirmSink {
    answer: Confirmation,
    requests: Vec<ConfirmRequest>,
}

impl RecordingConfirmSink {
    /// The answer to every request.
    pub closed spec fn fixed_answer(&self) -> Confirmation {
        self.answer
    }

    /// The requests received so far, in the order in which they came.
    pub closed spec fn log(&self) -> Seq<ConfirmRequest> {
        self.requests@
    }

    pub fn proceeding() -> (r: Self)
        ensures
            r.fixed_answer() == Confirmation::Proceed,
            r.log() == Seq::<ConfirmRequest>::empty(),
    {
        RecordingConfirmSink { answer: Confirmation::Proceed, requests: Vec::new() }
    }

    pub fn rejecting() -> (r: Self)
        ensures
            r.fixed_answer() == Confirmation::Reject,
            r.log() == Seq::<ConfirmRequest>::empty(),
    {
        RecordingConfirmSink { answer: Confirmation::Reject, requests: Vec::new() }
    }

    /// The requests received so far, in the order in which they came.
    pub fn requests(&self) -> (r: Vec<ConfirmRequest>)
        ensures
            r@ == self.log(),
    {
        let mut r: Vec<ConfirmRequest> = Vec::new();
        let mut i: usize = 0;
        while i < self.requests.len()
            invariant
                i <= self.requests.len(),
                r@ =~= self.requests@.take(i as int),
            decreases self.requests.len() - i,
        {
            r.push(self.requests[i].clone());
            i = i + 1;
        }
        assert(self.requests@.take(i as int) =~= self.requests@);
        r
    }
}

impl ConfirmSink for RecordingConfirmSink {
    fn confirm(&mut self, request: &ConfirmRequest) -> (r: Confirmation)
        ensures
            r == old(self).fixed_answer(),
            final(self).fixed_answer() == old(self).fixed_answer(),
            final(self).log() == old(self).log().push(*request),
    {
        self.requests.push(request.clone());
        self.answer
    }
}

} // verus!
