//! Print jobs and uploaded programs: records, status lifecycle, logs.
//!
//! A job is `Queued` when created, `Running` once a worker starts it,
//! and ends `Completed` on the final acknowledgement or `Failed` with
//! the firmware's error line.

use vstd::prelude::*;

verus! {

/// An uploaded program: its identifier, file name, and raw bytes.
#[derive(Debug, Clone)]
pub struct GcodeFile {
    pub id: u128,
    pub name: String,
    pub content: Vec<u8>,
}

/// Where a job stands in its life.
#[derive(Debug, Clone)]
pub enum JobStatus {
    Queued,
    Running,
    Completed,
    Failed(Vec<u8>),
}

/// One print job and its timestamps (milliseconds of wall-clock time).
#[derive(Debug, Clone)]
pub struct Job {
    pub id: u128,
    pub printer_id: u128,
    pub gcode_file_id: u128,
    pub status: JobStatus,
    pub created_at_ms: i64,
    pub started_at_ms: Option<i64>,
    pub finished_at_ms: Option<i64>,
}

impl Job {
    /// A fresh job: queued, created now, not yet started or finished.
    pub fn new(id: u128, printer_id: u128, gcode_file_id: u128, created_at_ms: i64) -> (r: Job)
        ensures
            r.id == id,
            r.printer_id == printer_id,
            r.gcode_file_id == gcode_file_id,
            r.status is Queued,
            r.created_at_ms == created_at_ms,
            r.started_at_ms is None,
            r.finished_at_ms is None,
    {
        Job {
            id,
            printer_id,
            gcode_file_id,
            status: JobStatus::Queued,
            created_at_ms,
            started_at_ms: None,
            finished_at_ms: None,
        }
    }

    /// Begin running: only the status and start time change.
    pub fn start(&mut self, now_ms: i64)
        ensures
            final(self).status is Running,
            final(self).started_at_ms == Some(now_ms),
            final(self).id == old(self).id,
            final(self).printer_id == old(self).printer_id,
            final(self).gcode_file_id == old(self).gcode_file_id,
            final(self).created_at_ms == old(self).created_at_ms,
            final(self).finished_at_ms == old(self).finished_at_ms,
    {
        self.status = JobStatus::Running;
        self.started_at_ms = Some(now_ms);
    }

    /// Finish cleanly: only the status and finish time change.
    pub fn complete(&mut self, now_ms: i64)
        ensures
            final(self).status is Completed,
            final(self).finished_at_ms == Some(now_ms),
            final(self).id == old(self).id,
            final(self).printer_id == old(self).printer_id,
            final(self).gcode_file_id == old(self).gcode_file_id,
            final(self).created_at_ms == old(self).created_at_ms,
            final(self).started_at_ms == old(self).started_at_ms,
    {
        self.status = JobStatus::Completed;
        self.finished_at_ms = Some(now_ms);
    }

    /// Fail with the firmware's error line: only the status and finish
    /// time change, and the reason is kept verbatim.
    pub fn fail(&mut self, reason: Vec<u8>, now_ms: i64)
        ensures
            (final(self).status matches JobStatus::Failed(e) && e@ == reason@),
            final(self).finished_at_ms == Some(now_ms),
            final(self).id == old(self).id,
            final(self).printer_id == old(self).printer_id,
            final(self).gcode_file_id == old(self).gcode_file_id,
            final(self).created_at_ms == old(self).created_at_ms,
            final(self).started_at_ms == old(self).started_at_ms,
    {
        self.status = JobStatus::Failed(reason);
        self.finished_at_ms = Some(now_ms);
    }
}

/// One line of a job's log.
#[derive(Debug, Clone)]
pub struct JobLogEntry {
    pub timestamp_ms: i64,
    pub message: Vec<u8>,
}

impl JobLogEntry {
    pub fn new(timestamp_ms: i64, message: Vec<u8>) -> (r: Self)
        ensures
            r.timestamp_ms == timestamp_ms,
            r.message == message,
    {
        JobLogEntry { timestamp_ms, message }
    }
}

} // verus!
