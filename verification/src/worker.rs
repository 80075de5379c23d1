//! The per-printer worker's decision core.
//!
//! One task owns the serial stream; everything it decides is a pure
//! function here, so the surrounding loop only performs I/O.  Bytes
//! from the device are framed into lines; every line updates the
//! printer state and may finish the running job; commands queue jobs
//! and start the next one only when none is running.

use vstd::prelude::*;
use std::collections::VecDeque;

use crate::framing::{lines_view, spec_feed, LineFramer};
use crate::jobs::{Job, JobStatus};
use crate::printer_state::{spec_has_error, spec_starts_ok, PrinterState};

verus! {

/// Capacity of the worker's command channel.
pub const CMD_CHANNEL_CAPACITY: usize = 32;

/// Capacity of the worker's line broadcast.
pub const LINE_CHANNEL_CAPACITY: usize = 256;

/// A command sent to the worker.
#[derive(Debug)]
pub enum PrinterCommand {
    /// Write these bytes to the device and flush.
    Write(Vec<u8>),
    /// Await the next broadcast line.
    ReadLine,
    /// Append a job to the queue.
    QueueJob(Job),
    /// Pop the queue's head and start it.
    StartNextJob,
}

/// The worker's state between events.
#[derive(Debug)]
pub struct WorkerState {
    pub framer: LineFramer,
    pub printer: PrinterState,
    pub job_queue: VecDeque<Job>,
    pub current_job: Option<Job>,
    pub streamed: bool,
}

impl WorkerState {
    pub open spec fn wf(self) -> bool {
        self.printer.wf()
    }

    /// A fresh worker: empty framer and queue, default printer state,
    /// no running job.
    pub fn new() -> (r: Self)
        ensures
            r.wf(),
            r.framer.pending@ == Seq::<u8>::empty(),
            r.job_queue@.len() == 0,
            r.current_job is None,
            r.streamed == false,
            r.printer.ready == false,
    {
        WorkerState {
            framer: LineFramer::new(),
            printer: PrinterState::default(),
            job_queue: VecDeque::new(),
            current_job: None,
            streamed: false,
        }
    }

    /// Append a job to the tail of the queue; nothing else changes.
    pub fn queue_job(&mut self, job: Job)
        ensures
            final(self).job_queue@ == old(self).job_queue@.push(job),
            final(self).framer == old(self).framer,
            final(self).printer == old(self).printer,
            final(self).current_job == old(self).current_job,
            final(self).streamed == old(self).streamed,
    {
        self.job_queue.push_back(job);
    }

    /// Pop the queue's head and mark it running, but only when no job
    /// is running: a job never starts on a busy printer.  Returns the
    /// started job's identifier.
    pub fn start_next_job(&mut self, now_ms: i64) -> (r: Option<u128>)
        requires
            old(self).wf(),
        ensures
            final(self).wf(),
            final(self).framer == old(self).framer,
            final(self).printer == old(self).printer,
            old(self).current_job is Some ==> r is None && final(self).job_queue@ == old(self).job_queue@ && final(self).current_job == old(self).current_job,
            old(self).current_job is None && old(self).job_queue@.len() == 0 ==> r is None && final(self).current_job is None && final(self).job_queue@ == old(self).job_queue@,
            old(self).current_job is None && old(self).job_queue@.len() > 0 ==> {
                &&& r == Some(old(self).job_queue@[0].id)
                &&& final(self).job_queue@ == old(self).job_queue@.skip(1)
                &&& (final(self).current_job matches Some(j) && j.id == old(self).job_queue@[0].id
                    && j.status is Running && j.started_at_ms == Some(now_ms))
                &&& final(self).streamed == false
            },
    {
        if self.current_job.is_some() {
            return None;
        }
        match self.job_queue.pop_front() {
            Some(mut job) => {
                let id = job.id;
                job.start(now_ms);
                self.current_job = Some(job);
                self.streamed = false;
                Some(id)
            },
            None => None,
        }
    }

    /// Record that every byte of the running job's program has been
    /// written to the device: the next acknowledgement completes it.
    pub fn mark_streamed(&mut self)
        ensures
            final(self).streamed == true,
            final(self).framer == old(self).framer,
            final(self).printer == old(self).printer,
            final(self).job_queue@ == old(self).job_queue@,
            final(self).current_job == old(self).current_job,
    {
        self.streamed = true;
    }

    /// Fold one framed line: the printer state absorbs it; a firmware
    /// error fails the running job with the line as reason, and an
    /// acknowledgement after the final write completes it.  A finished
    /// job is handed back.
    pub fn handle_line(&mut self, line: &[u8], now_ms: i64) -> (r: Option<Job>)
        requires
            old(self).wf(),
        ensures
            final(self).wf(),
            final(self).framer == old(self).framer,
            final(self).job_queue@ == old(self).job_queue@,
            // the acknowledgement rule: an ok line marks the printer ready
            !spec_has_error(line@) && spec_starts_ok(line@) ==> final(self).printer.ready == true,
            // a firmware error fails the running job with the raw line
            spec_has_error(line@) && old(self).current_job is Some ==> (r matches Some(j)
                && (j.status matches JobStatus::Failed(e) && e@ == line@) && j.finished_at_ms
                == Some(now_ms) && j.id == old(self).current_job.unwrap().id) && final(self).current_job is None,
            // the final acknowledgement completes the streamed job
            !spec_has_error(line@) && spec_starts_ok(line@) && old(self).current_job is Some && old(self).streamed ==> (r matches Some(j) && j.status is Completed && j.finished_at_ms == Some(
                now_ms,
            ) && j.id == old(self).current_job.unwrap().id) && final(self).current_job is None,
            // otherwise no job ends
            !spec_has_error(line@) && !(spec_starts_ok(line@) && old(self).streamed) ==> r is None
                && final(self).current_job == old(self).current_job,
            old(self).current_job is None ==> r is None,
    {
        self.printer.update_from_line(line);
        let is_error = crate::printer_state::line_has_error(line);
        let is_ok = line.len() >= 2 && line[0] == 111 && line[1] == 107;
        if is_error {
            let mut cur: Option<Job> = None;
            core::mem::swap(&mut cur, &mut self.current_job);
            match cur {
                Some(mut job) => {
                    let mut copy: Vec<u8> = Vec::new();
                    let mut k: usize = 0;
                    while k < line.len()
                        invariant
                            0 <= k <= line@.len(),
                            copy@ == line@.take(k as int),
                        decreases line@.len() - k,
                    {
                        copy.push(line[k]);
                        proof {
                            assert(line@.take(k + 1) =~= line@.take(k as int).push(
                                line@[k as int],
                            ));
                        }
                        k = k + 1;
                    }
                    proof {
                        assert(line@.take(line@.len() as int) =~= line@);
                    }
                    job.fail(copy, now_ms);
                    Some(job)
                },
                None => None,
            }
        } else if is_ok && self.streamed {
            let mut cur: Option<Job> = None;
            core::mem::swap(&mut cur, &mut self.current_job);
            match cur {
                Some(mut job) => {
                    job.complete(now_ms);
                    self.streamed = false;
                    Some(job)
                },
                None => None,
            }
        } else {
            None
        }
    }

    /// Feed raw bytes from the device: frames complete lines, which the
    /// caller broadcasts and then folds through `handle_line`.
    pub fn on_bytes(&mut self, bytes: &[u8]) -> (r: Vec<Vec<u8>>)
        ensures
            lines_view(r@) == spec_feed(old(self).framer.pending@, bytes@).0,
            final(self).framer.pending@ == spec_feed(old(self).framer.pending@, bytes@).1,
            final(self).printer == old(self).printer,
            final(self).job_queue@ == old(self).job_queue@,
            final(self).current_job == old(self).current_job,
            final(self).streamed == old(self).streamed,
    {
        self.framer.push_bytes(bytes)
    }
}

} // verus!
