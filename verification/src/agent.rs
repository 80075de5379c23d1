//! The per-host agent: registered printers, uploaded programs, jobs,
//! the job queue, and job logs.

use vstd::prelude::*;
use std::collections::VecDeque;

use crate::devices::{available_ports_info, DeviceInfoRecord};
use crate::jobs::{GcodeFile, Job, JobLogEntry};

verus! {

/// A registered printer: its tag, serial port, and baud rate.
#[derive(Debug, Clone)]
pub struct PrinterRecord {
    pub name: String,
    pub port_path: String,
    pub baud: u32,
}

/// The agent's tables.  Jobs and files are keyed by identifier; the job
/// queue holds identifiers in arrival order.
#[derive(Debug)]
pub struct PrintAgent {
    pub name: String,
    pub printers: Vec<PrinterRecord>,
    pub gcode_files: Vec<GcodeFile>,
    pub jobs: Vec<Job>,
    pub job_queue: VecDeque<u128>,
    pub job_logs: Vec<(u128, Vec<JobLogEntry>)>,
}

/// File identifiers are unique.
pub open spec fn files_unique(files: Seq<GcodeFile>) -> bool {
    forall|i: int, j: int|
        0 <= i < j < files.len() ==> (#[trigger] files[i]).id != (#[trigger] files[j]).id
}

/// Job identifiers are unique.
pub open spec fn jobs_unique(jobs: Seq<Job>) -> bool {
    forall|i: int, j: int|
        0 <= i < j < jobs.len() ==> (#[trigger] jobs[i]).id != (#[trigger] jobs[j]).id
}

impl PrintAgent {
    pub open spec fn wf(self) -> bool {
        files_unique(self.gcode_files@) && jobs_unique(self.jobs@)
    }

    /// A fresh agent with the given host name and empty tables.
    pub fn new(name: String) -> (r: Self)
        ensures
            r.wf(),
            r.name == name,
            r.printers@.len() == 0,
            r.gcode_files@.len() == 0,
            r.jobs@.len() == 0,
            r.job_queue@.len() == 0,
            r.job_logs@.len() == 0,
    {
        PrintAgent {
            name,
            printers: Vec::new(),
            gcode_files: Vec::new(),
            jobs: Vec::new(),
            job_queue: VecDeque::new(),
            job_logs: Vec::new(),
        }
    }

    /// The agent's host name.
    pub fn name(&self) -> (r: &String)
        ensures
            r == &self.name,
    {
        &self.name
    }

    /// The serial devices the host can enumerate right now.
    pub fn available_devices(&self) -> (r: Vec<DeviceInfoRecord>) {
        let ports = available_ports_info();
        crate::devices::device_records_from_ports(ports)
    }

    /// Register a printer under `name`; a printer already registered
    /// under that name is replaced (its worker is shut down first by
    /// the caller).
    pub fn start_printer(&mut self, name: String, port_path: String, baud: u32)
        requires
            old(self).wf(),
        ensures
            final(self).wf(),
            final(self).name == old(self).name,
            final(self).gcode_files@ == old(self).gcode_files@,
            final(self).jobs@ == old(self).jobs@,
            final(self).job_queue@ == old(self).job_queue@,
            final(self).job_logs@ == old(self).job_logs@,
            exists|k: int|
                0 <= k < final(self).printers@.len() && (#[trigger] final(self).printers@[k]).name@
                    == name@ && final(self).printers@[k].port_path@ == port_path@ && final(self).printers@[k].baud == baud,
    {
        let record = PrinterRecord { name, port_path, baud };
        let ghost grec = record;
        proof {
            assert(grec.name@ == name@ && grec.port_path@ == port_path@ && grec.baud == baud);
        }
        let mut k: usize = 0;
        while k < self.printers.len()
            invariant
                0 <= k <= self.printers@.len(),
                self == old(self),
                old(self).wf(),
                grec == record,
                grec.name@ == name@ && grec.port_path@ == port_path@ && grec.baud == baud,
            decreases self.printers@.len() - k,
        {
            if string_eq(&self.printers[k].name, &record.name) {
                self.printers.set(k, record);
                proof {
                    assert(self.printers@[k as int] == grec);
                    assert(exists|m: int|
                        0 <= m < self.printers@.len() && (#[trigger] self.printers@[m]).name@
                            == name@ && self.printers@[m].port_path@ == port_path@
                            && self.printers@[m].baud == baud) by {
                        assert(self.printers@[k as int].name@ == name@);
                    }
                }
                return ;
            }
            k = k + 1;
        }
        self.printers.push(record);
        proof {
            let n = self.printers@.len() - 1;
            assert(self.printers@[n] == grec);
            assert(exists|m: int|
                0 <= m < self.printers@.len() && (#[trigger] self.printers@[m]).name@ == name@
                    && self.printers@[m].port_path@ == port_path@ && self.printers@[m].baud
                    == baud) by {
                assert(self.printers@[n].name@ == name@);
            }
        }
    }

    /// Store an uploaded program verbatim under a fresh identifier and
    /// return that identifier.
    pub fn upload_gcode(&mut self, name: String, content: Vec<u8>) -> (r: u128)
        requires
            old(self).wf(),
        ensures
            final(self).wf(),
            final(self).name == old(self).name,
            final(self).printers@ == old(self).printers@,
            final(self).jobs@ == old(self).jobs@,
            final(self).job_queue@ == old(self).job_queue@,
            final(self).job_logs@ == old(self).job_logs@,
            exists|k: int|
                0 <= k < final(self).gcode_files@.len() && (
                #[trigger] final(self).gcode_files@[k]).id == r && final(self).gcode_files@[k].content@ == content@ && final(self).gcode_files@[k].name@
                    == name@,
    {
        let id = fresh_uuid();
        let ghost gname = name@;
        let ghost gcontent = content@;
        let file = GcodeFile { id, name, content };
        self.insert_file(file);
        id
    }

    /// Insert a file, replacing one with the same identifier.
    fn insert_file(&mut self, file: GcodeFile)
        requires
            old(self).wf(),
        ensures
            final(self).wf(),
            final(self).name == old(self).name,
            final(self).printers@ == old(self).printers@,
            final(self).jobs@ == old(self).jobs@,
            final(self).job_queue@ == old(self).job_queue@,
            final(self).job_logs@ == old(self).job_logs@,
            exists|k: int|
                0 <= k < final(self).gcode_files@.len() && (
                #[trigger] final(self).gcode_files@[k]).id == file.id && final(self).gcode_files@[k].content@ == file.content@ && final(self).gcode_files@[k].name@
                    == file.name@,
    {
        let ghost gid = file.id;
        let ghost gname = file.name@;
        let ghost gcontent = file.content@;
        let ghost gfile = file;
        let mut k: usize = 0;
        while k < self.gcode_files.len()
            invariant
                0 <= k <= self.gcode_files@.len(),
                self == old(self),
                old(self).wf(),
                gfile == file,
                gid == file.id,
                gname == file.name@,
                gcontent == file.content@,
                forall|m: int| 0 <= m < k ==> (#[trigger] self.gcode_files@[m]).id != gid,
            decreases self.gcode_files@.len() - k,
        {
            if self.gcode_files[k].id == file.id {
                let ghost pre = self.gcode_files@;
                self.gcode_files.set(k, file);
                proof {
                    assert(self.gcode_files@ =~= pre.update(k as int, gfile));
                    assert(files_unique(pre));
                    assert(pre[k as int].id == gid);
                    assert forall|a: int, b: int|
                        0 <= a < b < self.gcode_files@.len() implies (
                    #[trigger] self.gcode_files@[a]).id != (#[trigger] self.gcode_files@[b]).id by {
                        assert(self.gcode_files@[a].id == pre[a].id);
                        assert(self.gcode_files@[b].id == pre[b].id);
                        assert(pre[a].id != pre[b].id);
                    }
                    assert(self.gcode_files@[k as int].id == gid);
                }
                return ;
            }
            k = k + 1;
        }
        self.gcode_files.push(file);
        proof {
            let n = self.gcode_files@.len() - 1;
            assert(self.gcode_files@[n].id == gid);
            assert forall|a: int, b: int|
                0 <= a < b < self.gcode_files@.len() implies (#[trigger] self.gcode_files@[a]).id
                    != (#[trigger] self.gcode_files@[b]).id by {
                if b < n {
                    assert(old(self).gcode_files@[a].id != old(self).gcode_files@[b].id);
                } else {
                    assert(self.gcode_files@[a] == old(self).gcode_files@[a]);
                    assert(old(self).gcode_files@[a].id != gid);
                }
            }
        }
    }

    /// Create a queued job for a printer and file: the job is recorded
    /// under a fresh identifier, which also joins the queue's tail.
    pub fn create_job(&mut self, printer_id: u128, gcode_file_id: u128) -> (r: u128)
        requires
            old(self).wf(),
        ensures
            final(self).wf(),
            final(self).name == old(self).name,
            final(self).printers@ == old(self).printers@,
            final(self).gcode_files@ == old(self).gcode_files@,
            final(self).job_logs@ == old(self).job_logs@,
            final(self).job_queue@ == old(self).job_queue@.push(r),
            exists|k: int|
                0 <= k < final(self).jobs@.len() && ({
                    let j = #[trigger] final(self).jobs@[k];
                    j.id == r && j.printer_id == printer_id && j.gcode_file_id == gcode_file_id
                        && j.status is Queued && j.started_at_ms is None && j.finished_at_ms is None
                }),
    {
        let id = fresh_uuid();
        let now = now_millis();
        let job = Job::new(id, printer_id, gcode_file_id, now);
        let ghost gjob = job;
        self.insert_job(job);
        proof {
            let k = choose|k: int|
                0 <= k < self.jobs@.len() && (#[trigger] self.jobs@[k]) == gjob;
            assert(self.jobs@[k].id == id && self.jobs@[k].printer_id == printer_id
                && self.jobs@[k].gcode_file_id == gcode_file_id && self.jobs@[k].status is Queued
                && self.jobs@[k].started_at_ms is None && self.jobs@[k].finished_at_ms is None);
        }
        self.job_queue.push_back(id);
        id
    }

    /// Insert a job, replacing one with the same identifier.
    fn insert_job(&mut self, job: Job)
        requires
            old(self).wf(),
        ensures
            final(self).wf(),
            final(self).name == old(self).name,
            final(self).printers@ == old(self).printers@,
            final(self).gcode_files@ == old(self).gcode_files@,
            final(self).job_queue@ == old(self).job_queue@,
            final(self).job_logs@ == old(self).job_logs@,
            exists|k: int|
                0 <= k < final(self).jobs@.len() && (#[trigger] final(self).jobs@[k]) == job,
    {
        let ghost gid = job.id;
        let ghost gjob = job;
        let mut k: usize = 0;
        while k < self.jobs.len()
            invariant
                0 <= k <= self.jobs@.len(),
                self == old(self),
                old(self).wf(),
                gjob == job,
                gid == job.id,
                forall|m: int| 0 <= m < k ==> (#[trigger] self.jobs@[m]).id != gid,
            decreases self.jobs@.len() - k,
        {
            if self.jobs[k].id == job.id {
                let ghost pre = self.jobs@;
                self.jobs.set(k, job);
                proof {
                    assert(self.jobs@ =~= pre.update(k as int, gjob));
                    assert(jobs_unique(pre));
                    assert(pre[k as int].id == gid);
                    assert forall|a: int, b: int|
                        0 <= a < b < self.jobs@.len() implies (#[trigger] self.jobs@[a]).id != (
                    #[trigger] self.jobs@[b]).id by {
                        assert(self.jobs@[a].id == pre[a].id);
                        assert(self.jobs@[b].id == pre[b].id);
                        assert(pre[a].id != pre[b].id);
                    }
                    assert(self.jobs@[k as int] == gjob);
                }
                return ;
            }
            k = k + 1;
        }
        self.jobs.push(job);
        proof {
            let n = self.jobs@.len() - 1;
            assert(self.jobs@[n] == gjob);
            assert forall|a: int, b: int|
                0 <= a < b < self.jobs@.len() implies (#[trigger] self.jobs@[a]).id != (
            #[trigger] self.jobs@[b]).id by {
                if b < n {
                    assert(old(self).jobs@[a].id != old(self).jobs@[b].id);
                } else {
                    assert(self.jobs@[a] == old(self).jobs@[a]);
                    assert(old(self).jobs@[a].id != gid);
                }
            }
        }
    }

    /// All jobs, in insertion order.
    pub fn list_jobs(&self) -> (r: &Vec<Job>)
        ensures
            r == &self.jobs,
    {
        &self.jobs
    }

    /// The job with this identifier, if one exists.
    pub fn get_job(&self, job_id: u128) -> (r: Option<&Job>)
        ensures
            match r {
                Some(j) => exists|k: int|
                    0 <= k < self.jobs@.len() && (#[trigger] self.jobs@[k]) == *j && j.id == job_id,
                None => forall|k: int|
                    0 <= k < self.jobs@.len() ==> (#[trigger] self.jobs@[k]).id != job_id,
            },
    {
        let mut k: usize = 0;
        while k < self.jobs.len()
            invariant
                0 <= k <= self.jobs@.len(),
                forall|m: int| 0 <= m < k ==> (#[trigger] self.jobs@[m]).id != job_id,
            decreases self.jobs@.len() - k,
        {
            if self.jobs[k].id == job_id {
                return Some(&self.jobs[k]);
            }
            k = k + 1;
        }
        None
    }

    /// The log recorded for this job, if any.
    pub fn get_job_logs(&self, job_id: u128) -> (r: Option<&Vec<JobLogEntry>>)
        ensures
            match r {
                Some(l) => exists|k: int|
                    0 <= k < self.job_logs@.len() && (#[trigger] self.job_logs@[k]).0 == job_id
                        && &self.job_logs@[k].1 == l,
                None => forall|k: int|
                    0 <= k < self.job_logs@.len() ==> (#[trigger] self.job_logs@[k]).0 != job_id,
            },
    {
        let mut k: usize = 0;
        while k < self.job_logs.len()
            invariant
                0 <= k <= self.job_logs@.len(),
                forall|m: int| 0 <= m < k ==> (#[trigger] self.job_logs@[m]).0 != job_id,
            decreases self.job_logs@.len() - k,
        {
            if self.job_logs[k].0 == job_id {
                return Some(&self.job_logs[k].1);
            }
            k = k + 1;
        }
        None
    }
}

/// Equality of two strings.
pub fn string_eq(a: &String, b: &String) -> (r: bool)
    ensures
        r == (a@ == b@),
{
    a.eq(b)
}

/// Relies on `uuid::Uuid::new_v4` for a freshly drawn random identifier,
/// read out with `as_u128`; nothing is assumed of which value comes back.
#[verifier::external_body]
pub fn fresh_uuid() -> (r: u128) {
    uuid::Uuid::new_v4().as_u128()
}

/// Relies on `chrono::Utc::now` for the wall-clock time, read out with
/// `timestamp_millis`; nothing is assumed of which instant comes back.
#[verifier::external_body]
pub fn now_millis() -> (r: i64) {
    chrono::Utc::now().timestamp_millis()
}

} // verus!
