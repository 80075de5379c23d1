use printctl::agent::PrintAgent;
use printctl::jobs::{Job, JobStatus};
use printctl::worker::WorkerState;

#[test]
fn job_runs_to_completion_on_the_final_acknowledgement() {
    let mut w = WorkerState::new();
    w.queue_job(Job::new(7, 1, 2, 100));
    let started = w.start_next_job(200);
    assert_eq!(started, Some(7));
    {
        let job = w.current_job.as_ref().expect("job running");
        assert!(matches!(job.status, JobStatus::Running));
        assert_eq!(job.started_at_ms, Some(200));
        assert_eq!(job.created_at_ms, 100);
    }
    // an ok before the program has been fully written completes nothing
    assert!(w.handle_line(b"ok", 250).is_none());
    w.mark_streamed();
    let done = w.handle_line(b"ok", 300).expect("job finished");
    assert!(matches!(done.status, JobStatus::Completed));
    assert_eq!(done.finished_at_ms, Some(300));
    assert!(done.finished_at_ms.unwrap() > done.started_at_ms.unwrap());
    assert!(w.current_job.is_none());
    assert!(w.printer.ready);
}

#[test]
fn firmware_error_fails_the_running_job_with_the_raw_line() {
    let mut w = WorkerState::new();
    w.queue_job(Job::new(9, 1, 2, 0));
    assert_eq!(w.start_next_job(10), Some(9));
    let failed = w.handle_line(b"Error: thermal runaway", 20).expect("job failed");
    match failed.status {
        JobStatus::Failed(reason) => assert_eq!(reason, b"Error: thermal runaway".to_vec()),
        other => panic!("unexpected status {:?}", other),
    }
    assert_eq!(failed.finished_at_ms, Some(20));
    assert!(w.current_job.is_none());
}

#[test]
fn a_second_job_never_starts_on_a_busy_printer() {
    let mut w = WorkerState::new();
    w.queue_job(Job::new(1, 10, 20, 0));
    w.queue_job(Job::new(2, 10, 21, 0));
    assert_eq!(w.start_next_job(5), Some(1));
    assert_eq!(w.start_next_job(6), None);
    assert_eq!(w.job_queue.len(), 1);
    w.mark_streamed();
    let _ = w.handle_line(b"ok", 7);
    assert_eq!(w.start_next_job(8), Some(2));
}

#[test]
fn agent_records_uploads_and_jobs_under_their_identifiers() {
    let mut agent = PrintAgent::new(String::from("host"));
    assert_eq!(agent.name(), "host");
    let file_id = agent.upload_gcode(String::from("cube.gcode"), b"G28\nG0 X1".to_vec());
    let file = agent.gcode_files.iter().find(|f| f.id == file_id).expect("file stored");
    assert_eq!(file.content, b"G28\nG0 X1".to_vec());
    assert_eq!(file.name, "cube.gcode");

    let job_id = agent.create_job(42, file_id);
    let job = agent.get_job(job_id).expect("job stored");
    assert!(matches!(job.status, JobStatus::Queued));
    assert_eq!(job.printer_id, 42);
    assert_eq!(job.gcode_file_id, file_id);
    assert!(job.started_at_ms.is_none() && job.finished_at_ms.is_none());
    assert_eq!(agent.job_queue.back(), Some(&job_id));
    assert!(agent.get_job_logs(job_id).is_none());
    assert_eq!(agent.list_jobs().len(), 1);
}

#[test]
fn two_uploads_get_distinct_identifiers() {
    let mut agent = PrintAgent::new(String::from("host"));
    let a = agent.upload_gcode(String::from("a"), vec![1]);
    let b = agent.upload_gcode(String::from("b"), vec![2]);
    assert_ne!(a, b);
    assert_eq!(agent.gcode_files.len(), 2);
}

#[test]
fn registering_a_printer_twice_replaces_it() {
    let mut agent = PrintAgent::new(String::from("host"));
    agent.start_printer(String::from("left"), String::from("/dev/ttyUSB0"), 115_200);
    agent.start_printer(String::from("left"), String::from("/dev/ttyUSB1"), 250_000);
    assert_eq!(agent.printers.len(), 1);
    assert_eq!(agent.printers[0].port_path, "/dev/ttyUSB1");
    assert_eq!(agent.printers[0].baud, 250_000);
}
