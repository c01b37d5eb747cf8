use mc_keygen::models::JobStatus;
use mc_keygen::queue::{
    admission, clock_minutes, finish_status, first_running, limit_notes, minutes_of_day,
    queue_length, run_step, schedule_allows, worker_threads_for, Admission, RunStep,
};

#[test]
fn admission_rules() {
    assert_eq!(admission(true, false, None, None), Admission::Wait);
    assert_eq!(admission(true, false, Some(0), None), Admission::Wait);
    assert_eq!(admission(true, true, Some(0), None), Admission::Reject);
    assert_eq!(admission(false, false, None, Some(0)), Admission::Reject);
    assert_eq!(admission(false, false, Some(5), Some(6)), Admission::Start);
}

#[test]
fn run_steps() {
    assert_eq!(run_step(true, true, 100, 100, Some(1), Some(1)), RunStep::Finished);
    assert_eq!(run_step(false, true, 0, 0, None, None), RunStep::Stop);
    assert_eq!(run_step(false, false, 10, 0, Some(10), None), RunStep::Stop);
    assert_eq!(run_step(false, false, 9, 0, Some(10), None), RunStep::Continue);
    assert_eq!(run_step(false, false, 0, 60, None, Some(60)), RunStep::Stop);
    assert_eq!(run_step(false, false, 0, 59, None, Some(60)), RunStep::Continue);
}

#[test]
fn finish_statuses() {
    assert_eq!(finish_status(true, true, JobStatus::Stopped), JobStatus::Completed);
    assert_eq!(finish_status(false, true, JobStatus::Stopped), JobStatus::Stopped);
    assert_eq!(finish_status(false, true, JobStatus::Running), JobStatus::Paused);
    assert_eq!(finish_status(false, false, JobStatus::Running), JobStatus::Stopped);
}

#[test]
fn limit_note_texts() {
    assert_eq!(limit_notes(5, 5, None, None), None);
    assert_eq!(
        limit_notes(100, 5, Some(100), Some(60)),
        Some("reached max_attempts (100)".to_string())
    );
    assert_eq!(
        limit_notes(1, 61, Some(100), Some(60)),
        Some("reached max_runtime (60s)".to_string())
    );
    assert_eq!(
        limit_notes(100, 60, Some(100), Some(60)),
        Some("reached max_attempts (100), reached max_runtime (60s)".to_string())
    );
}

#[test]
fn clock_texts() {
    assert_eq!(clock_minutes("23:00"), Some(1380));
    assert_eq!(clock_minutes("07:05"), Some(425));
    assert_eq!(clock_minutes("7:5"), Some(425));
    assert_eq!(clock_minutes("+1:+2"), Some(62));
    assert_eq!(clock_minutes("25:99"), Some(1599));
    assert_eq!(clock_minutes("12"), None);
    assert_eq!(clock_minutes("1:2:3"), None);
    assert_eq!(clock_minutes(":30"), None);
    assert_eq!(clock_minutes("ab:cd"), None);
    assert_eq!(clock_minutes("4294967296:00"), None);
}

#[test]
fn minute_of_day() {
    assert_eq!(minutes_of_day(0), 0);
    assert_eq!(minutes_of_day(3600 * 25 + 61), 60 + 1);
    assert_eq!(minutes_of_day(86399), 1439);
}

#[test]
fn schedule_windows() {
    // Default window 23:00 to 07:00 wraps past midnight.
    assert!(schedule_allows(1380, "bad", "bad"));
    assert!(schedule_allows(0, "bad", "bad"));
    assert!(!schedule_allows(420, "bad", "bad"));
    assert!(!schedule_allows(720, "bad", "bad"));
    // A daytime window.
    assert!(schedule_allows(600, "09:00", "17:00"));
    assert!(!schedule_allows(1020, "09:00", "17:00"));
    assert!(!schedule_allows(539, "09:00", "17:00"));
    // An empty window.
    assert!(!schedule_allows(600, "10:00", "10:00"));
    // A wrapping window is the complement of the reversed one.
    for m in (0..1440).step_by(7) {
        assert_eq!(
            schedule_allows(m, "22:30", "06:15"),
            !schedule_allows(m, "06:15", "22:30")
        );
    }
}

#[test]
fn worker_thread_counts() {
    assert_eq!(worker_threads_for(8, 1), 7);
    assert_eq!(worker_threads_for(1, 1), 1);
    assert_eq!(worker_threads_for(2, 5), 1);
    assert_eq!(worker_threads_for(0, 0), 1);
}

#[test]
fn status_counts() {
    let v = vec![
        JobStatus::Queued,
        JobStatus::Paused,
        JobStatus::Running,
        JobStatus::Queued,
        JobStatus::Running,
    ];
    assert_eq!(queue_length(&v), 2);
    assert_eq!(first_running(&v), Some(2));
    assert_eq!(first_running(&vec![JobStatus::Queued]), None);
    assert_eq!(queue_length(&vec![]), 0);
}
