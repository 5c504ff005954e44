use rapi::job::{Job, ProcessStatus};
use rapi::strategy::{CommFocused, FixedTimeslice, Strategy, WaitFocused};

const MS: u128 = 1_000_000;

#[test]
fn fixed_zero_timeslice_never_switches() {
    let job = Job::new();
    let mut s = FixedTimeslice::new(0, 0);
    assert!(!s.should_stop_job(&job, 1_000_000 * MS));
    assert!(s.should_start_job(&job, 0));
}

#[test]
fn fixed_switches_after_timeslice() {
    let job = Job::new();
    let mut s = FixedTimeslice::new(100, 5 * MS);
    s.job_starts(10 * MS);
    assert!(!s.should_stop_job(&job, 109 * MS));
    assert!(!s.should_stop_job(&job, 110 * MS - 1));
    assert!(s.should_stop_job(&job, 110 * MS));
    assert!(!s.should_start_job(&job, 209 * MS));
    assert!(s.should_start_job(&job, 210 * MS));
    assert!(!s.should_stop_job(&job, 300 * MS));
    assert!(s.should_stop_job(&job, 310 * MS));
}

#[test]
fn fixed_clock_going_back_counts_as_no_time() {
    let job = Job::new();
    let mut s = FixedTimeslice::new(1, 50 * MS);
    assert!(!s.should_stop_job(&job, 10 * MS));
}

#[test]
fn wait_focused_stops_early_when_a_process_waits() {
    let mut job = Job::new();
    job.append(0, 1);
    let mut s = WaitFocused::new(10, 100, 20, 0);
    s.job_starts(0);
    assert!(!s.should_stop_job(&job, 50 * MS));
    job.change_state(0, 1, ProcessStatus::Waiting);
    assert!(!s.should_stop_job(&job, 9 * MS));
    assert!(s.should_stop_job(&job, 10 * MS));
    assert!(!s.should_start_job(&job, 29 * MS));
    assert!(s.should_start_job(&job, 30 * MS));
}

#[test]
fn wait_focused_stops_after_longest_timeslice() {
    let mut job = Job::new();
    job.append(0, 1);
    let mut s = WaitFocused::new(10, 100, 20, 0);
    assert!(!s.should_stop_job(&job, 99 * MS));
    assert!(s.should_stop_job(&job, 100 * MS));
}

#[test]
fn comm_focused_uses_rate_between_bounds() {
    let mut s = CommFocused::new(10, 100, 20, 0);
    s.job_starts(0);
    assert!(!s.should_stop_job(true, 5 * MS));
    assert!(!s.should_stop_job(false, 50 * MS));
    assert!(s.should_stop_job(true, 50 * MS));
    assert!(!s.should_start_job(60 * MS));
    assert!(s.should_start_job(70 * MS));
    assert!(s.should_stop_job(false, 170 * MS));
}
