use rapi::job::{Job, ProcessStatus};

#[test]
fn new_job_is_not_running() {
    let job = Job::new();
    assert!(!job.is_running());
    assert_eq!(job.n_processes(), 0);
    assert_eq!(job.num_of(ProcessStatus::Calculating), 0);
}

#[test]
fn append_registers_calculating_process() {
    let mut job = Job::new();
    job.append(0, 100);
    job.append(1, 100);
    assert!(job.is_running());
    assert_eq!(job.n_processes(), 2);
    assert_eq!(job.num_of(ProcessStatus::Calculating), 2);
    assert_eq!(job.num_of(ProcessStatus::Waiting), 0);
}

#[test]
fn append_twice_keeps_one_process() {
    let mut job = Job::new();
    job.append(0, 7);
    job.change_state(0, 7, ProcessStatus::Waiting);
    job.append(0, 7);
    assert_eq!(job.n_processes(), 1);
    assert_eq!(job.num_of(ProcessStatus::Calculating), 1);
    assert_eq!(job.num_of(ProcessStatus::Waiting), 0);
}

#[test]
fn change_state_moves_counts() {
    let mut job = Job::new();
    job.append(0, 1);
    job.append(0, 2);
    job.append(2, 1);
    job.change_state(0, 2, ProcessStatus::Communicating);
    job.change_state(2, 1, ProcessStatus::Waiting);
    assert_eq!(job.num_of(ProcessStatus::Calculating), 1);
    assert_eq!(job.num_of(ProcessStatus::Communicating), 1);
    assert_eq!(job.num_of(ProcessStatus::Waiting), 1);
    assert_eq!(job.n_processes(), 3);
    job.change_state(0, 2, ProcessStatus::Calculating);
    assert_eq!(job.num_of(ProcessStatus::Calculating), 2);
    assert_eq!(job.num_of(ProcessStatus::Communicating), 0);
}

#[test]
fn counts_add_up_to_process_count() {
    let mut job = Job::new();
    for pid in 0..10u32 {
        job.append((pid % 3) as usize, pid);
    }
    job.change_state(0, 3, ProcessStatus::Waiting);
    job.change_state(1, 4, ProcessStatus::Communicating);
    job.change_state(2, 5, ProcessStatus::Communicating);
    let total = job.num_of(ProcessStatus::Calculating)
        + job.num_of(ProcessStatus::Communicating)
        + job.num_of(ProcessStatus::Waiting);
    assert_eq!(total, job.n_processes());
    assert_eq!(total, 10);
}

#[test]
fn remove_forgets_process() {
    let mut job = Job::new();
    job.append(0, 1);
    job.append(1, 1);
    job.remove(0, 1);
    assert_eq!(job.n_processes(), 1);
    job.remove(0, 1);
    assert_eq!(job.n_processes(), 1);
    job.remove(1, 1);
    assert!(!job.is_running());
}

#[test]
fn remove_undoes_append() {
    let mut job = Job::new();
    job.append(3, 30);
    job.change_state(3, 30, ProcessStatus::Waiting);
    job.append(4, 40);
    job.remove(4, 40);
    assert_eq!(job.n_processes(), 1);
    assert_eq!(job.num_of(ProcessStatus::Waiting), 1);
    assert_eq!(job.num_of(ProcessStatus::Calculating), 0);
}

#[test]
fn remove_of_unknown_process_changes_nothing() {
    let mut job = Job::new();
    job.append(0, 5);
    job.remove(0, 6);
    job.remove(1, 5);
    assert_eq!(job.n_processes(), 1);
    assert!(job.is_running());
}

#[test]
fn same_pid_on_different_nodes_are_different_processes() {
    let mut job = Job::new();
    job.append(0, 42);
    job.append(1, 42);
    job.change_state(1, 42, ProcessStatus::Communicating);
    assert_eq!(job.num_of(ProcessStatus::Communicating), 1);
    assert_eq!(job.num_of(ProcessStatus::Calculating), 1);
}

#[test]
fn contains_tracks_registration() {
    let mut job = Job::new();
    assert!(!job.contains(0, 1));
    job.append(0, 1);
    assert!(job.contains(0, 1));
    assert!(!job.contains(1, 1));
    job.remove(0, 1);
    assert!(!job.contains(0, 1));
}
