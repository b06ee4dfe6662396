use downloads_sorter::config::Config;
use downloads_sorter::sorting::{outcome_line, Sorter};
use std::sync::mpsc::{channel, RecvTimeoutError};
use std::time::Duration;

fn long_ago() -> Config {
    Config::new(String::from("/tmp"), 0, 1).ok().expect("acceptable settings")
}

fn far_ahead() -> Config {
    Config::new(String::from("/tmp"), 32_503_680_000, 7).ok().expect("acceptable settings")
}

#[test]
fn new_sorter_is_idle() {
    let sorter = Sorter::new();
    assert!(!sorter.scheduled());
}

#[test]
fn schedule_runs_the_job() {
    let mut sorter = Sorter::new();
    let (sender, receiver) = channel();
    let started = sorter.schedule_sorting(&long_ago(), move || {
        let _ = sender.send(true);
    });
    assert_eq!(started, Ok(()));
    assert!(sorter.scheduled());
    assert_eq!(receiver.recv_timeout(Duration::from_secs(10)), Ok(true));
}

#[test]
fn schedule_waits_for_the_start() {
    let mut sorter = Sorter::new();
    let (sender, receiver) = channel();
    let started = sorter.schedule_sorting(&far_ahead(), move || {
        let _ = sender.send(true);
    });
    assert_eq!(started, Ok(()));
    assert_eq!(
        receiver.recv_timeout(Duration::from_millis(300)),
        Err(RecvTimeoutError::Timeout)
    );
}

#[test]
fn second_start_is_refused_and_first_schedule_goes_on() {
    let mut sorter = Sorter::new();
    let (first_sender, first_receiver) = channel();
    let (second_sender, second_receiver) = channel();
    assert_eq!(sorter.schedule_sorting(&far_ahead(), || {}), Ok(()));
    sorter.stop_scheduled_sorting();
    let started = sorter.schedule_sorting(&long_ago(), move || {
        let _ = first_sender.send(1);
    });
    assert_eq!(started, Ok(()));
    let again = sorter.schedule_sorting(&long_ago(), move || {
        let _ = second_sender.send(2);
    });
    assert_eq!(again, Err(String::from("Sorting is already scheduled")));
    assert!(sorter.scheduled());
    assert_eq!(first_receiver.recv_timeout(Duration::from_secs(10)), Ok(1));
    assert!(second_receiver.recv_timeout(Duration::from_millis(300)).is_err());
}

#[test]
fn stop_ends_the_stream() {
    let mut sorter = Sorter::new();
    let (sender, receiver) = channel();
    let started = sorter.schedule_sorting(&far_ahead(), move || {
        let _ = sender.send(true);
    });
    assert_eq!(started, Ok(()));
    sorter.stop_scheduled_sorting();
    assert!(!sorter.scheduled());
    assert_eq!(
        receiver.recv_timeout(Duration::from_secs(10)),
        Err(RecvTimeoutError::Disconnected)
    );
}

#[test]
fn stop_after_a_run_ends_the_stream() {
    let mut sorter = Sorter::new();
    let (sender, receiver) = channel();
    let started = sorter.schedule_sorting(&long_ago(), move || {
        let _ = sender.send(false);
    });
    assert_eq!(started, Ok(()));
    assert_eq!(receiver.recv_timeout(Duration::from_secs(10)), Ok(false));
    sorter.stop_scheduled_sorting();
    let mut last = receiver.recv_timeout(Duration::from_secs(10));
    let mut reads = 0;
    while last.is_ok() && reads < 1000 {
        last = receiver.recv_timeout(Duration::from_secs(10));
        reads += 1;
    }
    assert_eq!(last, Err(RecvTimeoutError::Disconnected));
}

#[test]
fn stop_of_idle_sorter_changes_nothing() {
    let mut sorter = Sorter::new();
    sorter.stop_scheduled_sorting();
    assert!(!sorter.scheduled());
    assert_eq!(sorter.schedule_sorting(&far_ahead(), || {}), Ok(()));
    assert!(sorter.scheduled());
}

#[test]
fn restart_after_stop() {
    let mut sorter = Sorter::new();
    assert_eq!(sorter.schedule_sorting(&far_ahead(), || {}), Ok(()));
    assert!(sorter.schedule_sorting(&far_ahead(), || {}).is_err());
    sorter.stop_scheduled_sorting();
    let (sender, receiver) = channel();
    let started = sorter.schedule_sorting(&long_ago(), move || {
        let _ = sender.send(true);
    });
    assert_eq!(started, Ok(()));
    assert_eq!(receiver.recv_timeout(Duration::from_secs(10)), Ok(true));
}

#[test]
fn schedule_after_a_job_that_panicked() {
    let mut sorter = Sorter::new();
    let (failing, failed) = channel();
    let started = sorter.schedule_sorting(&long_ago(), move || {
        let _ = failing.send(());
        panic!("job failed");
    });
    assert_eq!(started, Ok(()));
    assert_eq!(failed.recv_timeout(Duration::from_secs(10)), Ok(()));
    assert!(failed.recv_timeout(Duration::from_secs(10)).is_err());
    sorter.stop_scheduled_sorting();
    let (sender, receiver) = channel();
    let again = sorter.schedule_sorting(&long_ago(), move || {
        let _ = sender.send(true);
    });
    assert_eq!(again, Ok(()));
    assert_eq!(receiver.recv_timeout(Duration::from_secs(10)), Ok(true));
    sorter.stop_scheduled_sorting();
    assert_eq!(sorter.schedule_sorting(&far_ahead(), || {}), Ok(()));
}

#[test]
fn outcome_lines() {
    assert_eq!(outcome_line(Some(true)), Some("Sorting finished successfully!"));
    assert_eq!(outcome_line(Some(false)), Some("Sorting finished with errors!"));
    assert_eq!(outcome_line(None), None);
}
