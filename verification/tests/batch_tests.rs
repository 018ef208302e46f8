use dicom_uploader::batch::{Batch, BatchError, Completion, Stage};
use dicom_uploader::discovery::{discover, Candidate, WalkEntry, WalkItem};
use dicom_uploader::outcome::Outcome;
use dicom_uploader::upload::{Action, Event, Upload};

fn candidates(paths: &[&str]) -> Vec<Candidate> {
    paths.iter().enumerate().map(|(i, p)| Candidate { position: i, path: p.to_string() }).collect()
}

fn file(path: &str, name: &str) -> WalkItem {
    WalkItem::Entry(WalkEntry {
        path: path.to_string(),
        file_name: Some(name.to_string()),
        is_file: true,
    })
}

/// Runs one attempt to its end; `read` and `sent` say how the two steps go.
fn attempt(path: &str, read: Result<Vec<u8>, &str>, sent: Result<u16, &str>) -> Outcome {
    let (mut upload, mut action) = Upload::new(path, "http://localhost:8042/instances");
    loop {
        let event = match action {
            Action::ReadFile { .. } => match &read {
                Ok(bytes) => Event::FileRead(bytes.clone()),
                Err(e) => Event::ReadFailed(e.to_string()),
            },
            Action::Post { .. } => match &sent {
                Ok(status) => Event::Responded { status: *status },
                Err(e) => Event::TransportFailed(e.to_string()),
            },
            Action::Finish(outcome) => return outcome,
        };
        action = upload.step(event).unwrap();
    }
}

#[test]
fn fresh_batch_has_every_file_discovered() {
    let batch = Batch::new(candidates(&["a.dcm", "b.dcm"]));
    assert_eq!(batch.total(), 2);
    assert_eq!(batch.completed(), 0);
    assert_eq!(batch.failures(), 0);
    assert!(!batch.is_finished());
    assert_eq!(batch.stage(0), Some(Stage::Discovered));
    assert_eq!(batch.stage(1), Some(Stage::Discovered));
    assert_eq!(batch.stage(2), None);
    assert_eq!(batch.candidate(1), Some(&Candidate { position: 1, path: "b.dcm".to_string() }));
    assert_eq!(batch.candidate(2), None);
}

#[test]
fn files_are_handed_out_in_order_and_once() {
    let mut batch = Batch::new(candidates(&["a.dcm", "b.dcm", "c.dcm"]));
    assert_eq!(batch.claim_next(), Some(0));
    assert_eq!(batch.stage(0), Some(Stage::Attempted));
    assert_eq!(batch.stage(1), Some(Stage::Discovered));
    assert_eq!(batch.claim_next(), Some(1));
    assert_eq!(batch.claim_next(), Some(2));
    assert_eq!(batch.claim_next(), None);
    assert_eq!(batch.claim_next(), None);
    assert_eq!(batch.completed(), 0);
}

#[test]
fn success_is_counted_without_a_log_entry() {
    let mut batch = Batch::new(candidates(&["a.dcm", "b.dcm"]));
    assert_eq!(batch.claim_next(), Some(0));
    let done = batch.complete(0, &Outcome::Success);
    assert_eq!(done, Ok(Completion { entry: None, finished: false }));
    assert_eq!(batch.stage(0), Some(Stage::Succeeded));
    assert_eq!(batch.completed(), 1);
    assert_eq!(batch.failures(), 0);
}

#[test]
fn failure_is_counted_with_one_log_entry() {
    let mut batch = Batch::new(candidates(&["a.dcm"]));
    assert_eq!(batch.claim_next(), Some(0));
    let done = batch.complete(0, &Outcome::failure("a.dcm", "timed out"));
    assert_eq!(
        done,
        Ok(Completion {
            entry: Some("Failed to upload: \"a.dcm\", due to error: timed out\n".to_string()),
            finished: true,
        })
    );
    assert_eq!(batch.stage(0), Some(Stage::Failed));
    assert_eq!(batch.completed(), 1);
    assert_eq!(batch.failures(), 1);
    assert!(batch.is_finished());
}

#[test]
fn report_on_unknown_file_is_turned_down() {
    let mut batch = Batch::new(candidates(&["a.dcm"]));
    assert_eq!(batch.complete(1, &Outcome::Success), Err(BatchError::UnknownCandidate));
    assert_eq!(batch.complete(usize::MAX, &Outcome::Success), Err(BatchError::UnknownCandidate));
    assert_eq!(batch.completed(), 0);
    assert_eq!(batch.stage(0), Some(Stage::Discovered));
}

#[test]
fn report_without_attempt_is_turned_down() {
    let mut batch = Batch::new(candidates(&["a.dcm", "b.dcm"]));
    assert_eq!(batch.complete(0, &Outcome::Success), Err(BatchError::NotInFlight));
    assert_eq!(batch.claim_next(), Some(0));
    assert_eq!(batch.complete(1, &Outcome::failure("b.dcm", "e")), Err(BatchError::NotInFlight));
    assert_eq!(batch.completed(), 0);
    assert_eq!(batch.failures(), 0);
}

#[test]
fn second_report_on_a_file_is_turned_down() {
    let mut batch = Batch::new(candidates(&["a.dcm", "b.dcm"]));
    assert_eq!(batch.claim_next(), Some(0));
    assert!(batch.complete(0, &Outcome::failure("a.dcm", "e")).is_ok());
    assert_eq!(batch.complete(0, &Outcome::failure("a.dcm", "e")), Err(BatchError::NotInFlight));
    assert_eq!(batch.complete(0, &Outcome::Success), Err(BatchError::NotInFlight));
    assert_eq!(batch.stage(0), Some(Stage::Failed));
    assert_eq!(batch.completed(), 1);
    assert_eq!(batch.failures(), 1);
}

#[test]
fn attempts_may_end_in_any_order() {
    let mut batch = Batch::new(candidates(&["a.dcm", "b.dcm", "c.dcm"]));
    assert_eq!(batch.claim_next(), Some(0));
    assert_eq!(batch.claim_next(), Some(1));
    assert_eq!(batch.claim_next(), Some(2));
    assert_eq!(batch.complete(2, &Outcome::Success).map(|c| c.finished), Ok(false));
    assert_eq!(batch.complete(0, &Outcome::Success).map(|c| c.finished), Ok(false));
    assert!(!batch.is_finished());
    assert_eq!(batch.complete(1, &Outcome::Success).map(|c| c.finished), Ok(true));
    assert!(batch.is_finished());
    assert_eq!(batch.completed(), 3);
}

#[test]
fn batch_of_nothing_is_finished_at_once() {
    let mut batch = Batch::new(Vec::new());
    assert!(batch.is_finished());
    assert_eq!(batch.total(), 0);
    assert_eq!(batch.claim_next(), None);
    assert_eq!(batch.complete(0, &Outcome::Success), Err(BatchError::UnknownCandidate));
    assert_eq!(batch.completed(), 0);
    assert_eq!(batch.failures(), 0);
    assert!(batch.is_finished());
}

#[test]
fn run_against_a_refusing_endpoint() {
    let walk = vec![file("d/a.dcm", "a.dcm"), file("d/b.dcm", "b.dcm"), file("d/c.dcm", "c.dcm")];
    let mut batch = Batch::new(discover(&walk));
    assert_eq!(batch.total(), 3);
    let mut log = String::new();
    while let Some(index) = batch.claim_next() {
        let path = batch.candidate(index).unwrap().path.clone();
        let outcome = attempt(&path, Ok(vec![1, 2, 3]), Err("connection refused"));
        let done = batch.complete(index, &outcome).unwrap();
        if let Some(line) = done.entry {
            log.push_str(&line);
        }
        assert_eq!(done.finished, index == 2);
    }
    assert_eq!(
        log,
        "Failed to upload: \"d/a.dcm\", due to error: connection refused\n\
         Failed to upload: \"d/b.dcm\", due to error: connection refused\n\
         Failed to upload: \"d/c.dcm\", due to error: connection refused\n"
    );
    assert_eq!(log.lines().count(), 3);
    assert_eq!(batch.completed(), 3);
    assert_eq!(batch.failures(), 3);
    assert!(batch.is_finished());
}

#[test]
fn run_with_a_file_gone_before_its_upload() {
    let walk = vec![file("d/gone.dcm", "gone.dcm"), file("d/kept.dcm", "kept.dcm")];
    let mut batch = Batch::new(discover(&walk));
    assert_eq!(batch.claim_next(), Some(0));
    let first = attempt("d/gone.dcm", Err("No such file or directory (os error 2)"), Ok(200));
    assert_eq!(
        first,
        Outcome::Failure {
            path: "d/gone.dcm".to_string(),
            error_message: "No such file or directory (os error 2)".to_string(),
        }
    );
    let done = batch.complete(0, &first).unwrap();
    assert_eq!(
        done.entry,
        Some(
            "Failed to upload: \"d/gone.dcm\", due to error: No such file or directory (os error 2)\n"
                .to_string()
        )
    );
    assert!(!done.finished);
    assert_eq!(batch.claim_next(), Some(1));
    let second = attempt("d/kept.dcm", Ok(vec![9]), Ok(200));
    assert_eq!(second, Outcome::Success);
    let done = batch.complete(1, &second).unwrap();
    assert_eq!(done, Completion { entry: None, finished: true });
    assert_eq!(batch.completed(), 2);
    assert_eq!(batch.total(), 2);
    assert_eq!(batch.failures(), 1);
    assert_eq!(batch.stage(0), Some(Stage::Failed));
    assert_eq!(batch.stage(1), Some(Stage::Succeeded));
}

#[test]
fn run_with_nothing_found() {
    let walk = vec![file("d/c.txt", "c.txt"), WalkItem::Unreadable];
    let mut batch = Batch::new(discover(&walk));
    assert!(batch.is_finished());
    assert_eq!(batch.claim_next(), None);
    assert_eq!(batch.failures(), 0);
}

#[test]
fn every_file_gets_one_outcome() {
    let paths: Vec<String> = (0..20usize).map(|i| format!("d/{}.dcm", i)).collect();
    let names: Vec<&str> = paths.iter().map(|p| p.as_str()).collect();
    let mut batch = Batch::new(candidates(&names));
    let mut handed: Vec<usize> = Vec::new();
    let mut entries: usize = 0;
    while let Some(index) = batch.claim_next() {
        handed.push(index);
        let outcome = if index % 4 == 0 {
            Outcome::failure(&paths[index], "boom")
        } else {
            Outcome::Success
        };
        let done = batch.complete(index, &outcome).unwrap();
        assert_eq!(done.entry.is_some(), index % 4 == 0);
        if done.entry.is_some() {
            entries += 1;
        }
        assert!(batch.complete(index, &outcome).is_err());
    }
    assert_eq!(handed, (0..20usize).collect::<Vec<usize>>());
    assert_eq!(batch.completed(), 20);
    assert_eq!(batch.failures(), 5);
    assert_eq!(entries, 5);
    assert!(batch.is_finished());
}
