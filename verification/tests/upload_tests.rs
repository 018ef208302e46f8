use dicom_uploader::outcome::Outcome;
use dicom_uploader::upload::{Action, Event, Phase, Upload};

fn failure(path: &str, error: &str) -> Outcome {
    Outcome::Failure { path: path.to_string(), error_message: error.to_string() }
}

#[test]
fn attempt_opens_with_a_read() {
    let (upload, action) = Upload::new("d/a.dcm", "http://localhost:8042/instances");
    assert_eq!(upload.phase(), Phase::Reading);
    assert_eq!(action, Action::ReadFile { path: "d/a.dcm".to_string() });
}

#[test]
fn bytes_read_are_posted_as_they_are() {
    let (mut upload, _) = Upload::new("d/a.dcm", "http://localhost:8042/instances");
    let action = upload.step(Event::FileRead(vec![0, 1, 2, 255]));
    assert_eq!(
        action,
        Some(Action::Post {
            url: "http://localhost:8042/instances".to_string(),
            body: vec![0, 1, 2, 255],
        })
    );
    assert_eq!(upload.phase(), Phase::Sending);
}

#[test]
fn empty_file_is_posted_too() {
    let (mut upload, _) = Upload::new("d/empty.dcm", "u");
    let action = upload.step(Event::FileRead(Vec::new()));
    assert_eq!(action, Some(Action::Post { url: "u".to_string(), body: Vec::new() }));
}

#[test]
fn read_failure_ends_the_attempt_without_a_request() {
    let (mut upload, _) = Upload::new("d/a.dcm", "u");
    let action = upload.step(Event::ReadFailed("No such file or directory".to_string()));
    assert_eq!(action, Some(Action::Finish(failure("d/a.dcm", "No such file or directory"))));
    assert_eq!(upload.phase(), Phase::Done);
    assert_eq!(upload.step(Event::FileRead(vec![1])), None);
    assert_eq!(upload.step(Event::Responded { status: 200 }), None);
    assert_eq!(upload.phase(), Phase::Done);
}

#[test]
fn response_of_any_status_is_success() {
    for status in [200u16, 201, 301, 400, 404, 500, 503] {
        let (mut upload, _) = Upload::new("d/a.dcm", "u");
        assert!(upload.step(Event::FileRead(vec![7])).is_some());
        let action = upload.step(Event::Responded { status });
        assert_eq!(action, Some(Action::Finish(Outcome::Success)));
        assert_eq!(upload.phase(), Phase::Done);
    }
}

#[test]
fn transport_failure_is_failure() {
    let (mut upload, _) = Upload::new("d/a.dcm", "u");
    assert!(upload.step(Event::FileRead(vec![7])).is_some());
    let action = upload.step(Event::TransportFailed("connection refused".to_string()));
    assert_eq!(action, Some(Action::Finish(failure("d/a.dcm", "connection refused"))));
    assert_eq!(upload.phase(), Phase::Done);
}

#[test]
fn event_out_of_step_changes_nothing() {
    let (mut upload, _) = Upload::new("d/a.dcm", "u");
    assert_eq!(upload.step(Event::Responded { status: 200 }), None);
    assert_eq!(upload.step(Event::TransportFailed("early".to_string())), None);
    assert_eq!(upload.phase(), Phase::Reading);
    assert!(upload.step(Event::FileRead(vec![1])).is_some());
    assert_eq!(upload.step(Event::FileRead(vec![2])), None);
    assert_eq!(upload.step(Event::ReadFailed("late".to_string())), None);
    assert_eq!(upload.phase(), Phase::Sending);
}

#[test]
fn attempt_asks_for_one_request_at_most() {
    let events = vec![
        Event::FileRead(vec![1]),
        Event::FileRead(vec![2]),
        Event::Responded { status: 500 },
        Event::FileRead(vec![3]),
        Event::TransportFailed("x".to_string()),
        Event::ReadFailed("y".to_string()),
    ];
    let (mut upload, _) = Upload::new("p", "u");
    let mut posts = 0;
    let mut ends = 0;
    for event in events {
        match upload.step(event) {
            Some(Action::Post { .. }) => posts += 1,
            Some(Action::Finish(_)) => ends += 1,
            Some(Action::ReadFile { .. }) => panic!("the file is read once"),
            None => {}
        }
    }
    assert_eq!(posts, 1);
    assert_eq!(ends, 1);
}

#[test]
fn outcome_tells_success_from_failure() {
    assert!(Outcome::Success.is_success());
    assert!(!Outcome::Success.is_failure());
    let failed = Outcome::failure("p", "e");
    assert_eq!(failed, failure("p", "e"));
    assert!(failed.is_failure());
    assert!(!failed.is_success());
}
