use dicom_uploader::invocation::{parse_invocation, usage, Invocation};

fn args(words: &[&str]) -> Vec<String> {
    words.iter().map(|w| w.to_string()).collect()
}

#[test]
fn missing_arguments_give_no_invocation() {
    assert_eq!(parse_invocation(&args(&[])), None);
    assert_eq!(parse_invocation(&args(&["uploader"])), None);
    assert_eq!(parse_invocation(&args(&["uploader", "/data"])), None);
}

#[test]
fn directory_and_address_are_read_in_order() {
    let parsed = parse_invocation(&args(&["uploader", "/data", "http://localhost:8042/instances"]));
    assert_eq!(
        parsed,
        Some(Invocation {
            root: "/data".to_string(),
            destination: "http://localhost:8042/instances".to_string(),
        })
    );
}

#[test]
fn further_arguments_are_not_looked_at() {
    let parsed = parse_invocation(&args(&["uploader", "/data", "http://h/", "extra", "more"]));
    assert_eq!(
        parsed,
        Some(Invocation { root: "/data".to_string(), destination: "http://h/".to_string() })
    );
}

#[test]
fn address_is_passed_on_unchecked() {
    let parsed = parse_invocation(&args(&["uploader", "", "not a url"]));
    assert_eq!(
        parsed,
        Some(Invocation { root: "".to_string(), destination: "not a url".to_string() })
    );
}

#[test]
fn usage_names_both_arguments() {
    assert_eq!(usage(), "Please provide the directory path and Orthanc server URL as arguments");
}
