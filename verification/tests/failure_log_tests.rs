use dicom_uploader::failure_log::{compose_entry, failure_entry};

#[test]
fn entry_names_file_and_error() {
    assert_eq!(
        failure_entry("scans/a.dcm", "connection refused"),
        "Failed to upload: \"scans/a.dcm\", due to error: connection refused\n"
    );
}

#[test]
fn entry_shows_the_path_quoted_and_escaped() {
    assert_eq!(
        failure_entry("odd \"name\"\t.dcm", "e"),
        "Failed to upload: \"odd \\\"name\\\"\\t.dcm\", due to error: e\n"
    );
    assert_eq!(
        failure_entry("two\nlines.dcm", "e"),
        "Failed to upload: \"two\\nlines.dcm\", due to error: e\n"
    );
    assert_eq!(
        failure_entry("back\\slash.dcm", "e"),
        format!("Failed to upload: {:?}, due to error: {}\n", "back\\slash.dcm", "e")
    );
}

#[test]
fn entry_of_empty_parts() {
    assert_eq!(failure_entry("", ""), "Failed to upload: \"\", due to error: \n");
}

#[test]
fn composed_entry_takes_the_path_as_shown() {
    assert_eq!(
        compose_entry("<a.dcm>", "timed out"),
        "Failed to upload: <a.dcm>, due to error: timed out\n"
    );
    assert_eq!(compose_entry("", ""), "Failed to upload: , due to error: \n");
}

#[test]
fn entry_ends_with_one_newline() {
    for (path, error) in [("a.dcm", "x"), ("", ""), ("b.dcm", "dns error: no such host")] {
        let line = failure_entry(path, error);
        assert!(line.ends_with('\n'));
        assert_eq!(line.matches('\n').count(), 1);
    }
}
