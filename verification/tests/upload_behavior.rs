use std::collections::HashMap;

use fileserve::upload::{
    plan_uploads, upload_path, upload_step, FileWrite, UploadAction, UploadEvent, UploadPart,
};

fn part(name: Option<&str>, data: &[u8]) -> UploadPart {
    UploadPart { file_name: name.map(|n| n.to_string()), data: data.to_vec() }
}

/// Performs a plan's writes in order against an in-memory directory, the way
/// the binary performs them against the upload root.
fn perform(writes: Vec<FileWrite>) -> HashMap<String, Vec<u8>> {
    let mut dir: HashMap<String, Vec<u8>> = HashMap::new();
    for w in writes {
        dir.insert(w.name, w.data);
    }
    dir
}

#[test]
fn named_parts_become_one_file_each() {
    let parts = vec![
        part(Some("a.txt"), b"alpha"),
        part(Some("b.txt"), b"beta"),
        part(Some("c.txt"), b"gamma"),
    ];
    let dir = perform(plan_uploads(parts));
    assert_eq!(dir.len(), 3);
    assert_eq!(dir.get("a.txt").unwrap(), &b"alpha".to_vec());
    assert_eq!(dir.get("b.txt").unwrap(), &b"beta".to_vec());
    assert_eq!(dir.get("c.txt").unwrap(), &b"gamma".to_vec());
}

#[test]
fn duplicate_name_keeps_the_second_parts_bytes() {
    let parts = vec![part(Some("same.txt"), b"first"), part(Some("same.txt"), b"second")];
    let writes = plan_uploads(parts);
    assert_eq!(writes.len(), 2);
    let dir = perform(writes);
    assert_eq!(dir.len(), 1);
    assert_eq!(dir.get("same.txt").unwrap(), &b"second".to_vec());
}

#[test]
fn unnamed_part_is_skipped_and_the_rest_still_processed() {
    let parts = vec![
        part(Some("kept.txt"), b"one"),
        part(None, b"dropped"),
        part(Some("also.txt"), b"two"),
    ];
    let writes = plan_uploads(parts);
    assert_eq!(writes.len(), 2);
    assert_eq!(writes[0].name, "kept.txt");
    assert_eq!(writes[1].name, "also.txt");
    let dir = perform(writes);
    assert_eq!(dir.len(), 2);
    assert_eq!(dir.get("also.txt").unwrap(), &b"two".to_vec());
}

#[test]
fn zero_parts_create_zero_files_and_answer_200() {
    let writes = plan_uploads(Vec::new());
    assert!(writes.is_empty());
    match upload_step(UploadEvent::End) {
        UploadAction::Respond { status, body } => {
            assert_eq!(status, 200);
            assert_eq!(body, "File uploaded successfully");
        },
        _ => panic!("an exhausted body must be answered"),
    }
}

#[test]
fn report_txt_with_hello_lands_under_uploads() {
    let parts = vec![part(Some("report.txt"), b"hello")];
    let writes = plan_uploads(parts);
    assert_eq!(writes.len(), 1);
    assert_eq!(writes[0].name, "report.txt");
    assert_eq!(writes[0].data, b"hello".to_vec());
    assert_eq!(upload_path(&writes[0].name), "uploads/report.txt");

    match upload_step(UploadEvent::Part { file_name: Some("report.txt".to_string()) }) {
        UploadAction::Save { dest } => assert_eq!(dest, "uploads/report.txt"),
        _ => panic!("a named part must be saved"),
    }
    match upload_step(UploadEvent::End) {
        UploadAction::Respond { status, .. } => assert_eq!(status, 200),
        _ => panic!("an exhausted body must be answered"),
    }
}

#[test]
fn unnamed_part_event_is_skipped() {
    match upload_step(UploadEvent::Part { file_name: None }) {
        UploadAction::Skip => {},
        _ => panic!("an unnamed part must be skipped"),
    }
}

#[test]
fn a_failure_is_answered_500_with_a_generic_body() {
    match upload_step(UploadEvent::Failure) {
        UploadAction::Respond { status, body } => {
            assert_eq!(status, 500);
            assert_eq!(body, "Internal Server Error");
        },
        _ => panic!("a failure must be answered"),
    }
}

#[test]
fn file_names_are_used_verbatim() {
    let parts = vec![part(Some("Name With Spaces.TXT"), b"x")];
    let writes = plan_uploads(parts);
    assert_eq!(writes[0].name, "Name With Spaces.TXT");
    assert_eq!(upload_path(&writes[0].name), "uploads/Name With Spaces.TXT");
}
