use oss_share::upload_state::{extract_file_name, UploadStatus, UploadTracker};

#[test]
fn begin_batch_creates_uploading_entries_with_file_names() {
    let mut tracker = UploadTracker::default();
    let queued = tracker.begin_batch(&[
        String::from(r"C:\Users\alice\Desktop\report.pdf"),
        String::from(r"D:\images\photo.png"),
    ]);

    assert_eq!(queued.len(), 2);

    let snapshot = tracker.snapshot();
    assert_eq!(snapshot.len(), 2);
    assert_eq!(snapshot[0].file_name, "report.pdf");
    assert_eq!(snapshot[0].status, "uploading");
    assert_eq!(snapshot[1].file_name, "photo.png");
    assert_eq!(snapshot[1].status, "uploading");
}

#[test]
fn completing_uploads_updates_status_and_payload() {
    let mut tracker = UploadTracker::default();
    let queued = tracker.begin_batch(&[String::from(r"C:\tmp\archive.zip")]);

    tracker.mark_done(queued[0].id, String::from("https://example.com/archive.zip"));

    let snapshot = tracker.snapshot();
    assert_eq!(snapshot[0].status, "done");
    assert_eq!(
        snapshot[0].url.as_deref(),
        Some("https://example.com/archive.zip")
    );
    assert_eq!(snapshot[0].message, None);
}

#[test]
fn clear_finished_keeps_active_uploads() {
    let mut tracker = UploadTracker::default();
    let queued = tracker.begin_batch(&[
        String::from(r"C:\tmp\done.txt"),
        String::from(r"C:\tmp\still-uploading.txt"),
    ]);

    tracker.mark_error(queued[0].id, String::from("network error"));
    tracker.clear_finished(&[queued[0].id, queued[1].id]);

    let snapshot = tracker.snapshot();
    assert_eq!(snapshot.len(), 1);
    assert_eq!(snapshot[0].id, queued[1].id);
    assert_eq!(snapshot[0].status, "uploading");
}

#[test]
fn batch_ids_are_fresh_and_increasing() {
    let mut tracker = UploadTracker::default();
    let first = tracker.begin_batch(&[String::from("a.txt"), String::from("b.txt")]);
    let second = tracker.begin_batch(&[String::from("c.txt")]);
    assert_eq!(first[0].id, 1);
    assert_eq!(first[1].id, 2);
    assert_eq!(second[0].id, 3);
    assert_eq!(second[0].file_path, "c.txt");
    assert_eq!(second[0].file_name, "c.txt");
    let ids: Vec<u64> = tracker.snapshot().iter().map(|s| s.id).collect();
    assert_eq!(ids, vec![1, 2, 3]);
}

#[test]
fn queued_upload_keeps_path_and_name() {
    let mut tracker = UploadTracker::default();
    let queued = tracker.begin_batch(&[String::from(r"E:\docs\plan.docx")]);
    assert_eq!(queued[0].file_path, r"E:\docs\plan.docx");
    assert_eq!(queued[0].file_name, "plan.docx");
    let snapshot = tracker.snapshot();
    assert_eq!(snapshot[0].url, None);
    assert_eq!(snapshot[0].message, None);
}

#[test]
fn mark_error_records_message_and_clears_link() {
    let mut tracker = UploadTracker::default();
    let queued = tracker.begin_batch(&[String::from("x.bin")]);
    tracker.mark_done(queued[0].id, String::from("https://example.com/x"));
    tracker.mark_error(queued[0].id, String::from("expired"));
    let snapshot = tracker.snapshot();
    assert_eq!(snapshot[0].status, "error");
    assert_eq!(snapshot[0].url, None);
    assert_eq!(snapshot[0].message.as_deref(), Some("expired"));
}

#[test]
fn outcome_for_unknown_id_changes_nothing() {
    let mut tracker = UploadTracker::default();
    tracker.begin_batch(&[String::from("x.bin")]);
    let before = tracker.snapshot();
    tracker.mark_done(99, String::from("https://example.com/y"));
    assert_eq!(tracker.snapshot(), before);
}

#[test]
fn record_result_marks_done_or_error() {
    let mut tracker = UploadTracker::default();
    let queued = tracker.begin_batch(&[String::from("a"), String::from("b")]);
    tracker.record_result(queued[0].id, Ok(String::from("https://example.com/a")));
    tracker.record_result(queued[1].id, Err(String::from("Upload failed: timeout")));
    let snapshot = tracker.snapshot();
    assert_eq!(snapshot[0].status, "done");
    assert_eq!(snapshot[0].url.as_deref(), Some("https://example.com/a"));
    assert_eq!(snapshot[1].status, "error");
    assert_eq!(snapshot[1].message.as_deref(), Some("Upload failed: timeout"));
}

#[test]
fn clear_ignores_unlisted_and_active_entries() {
    let mut tracker = UploadTracker::default();
    let queued = tracker.begin_batch(&[
        String::from("1"),
        String::from("2"),
        String::from("3"),
    ]);
    tracker.mark_done(queued[0].id, String::from("u1"));
    tracker.mark_done(queued[2].id, String::from("u3"));
    tracker.clear_finished(&[queued[0].id, queued[1].id]);
    let ids: Vec<u64> = tracker.snapshot().iter().map(|s| s.id).collect();
    assert_eq!(ids, vec![queued[1].id, queued[2].id]);
    tracker.clear_finished(&[queued[0].id, queued[1].id]);
    let again: Vec<u64> = tracker.snapshot().iter().map(|s| s.id).collect();
    assert_eq!(again, ids);
}

#[test]
fn status_texts() {
    assert_eq!(UploadStatus::Uploading.as_str(), "uploading");
    assert_eq!(UploadStatus::Done.as_str(), "done");
    assert_eq!(UploadStatus::Error.as_str(), "error");
}

#[test]
fn extract_file_name_falls_back_to_path() {
    assert_eq!(extract_file_name(r"C:\a\b\c.txt"), "c.txt");
    assert_eq!(extract_file_name(r"C:\"), r"C:\");
    assert_eq!(extract_file_name(r"C:\a\.."), r"C:\a\..");
    assert_eq!(extract_file_name(""), "");
}

#[test]
fn status_goes_with_link_and_message() {
    let mut tracker = UploadTracker::default();
    let q = tracker.begin_batch(&[String::from("a"), String::from("b"), String::from("c")]);
    tracker.mark_done(q[0].id, String::from("https://example.com/a"));
    tracker.mark_error(q[1].id, String::from("boom"));
    for s in tracker.snapshot() {
        match s.status.as_str() {
            "uploading" => assert!(s.url.is_none() && s.message.is_none()),
            "done" => assert!(s.url.is_some() && s.message.is_none()),
            "error" => assert!(s.url.is_none() && s.message.is_some()),
            other => panic!("unexpected status {other}"),
        }
    }
}

#[test]
fn cleared_id_is_not_revived() {
    let mut tracker = UploadTracker::default();
    let q = tracker.begin_batch(&[String::from("a")]);
    tracker.mark_done(q[0].id, String::from("u"));
    tracker.clear_finished(&[q[0].id]);
    tracker.mark_error(q[0].id, String::from("late"));
    tracker.record_result(q[0].id, Ok(String::from("u2")));
    assert!(tracker.snapshot().is_empty());
}

#[test]
fn outcomes_follow_the_queue() {
    let mut tracker = UploadTracker::default();
    let q = tracker.begin_batch(&[String::from("a"), String::from("b")]);
    let outcomes = vec![Err(String::from("e1")), Ok(String::from("u2"))];
    for (queued, outcome) in q.iter().zip(outcomes) {
        tracker.record_result(queued.id, outcome);
    }
    let s = tracker.snapshot();
    assert_eq!(s[0].status, "error");
    assert_eq!(s[0].message.as_deref(), Some("e1"));
    assert_eq!(s[1].status, "done");
    assert_eq!(s[1].url.as_deref(), Some("u2"));
}

#[test]
fn two_clears_commute_and_equal_one() {
    let make = || {
        let mut t = UploadTracker::default();
        let q = t.begin_batch(&[String::from("1"), String::from("2"), String::from("3")]);
        for x in &q {
            t.mark_done(x.id, String::from("u"));
        }
        t
    };
    let mut t1 = make();
    t1.clear_finished(&[1]);
    t1.clear_finished(&[3]);
    let mut t2 = make();
    t2.clear_finished(&[3]);
    t2.clear_finished(&[1]);
    let mut t3 = make();
    t3.clear_finished(&[1, 3]);
    assert_eq!(t1.snapshot(), t2.snapshot());
    assert_eq!(t1.snapshot(), t3.snapshot());
    assert_eq!(t1.snapshot().len(), 1);
    assert_eq!(t1.snapshot()[0].id, 2);
}
