use oss_share::upload_state::UploadTracker;
use oss_share::ipc::{after_send, holds_request, SendStep, absorb_chunk, enqueue_batch, requested_uploads, upload_args, upload_request_message, PipeMessage};

#[test]
fn upload_request_is_json() {
    let files = vec![String::from(r"C:\Users\test\report.pdf"), String::from("photo \"1\".jpg")];
    assert_eq!(
        upload_request_message(&files),
        r#"{"action":"upload","files":["C:\\Users\\test\\report.pdf","photo \"1\".jpg"]}"#.to_string() + "\n"
    );
    assert_eq!(upload_request_message(&[]), "{\"action\":\"upload\",\"files\":[]}\n");
}

#[test]
fn only_upload_requests_ask_for_uploads() {
    let m = PipeMessage { action: String::from("upload"), files: vec![String::from("a")] };
    assert_eq!(requested_uploads(m), Some(vec![String::from("a")]));
    let m = PipeMessage { action: String::from("delete"), files: vec![String::from("a")] };
    assert_eq!(requested_uploads(m), None);
}

#[test]
fn absorb_chunk_appends_and_decides() {
    let mut all = vec![1u8];
    let buf = [7u8, 8, 9, 10];
    assert!(absorb_chunk(&mut all, &buf, 3, false));
    assert_eq!(all, vec![1, 7, 8, 9]);
    assert!(!absorb_chunk(&mut all, &buf, 0, false));
    assert_eq!(all, vec![1, 7, 8, 9]);
    assert!(!absorb_chunk(&mut all, &buf, 2, true));
    assert_eq!(all, vec![1, 7, 8, 9, 7, 8]);
}

#[test]
fn upload_args_need_flag_and_files() {
    let args = vec![String::from("oss-share.exe"), String::from("--upload"), String::from("a"), String::from("b")];
    assert_eq!(upload_args(&args), Some(vec![String::from("a"), String::from("b")]));
    let args = vec![String::from("oss-share.exe"), String::from("--upload")];
    assert_eq!(upload_args(&args), None);
    let args = vec![String::from("oss-share.exe"), String::from("--other"), String::from("a")];
    assert_eq!(upload_args(&args), None);
}

#[test]
fn enqueue_batch_skips_empty_batches() {
    let mut tracker = UploadTracker::default();
    assert!(tracker.has_room_for(2));
    assert_eq!(enqueue_batch(&mut tracker, &[]), None);
    assert!(tracker.snapshot().is_empty());
    let queued = enqueue_batch(&mut tracker, &[String::from(r"C:\a\b.txt")]).unwrap();
    assert_eq!(queued.len(), 1);
    assert_eq!(queued[0].id, 1);
    assert_eq!(queued[0].file_name, "b.txt");
    assert_eq!(tracker.snapshot()[0].status, "uploading");
}

#[test]
fn send_is_retried_once_after_launch() {
    assert_eq!(after_send(0, true), SendStep::Finish);
    assert_eq!(after_send(0, false), SendStep::LaunchAndResend);
    assert_eq!(after_send(1, false), SendStep::Finish);
    assert_eq!(after_send(1, true), SendStep::Finish);
}

#[test]
fn request_escapes_control_characters() {
    let files = vec![String::from("a\tb\nc\u{1}d\u{1f}/é\u{7f}")];
    assert_eq!(
        upload_request_message(&files),
        "{\"action\":\"upload\",\"files\":[\"a\\tb\\nc\\u0001d\\u001f/é\u{7f}\"]}\n"
    );
    let files = vec![String::from("\u{8}\u{c}\r")];
    assert_eq!(
        upload_request_message(&files),
        "{\"action\":\"upload\",\"files\":[\"\\b\\f\\r\"]}\n"
    );
}

#[test]
fn empty_reads_hold_no_request() {
    assert!(!holds_request(&[]));
    assert!(holds_request(b"{}"));
}
