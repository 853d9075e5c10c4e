use oss_share::commands::{
    apply_settings, masked_config, secret_to_store, split_upload_paths, EnqueueUploadsResult,
    PathKind, MASKED_SECRET,
};
use oss_share::config::AppConfig;

#[test]
fn split_upload_paths_separates_files_from_directories() {
    let file_path = String::from("/tmp/oss-share-drag_drop_split/sample.txt");
    let dir_path = String::from("/tmp/oss-share-drag_drop_split/folder");

    let result = split_upload_paths(
        vec![file_path.clone(), dir_path.clone()],
        &[PathKind::File, PathKind::Directory],
    );

    assert_eq!(
        result,
        EnqueueUploadsResult {
            accepted_files: vec![file_path],
            rejected_directories: vec![dir_path],
        }
    );
}

#[test]
fn split_upload_paths_ignores_missing_paths() {
    let missing_path = String::from("/tmp/oss-share-drag_drop_missing/missing.txt");

    let result = split_upload_paths(vec![missing_path], &[PathKind::Missing]);

    assert_eq!(
        result,
        EnqueueUploadsResult {
            accepted_files: Vec::new(),
            rejected_directories: Vec::new(),
        }
    );
}

#[test]
fn split_upload_paths_keeps_order_and_drops_other_kinds() {
    let paths = vec![
        String::from("a"),
        String::from("d1"),
        String::from("pipe"),
        String::from("b"),
        String::from("d2"),
    ];
    let kinds = [
        PathKind::File,
        PathKind::Directory,
        PathKind::Other,
        PathKind::File,
        PathKind::Directory,
    ];
    let result = split_upload_paths(paths, &kinds);
    assert_eq!(result.accepted_files, vec!["a", "b"]);
    assert_eq!(result.rejected_directories, vec!["d1", "d2"]);
}

fn sample_config(secret: &str) -> AppConfig {
    let mut c = AppConfig::default();
    c.credentials.access_key_id = String::from("LTAI5t");
    c.credentials.access_key_secret = String::from(secret);
    c.oss.bucket = String::from("my-share-bucket");
    c
}

#[test]
fn masked_config_hides_a_stored_secret() {
    let masked = masked_config(&sample_config("c2VjcmV0"));
    assert_eq!(masked.credentials.access_key_secret, MASKED_SECRET);
    assert_eq!(masked.credentials.access_key_id, "LTAI5t");
    assert_eq!(masked.oss.bucket, "my-share-bucket");
    assert_eq!(MASKED_SECRET, "••••••••");
}

#[test]
fn masked_config_keeps_an_empty_secret() {
    let masked = masked_config(&sample_config(""));
    assert_eq!(masked.credentials.access_key_secret, "");
}

#[test]
fn secret_to_store_skips_mask_and_empty() {
    assert_eq!(secret_to_store(&Some(String::from(MASKED_SECRET))), None);
    assert_eq!(secret_to_store(&Some(String::new())), None);
    assert_eq!(secret_to_store(&None), None);
    assert_eq!(
        secret_to_store(&Some(String::from("new-secret"))).as_deref(),
        Some("new-secret")
    );
}

#[test]
fn shown_secret_round_trip_stores_nothing() {
    let masked = masked_config(&sample_config("c2VjcmV0"));
    assert_eq!(secret_to_store(&Some(masked.credentials.access_key_secret)), None);
}

#[test]
fn apply_settings_replaces_fields_and_keeps_secret_without_update() {
    let mut c = sample_config("stored");
    apply_settings(
        &mut c,
        String::from("id2"),
        None,
        String::from("oss-cn-beijing"),
        String::from("b2"),
        String::from("p/"),
        86400,
    );
    assert_eq!(c.credentials.access_key_id, "id2");
    assert_eq!(c.credentials.access_key_secret, "stored");
    assert_eq!(c.oss.region, "oss-cn-beijing");
    assert_eq!(c.oss.bucket, "b2");
    assert_eq!(c.oss.prefix, "p/");
    assert_eq!(c.sharing.expire_seconds, 86400);
    apply_settings(
        &mut c,
        String::from("id2"),
        Some(String::from("protected")),
        String::from("oss-cn-beijing"),
        String::from("b2"),
        String::from("p/"),
        86400,
    );
    assert_eq!(c.credentials.access_key_secret, "protected");
}
