use oss_share::oss::{presign_expiry, OssService};

#[test]
fn new_requires_credentials() {
    let e = OssService::new("", "secret", "oss-cn-hangzhou", "bucket", "share/").err();
    assert_eq!(e.as_deref(), Some("Access key ID and secret must not be empty"));
    let e = OssService::new("id", "", "oss-cn-hangzhou", "bucket", "share/").err();
    assert_eq!(e.as_deref(), Some("Access key ID and secret must not be empty"));
}

#[test]
fn new_requires_bucket() {
    let e = OssService::new("id", "secret", "oss-cn-hangzhou", "", "share/").err();
    assert_eq!(e.as_deref(), Some("Bucket name must not be empty"));
}

#[test]
fn new_keeps_bucket_and_prefix() {
    let service = OssService::new("id", "secret", "oss-cn-hangzhou", "bucket", "share/").unwrap();
    assert_eq!(service.bucket(), "bucket");
    assert_eq!(service.prefix(), "share/");
}

#[test]
fn object_key_is_prefix_and_file_name() {
    let service = OssService::new("id", "secret", "oss-cn-hangzhou", "bucket", "share/").unwrap();
    assert_eq!(
        service.object_key(r"C:\Users\alice\report.pdf").as_deref(),
        Ok("share/report.pdf")
    );
    assert_eq!(service.object_key(r"C:\").unwrap_err(), "Invalid file name");
}

#[test]
fn presign_expiry_keeps_low_bits() {
    assert_eq!(presign_expiry(604800), 604800);
    assert_eq!(presign_expiry(u32::MAX as u64), u32::MAX);
    assert_eq!(presign_expiry((1u64 << 32) + 5), 5);
}

#[test]
fn presigned_url_points_at_the_object() {
    let service = OssService::new("id", "secret", "oss-cn-hangzhou", "bucket", "share/").unwrap();
    let url = service.generate_presigned_url("share/report.pdf", 86400).unwrap();
    assert!(url.starts_with("https://bucket.oss-cn-hangzhou.aliyuncs.com/share/report.pdf?"));
    assert!(url.contains("&x-oss-expires=86400&"));
    let url = service.generate_presigned_url("k", (1u64 << 32) + 600).unwrap();
    assert!(url.starts_with("https://bucket.oss-cn-hangzhou.aliyuncs.com/k?"));
    assert!(url.contains("&x-oss-expires=600&"));
}

#[test]
fn presigned_url_names_key_id_and_region() {
    let service = OssService::new("LTAI key", "secret", "oss-cn-hangzhou", "bucket", "share/").unwrap();
    let url = service.generate_presigned_url("k.txt", 60).unwrap();
    let query = url.strip_prefix("https://bucket.oss-cn-hangzhou.aliyuncs.com/k.txt?").unwrap();
    assert!(query.starts_with("x-oss-credential=LTAI%20key%2F"));
    assert!(query.contains("%2Fcn-hangzhou%2Foss%2Faliyun_v4_request&x-oss-date="));
    assert!(!query.contains("secret"));
}

#[test]
fn client_is_built_from_the_service_settings() {
    let service = OssService::new("id", "sk", "cn-x", "b", "p/").unwrap();
    let _client = service.client();
    let url = service.generate_presigned_url("o", 1).unwrap();
    assert!(url.starts_with("https://b.cn-x.aliyuncs.com/o?x-oss-credential=id%2F"));
    assert!(url.contains("%2Fcn-x%2Foss%2Faliyun_v4_request&"));
}

#[test]
fn presigned_url_keeps_an_http_endpoint() {
    let service = OssService::new("id", "sk", "http://oss-cn-x", "b", "p/").unwrap();
    let url = service.generate_presigned_url("o", 5).unwrap();
    assert!(url.starts_with("http://b.oss-cn-x.aliyuncs.com/o?x-oss-credential=id%2F"));
    assert!(url.contains("&x-oss-expires=5&"));
}

#[test]
fn presigned_url_depends_on_the_secret() {
    let a = OssService::new("id", "secret-a", "oss-cn-hangzhou", "b", "p/").unwrap();
    let b = OssService::new("id", "secret-b", "oss-cn-hangzhou", "b", "p/").unwrap();
    let sig = |u: &str| u.split("x-oss-signature=").nth(1).unwrap().split('&').next().unwrap().to_string();
    let ua = a.generate_presigned_url("o", 5).unwrap();
    let ub = b.generate_presigned_url("o", 5).unwrap();
    if ua.contains("x-oss-date=") && ua.split("x-oss-date=").nth(1).unwrap().split('&').next() == ub.split("x-oss-date=").nth(1).unwrap().split('&').next() {
        assert_ne!(sig(&ua), sig(&ub));
    }
}
