use oss_share::config::{encode_protected_secret, protected_secret_bytes, secret_from_bytes, AppConfig};

#[test]
fn default_config_values() {
    let c = AppConfig::default();
    assert_eq!(c.credentials.access_key_id, "");
    assert_eq!(c.credentials.access_key_secret, "");
    assert_eq!(c.oss.region, "oss-cn-hangzhou");
    assert_eq!(c.oss.bucket, "");
    assert_eq!(c.oss.prefix, "share/");
    assert_eq!(c.sharing.expire_seconds, 604800);
}

#[test]
fn protected_secret_is_stored_as_base64() {
    assert_eq!(encode_protected_secret(b"hello world~"), "aGVsbG8gd29ybGR+");
    assert_eq!(encode_protected_secret(&[0xff, 0x00, 0x10]), "/wAQ");
}

#[test]
fn stored_secret_reads_back() {
    let blob = vec![1u8, 2, 3, 250, 251];
    let stored = encode_protected_secret(&blob);
    assert_eq!(protected_secret_bytes(&stored), Ok(Some(blob)));
}

#[test]
fn empty_stored_secret_means_none() {
    assert_eq!(protected_secret_bytes(""), Ok(None));
}

#[test]
fn invalid_stored_secret_is_an_error() {
    let r = protected_secret_bytes("not base64!");
    let message = r.unwrap_err();
    assert!(message.starts_with("base64 decode failed: "));
    assert!(message.len() > "base64 decode failed: ".len());
}

#[test]
fn secret_bytes_must_be_utf8() {
    assert_eq!(secret_from_bytes(b"s3cr3t".to_vec()), Ok(String::from("s3cr3t")));
    let err = secret_from_bytes(vec![0xff, 0xfe]).unwrap_err();
    assert!(err.starts_with("UTF-8 decode failed: "));
}

#[test]
fn stored_secret_length_is_padded_base64_length() {
    assert_eq!(encode_protected_secret(&[]).len(), 0);
    assert_eq!(encode_protected_secret(&[1]).len(), 4);
    assert_eq!(encode_protected_secret(&[1, 2, 3, 4]).len(), 8);
}

#[test]
fn secret_round_trips_through_bytes() {
    let secret = "sëcret-密钥";
    let stored = encode_protected_secret(secret.as_bytes());
    let bytes = protected_secret_bytes(&stored).unwrap().unwrap();
    assert_eq!(secret_from_bytes(bytes), Ok(String::from(secret)));
}
