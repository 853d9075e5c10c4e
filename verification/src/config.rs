//! The application's configuration and the text form of its protected secret.
use vstd::prelude::*;
use vstd::string::*;
use vstd::utf8::*;

use base64::Engine;

use crate::text::{has_prefix, join2};

verus! {

/// The credentials used to reach OSS. The secret is stored protected and base64-encoded.
#[derive(Debug, Clone)]
pub struct Credentials {
    pub access_key_id: String,
    pub access_key_secret: String,
}

/// Where files are stored: region, bucket and the key prefix of shared files.
#[derive(Debug, Clone)]
pub struct OssConfig {
    pub region: String,
    pub bucket: String,
    pub prefix: String,
}

/// How long a share link stays valid.
#[derive(Debug, Clone)]
pub struct SharingConfig {
    pub expire_seconds: u64,
}

/// The whole configuration.
#[derive(Debug, Clone)]
pub struct AppConfig {
    pub credentials: Credentials,
    pub oss: OssConfig,
    pub sharing: SharingConfig,
}

/// The plain values of an [`AppConfig`].
pub struct ConfigView {
    pub access_key_id: Seq<char>,
    pub access_key_secret: Seq<char>,
    pub region: Seq<char>,
    pub bucket: Seq<char>,
    pub prefix: Seq<char>,
    pub expire_seconds: u64,
}

impl View for AppConfig {
    type V = ConfigView;

    open spec fn view(&self) -> ConfigView {
        ConfigView {
            access_key_id: self.credentials.access_key_id@,
            access_key_secret: self.credentials.access_key_secret@,
            region: self.oss.region@,
            bucket: self.oss.bucket@,
            prefix: self.oss.prefix@,
            expire_seconds: self.sharing.expire_seconds,
        }
    }
}

/// The configuration used when none was saved: no credentials, the Hangzhou
/// region, no bucket, the prefix `share/` and links valid for seven days.
pub open spec fn default_config() -> ConfigView {
    ConfigView {
        access_key_id: Seq::empty(),
        access_key_secret: Seq::empty(),
        region: "oss-cn-hangzhou"@,
        bucket: Seq::empty(),
        prefix: "share/"@,
        expire_seconds: 604800,
    }
}

impl Default for AppConfig {
    fn default() -> (r: Self)
        ensures
            r@ == default_config(),
    {
        AppConfig {
            credentials: Credentials { access_key_id: String::new(), access_key_secret: String::new() },
            oss: OssConfig {
                region: String::from_str("oss-cn-hangzhou"),
                bucket: String::new(),
                prefix: String::from_str("share/"),
            },
            sharing: SharingConfig { expire_seconds: 604800 },
        }
    }
}

impl AppConfig {
    /// A copy of this configuration.
    pub fn duplicate(&self) -> (r: AppConfig)
        ensures
            r@ == self@,
    {
        AppConfig {
            credentials: Credentials {
                access_key_id: self.credentials.access_key_id.clone(),
                access_key_secret: self.credentials.access_key_secret.clone(),
            },
            oss: OssConfig {
                region: self.oss.region.clone(),
                bucket: self.oss.bucket.clone(),
                prefix: self.oss.prefix.clone(),
            },
            sharing: SharingConfig { expire_seconds: self.sharing.expire_seconds },
        }
    }
}

#[verifier::external_type_specification]
#[verifier::external_body]
pub struct ExDecodeError(base64::DecodeError);

#[verifier::external_type_specification]
#[verifier::external_body]
pub struct ExFromUtf8Error(std::string::FromUtf8Error);

/// The text that `base64::engine::general_purpose::STANDARD.encode` gives for `bytes`.
pub uninterp spec fn base64_standard_encoding(bytes: Seq<u8>) -> Seq<char>;

/// The bytes that `base64::engine::general_purpose::STANDARD.decode` gives back
/// for `text`, or `None` when it refuses the text.
pub uninterp spec fn base64_standard_decoding(text: Seq<char>) -> Option<Seq<u8>>;

/// Calls `base64::engine::general_purpose::STANDARD.encode`. Trusted: the result
/// is the engine's encoding of `bytes`, padded to four characters for every three
/// bytes begun (as `base64::encoded_len` computes with padding), and the engine's
/// decoding of that text gives `bytes` back. The engine panics when the encoded
/// length overflows `usize`, which the bound on the length rules out.
#[verifier::external_body]
fn base64_encode(bytes: &[u8]) -> (r: String)
    requires
        bytes@.len() <= usize::MAX / 2,
    ensures
        r@ == base64_standard_encoding(bytes@),
        r@.len() == 4 * ((bytes@.len() + 2) / 3),
        base64_standard_decoding(r@) == Some(bytes@),
{
    base64::engine::general_purpose::STANDARD.encode(bytes)
}

/// Calls `base64::engine::general_purpose::STANDARD.decode`. Trusted: it succeeds
/// exactly when the engine's decoding of `text` exists, and gives those bytes.
#[verifier::external_body]
fn base64_decode(text: &str) -> (r: Result<Vec<u8>, base64::DecodeError>)
    ensures
        match r {
            Ok(bytes) => base64_standard_decoding(text@) == Some(bytes@),
            Err(_) => base64_standard_decoding(text@) is None,
        },
{
    base64::engine::general_purpose::STANDARD.decode(text)
}

/// The message of a base64 error, as `Display` writes it. Nothing is stated of the text.
#[verifier::external_body]
fn base64_error_text(e: &base64::DecodeError) -> String {
    format!("{}", e)
}

/// Calls `String::from_utf8`. Trusted: it succeeds exactly when the bytes are
/// UTF-8, and the text is then their decoding.
#[verifier::external_body]
fn utf8_string(bytes: Vec<u8>) -> (r: Result<String, std::string::FromUtf8Error>)
    ensures
        r is Ok <==> valid_utf8(bytes@),
        r matches Ok(s) ==> s@ == decode_utf8(bytes@),
{
    String::from_utf8(bytes)
}

/// The message of a UTF-8 error, as `Display` writes it. Nothing is stated of the text.
#[verifier::external_body]
fn utf8_error_text(e: &std::string::FromUtf8Error) -> String {
    format!("{}", e)
}

/// What a stored secret holds: `Some(None)` when it is empty (no secret), the
/// protected bytes when it decodes, and `None` when it is not valid base64.
pub open spec fn stored_secret(stored: Seq<char>) -> Option<Option<Seq<u8>>> {
    if stored.len() == 0 {
        Some(None)
    } else {
        match base64_standard_decoding(stored) {
            Some(bytes) => Some(Some(bytes)),
            None => None,
        }
    }
}

/// The text under which protected secret bytes are stored.
pub fn encode_protected_secret(blob: &[u8]) -> (r: String)
    requires
        blob@.len() <= usize::MAX / 2,
    ensures
        r@ == base64_standard_encoding(blob@),
        r@.len() == 4 * ((blob@.len() + 2) / 3),
        blob@.len() > 0 ==> r@.len() > 0 && stored_secret(r@) == Some(Some(blob@)),
{
    base64_encode(blob)
}

/// The protected bytes of a stored secret; `Ok(None)` when nothing is stored.
pub fn protected_secret_bytes(stored: &str) -> (r: Result<Option<Vec<u8>>, String>)
    ensures
        match r {
            Ok(Some(bytes)) => stored_secret(stored@) == Some(Some(bytes@)),
            Ok(None) => stored_secret(stored@) == Some(None::<Seq<u8>>),
            Err(message) => stored_secret(stored@) is None && has_prefix(
                message@,
                "base64 decode failed: "@,
            ),
        },
{
    if stored.is_empty() {
        return Ok(None);
    }
    match base64_decode(stored) {
        Ok(bytes) => Ok(Some(bytes)),
        Err(e) => {
            let detail = base64_error_text(&e);
            let message = join2("base64 decode failed: ", detail.as_str());
            proof {
                assert(message@.subrange(0, "base64 decode failed: "@.len() as int)
                    =~= "base64 decode failed: "@);
            }
            Err(message)
        },
    }
}

/// The secret held by unprotected bytes, which must be UTF-8.
pub fn secret_from_bytes(plain: Vec<u8>) -> (r: Result<String, String>)
    ensures
        r is Ok <==> valid_utf8(plain@),
        r matches Ok(s) ==> s@ == decode_utf8(plain@),
        r matches Err(message) ==> has_prefix(message@, "UTF-8 decode failed: "@),
{
    match utf8_string(plain) {
        Ok(s) => Ok(s),
        Err(e) => {
            let detail = utf8_error_text(&e);
            let message = join2("UTF-8 decode failed: ", detail.as_str());
            proof {
                assert(message@.subrange(0, "UTF-8 decode failed: "@.len() as int)
                    =~= "UTF-8 decode failed: "@);
            }
            Err(message)
        },
    }
}

/// A secret's text survives its way through bytes: its UTF-8 bytes are valid
/// UTF-8 and decode to the same text, so `secret_from_bytes` gives back the text
/// whose bytes were protected.
pub proof fn lemma_secret_text_round_trip(secret: Seq<char>)
    ensures
        valid_utf8(encode_utf8(secret)),
        decode_utf8(encode_utf8(secret)) == secret,
{
    encode_utf8_valid_utf8(secret);
    encode_utf8_decode_utf8(secret);
}

} // verus!
