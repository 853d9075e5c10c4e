//! The OSS service: its settings, object keys and share links.
use vstd::prelude::*;
use vstd::string::*;
use vstd::utf8::*;

use crate::shell::hex_digit;
use crate::text::{contains_text, has_prefix, join2, strip_prefix_or_self, without_prefix};
use crate::win_path::{file_name, lemma_name_after_last_slash, windows_file_name};

verus! {

#[verifier::external_type_specification]
#[verifier::external_body]
pub struct ExOssClient(ali_oss_rs::Client);

/// A file stored under the configured prefix.
#[derive(Debug, Clone, PartialEq, Eq)]
pub struct OssFileInfo {
    pub key: String,
    pub size: u64,
    pub last_modified: String,
}

/// The endpoint of a region such as `oss-cn-hangzhou`: `oss-cn-hangzhou.aliyuncs.com`.
pub open spec fn endpoint_of(region: Seq<char>) -> Seq<char> {
    region + ".aliyuncs.com"@
}

/// The region as the SDK names it: without the `oss-` prefix.
pub open spec fn sdk_region_of(region: Seq<char>) -> Seq<char> {
    without_prefix(region, "oss-"@)
}

/// Calls `ali_oss_rs::ClientBuilder::new(access_key_id, access_key_secret, endpoint)
/// .region(region).build()` and keeps the client with the settings it was given.
/// Trusted: with a region given, `build` returns `Ok` (its one error is a region it
/// cannot guess from the endpoint), and the client is built from exactly these four
/// values (`build` moves them into the client, taking off a leading `http://` or
/// `https://` of the endpoint as its scheme).
#[verifier::external_body]
fn build_client(access_key_id: &str, access_key_secret: &str, endpoint: &str, region: &str) -> (r:
    Result<OssClient, String>)
    ensures
        r is Ok,
        r.unwrap()@ == client_settings(access_key_id@, access_key_secret@, endpoint@, region@),
{
    let built = ali_oss_rs::ClientBuilder::new(access_key_id, access_key_secret, endpoint).region(region).build();
    let settings = Ghost(client_settings(access_key_id@, access_key_secret@, endpoint@, region@));
    match built {
        Ok(sdk) => Ok(OssClient { sdk, settings }),
        Err(e) => Err(e),
    }
}

/// The decimal digits of `n`, as `to_string` writes an unsigned integer.
pub open spec fn decimal_text(n: nat) -> Seq<char>
    decreases n,
{
    if n < 10 {
        seq!["0123456789"@[n as int]]
    } else {
        decimal_text(n / 10).push("0123456789"@[(n % 10) as int])
    }
}

/// The scheme of links for an endpoint: `http` when it begins with `http://`,
/// `https` otherwise.
pub open spec fn link_scheme(endpoint: Seq<char>) -> Seq<char> {
    if has_prefix(endpoint, "http://"@) {
        "http"@
    } else {
        "https"@
    }
}

/// The host part of an endpoint: the endpoint without a leading `http://`, then
/// without a leading `https://`.
pub open spec fn bare_endpoint(endpoint: Seq<char>) -> Seq<char> {
    without_prefix(without_prefix(endpoint, "http://"@), "https://"@)
}

/// What a share link begins with: `{scheme}://{bucket}.{host}/{key}?`.
pub open spec fn link_base(bucket: Seq<char>, endpoint: Seq<char>, object_key: Seq<char>) -> Seq<
    char,
> {
    link_scheme(endpoint) + "://"@ + bucket + "."@ + bare_endpoint(endpoint) + "/"@ + object_key
        + "?"@
}

/// The query item that carries a link's validity, between its neighbours' `&`s.
pub open spec fn expiry_item(expire_seconds: u32) -> Seq<char> {
    "&x-oss-expires="@ + decimal_text(expire_seconds as nat) + "&"@
}

/// Whether byte `b` stays as it is in a URL component: an ASCII letter or digit,
/// or one of `-`, `.`, `_`, `~`.
pub open spec fn is_unreserved_byte(b: u8) -> bool {
    (0x30 <= b <= 0x39) || (0x41 <= b <= 0x5A) || (0x61 <= b <= 0x7A) || b == 0x2D || b == 0x2E
        || b == 0x5F || b == 0x7E
}

/// `bytes` percent-encoded: unreserved bytes stay, every other byte becomes `%`
/// and two upper-case hexadecimal digits.
pub open spec fn percent_encoded(bytes: Seq<u8>) -> Seq<char>
    decreases bytes.len(),
{
    if bytes.len() == 0 {
        Seq::empty()
    } else {
        let b = bytes[0];
        let head = if is_unreserved_byte(b) {
            seq![b as char]
        } else {
            seq!['%', hex_digit((b / 16) as int), hex_digit((b % 16) as int)]
        };
        head + percent_encoded(bytes.drop_first())
    }
}

/// `text` as a URL component: its UTF-8 bytes percent-encoded.
pub open spec fn url_encoded(text: Seq<char>) -> Seq<char> {
    percent_encoded(encode_utf8(text))
}

/// The query item that names the key a link is signed with:
/// `x-oss-credential={key id}/{date}/{region}/oss/aliyun_v4_request`, URL-encoded.
pub open spec fn credential_item(access_key_id: Seq<char>, date: Seq<char>, region: Seq<char>) -> Seq<
    char,
> {
    "x-oss-credential="@ + url_encoded(access_key_id) + "%2F"@ + date + "%2F"@ + url_encoded(region)
        + "%2Foss%2Faliyun_v4_request&"@
}

/// Whether `url` is a link to `object_key` in `bucket` at `endpoint`, signed with
/// the key `access_key_id` for `region`, whose query makes it valid for
/// `expire_seconds`. The query begins with the credential item (its date is left
/// open) and holds the validity item.
pub open spec fn is_share_link(
    url: Seq<char>,
    access_key_id: Seq<char>,
    region: Seq<char>,
    bucket: Seq<char>,
    endpoint: Seq<char>,
    object_key: Seq<char>,
    expire_seconds: u32,
) -> bool {
    let base = link_base(bucket, endpoint, object_key);
    let query = url.subrange(base.len() as int, url.len() as int);
    &&& has_prefix(url, base)
    &&& exists|date: Seq<char>| has_prefix(query, #[trigger] credential_item(access_key_id, date, region))
    &&& contains_text(query, expiry_item(expire_seconds))
}

/// The link that `ali_oss_rs::Client::presign_url` gives, for a client built by
/// `ClientBuilder::new(access_key_id, access_key_secret, endpoint).region(region)`,
/// for a GET of `object_key` in `bucket` valid for `expire_seconds`, when the clock
/// reads `date_time` (the `x-oss-date` text, such as `20231203T121212Z`). Apart from
/// the clock, the SDK computes the link from these values alone.
pub uninterp spec fn presigned_link(
    access_key_id: Seq<char>,
    access_key_secret: Seq<char>,
    endpoint: Seq<char>,
    region: Seq<char>,
    bucket: Seq<char>,
    object_key: Seq<char>,
    expire_seconds: u32,
    date_time: Seq<char>,
) -> Seq<char>;

/// Builds an OSS client from the plain settings (`ClientBuilder::new(access_key_id,
/// access_key_secret, endpoint).region(region).build()`) and calls its `presign_url`
/// for a GET of `object_key` in `bucket` with `expire_seconds` and the other options
/// left at their defaults. Trusted:
/// - the link is `presigned_link` of these values for the date-time that the clock
///   gave (which one is not stated);
/// - when the bucket is not empty, it begins with `{scheme}://{bucket}.{host}/{object_key}?`
///   (the scheme and host as `build` takes them from the endpoint), followed by the
///   query sorted by key (`urlencoding` encodes each key and value), which begins
///   with `x-oss-credential={access_key_id}/{date}/{region}/oss/aliyun_v4_request`
///   and holds `x-oss-expires={expire_seconds}` between `x-oss-date` and
///   `x-oss-signature`.
/// The signature, made with the secret over the date-time, is only named.
#[verifier::external_body]
fn presign_get_url(
    access_key_id: &str,
    access_key_secret: &str,
    endpoint: &str,
    region: &str,
    bucket: &str,
    object_key: &str,
    expire_seconds: u32,
) -> (r: String)
    ensures
        exists|date_time: Seq<char>|
            r@ == #[trigger] presigned_link(
                access_key_id@,
                access_key_secret@,
                endpoint@,
                region@,
                bucket@,
                object_key@,
                expire_seconds,
                date_time,
            ),
        bucket@.len() > 0 ==> is_share_link(
            r@,
            access_key_id@,
            region@,
            bucket@,
            endpoint@,
            object_key@,
            expire_seconds,
        ),
{
    let options = ali_oss_rs::presign_common::PresignGetOptions {
        expire_seconds,
        ..Default::default()
    };
    match ali_oss_rs::ClientBuilder::new(access_key_id, access_key_secret, endpoint).region(region).build() {
        Ok(client) => client.presign_url(bucket, object_key, options),
        Err(_) => String::new(),
    }
}

/// The settings an OSS client is built with.
pub struct ClientSettings {
    pub access_key_id: Seq<char>,
    pub access_key_secret: Seq<char>,
    pub endpoint: Seq<char>,
    pub region: Seq<char>,
}

/// The settings made of a key id, a secret, an endpoint and a region.
pub open spec fn client_settings(
    access_key_id: Seq<char>,
    access_key_secret: Seq<char>,
    endpoint: Seq<char>,
    region: Seq<char>,
) -> ClientSettings {
    ClientSettings { access_key_id, access_key_secret, endpoint, region }
}

/// An OSS client together with the settings it was built with. Only the builder
/// call makes one, and it records the very values that it hands to `ClientBuilder`.
pub struct OssClient {
    sdk: ali_oss_rs::Client,
    settings: Ghost<ClientSettings>,
}

impl View for OssClient {
    type V = ClientSettings;

    closed spec fn view(&self) -> ClientSettings {
        self.settings@
    }
}

impl OssClient {
    /// The SDK client, for the calls that go over the network.
    pub fn sdk(&self) -> (r: &ali_oss_rs::Client)
        ensures
            *r == self.sdk_client(),
    {
        &self.sdk
    }

    /// The SDK client that was built with the settings `self@`.
    pub closed spec fn sdk_client(&self) -> ali_oss_rs::Client {
        self.sdk
    }
}

/// The settings of one bucket: the credentials, endpoint and SDK region that its
/// OSS clients are built from, and the prefix under which shared files go.
pub struct OssService {
    access_key_id: String,
    access_key_secret: String,
    endpoint: String,
    region: String,
    bucket: String,
    prefix: String,
}

/// The plain values of an [`OssService`]: the credentials, endpoint and SDK region
/// from which its clients are built, its bucket and its prefix.
pub struct ServiceView {
    pub access_key_id: Seq<char>,
    pub access_key_secret: Seq<char>,
    pub endpoint: Seq<char>,
    pub region: Seq<char>,
    pub bucket: Seq<char>,
    pub prefix: Seq<char>,
}

impl View for OssService {
    type V = ServiceView;

    closed spec fn view(&self) -> ServiceView {
        ServiceView {
            access_key_id: self.access_key_id@,
            access_key_secret: self.access_key_secret@,
            endpoint: self.endpoint@,
            region: self.region@,
            bucket: self.bucket@,
            prefix: self.prefix@,
        }
    }
}

/// The key under which a file is uploaded: the prefix followed by the file name.
pub open spec fn object_key_of(prefix: Seq<char>, file_path: Seq<char>) -> Option<Seq<char>> {
    match windows_file_name(file_path) {
        Some(name) => Some(prefix + name),
        None => None,
    }
}

/// The object key of a file whose path does not begin with `\` or `/` is the prefix
/// followed by everything after the path's last `\` or `/` (spaces and any other
/// characters included), unless that is empty, `.` or `..`.
pub proof fn lemma_object_key_ends_with_whole_name(prefix: Seq<char>, path: Seq<char>, j: int)
    requires
        0 <= j < path.len() - 1,
        path[0] != '\\',
        path[0] != '/',
        path[j] == '\\' || path[j] == '/',
        forall|k: int| j < k < path.len() ==> #[trigger] path[k] != '\\' && path[k] != '/',
        !(path.len() == j + 2 && path[j + 1] == '.'),
        !(path.len() == j + 3 && path[j + 1] == '.' && path[j + 2] == '.'),
    ensures
        object_key_of(prefix, path) == Some(prefix + path.subrange(j + 1, path.len() as int)),
{
    lemma_name_after_last_slash(path, j);
}

/// The validity that a link is signed with: the low 32 bits of `expire_seconds`.
pub open spec fn link_validity(expire_seconds: u64) -> u32 {
    (expire_seconds as int % 0x1_0000_0000) as u32
}

/// The validity that a link is signed with, for a configured number of seconds.
pub fn presign_expiry(expire_seconds: u64) -> (r: u32)
    ensures
        r == link_validity(expire_seconds),
{
    let r = expire_seconds as u32;
    assert(r == expire_seconds % 0x1_0000_0000) by (bit_vector)
        requires
            r == expire_seconds as u32,
    ;
    r
}

impl OssService {
    /// Creates a service for `bucket` in `region` (such as `oss-cn-hangzhou`).
    /// The endpoint is `{region}.aliyuncs.com` and the SDK region is `region`
    /// without its `oss-` prefix; the service keeps them with the credentials, and
    /// its clients are built from these values. The key id, the secret and the
    /// bucket must not be empty. A client is built here once, as the SDK reports a
    /// bad setting then; with a region given, that never fails.
    pub fn new(
        access_key_id: &str,
        access_key_secret: &str,
        region: &str,
        bucket: &str,
        prefix: &str,
    ) -> (r: Result<OssService, String>)
        ensures
            (access_key_id@.len() == 0 || access_key_secret@.len() == 0) ==> (r matches Err(m)
                && m@ == "Access key ID and secret must not be empty"@),
            (access_key_id@.len() > 0 && access_key_secret@.len() > 0 && bucket@.len() == 0)
                ==> (r matches Err(m) && m@ == "Bucket name must not be empty"@),
            (access_key_id@.len() > 0 && access_key_secret@.len() > 0 && bucket@.len() > 0)
                ==> (r matches Ok(service) && service@ == (ServiceView {
                access_key_id: access_key_id@,
                access_key_secret: access_key_secret@,
                endpoint: endpoint_of(region@),
                region: sdk_region_of(region@),
                bucket: bucket@,
                prefix: prefix@,
            })),
    {
        if access_key_id.is_empty() || access_key_secret.is_empty() {
            return Err(String::from_str("Access key ID and secret must not be empty"));
        }
        if bucket.is_empty() {
            return Err(String::from_str("Bucket name must not be empty"));
        }
        let endpoint = join2(region, ".aliyuncs.com");
        let sdk_region = strip_prefix_or_self(region, "oss-");
        match build_client(access_key_id, access_key_secret, endpoint.as_str(), sdk_region) {
            Ok(_) => Ok(
                OssService {
                    access_key_id: String::from_str(access_key_id),
                    access_key_secret: String::from_str(access_key_secret),
                    endpoint,
                    region: String::from_str(sdk_region),
                    bucket: String::from_str(bucket),
                    prefix: String::from_str(prefix),
                },
            ),
            Err(e) => Err(join2("Failed to create OSS client: ", e.as_str())),
        }
    }

    /// The key under which the file at `file_path` is uploaded; an error when the
    /// path has no file name.
    pub fn object_key(&self, file_path: &str) -> (r: Result<String, String>)
        ensures
            match object_key_of(self@.prefix, file_path@) {
                Some(key) => (r matches Ok(k) && k@ == key),
                None => (r matches Err(m) && m@ == "Invalid file name"@),
            },
    {
        match file_name(file_path) {
            Some(name) => Ok(join2(self.prefix.as_str(), name.as_str())),
            None => Err(String::from_str("Invalid file name")),
        }
    }

    /// A link to download `object_key`, signed with the service's key and secret
    /// for its region to stay valid for `presign_expiry(expire_seconds)` seconds:
    /// the SDK's link for these settings at the current date-time. It never fails.
    /// It reads `https://{bucket}.{endpoint}/{object_key}?x-oss-credential={key id}/.../{region}/...`
    /// with `x-oss-expires` set to that validity (`http` where the endpoint says so).
    pub fn generate_presigned_url(&self, object_key: &str, expire_seconds: u64) -> (r: Result<
        String,
        String,
    >)
        ensures
            r matches Ok(url) && exists|date_time: Seq<char>|
                url@ == #[trigger] presigned_link(
                    self@.access_key_id,
                    self@.access_key_secret,
                    self@.endpoint,
                    self@.region,
                    self@.bucket,
                    object_key@,
                    link_validity(expire_seconds),
                    date_time,
                ),
            r matches Ok(url) && is_share_link(
                url@,
                self@.access_key_id,
                self@.region,
                self@.bucket,
                self@.endpoint,
                object_key@,
                link_validity(expire_seconds),
            ),
    {
        proof {
            use_type_invariant(self);
        }
        let validity = presign_expiry(expire_seconds);
        let url = presign_get_url(
            self.access_key_id.as_str(),
            self.access_key_secret.as_str(),
            self.endpoint.as_str(),
            self.region.as_str(),
            self.bucket.as_str(),
            object_key,
            validity,
        );
        proof {
            let date_time = choose|date_time: Seq<char>|
                url@ == #[trigger] presigned_link(
                    self@.access_key_id,
                    self@.access_key_secret,
                    self@.endpoint,
                    self@.region,
                    self@.bucket,
                    object_key@,
                    validity,
                    date_time,
                );
            assert(url@ == presigned_link(
                self@.access_key_id,
                self@.access_key_secret,
                self@.endpoint,
                self@.region,
                self@.bucket,
                object_key@,
                link_validity(expire_seconds),
                date_time,
            ));
        }
        Ok(url)
    }

    /// An OSS client built from this service's credentials, endpoint and SDK
    /// region, for the calls that go over the network.
    pub fn client(&self) -> (r: OssClient)
        ensures
            r@ == client_settings(
                self@.access_key_id,
                self@.access_key_secret,
                self@.endpoint,
                self@.region,
            ),
    {
        build_client(
            self.access_key_id.as_str(),
            self.access_key_secret.as_str(),
            self.endpoint.as_str(),
            self.region.as_str(),
        ).unwrap()
    }

    /// A service's bucket is never empty.
    #[verifier::type_invariant]
    spec fn bucket_is_named(self) -> bool {
        self.bucket@.len() > 0
    }

    /// The bucket.
    pub fn bucket(&self) -> (r: &str)
        ensures
            r@ == self@.bucket,
    {
        self.bucket.as_str()
    }

    /// The prefix under which shared files go.
    pub fn prefix(&self) -> (r: &str)
        ensures
            r@ == self@.prefix,
    {
        self.prefix.as_str()
    }
}

} // verus!
