//! The rules behind the window's commands: masking the secret, saving settings
//! and sorting dropped paths into files and directories.
use vstd::prelude::*;
use vstd::string::*;

use crate::config::{AppConfig, ConfigView};
use crate::text::same_text;

verus! {

/// What the window shows in place of a stored secret.
pub const MASKED_SECRET: &'static str = "••••••••";

/// The configuration as the window sees it: a stored secret is replaced by the mask.
pub open spec fn masked_view(c: ConfigView) -> ConfigView {
    ConfigView {
        access_key_secret: if c.access_key_secret.len() > 0 {
            MASKED_SECRET@
        } else {
            c.access_key_secret
        },
        ..c
    }
}

/// The configuration to show in the window, with a stored secret masked.
pub fn masked_config(config: &AppConfig) -> (r: AppConfig)
    ensures
        r@ == masked_view(config@),
{
    let mut masked = config.duplicate();
    if !masked.credentials.access_key_secret.as_str().is_empty() {
        masked.credentials.access_key_secret = String::from_str(MASKED_SECRET);
    }
    masked
}

/// The secret that a save asks to store: a new value that is neither empty nor the mask.
pub open spec fn secret_update(secret: Option<Seq<char>>) -> Option<Seq<char>> {
    match secret {
        Some(s) => if s != MASKED_SECRET@ && s.len() > 0 {
            Some(s)
        } else {
            None
        },
        None => None,
    }
}

/// The secret to protect and store when settings are saved, if any.
pub fn secret_to_store(access_key_secret: &Option<String>) -> (r: Option<String>)
    ensures
        r.deep_view() == secret_update(access_key_secret.deep_view()),
{
    match access_key_secret {
        Some(secret) => {
            if !same_text(secret.as_str(), MASKED_SECRET) && !secret.as_str().is_empty() {
                Some(secret.clone())
            } else {
                None
            }
        },
        None => None,
    }
}

/// The configuration after a save: the new values, and the protected secret
/// when one was given (the stored one is kept otherwise).
pub open spec fn saved_view(
    c: ConfigView,
    access_key_id: Seq<char>,
    protected_secret: Option<Seq<char>>,
    region: Seq<char>,
    bucket: Seq<char>,
    prefix: Seq<char>,
    expire_seconds: u64,
) -> ConfigView {
    ConfigView {
        access_key_id,
        access_key_secret: match protected_secret {
            Some(s) => s,
            None => c.access_key_secret,
        },
        region,
        bucket,
        prefix,
        expire_seconds,
    }
}

/// Writes saved settings into `config`.
pub fn apply_settings(
    config: &mut AppConfig,
    access_key_id: String,
    protected_secret: Option<String>,
    region: String,
    bucket: String,
    prefix: String,
    expire_seconds: u64,
)
    ensures
        final(config)@ == saved_view(
            old(config)@,
            access_key_id@,
            protected_secret.deep_view(),
            region@,
            bucket@,
            prefix@,
            expire_seconds,
        ),
{
    config.credentials.access_key_id = access_key_id;
    if let Some(secret) = protected_secret {
        config.credentials.access_key_secret = secret;
    }
    config.oss.region = region;
    config.oss.bucket = bucket;
    config.oss.prefix = prefix;
    config.sharing.expire_seconds = expire_seconds;
}

/// Sending back the secret that the window was shown never replaces the stored
/// secret: the mask, or the empty text when no secret is stored, asks for no update.
pub proof fn lemma_shown_secret_is_never_stored(c: ConfigView)
    ensures
        secret_update(Some(masked_view(c).access_key_secret)) is None,
{
}

/// Saving without a new secret keeps the stored one, whatever else changes.
pub proof fn lemma_save_keeps_secret(
    c: ConfigView,
    access_key_id: Seq<char>,
    region: Seq<char>,
    bucket: Seq<char>,
    prefix: Seq<char>,
    expire_seconds: u64,
)
    ensures
        saved_view(
            c,
            access_key_id,
            None,
            region,
            bucket,
            prefix,
            expire_seconds,
        ).access_key_secret == c.access_key_secret,
{
}

/// A save stores the key id, region, bucket, prefix and validity exactly as given,
/// whatever they are (empty ones included); the secret is the new protected one
/// when one is given, and the stored one otherwise.
pub proof fn lemma_save_stores_given_values(
    c: ConfigView,
    access_key_id: Seq<char>,
    protected_secret: Option<Seq<char>>,
    region: Seq<char>,
    bucket: Seq<char>,
    prefix: Seq<char>,
    expire_seconds: u64,
)
    ensures
        ({
            let saved = saved_view(
                c,
                access_key_id,
                protected_secret,
                region,
                bucket,
                prefix,
                expire_seconds,
            );
            &&& saved.access_key_id == access_key_id
            &&& saved.region == region
            &&& saved.bucket == bucket
            &&& saved.prefix == prefix
            &&& saved.expire_seconds == expire_seconds
            &&& protected_secret matches Some(s) ==> saved.access_key_secret == s
            &&& protected_secret is None ==> saved.access_key_secret == c.access_key_secret
        }),
{
}

/// What the file system says a dropped path is.
#[derive(Debug, Clone, Copy, PartialEq, Eq, Structural)]
pub enum PathKind {
    File,
    Directory,
    /// It exists but is neither a file nor a directory.
    Other,
    /// It could not be inspected.
    Missing,
}

/// Dropped paths sorted into files to upload and directories to refuse.
#[derive(Debug, Clone, PartialEq, Eq)]
pub struct EnqueueUploadsResult {
    pub accepted_files: Vec<String>,
    pub rejected_directories: Vec<String>,
}

/// The paths among `paths` whose kind is `kind`, in their order.
pub open spec fn paths_of_kind(paths: Seq<Seq<char>>, kinds: Seq<PathKind>, kind: PathKind) -> Seq<
    Seq<char>,
>
    decreases paths.len(),
{
    if paths.len() == 0 {
        Seq::empty()
    } else {
        let rest = paths_of_kind(paths.drop_last(), kinds.drop_last(), kind);
        if kinds.last() == kind {
            rest.push(paths.last())
        } else {
            rest
        }
    }
}

/// Sorts `paths` by their kinds: files are accepted, directories refused, and
/// other or missing paths left out; each list keeps the order of `paths`.
pub fn split_upload_paths(paths: Vec<String>, kinds: &[PathKind]) -> (r: EnqueueUploadsResult)
    requires
        kinds@.len() == paths@.len(),
    ensures
        r.accepted_files@.map_values(|s: String| s@) == paths_of_kind(
            paths@.map_values(|s: String| s@),
            kinds@,
            PathKind::File,
        ),
        r.rejected_directories@.map_values(|s: String| s@) == paths_of_kind(
            paths@.map_values(|s: String| s@),
            kinds@,
            PathKind::Directory,
        ),
{
    let ghost texts = paths@.map_values(|s: String| s@);
    let mut accepted_files: Vec<String> = Vec::new();
    let mut rejected_directories: Vec<String> = Vec::new();
    let mut k: usize = 0;
    while k < paths.len()
        invariant
            k <= paths@.len(),
            kinds@.len() == paths@.len(),
            texts == paths@.map_values(|s: String| s@),
            accepted_files@.map_values(|s: String| s@) == paths_of_kind(
                texts.take(k as int),
                kinds@.take(k as int),
                PathKind::File,
            ),
            rejected_directories@.map_values(|s: String| s@) == paths_of_kind(
                texts.take(k as int),
                kinds@.take(k as int),
                PathKind::Directory,
            ),
        decreases paths@.len() - k,
    {
        let ghost acc = accepted_files@.map_values(|s: String| s@);
        let ghost rej = rejected_directories@.map_values(|s: String| s@);
        let path = &paths[k];
        match kinds[k] {
            PathKind::File => {
                accepted_files.push(path.clone());
                assert(accepted_files@.map_values(|s: String| s@) =~= acc.push(path@));
            },
            PathKind::Directory => {
                rejected_directories.push(path.clone());
                assert(rejected_directories@.map_values(|s: String| s@) =~= rej.push(path@));
            },
            _ => {},
        }
        proof {
            assert(texts.take(k + 1).drop_last() =~= texts.take(k as int));
            assert(kinds@.take(k + 1).drop_last() =~= kinds@.take(k as int));
            assert(texts.take(k + 1).last() == path@);
        }
        k = k + 1;
    }
    proof {
        assert(texts.take(paths@.len() as int) =~= texts);
        assert(kinds@.take(paths@.len() as int) =~= kinds@);
    }
    EnqueueUploadsResult { accepted_files, rejected_directories }
}

} // verus!
