//! Provider selection and the unified configuration that describes how to
//! reach a backend. Construction never validates reachability: that happens
//! on the first backend call.

use vstd::prelude::*;
use vstd::string::StrSliceExecFns;
use vstd::string::StringExecFns;
use crate::errors::StorageError;

verus! {

/// Storage provider types.
#[derive(Clone, Copy, Debug, PartialEq, Eq, Structural)]
pub enum StorageProvider {
    /// Alibaba Cloud Object Storage Service.
    Oss,
    /// Amazon Simple Storage Service (and compatible stores).
    S3,
    /// Local filesystem (for testing).
    Fs,
}

/// The upper-case form of the letters that provider names use.
pub open spec fn spec_upper(c: char) -> char {
    match c {
        'o' => 'O',
        's' => 'S',
        'm' => 'M',
        'i' => 'I',
        'n' => 'N',
        'f' => 'F',
        _ => c,
    }
}

/// Whether `s` spells `kw` with each letter in either case.
pub open spec fn spec_keyword_match(s: Seq<char>, kw: Seq<char>) -> bool {
    s.len() == kw.len() && forall|i: int|
        0 <= i < s.len() ==> s[i] == kw[i] || s[i] == spec_upper(kw[i])
}

/// The provider a name selects: `oss`, `s3` or `minio`, and `fs`, each
/// case-insensitively; any other name is unsupported. Folding is fixed to
/// the ASCII letters the keywords use — a deliberate choice: general Unicode
/// lowercasing would accept exotic spellings of the same keywords, and no
/// provider is named by one.
pub open spec fn spec_parse_provider(s: Seq<char>) -> Result<StorageProvider, StorageError> {
    if spec_keyword_match(s, "oss"@) {
        Ok(StorageProvider::Oss)
    } else if spec_keyword_match(s, "s3"@) || spec_keyword_match(s, "minio"@) {
        Ok(StorageProvider::S3)
    } else if spec_keyword_match(s, "fs"@) {
        Ok(StorageProvider::Fs)
    } else {
        Err(StorageError::UnsupportedProvider)
    }
}

fn upper_char(c: char) -> (r: char)
    ensures
        r == spec_upper(c),
{
    match c {
        'o' => 'O',
        's' => 'S',
        'm' => 'M',
        'i' => 'I',
        'n' => 'N',
        'f' => 'F',
        _ => c,
    }
}

fn matches_keyword(s: &str, kw: &str) -> (r: bool)
    ensures
        r == spec_keyword_match(s@, kw@),
{
    let slen = s.unicode_len();
    let klen = kw.unicode_len();
    if slen != klen {
        return false;
    }
    let mut i: usize = 0;
    while i < klen
        invariant
            i <= klen,
            klen == kw@.len(),
            slen == s@.len(),
            slen == klen,
            forall|k: int| 0 <= k < i ==> s@[k] == kw@[k] || s@[k] == spec_upper(kw@[k]),
        decreases klen - i,
    {
        let c = s.get_char(i);
        let k = kw.get_char(i);
        if c != k && c != upper_char(k) {
            return false;
        }
        i = i + 1;
    }
    true
}

impl StorageProvider {
    /// Parse a provider name, accepting each letter in either case.
    pub fn from_str(s: &str) -> (r: Result<StorageProvider, StorageError>)
        ensures
            r == spec_parse_provider(s@),
    {
        if matches_keyword(s, "oss") {
            Ok(StorageProvider::Oss)
        } else if matches_keyword(s, "s3") || matches_keyword(s, "minio") {
            Ok(StorageProvider::S3)
        } else if matches_keyword(s, "fs") {
            Ok(StorageProvider::Fs)
        } else {
            Err(StorageError::UnsupportedProvider)
        }
    }
}

/// Unified storage configuration for different providers.
#[derive(Clone, Debug)]
pub struct StorageConfig {
    /// Storage provider type.
    pub provider: StorageProvider,
    /// Storage bucket/container name.
    pub bucket: String,
    /// Access key ID (for cloud providers).
    pub access_key_id: Option<String>,
    /// Access key secret (for cloud providers).
    pub access_key_secret: Option<String>,
    /// Endpoint URL (for custom endpoints).
    pub endpoint: Option<String>,
    /// Region (for OSS/S3).
    pub region: Option<String>,
    /// Root path for the filesystem provider.
    pub root_path: Option<String>,
}

impl StorageConfig {
    /// Create an OSS configuration.
    pub fn oss(
        bucket: String,
        access_key_id: String,
        access_key_secret: String,
        region: Option<String>,
    ) -> (c: StorageConfig)
        ensures
            c.provider == StorageProvider::Oss,
            c.bucket == bucket,
            c.access_key_id == Some(access_key_id),
            c.access_key_secret == Some(access_key_secret),
            c.endpoint is None,
            c.region == region,
            c.root_path is None,
    {
        StorageConfig {
            provider: StorageProvider::Oss,
            bucket,
            access_key_id: Some(access_key_id),
            access_key_secret: Some(access_key_secret),
            endpoint: None,
            region,
            root_path: None,
        }
    }

    /// Create an S3 configuration.
    pub fn s3(
        bucket: String,
        access_key_id: String,
        secret_access_key: String,
        region: Option<String>,
    ) -> (c: StorageConfig)
        ensures
            c.provider == StorageProvider::S3,
            c.bucket == bucket,
            c.access_key_id == Some(access_key_id),
            c.access_key_secret == Some(secret_access_key),
            c.endpoint is None,
            c.region == region,
            c.root_path is None,
    {
        StorageConfig {
            provider: StorageProvider::S3,
            bucket,
            access_key_id: Some(access_key_id),
            access_key_secret: Some(secret_access_key),
            endpoint: None,
            region,
            root_path: None,
        }
    }

    /// Create a filesystem configuration rooted at `root_path`.
    pub fn fs(root_path: String) -> (c: StorageConfig)
        ensures
            c.provider == StorageProvider::Fs,
            c.bucket@ == "local"@,
            c.access_key_id is None,
            c.access_key_secret is None,
            c.endpoint is None,
            c.region is None,
            c.root_path == Some(root_path),
    {
        StorageConfig {
            provider: StorageProvider::Fs,
            bucket: String::from_str("local"),
            access_key_id: None,
            access_key_secret: None,
            endpoint: None,
            region: None,
            root_path: Some(root_path),
        }
    }
}

} // verus!
