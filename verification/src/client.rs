//! The unified storage client: list, download, upload and disk-usage over
//! one backend. Every traversal is an explicit depth-first work stack; the
//! decisions taken from backend results — absorbing a missing path into an
//! empty listing, choosing the upload mode, mirroring paths, accounting
//! usage, and throttling progress — are verified functions with exact
//! contracts, while each backend call itself stands behind a trusted wrapper.

use vstd::prelude::*;
use vstd::string::StrSliceExecFns;
use vstd::string::StringExecFns;
use crate::backend::backend_exists;
use crate::backend::backend_list;
use crate::backend::backend_read;
use crate::backend::backend_stat;
use crate::backend::backend_writer;
use crate::backend::err_of_backend;
use crate::backend::file_len;
use crate::backend::file_open;
use crate::backend::finish_fs;
use crate::backend::finish_oss;
use crate::backend::finish_s3;
use crate::backend::local_create_dir_all;
use crate::backend::local_exists;
use crate::backend::local_is_dir;
use crate::backend::local_is_file;
use crate::backend::local_read_dir;
use crate::backend::local_write_file;
use crate::backend::make_runtime;
use crate::backend::read_chunk;
use crate::backend::writer_close;
use crate::backend::writer_write;
use crate::config::StorageConfig;
use crate::config::StorageProvider;
use crate::entry::render_entries;
use crate::entry::spec_render_entry;
use crate::entry::render_entry;
use crate::entry::EntryInfo;
use crate::entry::EntryView;
use crate::entry::views_of;
use crate::errors::StorageError;
use crate::format::format_size;
use crate::format::spec_dec;
use crate::format::spec_format_size;
use crate::format::u64_to_string;
use crate::path::backend_path;
use crate::path::build_remote_path;
use crate::path::file_name_of;
use crate::path::get_relative_path;
use crate::path::str_eq;
use crate::path::parent_of;
use crate::path::spec_backend_path;
use crate::path::spec_join;
use crate::path::spec_relative;

verus! {

/// The number of bytes one streamed chunk holds.
pub const CHUNK_SIZE: usize = 8192;

/// How an upload proceeds once its pre-conditions hold.
#[derive(Clone, Copy, Debug, PartialEq, Eq, Structural)]
pub enum UploadMode {
    /// The local path is a single file, uploaded under its own name.
    SingleFile,
    /// The local path is a directory, mirrored recursively.
    Recursive,
}

/// The lister's recovery: a missing path is an empty listing, every other
/// outcome passes through unchanged.
pub fn absorb_not_found(r: Result<Vec<EntryInfo>, StorageError>) -> (out: Result<
    Vec<EntryInfo>,
    StorageError,
>)
    ensures
        r matches Ok(v) ==> (out matches Ok(v2) && v2 == v),
        r matches Err(e) ==> ((e == StorageError::BackendNotFound ==> (out matches Ok(v2) && v2@
            =~= Seq::<EntryInfo>::empty())) && (e != StorageError::BackendNotFound ==> out
            == Result::<Vec<EntryInfo>, StorageError>::Err(e))),
{
    match r {
        Ok(v) => Ok(v),
        Err(StorageError::BackendNotFound) => Ok(Vec::new()),
        Err(e) => Err(e),
    }
}

/// The uploader's eager pre-condition checks, in order: a missing local path
/// is invalid; then a missing remote anchor; a file without the recursive
/// flag uploads singly; a directory with it uploads recursively; any other
/// combination is an illegal local path.
pub open spec fn spec_upload_plan(
    local_exists: bool,
    remote_exists: bool,
    is_file: bool,
    is_dir: bool,
    recursive: bool,
) -> Result<UploadMode, StorageError> {
    if !local_exists {
        Err(StorageError::InvalidLocalPath)
    } else if !remote_exists {
        Err(StorageError::RemotePathMissing)
    } else if is_file && !recursive {
        Ok(UploadMode::SingleFile)
    } else if is_dir && recursive {
        Ok(UploadMode::Recursive)
    } else {
        Err(StorageError::InvalidLocalPath)
    }
}

/// Decide how an upload proceeds, exactly as `spec_upload_plan` states.
pub fn upload_plan(
    local_exists: bool,
    remote_exists: bool,
    is_file: bool,
    is_dir: bool,
    recursive: bool,
) -> (r: Result<UploadMode, StorageError>)
    ensures
        r == spec_upload_plan(local_exists, remote_exists, is_file, is_dir, recursive),
{
    if !local_exists {
        Err(StorageError::InvalidLocalPath)
    } else if !remote_exists {
        Err(StorageError::RemotePathMissing)
    } else if is_file && !recursive {
        Ok(UploadMode::SingleFile)
    } else if is_dir && recursive {
        Ok(UploadMode::Recursive)
    } else {
        Err(StorageError::InvalidLocalPath)
    }
}

/// Addition on byte counts that stops at the largest representable value.
pub open spec fn spec_sat_add(a: u64, b: u64) -> u64 {
    if a + b > u64::MAX {
        u64::MAX
    } else {
        (a + b) as u64
    }
}

/// Fold one listing level into a running usage total: every file adds its
/// size to the byte total and one to the file count; directories add nothing.
pub open spec fn spec_tally(total: u64, count: u64, s: Seq<EntryView>) -> (u64, u64)
    decreases s.len(),
{
    if s.len() == 0 {
        (total, count)
    } else {
        let rest = spec_tally(total, count, s.drop_last());
        if s.last().is_dir {
            rest
        } else {
            (spec_sat_add(rest.0, s.last().size), spec_sat_add(rest.1, 1))
        }
    }
}

/// The paths of the directories of one listing level, in order.
pub open spec fn spec_dir_paths(s: Seq<EntryView>) -> Seq<Seq<char>>
    decreases s.len(),
{
    if s.len() == 0 {
        Seq::<Seq<char>>::empty()
    } else {
        let rest = spec_dir_paths(s.drop_last());
        if s.last().is_dir {
            rest.push(s.last().path)
        } else {
            rest
        }
    }
}

/// The plain sum of the file sizes of one level.
pub open spec fn spec_files_size_sum(s: Seq<EntryView>) -> int
    decreases s.len(),
{
    if s.len() == 0 {
        0
    } else {
        spec_files_size_sum(s.drop_last()) + if s.last().is_dir {
            0
        } else {
            s.last().size as int
        }
    }
}

/// The number of files of one level.
pub open spec fn spec_file_count(s: Seq<EntryView>) -> int
    decreases s.len(),
{
    if s.len() == 0 {
        0
    } else {
        spec_file_count(s.drop_last()) + if s.last().is_dir {
            0int
        } else {
            1int
        }
    }
}

/// Law: while no saturation occurs, the disk-usage fold is plain addition —
/// the total grows by exactly the sum of the level's file sizes and the
/// count by exactly its number of files.
pub proof fn lemma_tally_exact(total: u64, count: u64, s: Seq<EntryView>)
    requires
        total + spec_files_size_sum(s) <= u64::MAX,
        count + spec_file_count(s) <= u64::MAX,
    ensures
        spec_tally(total, count, s).0 == total + spec_files_size_sum(s),
        spec_tally(total, count, s).1 == count + spec_file_count(s),
    decreases s.len(),
{
    if s.len() == 0 {
    } else {
        assert(spec_files_size_sum(s.drop_last()) <= spec_files_size_sum(s));
        assert(spec_file_count(s.drop_last()) <= spec_file_count(s));
        assert(spec_files_size_sum(s.drop_last()) >= 0) by {
            lemma_sums_nonneg(s.drop_last());
        }
        assert(spec_file_count(s.drop_last()) >= 0) by {
            lemma_sums_nonneg(s.drop_last());
        }
        lemma_tally_exact(total, count, s.drop_last());
    }
}

/// The level sums are never negative.
pub proof fn lemma_sums_nonneg(s: Seq<EntryView>)
    ensures
        spec_files_size_sum(s) >= 0,
        spec_file_count(s) >= 0,
    decreases s.len(),
{
    if s.len() > 0 {
        lemma_sums_nonneg(s.drop_last());
    }
}

/// Fold one listing level into the running usage total, saturating at the
/// largest representable value, and collect the level's directory paths for
/// the traversal to descend into.
pub fn tally_level(entries: &Vec<EntryInfo>, total: u64, count: u64) -> (r: (u64, u64, Vec<String>))
    ensures
        (r.0, r.1) == spec_tally(total, count, views_of(entries@)),
        r.2@.map_values(|p: String| p@) == spec_dir_paths(views_of(entries@)),
{
    let mut t = total;
    let mut c = count;
    let mut dirs: Vec<String> = Vec::new();
    let mut i: usize = 0;
    proof {
        assert(views_of(entries@).subrange(0, 0) =~= Seq::<EntryView>::empty());
        assert(dirs@.map_values(|p: String| p@) =~= Seq::<Seq<char>>::empty());
    }
    while i < entries.len()
        invariant
            i <= entries@.len(),
            views_of(entries@).len() == entries@.len(),
            (t, c) == spec_tally(total, count, views_of(entries@).subrange(0, i as int)),
            dirs@.map_values(|p: String| p@) == spec_dir_paths(
                views_of(entries@).subrange(0, i as int),
            ),
        decreases entries@.len() - i,
    {
        let ghost pre = views_of(entries@).subrange(0, i as int);
        let ghost cur = views_of(entries@).subrange(0, i + 1);
        proof {
            assert(cur.drop_last() =~= pre);
            assert(cur.last() == entries@[i as int]@);
        }
        if entries[i].is_dir {
            let p = String::from_str(entries[i].path.as_str());
            dirs.push(p);
            proof {
                assert(dirs@.map_values(|p: String| p@) =~= spec_dir_paths(cur));
            }
        } else {
            let sz = entries[i].size;
            t = if t <= u64::MAX - sz {
                t + sz
            } else {
                u64::MAX
            };
            c = if c < u64::MAX {
                c + 1
            } else {
                u64::MAX
            };
        }
        i = i + 1;
    }
    proof {
        assert(views_of(entries@).subrange(0, entries@.len() as int) =~= views_of(entries@));
    }
    (t, c, dirs)
}

/// A listing level with the listed directory's own entry removed: backends
/// report the listed directory itself as one of its entries, and no
/// traversal may descend into it. A file entry is never removed, so listing
/// a single file still yields that file.
pub open spec fn spec_drop_self(s: Seq<EntryView>, p: Seq<char>) -> Seq<EntryView>
    decreases s.len(),
{
    if s.len() == 0 {
        s
    } else {
        let rest = spec_drop_self(s.drop_last(), p);
        if s.last().is_dir && s.last().path == p {
            rest
        } else {
            rest.push(s.last())
        }
    }
}

/// Remove the entry of the listed path itself from a listing level, exactly
/// as `spec_drop_self` states.
pub fn level_without_self(entries: Vec<EntryInfo>, path: &str) -> (r: Vec<EntryInfo>)
    ensures
        views_of(r@) == spec_drop_self(views_of(entries@), path@),
{
    let ghost orig = views_of(entries@);
    let mut out: Vec<EntryInfo> = Vec::new();
    let mut rest = entries;
    proof {
        assert(orig.subrange(0, 0) =~= Seq::<EntryView>::empty());
        assert(views_of(out@) =~= Seq::<EntryView>::empty());
        assert(views_of(rest@) =~= orig.subrange(0, orig.len() as int));
    }
    while rest.len() > 0
        invariant
            rest@.len() <= orig.len(),
            views_of(rest@) == orig.subrange(
                orig.len() - rest@.len(),
                orig.len() as int,
            ),
            views_of(out@) == spec_drop_self(
                orig.subrange(0, orig.len() - rest@.len()),
                path@,
            ),
        decreases rest@.len(),
    {
        let ghost j = orig.len() - rest@.len();
        let ghost pre = orig.subrange(0, j as int);
        let ghost cur = orig.subrange(0, j + 1);
        proof {
            assert(cur.drop_last() =~= pre);
            assert(views_of(rest@)[0] == orig[j as int]);
            assert(cur.last() == orig[j as int]);
        }
        let ghost old_rest = rest@;
        let e = rest.remove(0);
        proof {
            assert(rest@ =~= old_rest.subrange(1, old_rest.len() as int));
            assert(e@ == orig[j as int]);
        }
        let keep = !(e.is_dir && str_eq(e.path.as_str(), path));
        if keep {
            let ghost pre_out = views_of(out@);
            out.push(e);
            proof {
                assert(views_of(out@) =~= pre_out.push(cur.last()));
            }
        }
        proof {
            assert forall|k: int| 0 <= k < rest@.len() implies views_of(rest@)[k] == orig.subrange(
                j + 1,
                orig.len() as int,
            )[k] by {
                assert(rest@[k] == old_rest[k + 1]);
                assert(views_of(old_rest)[k + 1] == old_rest[k + 1]@);
                assert(views_of(old_rest)[k + 1] == orig[j + 1 + k]);
            }
            assert(views_of(rest@) =~= orig.subrange(j + 1, orig.len() as int));
        }
    }
    proof {
        assert(orig.subrange(0, orig.len() as int) =~= orig);
    }
    out
}

/// Replace each file entry's size and modification time with what the
/// backend's stat call reports: listings carry the entry's kind only, so the
/// lister and the usage aggregator complete their levels this way. Paths and
/// kinds pass through unchanged; an entry that vanished between the listing
/// and its stat keeps its listed values, so a not-found error never escapes.
fn enrich_entries(
    rt: &tokio::runtime::Runtime,
    op: &opendal::Operator,
    entries: Vec<EntryInfo>,
) -> (r: Result<Vec<EntryInfo>, StorageError>)
    ensures
        r matches Ok(v) ==> v@.len() == entries@.len() && (forall|i: int|
            0 <= i < v@.len() ==> v@[i]@.path == entries@[i]@.path && v@[i]@.is_dir
                == entries@[i]@.is_dir),
        r matches Err(e) ==> e == StorageError::BackendPermission || e
            == StorageError::BackendNetwork || e == StorageError::BackendOther,
{
    let ghost orig = views_of(entries@);
    let mut out: Vec<EntryInfo> = Vec::new();
    let mut rest = entries;
    proof {
        assert(views_of(rest@) =~= orig.subrange(0, orig.len() as int));
    }
    while rest.len() > 0
        invariant
            rest@.len() <= orig.len(),
            out@.len() + rest@.len() == orig.len(),
            views_of(rest@) == orig.subrange(
                orig.len() - rest@.len(),
                orig.len() as int,
            ),
            forall|i: int|
                0 <= i < out@.len() ==> out@[i]@.path == orig[i].path && out@[i]@.is_dir
                    == orig[i].is_dir,
        decreases rest@.len(),
    {
        let ghost j = orig.len() - rest@.len();
        proof {
            assert(views_of(rest@)[0] == orig[j as int]);
        }
        let ghost old_rest = rest@;
        let e = rest.remove(0);
        proof {
            assert(rest@ =~= old_rest.subrange(1, old_rest.len() as int));
            assert(e@ == orig[j as int]);
        }
        if e.is_dir {
            out.push(e);
        } else {
            match backend_stat(rt, op, e.path.as_str()) {
                Ok((size, modified)) => {
                    out.push(EntryInfo { path: e.path, size, modified, is_dir: false });
                },
                Err(err) => {
                    let se = err_of_backend(err);
                    if se == StorageError::BackendNotFound {
                        out.push(e);
                    } else {
                        return Err(se);
                    }
                },
            }
        }
        proof {
            assert forall|k: int| 0 <= k < rest@.len() implies views_of(rest@)[k] == orig.subrange(
                j + 1,
                orig.len() as int,
            )[k] by {
                assert(rest@[k] == old_rest[k + 1]);
                assert(views_of(old_rest)[k + 1] == old_rest[k + 1]@);
                assert(views_of(old_rest)[k + 1] == orig[j + 1 + k]);
            }
            assert(views_of(rest@) =~= orig.subrange(j + 1, orig.len() as int));
        }
    }
    proof {
        assert(out@.len() == orig.len());
        assert forall|i: int|
            0 <= i < out@.len() implies out@[i]@.path == entries@[i]@.path && out@[i]@.is_dir
            == entries@[i]@.is_dir by {
            assert(orig[i] == entries@[i]@);
        }
    }
    Ok(out)
}

/// The local mirror location of a remote entry: its path relative to the
/// remote root, joined under the local destination root.
pub fn mirror_local_path(entry_path: &str, remote_root: &str, local_root: &str) -> (r: String)
    ensures
        r@ == spec_join(local_root@, spec_relative(entry_path@, remote_root@)),
{
    let rel = get_relative_path(entry_path, remote_root);
    build_remote_path(local_root, rel.as_str())
}

/// The percentage of `size` that `total` covers, clamped at one hundred.
pub open spec fn spec_progress_percent(total: u64, size: u64) -> int {
    let q = (total as int * 100) / (size as int);
    if q > 100 {
        100
    } else {
        q
    }
}

/// Compute upload progress, exactly as `spec_progress_percent` states.
pub fn progress_percent(total: u64, size: u64) -> (p: u64)
    requires
        size > 0,
    ensures
        p == spec_progress_percent(total, size),
{
    let q = ((total as u128) * 100) / (size as u128);
    if q > 100 {
        100
    } else {
        q as u64
    }
}

/// Whether a progress line is due: once every one hundred full chunks.
pub fn should_report(total: u64) -> (r: bool)
    ensures
        r == (total as int % (8192int * 100) == 0),
{
    total % (8192 * 100) == 0
}

/// What one listing line may be: the rendering of some entry.
pub open spec fn spec_is_listing_line(l: Seq<char>, long: bool) -> bool {
    exists|e: EntryView| l == #[trigger] spec_render_entry(e, long)
}

/// What one download confirmation line may be: some remote path and its
/// mirror location, related by the path algebra against the remote root.
pub open spec fn spec_is_download_line(
    l: Seq<char>,
    remote_root: Seq<char>,
    local_root: Seq<char>,
) -> bool {
    exists|remote: Seq<char>|
        l == "Downloaded: "@ + remote + " -> "@ + #[trigger] spec_join(
            local_root,
            spec_relative(remote, remote_root),
        )
}

/// What one disk-usage line may be: a formatted size and a path.
pub open spec fn spec_is_usage_line(l: Seq<char>) -> bool {
    exists|t: u64, p: Seq<char>| l == #[trigger] (spec_format_size(t) + " "@ + p)
}

/// The text of one progress line: the local path and the percentage shown.
pub open spec fn spec_progress_line_text(local: Seq<char>, pct: u64) -> Seq<char> {
    "Uploading "@ + local + ": "@ + spec_dec(pct as nat) + "%"@
}

/// What one throttled progress line may be: emitted only when the cumulative
/// byte count is a positive multiple of one hundred full chunks, and showing
/// the clamped percentage of `size` that count covers.
pub open spec fn spec_is_progress_line(l: Seq<char>, local: Seq<char>, size: u64) -> bool {
    exists|total: u64|
        0 < total && total as int % (8192int * 100) == 0 && l == #[trigger] spec_progress_line_text(
            local,
            spec_progress_percent(total, size) as u64,
        )
}

/// The closing line of one streamed upload of `bytes` bytes.
pub open spec fn spec_upload_done_line(local: Seq<char>, remote: Seq<char>, bytes: u64) -> Seq<
    char,
> {
    "Upload: "@ + local + " -> "@ + remote + " ("@ + spec_dec(bytes as nat) + " bytes)"@
}

/// What one upload output line may be: a progress line or a closing line.
pub open spec fn spec_is_upload_line(l: Seq<char>) -> bool {
    (exists|local: Seq<char>, pct: u64| l == #[trigger] spec_progress_line_text(local, pct))
        || (exists|local: Seq<char>, remote: Seq<char>, b: u64|
        l == #[trigger] spec_upload_done_line(local, remote, b))
}

/// The confirmation line of one downloaded file.
fn downloaded_line(remote: &str, local: &str) -> (r: String)
    ensures
        r@ == "Downloaded: "@ + remote@ + " -> "@ + local@,
{
    let mut s = String::from_str("Downloaded: ");
    s.append(remote);
    s.append(" -> ");
    s.append(local);
    s
}

/// One disk-usage line: the formatted size, a space, and the path.
fn size_path_line(size: u64, path: &str) -> (r: String)
    ensures
        r@ == spec_format_size(size) + " "@ + path@,
{
    let mut s = format_size(size);
    s.append(" ");
    s.append(path);
    s
}

/// The closing line of a usage summary.
fn total_files_line(count: u64) -> (r: String)
    ensures
        r@ == "Total files: "@ + spec_dec(count as nat),
{
    let mut s = String::from_str("Total files: ");
    let n = u64_to_string(count);
    s.append(n.as_str());
    s
}

/// One throttled progress line of a streaming upload.
fn progress_line(local: &str, pct: u64) -> (r: String)
    ensures
        r@ == spec_progress_line_text(local@, pct),
{
    let mut s = String::from_str("Uploading ");
    s.append(local);
    s.append(": ");
    let p = u64_to_string(pct);
    s.append(p.as_str());
    s.append("%");
    s
}

/// The closing line of one streamed upload.
fn upload_done_line(local: &str, remote: &str, bytes: u64) -> (r: String)
    ensures
        r@ == spec_upload_done_line(local@, remote@, bytes),
{
    let mut s = String::from_str("Upload: ");
    s.append(local);
    s.append(" -> ");
    s.append(remote);
    s.append(" (");
    let n = u64_to_string(bytes);
    s.append(n.as_str());
    s.append(" bytes)");
    s
}

/// One pending piece of a recursive upload: a local directory and the remote
/// directory its children mirror into.
struct UploadTask {
    local: String,
    remote: String,
}

/// Unified storage client over one backend.
pub struct StorageClient {
    operator: opendal::Operator,
    rt: tokio::runtime::Runtime,
    provider: StorageProvider,
}

impl StorageClient {
    /// The provider this client was configured with.
    pub closed spec fn spec_provider(&self) -> StorageProvider {
        self.provider
    }

    /// Create a new storage client from a unified configuration.
    pub fn new(config: StorageConfig) -> (r: Result<StorageClient, StorageError>)
        ensures
            r matches Ok(c) ==> c.spec_provider() == config.provider,
    {
        let operator = match Self::build_operator(&config) {
            Ok(op) => op,
            Err(e) => {
                return Err(err_of_backend(e));
            },
        };
        let rt = match make_runtime() {
            Ok(rt) => rt,
            Err(e) => {
                return Err(e);
            },
        };
        Ok(StorageClient { operator, rt, provider: config.provider })
    }

    /// Build the backend operator the configuration describes: each provider
    /// gets its builder, and every optional field is applied only when
    /// present.
    fn build_operator(config: &StorageConfig) -> Result<opendal::Operator, opendal::Error> {
        match config.provider {
            StorageProvider::Oss => {
                let mut b = opendal::services::Oss::default();
                b = b.bucket(config.bucket.as_str());
                b = match &config.access_key_id {
                    Some(k) => b.access_key_id(k.as_str()),
                    None => b,
                };
                b = match &config.access_key_secret {
                    Some(k) => b.access_key_secret(k.as_str()),
                    None => b,
                };
                b = match &config.endpoint {
                    Some(e) => b.endpoint(e.as_str()),
                    None => b,
                };
                finish_oss(b)
            },
            StorageProvider::S3 => {
                let mut b = opendal::services::S3::default();
                b = b.bucket(config.bucket.as_str());
                b = match &config.access_key_id {
                    Some(k) => b.access_key_id(k.as_str()),
                    None => b,
                };
                b = match &config.access_key_secret {
                    Some(k) => b.secret_access_key(k.as_str()),
                    None => b,
                };
                b = match &config.region {
                    Some(r) => b.region(r.as_str()),
                    None => b,
                };
                b = match &config.endpoint {
                    Some(e) => b.endpoint(e.as_str()),
                    None => b,
                };
                finish_s3(b)
            },
            StorageProvider::Fs => {
                let b = opendal::services::Fs::default();
                let b = match &config.root_path {
                    Some(r) => b.root(r.as_str()),
                    None => b.root("./"),
                };
                finish_fs(b)
            },
        }
    }

    /// The storage provider this client talks to.
    pub fn provider(&self) -> (r: &StorageProvider)
        ensures
            *r == self.spec_provider(),
    {
        &self.provider
    }

    /// List one level of `path`, with a missing path absorbed into an empty
    /// listing.
    fn list_level(&self, path: &str) -> (r: Result<Vec<EntryInfo>, StorageError>)
        ensures
            r matches Err(e) ==> e != StorageError::UnsupportedProvider
                && e != StorageError::BackendNotFound,
    {
        let listed: Result<Vec<EntryInfo>, StorageError> = match backend_list(
            &self.rt,
            &self.operator,
            path,
        ) {
            Ok(v) => Ok(v),
            Err(e) => Err(err_of_backend(e)),
        };
        match absorb_not_found(listed) {
            Ok(v) => enrich_entries(&self.rt, &self.operator, level_without_self(v, path)),
            Err(e) => Err(e),
        }
    }

    /// List directory contents: one display line per discovered entry, in
    /// the backend's order; recursive listing is depth-first pre-order. A
    /// missing path yields an empty listing, never a not-found error.
    pub fn list_directory(&self, path: &str, long: bool, recursive: bool) -> (r: Result<
        Vec<String>,
        StorageError,
    >)
        ensures
            r matches Ok(lines) ==> forall|i: int|
                0 <= i < lines@.len() ==> spec_is_listing_line(#[trigger] lines@[i]@, long),
            r matches Err(e) ==> e != StorageError::UnsupportedProvider
                && e != StorageError::BackendNotFound,
    {
        let p = backend_path(path);
        if recursive {
            self.list_recursive(p.as_str(), long)
        } else {
            self.list_single_level(p.as_str(), long)
        }
    }

    /// List only immediate children (non-recursive).
    fn list_single_level(&self, path: &str, long: bool) -> (r: Result<Vec<String>, StorageError>)
        ensures
            r matches Ok(lines) ==> forall|i: int|
                0 <= i < lines@.len() ==> spec_is_listing_line(#[trigger] lines@[i]@, long),
            r matches Err(e) ==> e != StorageError::UnsupportedProvider
                && e != StorageError::BackendNotFound,
    {
        let entries = match self.list_level(path) {
            Ok(v) => v,
            Err(e) => {
                return Err(e);
            },
        };
        let lines = render_entries(&entries, long);
        proof {
            assert forall|i: int|
                0 <= i < lines@.len() implies spec_is_listing_line(#[trigger] lines@[i]@, long) by {
                assert(lines@[i]@ == spec_render_entry(entries@[i]@, long));
            }
        }
        Ok(lines)
    }

    /// List recursively in depth-first pre-order: an entry's line comes
    /// before any line of its descendants, which come before its later
    /// siblings' lines.
    fn list_recursive(&self, path: &str, long: bool) -> (r: Result<Vec<String>, StorageError>)
        ensures
            r matches Ok(lines) ==> forall|i: int|
                0 <= i < lines@.len() ==> spec_is_listing_line(#[trigger] lines@[i]@, long),
            r matches Err(e) ==> e != StorageError::UnsupportedProvider
                && e != StorageError::BackendNotFound,
    {
        let mut lines: Vec<String> = Vec::new();
        let first = match self.list_level(path) {
            Ok(v) => v,
            Err(e) => {
                return Err(e);
            },
        };
        let mut stack: Vec<Vec<EntryInfo>> = Vec::new();
        stack.push(first);
        let mut steps: u64 = u64::MAX;
        while stack.len() > 0
            invariant
                forall|i: int|
                    0 <= i < lines@.len() ==> spec_is_listing_line(#[trigger] lines@[i]@, long),
            decreases steps,
        {
            if steps == 0 {
                return Err(StorageError::BackendOther);
            }
            steps = steps - 1;
            let mut level = match stack.pop() {
                Some(l) => l,
                None => {
                    return Ok(lines);
                },
            };
            if level.len() == 0 {
                continue ;
            }
            let e = level.remove(0);
            stack.push(level);
            let line = render_entry(&e, long);
            proof {
                assert(spec_is_listing_line(line@, long));
            }
            lines.push(line);
            if e.is_dir {
                let sub = match self.list_level(e.path.as_str()) {
                    Ok(v) => v,
                    Err(err) => {
                        return Err(err);
                    },
                };
                stack.push(sub);
            }
        }
        Ok(lines)
    }

    /// Download a remote subtree into a local directory, creating the local
    /// root first; every entry mirrors to its path relative to the remote
    /// root joined under the local root.
    pub fn download_files(&self, remote_path: &str, local_path: &str) -> (r: Result<
        Vec<String>,
        StorageError,
    >)
        ensures
            r matches Ok(lines) ==> forall|i: int|
                0 <= i < lines@.len() ==> spec_is_download_line(
                    #[trigger] lines@[i]@,
                    spec_backend_path(remote_path@),
                    local_path@,
                ),
            r matches Err(e) ==> e != StorageError::UnsupportedProvider,
    {
        match local_create_dir_all(&self.rt, local_path) {
            Ok(()) => {},
            Err(e) => {
                return Err(e);
            },
        }
        let root = backend_path(remote_path);
        self.download_recursive(root.as_str(), local_path)
    }

    /// Replicate every entry under `remote_path` into `local_path`,
    /// depth-first; directories are created idempotently, files are read
    /// whole and written to their mirror location.
    fn download_recursive(&self, remote_path: &str, local_path: &str) -> (r: Result<
        Vec<String>,
        StorageError,
    >)
        ensures
            r matches Ok(lines) ==> forall|i: int|
                0 <= i < lines@.len() ==> spec_is_download_line(
                    #[trigger] lines@[i]@,
                    remote_path@,
                    local_path@,
                ),
            r matches Err(e) ==> e != StorageError::UnsupportedProvider,
    {
        let mut lines: Vec<String> = Vec::new();
        let first = match backend_list(&self.rt, &self.operator, remote_path) {
            Ok(v) => level_without_self(v, remote_path),
            Err(e) => {
                return Err(err_of_backend(e));
            },
        };
        let mut stack: Vec<Vec<EntryInfo>> = Vec::new();
        stack.push(first);
        let mut steps: u64 = u64::MAX;
        while stack.len() > 0
            invariant
                forall|i: int|
                    0 <= i < lines@.len() ==> spec_is_download_line(
                        #[trigger] lines@[i]@,
                        remote_path@,
                        local_path@,
                    ),
            decreases steps,
        {
            if steps == 0 {
                return Err(StorageError::BackendOther);
            }
            steps = steps - 1;
            let mut level = match stack.pop() {
                Some(l) => l,
                None => {
                    return Ok(lines);
                },
            };
            if level.len() == 0 {
                continue ;
            }
            let e = level.remove(0);
            stack.push(level);
            let target = mirror_local_path(e.path.as_str(), remote_path, local_path);
            if e.is_dir {
                match local_create_dir_all(&self.rt, target.as_str()) {
                    Ok(()) => {},
                    Err(err) => {
                        return Err(err);
                    },
                }
                let sub = match backend_list(&self.rt, &self.operator, e.path.as_str()) {
                    Ok(v) => level_without_self(v, e.path.as_str()),
                    Err(err) => {
                        return Err(err_of_backend(err));
                    },
                };
                stack.push(sub);
            } else {
                let parent = parent_of(target.as_str());
                match local_create_dir_all(&self.rt, parent.as_str()) {
                    Ok(()) => {},
                    Err(err) => {
                        return Err(err);
                    },
                }
                let data = match backend_read(&self.rt, &self.operator, e.path.as_str()) {
                    Ok(d) => d,
                    Err(err) => {
                        return Err(err_of_backend(err));
                    },
                };
                match local_write_file(&self.rt, target.as_str(), data) {
                    Ok(()) => {},
                    Err(err) => {
                        return Err(err);
                    },
                }
                let line = downloaded_line(e.path.as_str(), target.as_str());
                proof {
                    assert(spec_is_download_line(line@, remote_path@, local_path@)) by {
                        assert(line@ == "Downloaded: "@ + e.path@ + " -> "@ + spec_join(
                            local_path@,
                            spec_relative(e.path@, remote_path@),
                        ));
                    }
                }
                lines.push(line);
            }
        }
        Ok(lines)
    }

    /// Show disk usage. The summary form is exactly two lines: the formatted
    /// total over the subtree with the path echoed, then the file count. The
    /// detailed form is one size-and-path line per immediate child.
    pub fn disk_usage(&self, path: &str, summary: bool) -> (r: Result<Vec<String>, StorageError>)
        ensures
            summary ==> (r matches Ok(lines) ==> lines@.len() == 2 && (exists|t: u64|
                lines@[0]@ == #[trigger] spec_format_size(t) + " "@ + path@) && (exists|c: u64|
                lines@[1]@ == "Total files: "@ + #[trigger] spec_dec(c as nat))),
            !summary ==> (r matches Ok(lines) ==> forall|i: int|
                0 <= i < lines@.len() ==> spec_is_usage_line(#[trigger] lines@[i]@)),
            r matches Err(e) ==> e != StorageError::UnsupportedProvider,
    {
        let p = backend_path(path);
        if summary {
            let (total, files) = match self.calculate_total_usage(p.as_str()) {
                Ok(t) => t,
                Err(e) => {
                    return Err(e);
                },
            };
            let mut lines: Vec<String> = Vec::new();
            lines.push(size_path_line(total, path));
            lines.push(total_files_line(files));
            Ok(lines)
        } else {
            self.show_detailed_usage(p.as_str())
        }
    }

    /// Sum size over every file of the subtree and count the files;
    /// directories contribute nothing themselves but are descended into.
    fn calculate_total_usage(&self, path: &str) -> (r: Result<(u64, u64), StorageError>)
        ensures
            r matches Err(e) ==> e != StorageError::UnsupportedProvider,
    {
        let mut total: u64 = 0;
        let mut count: u64 = 0;
        let mut stack: Vec<String> = Vec::new();
        stack.push(String::from_str(path));
        let mut steps: u64 = u64::MAX;
        while stack.len() > 0
            decreases steps,
        {
            if steps == 0 {
                return Err(StorageError::BackendOther);
            }
            steps = steps - 1;
            let p = match stack.pop() {
                Some(p) => p,
                None => {
                    return Ok((total, count));
                },
            };
            let level = match backend_list(&self.rt, &self.operator, p.as_str()) {
                Ok(v) => level_without_self(v, p.as_str()),
                Err(e) => {
                    return Err(err_of_backend(e));
                },
            };
            let entries = match enrich_entries(&self.rt, &self.operator, level) {
                Ok(v) => v,
                Err(e) => {
                    return Err(e);
                },
            };
            let (t, c, mut dirs) = tally_level(&entries, total, count);
            total = t;
            count = c;
            stack.append(&mut dirs);
        }
        Ok((total, count))
    }

    /// One line per immediate child: a directory shows its recursive total,
    /// a file its own size.
    fn show_detailed_usage(&self, path: &str) -> (r: Result<Vec<String>, StorageError>)
        ensures
            r matches Ok(lines) ==> forall|i: int|
                0 <= i < lines@.len() ==> spec_is_usage_line(#[trigger] lines@[i]@),
            r matches Err(e) ==> e != StorageError::UnsupportedProvider,
    {
        let level = match backend_list(&self.rt, &self.operator, path) {
            Ok(v) => level_without_self(v, path),
            Err(e) => {
                return Err(err_of_backend(e));
            },
        };
        let entries = match enrich_entries(&self.rt, &self.operator, level) {
            Ok(v) => v,
            Err(e) => {
                return Err(e);
            },
        };
        let mut lines: Vec<String> = Vec::new();
        let mut i: usize = 0;
        while i < entries.len()
            invariant
                forall|k: int|
                    0 <= k < lines@.len() ==> spec_is_usage_line(#[trigger] lines@[k]@),
            decreases entries@.len() - i,
        {
            if entries[i].is_dir {
                let (sz, _) = match self.calculate_total_usage(entries[i].path.as_str()) {
                    Ok(t) => t,
                    Err(e) => {
                        return Err(e);
                    },
                };
                let line = size_path_line(sz, entries[i].path.as_str());
                proof {
                    assert(spec_is_usage_line(line@));
                }
                lines.push(line);
            } else {
                let line = size_path_line(entries[i].size, entries[i].path.as_str());
                proof {
                    assert(spec_is_usage_line(line@));
                }
                lines.push(line);
            }
            i = i + 1;
        }
        Ok(lines)
    }

    /// Upload a local file or directory tree into the remote namespace. The
    /// local path must exist and the remote anchor must already exist; a
    /// single file uploads under its own name, a directory uploads
    /// recursively under its own name as one extra path segment.
    pub fn upload_files(&self, local_path: &str, remote_path: &str, is_recursive: bool) -> (r:
        Result<Vec<String>, StorageError>)
        ensures
            r matches Ok(lines) ==> forall|i: int|
                0 <= i < lines@.len() ==> spec_is_upload_line(#[trigger] lines@[i]@),
            r matches Err(e) ==> e != StorageError::UnsupportedProvider,
    {
        if !local_exists(local_path) {
            return Err(StorageError::InvalidLocalPath);
        }
        let remote = backend_path(remote_path);
        let remote_there = match backend_exists(&self.rt, &self.operator, remote.as_str()) {
            Ok(b) => b,
            Err(e) => {
                return Err(err_of_backend(e));
            },
        };
        let is_file = local_is_file(local_path);
        let is_dir = local_is_dir(local_path);
        match upload_plan(true, remote_there, is_file, is_dir, is_recursive) {
            Err(e) => Err(e),
            Ok(UploadMode::SingleFile) => {
                let name = file_name_of(local_path);
                let dest = build_remote_path(remote.as_str(), name.as_str());
                self.upload_file_streaming(local_path, dest.as_str())
            },
            Ok(UploadMode::Recursive) => self.upload_recursive(local_path, remote.as_str()),
        }
    }

    /// Mirror a local directory into the remote namespace, depth-first: the
    /// directory's own name becomes one extra segment under the remote root,
    /// and below it every child keeps its relative layout.
    fn upload_recursive(&self, local_path: &str, remote_path: &str) -> (r: Result<
        Vec<String>,
        StorageError,
    >)
        ensures
            r matches Ok(lines) ==> forall|i: int|
                0 <= i < lines@.len() ==> spec_is_upload_line(#[trigger] lines@[i]@),
            r matches Err(e) ==> e != StorageError::UnsupportedProvider,
    {
        let top_name = file_name_of(local_path);
        let dest_root = build_remote_path(remote_path, top_name.as_str());
        let mut lines: Vec<String> = Vec::new();
        let mut stack: Vec<UploadTask> = Vec::new();
        stack.push(UploadTask { local: String::from_str(local_path), remote: dest_root });
        let mut steps: u64 = u64::MAX;
        while stack.len() > 0
            invariant
                forall|i: int|
                    0 <= i < lines@.len() ==> spec_is_upload_line(#[trigger] lines@[i]@),
            decreases steps,
        {
            if steps == 0 {
                return Err(StorageError::Io);
            }
            steps = steps - 1;
            let task = match stack.pop() {
                Some(t) => t,
                None => {
                    return Ok(lines);
                },
            };
            let children = match local_read_dir(&self.rt, task.local.as_str()) {
                Ok(c) => c,
                Err(e) => {
                    return Err(e);
                },
            };
            let mut i: usize = 0;
            while i < children.len()
                invariant
                    forall|k: int|
                        0 <= k < lines@.len() ==> spec_is_upload_line(#[trigger] lines@[k]@),
                decreases children@.len() - i,
            {
                let dest = build_remote_path(task.remote.as_str(), children[i].name.as_str());
                if children[i].is_dir {
                    let sub_local = String::from_str(children[i].path.as_str());
                    stack.push(UploadTask { local: sub_local, remote: dest });
                } else {
                    let mut sub = match self.upload_file_streaming(
                        children[i].path.as_str(),
                        dest.as_str(),
                    ) {
                        Ok(l) => l,
                        Err(e) => {
                            return Err(e);
                        },
                    };
                    let ghost pre = lines@;
                    let ghost subv = sub@;
                    lines.append(&mut sub);
                    proof {
                        assert forall|k: int|
                            0 <= k < lines@.len() implies spec_is_upload_line(
                            #[trigger] lines@[k]@,
                        ) by {
                            if k >= pre.len() {
                                assert(lines@[k] == subv[k - pre.len()]);
                            }
                        }
                    }
                }
                i = i + 1;
            }
        }
        Ok(lines)
    }

    /// Stream one local file to the backend in fixed-size chunks, reporting
    /// throttled progress and a final byte count.
    fn upload_file_streaming(&self, local_path: &str, remote_path: &str) -> (r: Result<
        Vec<String>,
        StorageError,
    >)
        ensures
            r matches Ok(lines) ==> lines@.len() >= 1 && (exists|b: u64|
                lines@[lines@.len() - 1]@ == #[trigger] spec_upload_done_line(
                    local_path@,
                    remote_path@,
                    b,
                )) && (forall|i: int|
                0 <= i < lines@.len() ==> spec_is_upload_line(#[trigger] lines@[i]@)),
            r matches Err(e) ==> e != StorageError::UnsupportedProvider,
    {
        let mut file = match file_open(&self.rt, local_path) {
            Ok(f) => f,
            Err(e) => {
                return Err(e);
            },
        };
        let file_size = match file_len(&self.rt, &file) {
            Ok(s) => s,
            Err(e) => {
                return Err(e);
            },
        };
        let mut writer = match backend_writer(&self.rt, &self.operator, remote_path) {
            Ok(w) => w,
            Err(e) => {
                return Err(err_of_backend(e));
            },
        };
        let (total, mut lines) = match pump_file(
            &self.rt,
            &mut file,
            &mut writer,
            local_path,
            file_size,
        ) {
            Ok(t) => t,
            Err(e) => {
                return Err(e);
            },
        };
        match writer_close(&self.rt, &mut writer) {
            Ok(()) => {},
            Err(e) => {
                return Err(err_of_backend(e));
            },
        }
        let done = upload_done_line(local_path, remote_path, total);
        proof {
            assert(spec_is_upload_line(done@));
        }
        lines.push(done);
        proof {
            assert(lines@[lines@.len() - 1]@ == spec_upload_done_line(
                local_path@,
                remote_path@,
                total,
            ));
            assert forall|i: int|
                0 <= i < lines@.len() implies spec_is_upload_line(#[trigger] lines@[i]@) by {
                if i < lines@.len() - 1 {
                    let full_total = choose|t: u64|
                        0 < t && t as int % (8192int * 100) == 0 && lines@[i]@
                            == spec_progress_line_text(
                            local_path@,
                            spec_progress_percent(t, file_size) as u64,
                        );
                    assert(lines@[i]@ == spec_progress_line_text(
                        local_path@,
                        spec_progress_percent(full_total, file_size) as u64,
                    ));
                }
            }
        }
        Ok(lines)
    }
}

/// The streaming copy primitive: read fixed-size chunks from the open local
/// file and write each to the open backend handle until end of input,
/// counting bytes and emitting a progress line roughly once per hundred
/// chunks. A zero-length source emits no progress line at all.
pub(crate) fn pump_file(
    rt: &tokio::runtime::Runtime,
    file: &mut tokio::fs::File,
    writer: &mut opendal::Writer,
    local_path: &str,
    file_size: u64,
) -> (r: Result<(u64, Vec<String>), StorageError>)
    ensures
        r matches Ok(out) ==> (file_size == 0 ==> out.1@.len() == 0),
        r matches Ok(out) ==> forall|i: int|
            0 <= i < out.1@.len() ==> spec_is_progress_line(
                #[trigger] out.1@[i]@,
                local_path@,
                file_size,
            ),
        r matches Err(e) ==> e != StorageError::UnsupportedProvider,
{
    let mut buffer: Vec<u8> = Vec::new();
    let mut j: usize = 0;
    while j < CHUNK_SIZE
        invariant
            buffer@.len() == j,
            j <= CHUNK_SIZE,
        decreases CHUNK_SIZE - j,
    {
        buffer.push(0u8);
        j = j + 1;
    }
    let mut total: u64 = 0;
    let mut lines: Vec<String> = Vec::new();
    let mut steps: u64 = u64::MAX;
    loop
        invariant
            buffer@.len() == CHUNK_SIZE,
            file_size == 0 ==> lines@.len() == 0,
            forall|i: int|
                0 <= i < lines@.len() ==> spec_is_progress_line(
                    #[trigger] lines@[i]@,
                    local_path@,
                    file_size,
                ),
        decreases steps,
    {
        if steps == 0 {
            return Err(StorageError::Io);
        }
        steps = steps - 1;
        let n = match read_chunk(rt, file, &mut buffer) {
            Ok(n) => n,
            Err(e) => {
                return Err(e);
            },
        };
        if n == 0 {
            break ;
        }
        match writer_write(rt, writer, &buffer, n) {
            Ok(()) => {},
            Err(e) => {
                return Err(err_of_backend(e));
            },
        }
        let n64 = n as u64;
        total = if total <= u64::MAX - n64 {
            total + n64
        } else {
            u64::MAX
        };
        if file_size > 0 {
            if should_report(total) {
                let pct = progress_percent(total, file_size);
                let line = progress_line(local_path, pct);
                proof {
                    assert(0 < total);
                    assert(pct as u64 == spec_progress_percent(total, file_size) as u64);
                    assert(line@ == spec_progress_line_text(
                        local_path@,
                        spec_progress_percent(total, file_size) as u64,
                    ));
                    assert(spec_is_progress_line(line@, local_path@, file_size));
                }
                lines.push(line);
            }
        }
    }
    Ok((total, lines))
}

} // verus!
