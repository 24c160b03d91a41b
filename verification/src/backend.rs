//! The trusted boundary to the outside crates: `opendal` reaches the storage
//! backend and `tokio` drives its asynchronous calls and the local
//! filesystem. Each wrapper makes exactly one outside call and converts its
//! arguments and result; everything decided from the results is verified
//! code elsewhere in the crate.

use vstd::prelude::*;
use tokio::io::AsyncReadExt;
use crate::entry::EntryInfo;
use crate::errors::StorageError;

verus! {

#[verifier::external_type_specification]
#[verifier::external_body]
pub struct ExOperator(opendal::Operator);

#[verifier::external_type_specification]
#[verifier::external_body]
pub struct ExWriter(opendal::Writer);

#[verifier::external_type_specification]
#[verifier::external_body]
pub struct ExOpendalError(opendal::Error);

#[verifier::external_type_specification]
#[verifier::external_body]
pub struct ExOssBuilder(opendal::services::Oss);

#[verifier::external_type_specification]
#[verifier::external_body]
pub struct ExS3Builder(opendal::services::S3);

#[verifier::external_type_specification]
#[verifier::external_body]
pub struct ExFsBuilder(opendal::services::Fs);

#[verifier::external_type_specification]
#[verifier::external_body]
pub struct ExRuntime(tokio::runtime::Runtime);

#[verifier::external_type_specification]
#[verifier::external_body]
pub struct ExFile(tokio::fs::File);

/// One immediate child of a local directory, as plain values.
pub struct LocalChild {
    pub path: String,
    pub name: String,
    pub is_dir: bool,
}

pub assume_specification[ <opendal::services::Oss as core::default::Default>::default ]() -> (r:
    opendal::services::Oss);

pub assume_specification[ opendal::services::Oss::bucket ](
    b: opendal::services::Oss,
    bucket: &str,
) -> (r: opendal::services::Oss);

pub assume_specification[ opendal::services::Oss::endpoint ](
    b: opendal::services::Oss,
    endpoint: &str,
) -> (r: opendal::services::Oss);

pub assume_specification[ opendal::services::Oss::access_key_id ](
    b: opendal::services::Oss,
    v: &str,
) -> (r: opendal::services::Oss);

pub assume_specification[ opendal::services::Oss::access_key_secret ](
    b: opendal::services::Oss,
    v: &str,
) -> (r: opendal::services::Oss);

pub assume_specification[ <opendal::services::S3 as core::default::Default>::default ]() -> (r:
    opendal::services::S3);

pub assume_specification[ opendal::services::S3::bucket ](
    b: opendal::services::S3,
    bucket: &str,
) -> (r: opendal::services::S3);

pub assume_specification[ opendal::services::S3::endpoint ](
    b: opendal::services::S3,
    endpoint: &str,
) -> (r: opendal::services::S3);

pub assume_specification[ opendal::services::S3::region ](
    b: opendal::services::S3,
    region: &str,
) -> (r: opendal::services::S3);

pub assume_specification[ opendal::services::S3::access_key_id ](
    b: opendal::services::S3,
    v: &str,
) -> (r: opendal::services::S3);

pub assume_specification[ opendal::services::S3::secret_access_key ](
    b: opendal::services::S3,
    v: &str,
) -> (r: opendal::services::S3);

pub assume_specification[ <opendal::services::Fs as core::default::Default>::default ]() -> (r:
    opendal::services::Fs);

pub assume_specification[ opendal::services::Fs::root ](
    b: opendal::services::Fs,
    root: &str,
) -> (r: opendal::services::Fs);

/// Relies on opendal::Operator::new and OperatorBuilder::finish to turn an
/// OSS builder into an operator.
#[verifier::external_body]
pub(crate) fn finish_oss(b: opendal::services::Oss) -> (r: Result<
    opendal::Operator,
    opendal::Error,
>) {
    Ok(opendal::Operator::new(b)?.finish())
}

/// Relies on opendal::Operator::new and OperatorBuilder::finish to turn an
/// S3 builder into an operator.
#[verifier::external_body]
pub(crate) fn finish_s3(b: opendal::services::S3) -> (r: Result<
    opendal::Operator,
    opendal::Error,
>) {
    Ok(opendal::Operator::new(b)?.finish())
}

/// Relies on opendal::Operator::new and OperatorBuilder::finish to turn a
/// filesystem builder into an operator.
#[verifier::external_body]
pub(crate) fn finish_fs(b: opendal::services::Fs) -> (r: Result<
    opendal::Operator,
    opendal::Error,
>) {
    Ok(opendal::Operator::new(b)?.finish())
}

/// Relies on tokio::runtime::Builder to build a single-threaded runtime that
/// drives the backend's asynchronous calls. Entering this runtime panics
/// inside another asynchronous context, so the client's methods must only be
/// called from synchronous code.
#[verifier::external_body]
pub(crate) fn make_runtime() -> (r: Result<tokio::runtime::Runtime, StorageError>)
    ensures
        r matches Err(e) ==> e == StorageError::Io,
{
    tokio::runtime::Builder::new_current_thread().enable_all().build().map_err(
        |_| StorageError::Io,
    )
}

/// Relies on opendal::Error::kind: not-found and permission failures keep
/// their kind, unexpected (transport-level) failures map to the network
/// error, and every other kind maps to the catch-all backend error.
#[verifier::external_body]
pub(crate) fn err_of_backend(e: opendal::Error) -> (r: StorageError)
    ensures
        r == StorageError::BackendNotFound || r == StorageError::BackendPermission || r
            == StorageError::BackendNetwork || r == StorageError::BackendOther,
{
    match e.kind() {
        opendal::ErrorKind::NotFound => StorageError::BackendNotFound,
        opendal::ErrorKind::PermissionDenied => StorageError::BackendPermission,
        opendal::ErrorKind::Unexpected => StorageError::BackendNetwork,
        _ => StorageError::BackendOther,
    }
}

/// Relies on opendal::Operator::list: one level of entries under `path`, in
/// the backend's order, each converted to plain values (path, length, kind,
/// and the modification time rendered as an RFC 3339 string).
#[verifier::external_body]
pub(crate) fn backend_list(
    rt: &tokio::runtime::Runtime,
    op: &opendal::Operator,
    path: &str,
) -> (r: Result<Vec<EntryInfo>, opendal::Error>) {
    let entries = rt.block_on(op.list(path))?;
    Ok(entries.iter().map(|e| {
        let m = e.metadata();
        EntryInfo {
            path: e.path().to_string(),
            size: m.content_length(),
            modified: m.last_modified().map(|t| t.to_rfc3339()),
            is_dir: m.mode().is_dir(),
        }
    }).collect())
}

/// Relies on opendal::Operator::stat: the size in bytes of the object at
/// `path`, and its modification time rendered as an RFC 3339 string when the
/// backend reports one.
#[verifier::external_body]
pub(crate) fn backend_stat(
    rt: &tokio::runtime::Runtime,
    op: &opendal::Operator,
    path: &str,
) -> (r: Result<(u64, Option<String>), opendal::Error>) {
    let m = rt.block_on(op.stat(path))?;
    Ok((m.content_length(), m.last_modified().map(|t| t.to_rfc3339())))
}

/// Relies on opendal::Operator::exists: whether `path` exists on the backend.
#[verifier::external_body]
pub(crate) fn backend_exists(
    rt: &tokio::runtime::Runtime,
    op: &opendal::Operator,
    path: &str,
) -> (r: Result<bool, opendal::Error>) {
    rt.block_on(op.exists(path))
}

/// Relies on opendal::Operator::read: the whole object at `path` as bytes.
#[verifier::external_body]
pub(crate) fn backend_read(
    rt: &tokio::runtime::Runtime,
    op: &opendal::Operator,
    path: &str,
) -> (r: Result<Vec<u8>, opendal::Error>) {
    Ok(rt.block_on(op.read(path))?.to_vec())
}

/// Relies on opendal::Operator::writer: a streaming handle that writes the
/// object at `path` chunk by chunk until it is closed.
#[verifier::external_body]
pub(crate) fn backend_writer(
    rt: &tokio::runtime::Runtime,
    op: &opendal::Operator,
    path: &str,
) -> (r: Result<opendal::Writer, opendal::Error>) {
    rt.block_on(op.writer(path))
}

/// Relies on opendal::Writer::write: appends the first `n` bytes of `buf` to
/// the object being written.
#[verifier::external_body]
pub(crate) fn writer_write(
    rt: &tokio::runtime::Runtime,
    w: &mut opendal::Writer,
    buf: &Vec<u8>,
    n: usize,
) -> (r: Result<(), opendal::Error>)
    requires
        n <= buf@.len(),
{
    rt.block_on(w.write(buf[..n].to_vec()))
}

/// Relies on opendal::Writer::close: finalizes the object on the backend.
#[verifier::external_body]
pub(crate) fn writer_close(rt: &tokio::runtime::Runtime, w: &mut opendal::Writer) -> (r: Result<
    (),
    opendal::Error,
>) {
    rt.block_on(w.close()).map(|_| ())
}

/// Relies on tokio::fs::create_dir_all: creates the directory and its
/// missing parents; succeeds when it already exists.
#[verifier::external_body]
pub(crate) fn local_create_dir_all(rt: &tokio::runtime::Runtime, path: &str) -> (r: Result<
    (),
    StorageError,
>)
    ensures
        r matches Err(e) ==> e == StorageError::Io,
{
    rt.block_on(tokio::fs::create_dir_all(path)).map_err(|_| StorageError::Io)
}

/// Relies on tokio::fs::write: replaces the file at `path` with `data`.
#[verifier::external_body]
pub(crate) fn local_write_file(
    rt: &tokio::runtime::Runtime,
    path: &str,
    data: Vec<u8>,
) -> (r: Result<(), StorageError>)
    ensures
        r matches Err(e) ==> e == StorageError::Io,
{
    rt.block_on(tokio::fs::write(path, data)).map_err(|_| StorageError::Io)
}

/// Relies on std::path::Path::exists: whether the local path exists.
#[verifier::external_body]
pub(crate) fn local_exists(path: &str) -> (r: bool) {
    std::path::Path::new(path).exists()
}

/// Relies on std::path::Path::is_file: whether the local path is a file.
#[verifier::external_body]
pub(crate) fn local_is_file(path: &str) -> (r: bool) {
    std::path::Path::new(path).is_file()
}

/// Relies on std::path::Path::is_dir: whether the local path is a directory.
#[verifier::external_body]
pub(crate) fn local_is_dir(path: &str) -> (r: bool) {
    std::path::Path::new(path).is_dir()
}

/// Relies on tokio::fs::read_dir: the immediate children of a local
/// directory, each as its full path, file name and kind.
#[verifier::external_body]
pub(crate) fn local_read_dir(rt: &tokio::runtime::Runtime, path: &str) -> (r: Result<
    Vec<LocalChild>,
    StorageError,
>)
    ensures
        r matches Err(e) ==> e == StorageError::Io,
{
    let mut rd = rt.block_on(tokio::fs::read_dir(path)).map_err(|_| StorageError::Io)?;
    let mut out = Vec::new();
    loop {
        match rt.block_on(rd.next_entry()) {
            Ok(Some(e)) => out.push(LocalChild {
                path: e.path().to_string_lossy().to_string(),
                name: e.file_name().to_string_lossy().to_string(),
                is_dir: e.path().is_dir(),
            }),
            Ok(None) => return Ok(out),
            Err(_) => return Err(StorageError::Io),
        }
    }
}

/// Relies on tokio::fs::File::open: opens a local file for reading.
#[verifier::external_body]
pub(crate) fn file_open(rt: &tokio::runtime::Runtime, path: &str) -> (r: Result<
    tokio::fs::File,
    StorageError,
>)
    ensures
        r matches Err(e) ==> e == StorageError::Io,
{
    rt.block_on(tokio::fs::File::open(path)).map_err(|_| StorageError::Io)
}

/// Relies on tokio::fs::File::metadata: the file's length in bytes.
#[verifier::external_body]
pub(crate) fn file_len(rt: &tokio::runtime::Runtime, f: &tokio::fs::File) -> (r: Result<
    u64,
    StorageError,
>)
    ensures
        r matches Err(e) ==> e == StorageError::Io,
{
    rt.block_on(f.metadata()).map(|m| m.len()).map_err(|_| StorageError::Io)
}

/// Relies on tokio::io::AsyncReadExt::read: fills a prefix of `buf` and
/// returns how many bytes were read; zero means end of input.
#[verifier::external_body]
pub(crate) fn read_chunk(
    rt: &tokio::runtime::Runtime,
    f: &mut tokio::fs::File,
    buf: &mut Vec<u8>,
) -> (r: Result<usize, StorageError>)
    ensures
        final(buf)@.len() == old(buf)@.len(),
        r matches Ok(n) ==> n <= old(buf)@.len(),
        r matches Err(e) ==> e == StorageError::Io,
{
    rt.block_on(f.read(buf.as_mut_slice())).map_err(|_| StorageError::Io)
}

} // verus!
