//! Storage mirroring commands in the style of `hdfs dfs`: list, download,
//! upload and disk-usage over a cloud object store or a local filesystem.
//!
//! The heart of the crate is the path algebra that keeps the remote and the
//! local namespace consistent while a tree is mirrored, together with the
//! depth-first traversals built on it. The backend itself is reached through
//! a small set of trusted calls into `opendal` and `tokio`.

pub mod backend;
pub mod config;
pub mod entry;
pub mod errors;
pub mod format;
pub mod client;
pub mod path;
pub mod preorder;

pub use client::StorageClient;
pub use client::UploadMode;
pub use config::StorageConfig;
pub use config::StorageProvider;
pub use entry::EntryInfo;
pub use errors::StorageError;
pub use format::format_size;

pub use path::build_remote_path;
pub use path::get_relative_path;
pub use path::get_root_relative_path;
pub use path::normalize_path;
