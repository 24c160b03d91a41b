use ossify::build_remote_path;
use ossify::client::absorb_not_found;
use ossify::client::upload_plan;
use ossify::client::UploadMode;
use ossify::entry::render_entry;
use ossify::format_size;
use ossify::get_relative_path;
use ossify::get_root_relative_path;
use ossify::normalize_path;
use ossify::path::backend_path;
use ossify::path::file_name_of;
use ossify::path::parent_of;
use ossify::EntryInfo;
use ossify::StorageConfig;
use ossify::StorageError;
use ossify::StorageProvider;

#[test]
fn relative_of_equal_paths_is_file_name() {
    assert_eq!(get_relative_path("/a/b/c.txt", "/a/b/c.txt"), "c.txt");
}

#[test]
fn relative_of_descendant_strips_base_and_separator() {
    assert_eq!(get_relative_path("/a/b/c.txt", "/a/"), "b/c.txt");
}

#[test]
fn relative_of_unrelated_paths_is_unchanged() {
    assert_eq!(get_relative_path("/x/y.txt", "/a/"), "/x/y.txt");
}

#[test]
fn normalize_strips_one_leading_separator() {
    assert_eq!(normalize_path("/a/b"), "a/b");
    assert_eq!(normalize_path("a/b"), "a/b");
    assert_eq!(normalize_path(""), "");
}

#[test]
fn root_relative_ignores_differing_roots() {
    assert_eq!(get_root_relative_path("/a/b/c.txt", "a/"), "b/c.txt");
    assert_eq!(get_root_relative_path("a/b/c.txt", "/a/"), "b/c.txt");
    assert_eq!(get_root_relative_path("/a/b/c.txt", "/a/b/c.txt"), "c.txt");
}

#[test]
fn root_relative_mismatch_degrades_to_file_name() {
    assert_eq!(get_root_relative_path("/x/y/z.txt", "/a/"), "z.txt");
}

#[test]
fn join_inserts_exactly_one_separator() {
    assert_eq!(build_remote_path("a", "b"), "a/b");
    assert_eq!(build_remote_path("a/", "b"), "a/b");
    assert_eq!(build_remote_path("", "b"), "b");
    assert_eq!(build_remote_path("a", "/b"), "/b");
}

#[test]
fn file_name_ignores_trailing_separators() {
    assert_eq!(file_name_of("a/b/c.txt"), "c.txt");
    assert_eq!(file_name_of("a/b/"), "b");
    assert_eq!(file_name_of("c.txt"), "c.txt");
    assert_eq!(file_name_of("/"), "");
}

#[test]
fn backend_path_normalizes_separators() {
    assert_eq!(backend_path("///abc"), "abc");
    assert_eq!(backend_path("abc///def/"), "abc/def/");
    assert_eq!(backend_path("a//b"), "a/b");
    assert_eq!(backend_path("data/"), "data/");
    assert_eq!(backend_path(""), "/");
    assert_eq!(backend_path("//"), "/");
}

#[test]
fn parent_drops_the_final_segment() {
    assert_eq!(parent_of("a/b/c.txt"), "a/b");
    assert_eq!(parent_of("a/b/"), "a");
    assert_eq!(parent_of("c.txt"), "");
}

#[test]
fn format_size_scales_through_units() {
    assert_eq!(format_size(0), "0B");
    assert_eq!(format_size(512), "512B");
    assert_eq!(format_size(1023), "1023B");
    assert_eq!(format_size(1024), "1.0K");
    assert_eq!(format_size(2048), "2.0K");
    assert_eq!(format_size(4446), "4.3K");
    assert_eq!(format_size(1572864), "1.5M");
    assert_eq!(format_size(1024 * 1024 * 1024), "1.0G");
    assert_eq!(format_size(1024u64 * 1024 * 1024 * 1024 * 3 / 2), "1.5T");
}

#[test]
fn format_size_is_monotonic_across_the_examples() {
    let rendered = vec![format_size(512), format_size(2048), format_size(1572864)];
    assert_eq!(rendered, vec!["512B", "2.0K", "1.5M"]);
}

#[test]
fn provider_names_parse_case_insensitively() {
    assert!(matches!(StorageProvider::from_str("oss"), Ok(StorageProvider::Oss)));
    assert!(matches!(StorageProvider::from_str("OSS"), Ok(StorageProvider::Oss)));
    assert!(matches!(StorageProvider::from_str("s3"), Ok(StorageProvider::S3)));
    assert!(matches!(StorageProvider::from_str("S3"), Ok(StorageProvider::S3)));
    assert!(matches!(StorageProvider::from_str("minio"), Ok(StorageProvider::S3)));
    assert!(matches!(StorageProvider::from_str("MiniO"), Ok(StorageProvider::S3)));
    assert!(matches!(StorageProvider::from_str("fs"), Ok(StorageProvider::Fs)));
    assert!(matches!(
        StorageProvider::from_str("hdfs"),
        Err(StorageError::UnsupportedProvider)
    ));
}

#[test]
fn config_constructors_fill_every_field() {
    let c = StorageConfig::oss(
        "bucket".to_string(),
        "id".to_string(),
        "secret".to_string(),
        Some("cn-east".to_string()),
    );
    assert!(matches!(c.provider, StorageProvider::Oss));
    assert_eq!(c.bucket, "bucket");
    assert_eq!(c.access_key_id.as_deref(), Some("id"));
    assert_eq!(c.access_key_secret.as_deref(), Some("secret"));
    assert_eq!(c.endpoint, None);
    assert_eq!(c.region.as_deref(), Some("cn-east"));
    assert_eq!(c.root_path, None);

    let c = StorageConfig::s3(
        "b".to_string(),
        "id".to_string(),
        "sec".to_string(),
        None,
    );
    assert!(matches!(c.provider, StorageProvider::S3));
    assert_eq!(c.region, None);

    let c = StorageConfig::fs("/tmp/root".to_string());
    assert!(matches!(c.provider, StorageProvider::Fs));
    assert_eq!(c.bucket, "local");
    assert_eq!(c.root_path.as_deref(), Some("/tmp/root"));
}

#[test]
fn render_entry_matches_the_fixed_columns() {
    let file = EntryInfo {
        path: "a/b.txt".to_string(),
        size: 2048,
        modified: Some("2024-01-01T00:00:00+00:00".to_string()),
        is_dir: false,
    };
    let expected = format!(
        "{:<6} {:>10} {} {}",
        "FILE", "2.0K", "2024-01-01T00:00:00+00:00", "a/b.txt"
    );
    assert_eq!(render_entry(&file, true), expected);
    assert_eq!(render_entry(&file, false), "a/b.txt");

    let dir = EntryInfo {
        path: "a/".to_string(),
        size: 0,
        modified: None,
        is_dir: true,
    };
    let expected = format!("{:<6} {:>10} {} {}", "DIR", "-", "Unknown", "a/");
    assert_eq!(render_entry(&dir, true), expected);
}

#[test]
fn upload_plan_orders_its_checks() {
    assert!(matches!(
        upload_plan(false, true, true, false, false),
        Err(StorageError::InvalidLocalPath)
    ));
    assert!(matches!(
        upload_plan(true, false, true, false, false),
        Err(StorageError::RemotePathMissing)
    ));
    assert!(matches!(
        upload_plan(true, true, true, false, false),
        Ok(UploadMode::SingleFile)
    ));
    assert!(matches!(
        upload_plan(true, true, false, true, true),
        Ok(UploadMode::Recursive)
    ));
    assert!(matches!(
        upload_plan(true, true, false, true, false),
        Err(StorageError::InvalidLocalPath)
    ));
    assert!(matches!(
        upload_plan(true, true, true, false, true),
        Err(StorageError::InvalidLocalPath)
    ));
}

#[test]
fn absorb_not_found_yields_an_empty_listing() {
    let out = absorb_not_found(Err(StorageError::BackendNotFound)).unwrap();
    assert!(out.is_empty());

    let entry = EntryInfo {
        path: "p".to_string(),
        size: 1,
        modified: None,
        is_dir: false,
    };
    let out = absorb_not_found(Ok(vec![entry])).unwrap();
    assert_eq!(out.len(), 1);
    assert_eq!(out[0].path, "p");

    assert!(matches!(
        absorb_not_found(Err(StorageError::BackendPermission)),
        Err(StorageError::BackendPermission)
    ));
}

#[test]
fn error_messages_are_user_facing() {
    assert_eq!(
        StorageError::RemotePathMissing.describe(),
        "remote path does not exist"
    );
    assert_eq!(
        StorageError::InvalidLocalPath.describe(),
        "local path does not exist or is illegal"
    );
}
