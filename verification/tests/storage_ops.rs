use ossify::StorageClient;
use ossify::StorageConfig;
use ossify::StorageError;

fn rt() -> tokio::runtime::Runtime {
    tokio::runtime::Builder::new_current_thread()
        .enable_all()
        .build()
        .unwrap()
}

/// A fresh directory under /tmp for one test, wiped from any earlier run.
fn fresh_dir(name: &str) -> String {
    let d = format!("/tmp/ossify_test_{}", name);
    let r = rt();
    r.block_on(async {
        let _ = tokio::fs::remove_dir_all(&d).await;
        tokio::fs::create_dir_all(&d).await.unwrap();
    });
    d
}

fn write_file(path: &str, data: &[u8]) {
    let r = rt();
    r.block_on(async {
        if let Some(parent) = std::path::Path::new(path).parent() {
            tokio::fs::create_dir_all(parent).await.unwrap();
        }
        tokio::fs::write(path, data).await.unwrap();
    });
}

fn read_file(path: &str) -> Vec<u8> {
    let r = rt();
    r.block_on(async { tokio::fs::read(path).await.unwrap() })
}

fn make_dir(path: &str) {
    let r = rt();
    r.block_on(async { tokio::fs::create_dir_all(path).await.unwrap() });
}

fn client_for(root: &str) -> StorageClient {
    StorageClient::new(StorageConfig::fs(root.to_string())).unwrap()
}

#[test]
fn list_of_missing_path_is_empty_not_an_error() {
    let root = fresh_dir("list_missing");
    let client = client_for(&root);
    let lines = client.list_directory("no_such_dir/", false, false).unwrap();
    assert!(lines.is_empty());
    let lines = client.list_directory("no_such_dir/", false, true).unwrap();
    assert!(lines.is_empty());
}

#[test]
fn list_single_level_shows_children_only() {
    let root = fresh_dir("list_single");
    write_file(&format!("{root}/data/a.txt"), b"aa");
    make_dir(&format!("{root}/data/sub"));
    let client = client_for(&root);
    let mut lines = client.list_directory("data/", false, false).unwrap();
    lines.sort();
    assert_eq!(lines, vec!["data/a.txt".to_string(), "data/sub/".to_string()]);
}

#[test]
fn recursive_listing_is_preorder_and_visits_each_file_once() {
    let root = fresh_dir("list_preorder");
    write_file(&format!("{root}/data/root.txt"), b"r");
    write_file(&format!("{root}/data/sub/s.txt"), b"s");
    write_file(&format!("{root}/data/sub/nested/deep.txt"), b"d");
    let client = client_for(&root);
    let lines = client.list_directory("data/", false, true).unwrap();

    let expected = vec![
        "data/root.txt",
        "data/sub/",
        "data/sub/s.txt",
        "data/sub/nested/",
        "data/sub/nested/deep.txt",
    ];
    for name in &expected {
        assert_eq!(
            lines.iter().filter(|l| l.as_str() == *name).count(),
            1,
            "{name} should appear exactly once in {lines:?}"
        );
    }
    assert_eq!(lines.len(), expected.len());

    let pos = |name: &str| lines.iter().position(|l| l == name).unwrap();
    assert!(pos("data/sub/") < pos("data/sub/s.txt"));
    assert!(pos("data/sub/") < pos("data/sub/nested/"));
    assert!(pos("data/sub/nested/") < pos("data/sub/nested/deep.txt"));
}

#[test]
fn listing_a_root_with_leading_separator_shows_children_only() {
    let root = fresh_dir("list_slash");
    write_file(&format!("{root}/data/a.txt"), b"aa");
    let client = client_for(&root);
    let lines = client.list_directory("/data//", false, false).unwrap();
    assert_eq!(lines, vec!["data/a.txt".to_string()]);
}

#[test]
fn download_with_leading_separator_mirrors_correctly() {
    let root = fresh_dir("download_slash");
    write_file(&format!("{root}/data/deep/two.txt"), b"22");
    let client = client_for(&root);
    let dest = fresh_dir("download_slash_dest");
    client.download_files("/data/", &dest).unwrap();
    assert_eq!(read_file(&format!("{dest}/deep/two.txt")), b"22");
}

#[test]
fn long_listing_renders_kind_size_and_path() {
    let root = fresh_dir("list_long");
    write_file(&format!("{root}/data/f.bin"), &[7u8; 100]);
    let client = client_for(&root);
    let lines = client.list_directory("data/", true, false).unwrap();
    assert_eq!(lines.len(), 1);
    let line = &lines[0];
    assert!(line.starts_with("FILE"), "line was {line}");
    assert!(line.contains("100B"), "line was {line}");
    assert!(line.ends_with("data/f.bin"), "line was {line}");
}

#[test]
fn single_file_upload_preserves_length_and_bytes() {
    let root = fresh_dir("upload_single");
    let local_root = fresh_dir("upload_single_local");
    let local = format!("{local_root}/f.bin");
    let payload: Vec<u8> = (0..10000u32).map(|i| (i % 251) as u8).collect();
    write_file(&local, &payload);
    make_dir(&format!("{root}/dst"));

    let client = client_for(&root);
    let lines = client.upload_files(&local, "dst/", false).unwrap();
    assert_eq!(
        lines.last().unwrap(),
        &format!("Upload: {local} -> dst/f.bin (10000 bytes)")
    );

    let remote_bytes = read_file(&format!("{root}/dst/f.bin"));
    assert_eq!(remote_bytes.len(), payload.len());
    assert_eq!(remote_bytes, payload);

    let back = fresh_dir("upload_single_back");
    client.download_files("dst/", &back).unwrap();
    assert_eq!(read_file(&format!("{back}/f.bin")), payload);
}

#[test]
fn zero_byte_upload_emits_no_progress_line() {
    let root = fresh_dir("upload_zero");
    let local_root = fresh_dir("upload_zero_local");
    let local = format!("{local_root}/empty.bin");
    write_file(&local, b"");
    make_dir(&format!("{root}/dst"));

    let client = client_for(&root);
    let lines = client.upload_files(&local, "dst/", false).unwrap();
    assert_eq!(lines, vec![format!("Upload: {local} -> dst/empty.bin (0 bytes)")]);
    assert!(!lines.iter().any(|l| l.starts_with("Uploading")));

    let remote_bytes = read_file(&format!("{root}/dst/empty.bin"));
    assert_eq!(remote_bytes.len(), 0);
}

#[test]
fn upload_requires_an_existing_local_path() {
    let root = fresh_dir("upload_no_local");
    make_dir(&format!("{root}/dst"));
    let client = client_for(&root);
    let err = client
        .upload_files("/tmp/ossify_test_does_not_exist_anywhere", "dst/", false)
        .unwrap_err();
    assert!(matches!(err, StorageError::InvalidLocalPath));
}

#[test]
fn upload_requires_an_existing_remote_anchor() {
    let root = fresh_dir("upload_no_remote");
    let local_root = fresh_dir("upload_no_remote_local");
    let local = format!("{local_root}/f.txt");
    write_file(&local, b"x");
    let client = client_for(&root);
    let err = client.upload_files(&local, "missing_dst/", false).unwrap_err();
    assert!(matches!(err, StorageError::RemotePathMissing));
}

#[test]
fn directory_upload_without_recursive_flag_is_illegal() {
    let root = fresh_dir("upload_flag");
    let local_root = fresh_dir("upload_flag_local");
    make_dir(&format!("{local_root}/tree"));
    make_dir(&format!("{root}/dst"));
    let client = client_for(&root);
    let err = client
        .upload_files(&format!("{local_root}/tree"), "dst/", false)
        .unwrap_err();
    assert!(matches!(err, StorageError::InvalidLocalPath));
}

#[test]
fn recursive_upload_then_download_round_trips() {
    let root = fresh_dir("roundtrip");
    let local_root = fresh_dir("roundtrip_local");
    let tree = format!("{local_root}/tree");
    write_file(&format!("{tree}/a.txt"), b"alpha");
    write_file(&format!("{tree}/sub/b.txt"), b"bravo bytes");
    make_dir(&format!("{root}/dst"));

    let client = client_for(&root);
    client.upload_files(&tree, "dst/", true).unwrap();

    assert_eq!(read_file(&format!("{root}/dst/tree/a.txt")), b"alpha");
    assert_eq!(
        read_file(&format!("{root}/dst/tree/sub/b.txt")),
        b"bravo bytes"
    );

    let back = fresh_dir("roundtrip_back");
    client.download_files("dst/tree/", &back).unwrap();
    assert_eq!(read_file(&format!("{back}/a.txt")), b"alpha");
    assert_eq!(read_file(&format!("{back}/sub/b.txt")), b"bravo bytes");
}

#[test]
fn disk_usage_summary_adds_sizes_and_counts_files() {
    let root = fresh_dir("du_summary");
    write_file(&format!("{root}/data/a.bin"), &vec![1u8; 100]);
    write_file(&format!("{root}/data/b.bin"), &vec![2u8; 250]);
    write_file(&format!("{root}/data/sub/c.bin"), &vec![3u8; 4096]);
    let client = client_for(&root);
    let lines = client.disk_usage("data/", true).unwrap();
    assert_eq!(lines, vec!["4.3K data/".to_string(), "Total files: 3".to_string()]);
}

#[test]
fn disk_usage_detail_confines_itself_to_immediate_children() {
    let root = fresh_dir("du_detail");
    write_file(&format!("{root}/data/a.bin"), &vec![1u8; 100]);
    write_file(&format!("{root}/data/sub/c.bin"), &vec![3u8; 4096]);
    let client = client_for(&root);
    let mut lines = client.disk_usage("data/", false).unwrap();
    lines.sort();
    assert_eq!(
        lines,
        vec!["100B data/a.bin".to_string(), "4.0K data/sub/".to_string()]
    );
}

#[test]
fn download_mirrors_a_subtree_into_a_local_directory() {
    let root = fresh_dir("download");
    write_file(&format!("{root}/data/one.txt"), b"1");
    write_file(&format!("{root}/data/deep/two.txt"), b"22");
    let client = client_for(&root);
    let dest = fresh_dir("download_dest");
    let lines = client.download_files("data/", &dest).unwrap();
    assert_eq!(read_file(&format!("{dest}/one.txt")), b"1");
    assert_eq!(read_file(&format!("{dest}/deep/two.txt")), b"22");
    assert_eq!(lines.iter().filter(|l| l.starts_with("Downloaded: ")).count(), 2);
}

#[test]
fn client_reports_its_provider() {
    let root = fresh_dir("provider");
    let client = client_for(&root);
    assert!(matches!(client.provider(), ossify::StorageProvider::Fs));
}
