use solana_banking_bench_historical::download::{Download, DownloadEvent, DownloadStep};
use solana_banking_bench_historical::snapshot::{
    choose_source, find_snapshot, get_snapshot_from_cache, snapshot_file_name, CacheError,
    DirectoryEntry, DirectoryState, SnapshotSource,
};

fn entry(name: &str, is_file: bool) -> Option<DirectoryEntry> {
    Some(DirectoryEntry { name: name.to_string(), is_file })
}

/// Files with these names, and entries that could not be read.
fn listing(names: &[Option<&str>]) -> Vec<Option<DirectoryEntry>> {
    names.iter().map(|name| name.and_then(|n| entry(n, true))).collect()
}

#[test]
fn directories_are_no_snapshots() {
    let only_directory = || vec![entry("snapshot-1-x", false)];
    assert_eq!(find_snapshot(&only_directory()), None);
    let listed: DirectoryState<u8> = DirectoryState::Listed(only_directory());
    assert!(matches!(get_snapshot_from_cache(listed), Ok(None)));
    let listed: DirectoryState<u8> = DirectoryState::Listed(only_directory());
    assert_eq!(choose_source(listed), SnapshotSource::Download);

    let mixed = || {
        vec![
            entry("snapshot-1-x", false),
            None,
            entry("accounts", false),
            entry("snapshot-2-y", true),
            entry("snapshot-3-z", true),
        ]
    };
    let listed: DirectoryState<u8> = DirectoryState::Listed(mixed());
    assert!(matches!(get_snapshot_from_cache(listed), Ok(Some(3))));
    let listed: DirectoryState<u8> = DirectoryState::Listed(mixed());
    assert_eq!(choose_source(listed), SnapshotSource::Cached(3));
}

#[test]
fn first_snapshot_in_a_listing() {
    let entries = listing(&[
        Some("accounts"),
        None,
        Some("snapshot"),
        Some("my-snapshot-1"),
        Some("snapshot-100-abc.tar.zst"),
        Some("snapshot-200-def.tar.zst"),
    ]);
    assert_eq!(find_snapshot(&entries), Some(4));
    assert_eq!(find_snapshot(&listing(&[Some("snapshot-")])), Some(0));
    assert_eq!(find_snapshot(&listing(&[Some("Snapshot-1"), None])), None);
    assert_eq!(find_snapshot(&listing(&[])), None);
}

#[test]
fn names_of_many_letters() {
    assert_eq!(find_snapshot(&listing(&[Some("снимок-1"), Some("snapshot-é")])), Some(1));
}

#[test]
fn cache_lookup_outcomes() {
    let missing: DirectoryState<u8> = DirectoryState::Missing;
    assert!(matches!(get_snapshot_from_cache(missing), Ok(None)));
    let file: DirectoryState<u8> = DirectoryState::NotADirectory;
    assert!(matches!(get_snapshot_from_cache(file), Err(CacheError::NotADirectory)));
    let unreadable: DirectoryState<u8> = DirectoryState::Unreadable(7);
    assert!(matches!(get_snapshot_from_cache(unreadable), Err(CacheError::Unreadable(7))));
    let listed: DirectoryState<u8> =
        DirectoryState::Listed(listing(&[Some("a"), Some("snapshot-1-x")]));
    assert!(matches!(get_snapshot_from_cache(listed), Ok(Some(1))));
    let none: DirectoryState<u8> = DirectoryState::Listed(listing(&[Some("a")]));
    assert!(matches!(get_snapshot_from_cache(none), Ok(None)));
}

#[test]
fn cache_error_messages() {
    let not_a_directory: CacheError<u8> = CacheError::NotADirectory;
    assert_eq!(not_a_directory.message(), Some("Provided path is not a directory"));
    assert_eq!(CacheError::Unreadable(1u8).message(), None);
}

#[test]
fn snapshots_at_hand_come_first() {
    let listed: DirectoryState<u8> =
        DirectoryState::Listed(listing(&[Some("snapshot-1-x"), Some("snapshot-2-y")]));
    assert_eq!(choose_source(listed), SnapshotSource::Cached(0));
    let empty: DirectoryState<u8> = DirectoryState::Listed(listing(&[]));
    assert_eq!(choose_source(empty), SnapshotSource::Download);
    let missing: DirectoryState<u8> = DirectoryState::Missing;
    assert_eq!(choose_source(missing), SnapshotSource::Download);
    let file: DirectoryState<u8> = DirectoryState::NotADirectory;
    assert_eq!(choose_source(file), SnapshotSource::Download);
    assert_eq!(choose_source(DirectoryState::Unreadable(1u8)), SnapshotSource::Download);
}

#[test]
fn file_names_from_paths() {
    assert_eq!(
        snapshot_file_name("/snapshots/snapshot-1-abc.tar.zst"),
        Some("snapshot-1-abc.tar.zst".to_string())
    );
    assert_eq!(snapshot_file_name("/file"), Some("file".to_string()));
    assert_eq!(snapshot_file_name("/"), Some(String::new()));
    assert_eq!(snapshot_file_name("/dir/"), Some(String::new()));
    assert_eq!(snapshot_file_name("text/plain,Hello"), None);
    assert_eq!(snapshot_file_name(""), None);
}

#[test]
fn file_names_agree_with_url_segments() {
    for text in [
        "https://example.com/foo/bar.tar.bz2",
        "https://example.com",
        "https://example.com/a/b/",
        "https://example.com/countries/vi\u{1ec7}t nam?x=/y/z",
        "data:text/plain,Hello/World",
    ] {
        let url = reqwest::Url::parse(text).unwrap();
        let expected = url
            .path_segments()
            .and_then(|segments| segments.last())
            .map(|segment| segment.to_string());
        assert_eq!(snapshot_file_name(url.path()), expected);
    }
}

fn responded(path: String, success: bool) -> DownloadEvent {
    DownloadEvent::Responded { path, success }
}

fn begun() -> Download {
    let mut download = Download::new();
    assert_eq!(download.step(), DownloadStep::CreateDirectory);
    download.record(DownloadEvent::DirectoryCreated);
    assert_eq!(download.step(), DownloadStep::SendRequest);
    download.record(responded("/x/snapshot-5-h.tar.zst".to_string(), true));
    assert_eq!(download.step(), DownloadStep::CreateTemporary);
    assert_eq!(download.file_name(), "snapshot-5-h.tar.zst");
    download.record(DownloadEvent::TemporaryCreated);
    assert_eq!(download.step(), DownloadStep::ReadChunk);
    download
}

#[test]
fn complete_download_is_persisted() {
    let mut download = begun();
    let mut file: Vec<u8> = Vec::new();
    for (chunk, position) in [(vec![1u8, 2, 3], 3u64), (vec![], 3), (vec![7; 10], 13)] {
        download.record(DownloadEvent::ChunkRead(chunk.clone()));
        assert_eq!(download.step(), DownloadStep::WriteChunk);
        assert_eq!(download.chunk(), &chunk);
        file.extend(download.chunk());
        download.record(DownloadEvent::ChunkWritten);
        assert_eq!(download.step(), DownloadStep::ReadChunk);
        assert!(download.chunk().is_empty());
        assert_eq!(download.position(), position);
    }
    assert_eq!(file, vec![1, 2, 3, 7, 7, 7, 7, 7, 7, 7, 7, 7, 7]);
    download.record(DownloadEvent::BodyEnded);
    assert_eq!(download.step(), DownloadStep::Flush);
    download.record(DownloadEvent::Flushed);
    assert_eq!(download.step(), DownloadStep::Persist);
    download.record(DownloadEvent::Persisted);
    assert_eq!(download.step(), DownloadStep::Finished);
    download.record(DownloadEvent::StepFailed);
    assert_eq!(download.step(), DownloadStep::Finished);
}

#[test]
fn failed_download_is_not_persisted() {
    let mut download = begun();
    download.record(DownloadEvent::ChunkRead(vec![1, 2, 3]));
    download.record(DownloadEvent::StepFailed);
    assert_eq!(download.step(), DownloadStep::Failed);
    assert_eq!(download.position(), 0);
    download.record(DownloadEvent::ChunkWritten);
    download.record(DownloadEvent::BodyEnded);
    download.record(DownloadEvent::Flushed);
    download.record(DownloadEvent::Persisted);
    assert_eq!(download.step(), DownloadStep::Failed);
}

#[test]
fn download_cannot_be_persisted_early() {
    let mut download = begun();
    download.record(DownloadEvent::ChunkRead(vec![1, 2, 3]));
    download.record(DownloadEvent::Persisted);
    assert_eq!(download.step(), DownloadStep::Failed);
    let mut hasty = Download::new();
    hasty.record(responded("/a".to_string(), true));
    assert_eq!(hasty.step(), DownloadStep::Failed);
}

#[test]
fn download_needs_a_file_name() {
    let mut download = Download::new();
    download.record(DownloadEvent::DirectoryCreated);
    download.record(responded("opaque".to_string(), true));
    assert_eq!(download.step(), DownloadStep::NoFileName);
    download.record(DownloadEvent::TemporaryCreated);
    assert_eq!(download.step(), DownloadStep::NoFileName);
}

#[test]
fn error_pages_are_not_persisted() {
    for path in ["/x/snapshot-5-h.tar.zst", "opaque"] {
        let mut download = Download::new();
        download.record(DownloadEvent::DirectoryCreated);
        download.record(responded(path.to_string(), false));
        assert_eq!(download.step(), DownloadStep::Failed);
        download.record(DownloadEvent::TemporaryCreated);
        download.record(DownloadEvent::BodyEnded);
        download.record(DownloadEvent::Flushed);
        download.record(DownloadEvent::Persisted);
        assert_eq!(download.step(), DownloadStep::Failed);
    }
}

#[test]
fn chunks_are_not_read_before_the_last_is_written() {
    let mut download = begun();
    download.record(DownloadEvent::ChunkRead(vec![1]));
    download.record(DownloadEvent::ChunkRead(vec![2]));
    assert_eq!(download.step(), DownloadStep::Failed);
}
