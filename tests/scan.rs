use taggerrs::scan::{scan_directory_entries, ScanEntry, MAX_SCAN_FILES};
use taggerrs::store::{DirectoryScanState, ScanPoll, ScanStateStore};

fn entry(path: &str, is_file: bool) -> ScanEntry {
    ScanEntry { path: path.to_string(), is_file }
}

#[test]
fn scan_keeps_media_files_only() {
    let entries = vec![
        entry("/media/a.png", true),
        entry("/media/b.mp4", true),
        entry("/media/c.txt", true),
    ];
    let mut files = scan_directory_entries(&entries);
    files.sort();
    assert_eq!(files, vec!["/media/a.png".to_string(), "/media/b.mp4".to_string()]);
}

#[test]
fn scan_skips_directories_with_media_names() {
    let entries = vec![entry("/media/album.png", false), entry("/media/x.GIF", true)];
    assert_eq!(scan_directory_entries(&entries), vec!["/media/x.GIF".to_string()]);
}

#[test]
fn scan_of_empty_listing_is_empty() {
    assert!(scan_directory_entries(&Vec::new()).is_empty());
}

#[test]
fn scan_stops_at_the_cap() {
    let mut entries = Vec::new();
    for i in 0..1500 {
        entries.push(entry(&format!("/d/{}.jpg", i), true));
        entries.push(entry(&format!("/d/{}.doc", i), true));
    }
    let files = scan_directory_entries(&entries);
    assert_eq!(files.len(), MAX_SCAN_FILES);
    assert_eq!(files[0], "/d/0.jpg");
    assert_eq!(files[999], "/d/999.jpg");
    assert!(files.iter().all(|f| f.ends_with(".jpg")));
}

#[test]
fn first_query_starts_one_scan() {
    let mut store = ScanStateStore::new();
    assert!(matches!(store.peek_or_start("/media"), ScanPoll::Started));
    assert!(matches!(store.peek_or_start("/media"), ScanPoll::Scanning));
    assert!(matches!(store.peek_or_start("/media"), ScanPoll::Scanning));
    assert!(matches!(store.state("/media"), Some(DirectoryScanState::Scanning)));
    assert!(store.state("/other").is_none());
}

#[test]
fn completed_scan_reports_its_files() {
    let mut store = ScanStateStore::new();
    let _ = store.peek_or_start("/media");
    store.complete("/media", vec!["/media/a.png".to_string()]);
    match store.peek_or_start("/media") {
        ScanPoll::Complete(files) => assert_eq!(files, vec!["/media/a.png".to_string()]),
        _ => panic!("scan should be complete"),
    }
}

#[test]
fn forgotten_directory_is_scanned_again() {
    let mut store = ScanStateStore::new();
    let _ = store.peek_or_start("/media");
    store.complete("/media", vec!["/media/a.png".to_string()]);
    store.forget("/media");
    assert!(store.state("/media").is_none());
    assert!(matches!(store.peek_or_start("/media"), ScanPoll::Started));
}

#[test]
fn stale_completion_after_forget_is_written() {
    let mut store = ScanStateStore::new();
    let _ = store.peek_or_start("/media");
    store.forget("/media");
    store.complete("/media", vec![]);
    match store.peek_or_start("/media") {
        ScanPoll::Complete(files) => assert!(files.is_empty()),
        _ => panic!("the late result is kept"),
    }
}
