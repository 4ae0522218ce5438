use taggerrs::cache::{ImageData, MediaCache};
use taggerrs::gallery::{chunk_rows, gallery_view, load_plan, record_load, tile_view, GalleryView, LoadPlan, TileView};
use taggerrs::scan::{scan_directory_entries, ScanEntry};
use taggerrs::store::{ScanPoll, ScanStateStore};

fn paths(n: usize) -> Vec<String> {
    (0..n).map(|i| format!("/m/{}.png", i)).collect()
}

#[test]
fn rows_are_cut_by_width() {
    let rows = chunk_rows(&paths(5), 2);
    assert_eq!(rows.len(), 3);
    assert_eq!(rows[0], vec!["/m/0.png".to_string(), "/m/1.png".to_string()]);
    assert_eq!(rows[2], vec!["/m/4.png".to_string()]);
    assert!(chunk_rows(&Vec::new(), 3).is_empty());
    assert_eq!(chunk_rows(&paths(6), 3).len(), 2);
}

#[test]
fn gallery_view_follows_scan_state() {
    assert!(matches!(gallery_view(&None, 2), GalleryView::Ready));
    assert!(matches!(gallery_view(&Some(ScanPoll::Started), 2), GalleryView::Scanning));
    assert!(matches!(gallery_view(&Some(ScanPoll::Scanning), 2), GalleryView::Scanning));
    match gallery_view(&Some(ScanPoll::Complete(paths(3))), 2) {
        GalleryView::Rows(rows) => {
            assert_eq!(rows.len(), 2);
            assert_eq!(rows[1], vec!["/m/2.png".to_string()]);
        }
        _ => panic!("complete scans show rows"),
    }
}

#[test]
fn tile_view_asks_for_load_on_miss_only() {
    assert!(matches!(tile_view("/m/a.png", None), TileView::Loading { request_load: true }));
    let pending = ImageData { bytes: Vec::new(), loading: true };
    assert!(matches!(tile_view("/m/a.png", Some(pending)), TileView::Loading { request_load: false }));
}

#[test]
fn tile_view_shows_loaded_bytes() {
    let image = ImageData { bytes: vec![1, 2], loading: false };
    match tile_view("/m/a.png", Some(image)) {
        TileView::Image(b) => assert_eq!(b, vec![1, 2]),
        _ => panic!("an image tile"),
    }
    let video = ImageData { bytes: vec![3], loading: false };
    match tile_view("/m/b.MP4", Some(video)) {
        TileView::Video(b) => assert_eq!(b, vec![3]),
        _ => panic!("a video tile"),
    }
}

#[test]
fn media_directory_end_to_end() {
    let mut store = ScanStateStore::new();
    assert!(matches!(store.peek_or_start("/media"), ScanPoll::Started));
    let listing = vec![
        ScanEntry { path: "/media/a.png".to_string(), is_file: true },
        ScanEntry { path: "/media/b.mp4".to_string(), is_file: true },
        ScanEntry { path: "/media/c.txt".to_string(), is_file: true },
    ];
    store.complete("/media", scan_directory_entries(&listing));
    let mut files = match store.peek_or_start("/media") {
        ScanPoll::Complete(files) => files,
        _ => panic!("scan is complete"),
    };
    files.sort();
    assert_eq!(files, vec!["/media/a.png".to_string(), "/media/b.mp4".to_string()]);

    let mut cache = MediaCache::new();
    for f in &files {
        assert!(cache.begin_load_if_absent(f));
        let outcome = match load_plan(f) {
            LoadPlan::ReadFile => Some(vec![0xAB; 500]),
            LoadPlan::Ready(bytes) => Some(bytes),
        };
        record_load(&mut cache, f, outcome);
    }
    let a = cache.try_get("/media/a.png").unwrap();
    assert!(!a.loading);
    assert_eq!(a.bytes, vec![0xAB; 500]);
    let b = cache.try_get("/media/b.mp4").unwrap();
    assert!(!b.loading);
    assert!(b.bytes.windows(5).any(|w| w == b"b.mp4"));
}
