use taggerrs::gallery::{load_plan, LoadPlan};
use taggerrs::media::{classify, classify_extension, is_video_file, video_placeholder, MediaKind};

fn contains(hay: &[u8], needle: &[u8]) -> bool {
    hay.windows(needle.len()).any(|w| w == needle)
}

#[test]
fn classifies_images_in_any_case() {
    assert_eq!(classify("/media/a.png"), MediaKind::Image);
    assert_eq!(classify("/media/A.PNG"), MediaKind::Image);
    assert_eq!(classify("x.JpEg"), MediaKind::Image);
    assert_eq!(classify("x.webp"), MediaKind::Image);
}

#[test]
fn classifies_videos_in_any_case() {
    assert_eq!(classify("/media/b.mp4"), MediaKind::Video);
    assert_eq!(classify("clip.MKV"), MediaKind::Video);
    assert_eq!(classify("clip.m4v"), MediaKind::Video);
    assert!(is_video_file("/a/b/c.FLV"));
    assert!(!is_video_file("/a/b/c.gif"));
}

#[test]
fn unknown_or_missing_extension_is_unsupported() {
    assert_eq!(classify("/media/c.txt"), MediaKind::Unsupported);
    assert_eq!(classify("/media/noext"), MediaKind::Unsupported);
    assert_eq!(classify("/media/.png"), MediaKind::Unsupported);
    assert_eq!(classify("/media/trailing."), MediaKind::Unsupported);
    assert!(!is_video_file("movie"));
}

#[test]
fn classify_extension_wants_lower_case() {
    assert_eq!(classify_extension("png"), MediaKind::Image);
    assert_eq!(classify_extension("PNG"), MediaKind::Unsupported);
    assert_eq!(classify_extension("mov"), MediaKind::Video);
    assert_eq!(classify_extension(""), MediaKind::Unsupported);
}

#[test]
fn placeholder_names_the_video() {
    let bytes = video_placeholder("/media/b.mp4");
    let text = String::from_utf8(bytes.clone()).unwrap();
    assert!(text.starts_with("<svg"));
    assert!(text.ends_with("</svg>"));
    assert!(contains(&bytes, b">b.mp4</text>"));
    assert!(!contains(&bytes, b"/media/"));
}

#[test]
fn load_plan_reads_images_and_synthesises_videos() {
    assert!(matches!(load_plan("/media/a.png"), LoadPlan::ReadFile));
    match load_plan("/media/b.mp4") {
        LoadPlan::Ready(bytes) => assert!(contains(&bytes, b"b.mp4")),
        LoadPlan::ReadFile => panic!("a video is never read"),
    }
}
