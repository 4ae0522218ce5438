//! Choosing the media files of a directory listing.
use vstd::prelude::*;
use crate::media::{classify, is_media_path, MediaKind};

verus! {

/// The most files that one scan reports.
pub const MAX_SCAN_FILES: usize = 1000;

/// One entry of a directory listing, as the file system reported it.
pub struct ScanEntry {
    pub path: String,
    pub is_file: bool,
}

/// The texts of a sequence of strings.
pub open spec fn texts(v: Seq<String>) -> Seq<Seq<char>> {
    v.map_values(|s: String| s@)
}

/// Whether a listing entry is a regular file of a recognised media kind.
pub open spec fn is_media_entry(e: ScanEntry) -> bool {
    e.is_file && is_media_path(e.path@)
}

/// The paths of the media entries of a listing, in listing order.
pub open spec fn media_paths(entries: Seq<ScanEntry>) -> Seq<Seq<char>>
    decreases entries.len(),
{
    if entries.len() == 0 {
        Seq::empty()
    } else {
        let before = media_paths(entries.drop_last());
        if is_media_entry(entries.last()) {
            before.push(entries.last().path@)
        } else {
            before
        }
    }
}

/// What a scan of a listing reports: its media paths in listing order, cut
/// off after the first `MAX_SCAN_FILES`.
pub open spec fn scan_result(entries: Seq<ScanEntry>) -> Seq<Seq<char>> {
    let all = media_paths(entries);
    if all.len() <= MAX_SCAN_FILES {
        all
    } else {
        all.take(MAX_SCAN_FILES as int)
    }
}

/// The media paths of a prefix of a listing are a prefix of those of the
/// whole listing.
pub proof fn lemma_media_paths_prefix(entries: Seq<ScanEntry>, i: int)
    requires
        0 <= i <= entries.len(),
    ensures
        media_paths(entries.take(i)).len() <= media_paths(entries).len(),
        media_paths(entries).take(media_paths(entries.take(i)).len() as int)
            == media_paths(entries.take(i)),
    decreases entries.len() - i,
{
    if i == entries.len() {
        assert(entries.take(i) =~= entries);
        assert(media_paths(entries).take(media_paths(entries).len() as int) =~= media_paths(
            entries,
        ));
    } else {
        lemma_media_paths_prefix(entries, i + 1);
        let short = entries.take(i);
        let long = entries.take(i + 1);
        assert(long.drop_last() =~= short);
        let k = media_paths(short).len() as int;
        let all = media_paths(entries);
        assert(all.take(k) =~= media_paths(long).take(k));
    }
}

/// Every path of a scan's result is that of a media entry.
pub proof fn lemma_media_paths_are_media(entries: Seq<ScanEntry>)
    ensures
        forall|j: int|
            0 <= j < media_paths(entries).len() ==> is_media_path(#[trigger] media_paths(entries)[j]),
    decreases entries.len(),
{
    if entries.len() > 0 {
        let before = media_paths(entries.drop_last());
        lemma_media_paths_are_media(entries.drop_last());
        assert forall|j: int| 0 <= j < media_paths(entries).len() implies is_media_path(
            #[trigger] media_paths(entries)[j],
        ) by {
            if j < before.len() {
                assert(media_paths(entries)[j] == before[j]);
            }
        }
    }
}

/// The media files of a directory listing, in listing order: the regular
/// files whose extension names an image or a video, at most `MAX_SCAN_FILES`
/// of them. An unreadable directory comes in as an empty listing and gives an
/// empty result.
pub fn scan_directory_entries(entries: &Vec<ScanEntry>) -> (r: Vec<String>)
    ensures
        texts(r@) == scan_result(entries@),
        r@.len() <= MAX_SCAN_FILES,
        forall|j: int| 0 <= j < r@.len() ==> is_media_path(#[trigger] r@[j]@),
{
    let mut files: Vec<String> = Vec::new();
    let mut i: usize = 0;
    while i < entries.len() && files.len() < MAX_SCAN_FILES
        invariant
            i <= entries@.len(),
            files@.len() <= MAX_SCAN_FILES,
            texts(files@) == media_paths(entries@.take(i as int)),
        decreases entries@.len() - i,
    {
        let entry = &entries[i];
        proof {
            assert(entries@.take(i + 1).drop_last() =~= entries@.take(i as int));
            assert(entries@.take(i + 1).last() == *entry);
        }
        if entry.is_file && classify(entry.path.as_str()) != MediaKind::Unsupported {
            let path = entry.path.clone();
            files.push(path);
            assert(texts(files@) =~= media_paths(entries@.take(i + 1)));
        }
        i = i + 1;
    }
    proof {
        lemma_media_paths_prefix(entries@, i as int);
        lemma_media_paths_are_media(entries@);
        let all = media_paths(entries@);
        if i == entries@.len() {
            assert(entries@.take(i as int) =~= entries@);
        } else {
            assert(files@.len() == MAX_SCAN_FILES);
        }
        assert forall|j: int| 0 <= j < files@.len() implies is_media_path(#[trigger] files@[j]@) by {
            assert(texts(files@)[j] == files@[j]@);
            assert(all[j] == scan_result(entries@)[j]);
        }
    }
    files
}

} // verus!
