//! What the gallery shows in a frame, and what it asks to be done.
use vstd::prelude::*;
use vstd::string::*;
use crate::cache::{ImageData, MediaCache, complete_model};
use crate::media::{is_video_file, kind_of_path, video_placeholder, file_name_of, placeholder_text, MediaKind};
use crate::scan::texts;
use crate::store::ScanPoll;
use crate::table::without_key;
use vstd::utf8::encode_utf8;

verus! {

/// The texts of a sequence of rows.
pub open spec fn row_texts(rows: Seq<Vec<String>>) -> Seq<Seq<Seq<char>>> {
    rows.map_values(|row: Vec<String>| texts(row@))
}

/// Whether `rows` cuts `files`, in order, into rows of `width`, the last of
/// which may be shorter.
pub open spec fn is_row_split(rows: Seq<Seq<Seq<char>>>, files: Seq<Seq<char>>, width: nat) -> bool {
    &&& rows.flatten() == files
    &&& forall|r: int| 0 <= r < rows.len() ==> 1 <= #[trigger] rows[r].len() <= width
    &&& forall|r: int| 0 <= r < rows.len() - 1 ==> #[trigger] rows[r].len() == width
}

/// Cuts `files`, in order, into rows of `width`; the last row holds what is
/// left over.
pub fn chunk_rows(files: &Vec<String>, width: usize) -> (r: Vec<Vec<String>>)
    requires
        width > 0,
    ensures
        is_row_split(row_texts(r@), texts(files@), width as nat),
{
    let n = files.len();
    let mut rows: Vec<Vec<String>> = Vec::new();
    let mut start: usize = 0;
    while start < n
        invariant
            n == files@.len(),
            width > 0,
            start <= n,
            row_texts(rows@).flatten() == texts(files@).take(start as int),
            forall|r: int| 0 <= r < rows@.len() ==> 1 <= #[trigger] rows@[r]@.len() <= width,
            forall|r: int|
                0 <= r < rows@.len() ==> #[trigger] rows@[r]@.len() == width || (r == rows@.len()
                    - 1 && start == n),
        decreases n - start,
    {
        let end: usize = if n - start > width { start + width } else { n };
        let mut row: Vec<String> = Vec::new();
        let mut j: usize = start;
        while j < end
            invariant
                start <= j <= end,
                end <= n,
                n == files@.len(),
                texts(row@) == texts(files@).subrange(start as int, j as int),
            decreases end - j,
        {
            let ghost before = row@;
            row.push(String::from_str(files[j].as_str()));
            assert(texts(row@) =~= texts(before).push(files@[j as int]@));
            j = j + 1;
            assert(texts(row@) =~= texts(files@).subrange(start as int, j as int));
        }
        let ghost old_rows = rows@;
        rows.push(row);
        proof {
            assert(row_texts(rows@) =~= row_texts(old_rows).push(texts(files@).subrange(start as int, end as int)));
            row_texts(old_rows).lemma_flatten_push(texts(files@).subrange(start as int, end as int));
            assert(texts(files@).take(end as int) =~= texts(files@).take(start as int) + texts(files@).subrange(start as int, end as int));
        }
        start = end;
    }
    assert(texts(files@).take(n as int) =~= texts(files@));
    rows
}

/// What the gallery shows of a directory in a frame.
pub enum GalleryView {
    /// Nothing is known yet of the directory's scan.
    Ready,
    /// The directory is being scanned.
    Scanning,
    /// The files found, cut into rows.
    Rows(Vec<Vec<String>>),
}

/// What the gallery shows of a directory, given what a query of the scan
/// store reported (`None` where the store could not be read this frame) and
/// the number of tiles per row.
pub fn gallery_view(poll: &Option<ScanPoll>, per_row: u32) -> (r: GalleryView)
    requires
        per_row > 0,
    ensures
        match poll {
            None => r is Ready,
            Some(ScanPoll::Started) => r is Scanning,
            Some(ScanPoll::Scanning) => r is Scanning,
            Some(ScanPoll::Complete(files)) => match r {
                GalleryView::Rows(rows) => is_row_split(row_texts(rows@), texts(files@), per_row as nat),
                _ => false,
            },
        },
{
    match poll {
        None => GalleryView::Ready,
        Some(ScanPoll::Started) => GalleryView::Scanning,
        Some(ScanPoll::Scanning) => GalleryView::Scanning,
        Some(ScanPoll::Complete(files)) => GalleryView::Rows(chunk_rows(files, per_row as usize)),
    }
}

/// What one tile of the gallery shows.
pub enum TileView {
    /// A spinner; `request_load` says whether a load of the file is to be
    /// asked for.
    Loading { request_load: bool },
    /// An image, from these bytes.
    Image(Vec<u8>),
    /// A video, shown by these placeholder bytes with a video badge.
    Video(Vec<u8>),
}

/// What the tile of `path` shows, given what the cache gave for it (`None`
/// where it held nothing or could not be read this frame).
pub fn tile_view(path: &str, cached: Option<ImageData>) -> (r: TileView)
    ensures
        match cached {
            None => r == (TileView::Loading { request_load: true }),
            Some(d) => if d.loading {
                r == (TileView::Loading { request_load: false })
            } else if kind_of_path(path@) == MediaKind::Video {
                r matches TileView::Video(b) && b@ == d.bytes@
            } else {
                r matches TileView::Image(b) && b@ == d.bytes@
            },
        },
{
    match cached {
        None => TileView::Loading { request_load: true },
        Some(d) => {
            if d.loading {
                TileView::Loading { request_load: false }
            } else if is_video_file(path) {
                TileView::Video(d.bytes)
            } else {
                TileView::Image(d.bytes)
            }
        },
    }
}

/// How the bytes of a file are had.
pub enum LoadPlan {
    /// The file's own bytes are to be read.
    ReadFile,
    /// These bytes stand for the file, which is not read.
    Ready(Vec<u8>),
}

/// How the displayable bytes of `path` are had: a video gets the placeholder
/// graphic with its file name; any other file is read as it is.
pub fn load_plan(path: &str) -> (r: LoadPlan)
    ensures
        kind_of_path(path@) == MediaKind::Video ==> (r matches LoadPlan::Ready(b) && b@
            == encode_utf8(placeholder_text(file_name_of(path@)))),
        kind_of_path(path@) != MediaKind::Video ==> r is ReadFile,
{
    if is_video_file(path) {
        LoadPlan::Ready(video_placeholder(path))
    } else {
        LoadPlan::ReadFile
    }
}

/// Records the outcome of a load of `path` in the cache: its bytes, or
/// `None` where the file could not be read.
pub fn record_load(cache: &mut MediaCache, path: &str, outcome: Option<Vec<u8>>)
    requires
        old(cache).wf(),
    ensures
        final(cache).wf(),
        match outcome {
            Some(b) => final(cache)@ == complete_model(old(cache)@, path@, b@),
            None => final(cache)@ == without_key(old(cache)@, path@),
        },
{
    match outcome {
        Some(bytes) => cache.complete(path, bytes),
        None => cache.fail(path),
    }
}

} // verus!
