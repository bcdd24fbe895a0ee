//! How a file or directory is recognised: a PDF file is a book, a directory with
//! enough images directly inside is an image-folder book, and other directories are
//! categories that the scan descends into.

use super::types::{copy_opt, opt_view, BookView, CachedBookMetadata, CategoryView, ScannedBookFile, ScannedCategory};
use crate::config::{
    copy_strings, default_image_extension_list, default_image_extensions, strings_view,
    CacheConfig, ScannerConfig,
};
use crate::json::{json_string_list, to_json_string_list};
use crate::paths::{extension, file_name, path_extension, path_file_name};
use crate::text::{
    lemma_lex_lt_irreflexive, lemma_lex_lt_transitive, lex_lt, lowercase_of, str_lt,
    to_lowercase, u64_to_hex16, hex_lower, zero_padded,
};
use vstd::prelude::*;
use vstd::utf8::encode_utf8;

verus! {

pub open spec fn image_folder_kind() -> Seq<char> {
    "image_folder"@
}

pub open spec fn pdf_kind() -> Seq<char> {
    "pdf"@
}

pub struct ConfigurableRecognizer {
    pub image_extensions: Vec<String>,
    pub min_image_count: usize,
    pub oversized_image_avg_pixels: u64,
}

/// What a directory listing tells of one entry, as `DirEntry::file_type` reports it
/// (symbolic links are not followed).
pub enum EntryKind {
    Dir,
    File,
    Other,
    Unreadable,
}

/// Modification time (whole seconds since the epoch, `None` where it cannot be read or
/// lies before the epoch) and length of a file.
pub struct FileStamp {
    pub modified_secs: Option<u64>,
    pub len: u64,
}

/// One entry of a directory listing.  `stamp` is the entry's metadata, `None` where it
/// could not be read.
pub struct DirEntryFacts {
    pub path: String,
    pub kind: EntryKind,
    pub stamp: Option<FileStamp>,
}

/// An image file directly inside a directory.
pub struct ImageEntry {
    pub path: String,
    pub mtime: i64,
    pub size: i64,
}

pub struct ImageEntryView {
    pub path: Seq<char>,
    pub mtime: i64,
    pub size: i64,
}

impl View for ImageEntry {
    type V = ImageEntryView;

    open spec fn view(&self) -> ImageEntryView {
        ImageEntryView { path: self.path@, mtime: self.mtime, size: self.size }
    }
}

pub open spec fn images_view(v: Seq<ImageEntry>) -> Seq<ImageEntryView> {
    v.map_values(|e: ImageEntry| e@)
}

/// What a directory turns out to be: the category to record, the book to record, and
/// whether the scan descends into it.
pub struct DirectoryInspection {
    pub category: Option<ScannedCategory>,
    pub book: Option<ScannedBookFile>,
    pub recurse: bool,
}

/// Seconds since the epoch as stored, `0` where unknown.
pub open spec fn mtime_of(secs: Option<u64>) -> i64 {
    match secs {
        Some(s) => s as i64,
        None => 0,
    }
}

/// Turns a modification time in seconds into the stored value, `0` where unknown.
pub fn system_time_to_secs(secs: Option<u64>) -> (r: i64)
    ensures
        r == mtime_of(secs),
{
    match secs {
        Some(s) => s as i64,
        None => 0,
    }
}

/// A path is hidden when its file name starts with a dot.
pub open spec fn hidden_path(path: Seq<char>) -> bool {
    match path_file_name(path) {
        Some(n) => n.len() > 0 && n[0] == '.',
        None => false,
    }
}

/// The lower-cased extension of a path.
pub open spec fn lower_extension(path: Seq<char>) -> Option<Seq<char>> {
    match path_extension(path) {
        Some(e) => Some(lowercase_of(e)),
        None => None,
    }
}

/// An entry that counts as a page of an image-folder book.
pub open spec fn is_image_entry(exts: Seq<Seq<char>>, e: DirEntryFacts) -> bool {
    &&& !hidden_path(e.path@)
    &&& e.kind is File
    &&& lower_extension(e.path@) matches Some(x) && exts.contains(x)
    &&& e.stamp is Some
}

/// An entry that is a PDF file.
pub open spec fn is_pdf_entry(exts: Seq<Seq<char>>, e: DirEntryFacts) -> bool {
    &&& !hidden_path(e.path@)
    &&& e.kind is File
    &&& lower_extension(e.path@) matches Some(x) && !exts.contains(x) && x == pdf_kind()
}

/// An entry that is a visible subdirectory.
pub open spec fn is_subdir_entry(e: DirEntryFacts) -> bool {
    !hidden_path(e.path@) && e.kind is Dir
}

pub open spec fn image_entry_of(e: DirEntryFacts) -> ImageEntryView {
    ImageEntryView {
        path: e.path@,
        mtime: mtime_of(e.stamp->0.modified_secs),
        size: e.stamp->0.len as i64,
    }
}

/// The image entries of a listing, in listing order.
pub open spec fn image_entries(exts: Seq<Seq<char>>, es: Seq<DirEntryFacts>) -> Seq<ImageEntryView>
    decreases es.len(),
{
    if es.len() == 0 {
        Seq::empty()
    } else {
        let rest = image_entries(exts, es.drop_last());
        if is_image_entry(exts, es.last()) {
            rest.push(image_entry_of(es.last()))
        } else {
            rest
        }
    }
}

pub open spec fn has_pdf(exts: Seq<Seq<char>>, es: Seq<DirEntryFacts>) -> bool {
    exists|i: int| 0 <= i < es.len() && #[trigger] is_pdf_entry(exts, es[i])
}

pub open spec fn has_subdirs(es: Seq<DirEntryFacts>) -> bool {
    exists|i: int| 0 <= i < es.len() && #[trigger] is_subdir_entry(es[i])
}

/// Sorted by path, ascending.
pub open spec fn sorted_by_path(s: Seq<ImageEntryView>) -> bool {
    forall|i: int, j: int| 0 <= i < j < s.len() ==> !lex_lt(#[trigger] s[j].path, #[trigger] s[i].path)
}

/// The little-endian bytes of a 64-bit integer.
pub open spec fn le_bytes(x: i64) -> Seq<u8> {
    Seq::new(8, |k: int| ((x as u64) >> ((8 * k) as u64)) as u8)
}

/// The bytes that one image contributes to a folder signature.
pub open spec fn entry_signature_bytes(e: ImageEntryView) -> Seq<u8> {
    encode_utf8(e.path) + seq![0u8] + le_bytes(e.mtime) + seq![0u8] + le_bytes(e.size) + seq![0u8]
}

pub open spec fn signature_bytes(s: Seq<ImageEntryView>) -> Seq<u8>
    decreases s.len(),
{
    if s.len() == 0 {
        Seq::empty()
    } else {
        signature_bytes(s.drop_last()) + entry_signature_bytes(s.last())
    }
}

pub open spec fn fnv_offset() -> u64 {
    0xcbf29ce484222325u64
}

pub open spec fn fnv_prime() -> u64 {
    0x100000001b3u64
}

/// The 64-bit FNV-1a hash of `bytes`, started from `h`.
pub open spec fn fnv1a(h: u64, bytes: Seq<u8>) -> u64
    decreases bytes.len(),
{
    if bytes.len() == 0 {
        h
    } else {
        fnv1a((h ^ (bytes[0] as u64)).wrapping_mul(fnv_prime()), bytes.drop_first())
    }
}

/// The signature of an image folder: the FNV-1a hash of every image's path, time and
/// size, written as sixteen hexadecimal digits.
pub open spec fn folder_signature(s: Seq<ImageEntryView>) -> Seq<char> {
    zero_padded(hex_lower(fnv1a(fnv_offset(), signature_bytes(s)) as nat), 16)
}

/// The indices that `sample_image_paths` picks out of `n` images when it takes
/// `count` samples: `i * (n - 1) / (count - 1)` for each `i < count`, each index once,
/// ascending.  One sample is the first image; as many samples as images, or more, are
/// all of them.
pub open spec fn sample_indices(n: nat, count: nat) -> Seq<int> {
    if count <= 1 {
        if n == 0 {
            Seq::empty()
        } else {
            seq![0int]
        }
    } else if count >= n {
        Seq::new(n, |i: int| i)
    } else {
        dedup_ascending(Seq::new(count, |i: int| i * (n - 1) / (count - 1)))
    }
}

/// A non-decreasing sequence with repeated neighbours dropped.
pub open spec fn dedup_ascending(s: Seq<int>) -> Seq<int>
    decreases s.len(),
{
    if s.len() == 0 {
        s
    } else {
        let rest = dedup_ascending(s.drop_last());
        if rest.len() > 0 && rest.last() == s.last() {
            rest
        } else {
            rest.push(s.last())
        }
    }
}

/// Pixels of one measured image.
pub open spec fn pixels_of(d: Option<(u32, u32)>) -> u64 {
    match d {
        Some((w, h)) => (w as u64 * h as u64) as u64,
        None => 0,
    }
}

/// Sum of the measured pixel counts, saturating at `u64::MAX`.
pub open spec fn total_pixels(ds: Seq<Option<(u32, u32)>>) -> u64
    decreases ds.len(),
{
    if ds.len() == 0 {
        0
    } else {
        let t = total_pixels(ds.drop_last());
        let p = pixels_of(ds.last());
        if t + p > u64::MAX {
            u64::MAX
        } else {
            (t + p) as u64
        }
    }
}

pub open spec fn measured_count(ds: Seq<Option<(u32, u32)>>) -> nat
    decreases ds.len(),
{
    if ds.len() == 0 {
        0
    } else {
        measured_count(ds.drop_last()) + if ds.last() is Some {
            1nat
        } else {
            0nat
        }
    }
}

/// The average pixel count of the images that could be measured, `0` if none could.
pub open spec fn average_pixels(ds: Seq<Option<(u32, u32)>>) -> u64 {
    if measured_count(ds) == 0 {
        0
    } else {
        (total_pixels(ds) / (measured_count(ds) as u64)) as u64
    }
}

/// Whether a cached book may give its pixel average to an image folder whose
/// signature is `sig`.
pub open spec fn reuses_image_average(existing: Option<BookView>, sig: Seq<char>) -> bool {
    existing matches Some(c) && c.kind == image_folder_kind() && c.content_signature == Some(sig)
}

/// The image-folder book for a directory at `path` whose sorted images are `images`,
/// given the dimensions `dims` measured for the sampled images (used only where the
/// cached average cannot be reused).
pub open spec fn image_book_spec(
    threshold: u64,
    path: Seq<char>,
    dir_mtime: Option<u64>,
    dir_len: u64,
    images: Seq<ImageEntryView>,
    existing: Option<BookView>,
    dims: Seq<Option<(u32, u32)>>,
) -> BookView {
    let sig = folder_signature(images);
    let avg: u64 = if reuses_image_average(existing, sig) {
        existing->0.avg_page_pixels as u64
    } else {
        average_pixels(dims)
    };
    BookView {
        path: path,
        title: path_file_name(path),
        kind: image_folder_kind(),
        size: dir_len as i64,
        mtime: mtime_of(dir_mtime),
        page_count: images.len() as i64,
        pages_json: Some(json_string_list(images.map_values(|e: ImageEntryView| e.path))),
        content_signature: Some(sig),
        is_oversized: avg >= threshold,
        avg_page_pixels: avg as i64,
        cover_path: if images.len() > 0 {
            Some(images[0].path)
        } else {
            None
        },
    }
}

/// Whether a cached book may give its page count and measurements to a PDF file with
/// this modification time and size.
pub open spec fn reuses_pdf_metadata(existing: Option<BookView>, mtime: i64, size: i64) -> bool {
    existing matches Some(c) && c.kind == pdf_kind() && c.mtime == mtime && c.size == size
}

/// The book for a PDF file, given the page count read from the file (used only where
/// the cached metadata cannot be reused; `None` counts as zero pages).
pub open spec fn pdf_book_spec(
    path: Seq<char>,
    modified: Option<u64>,
    len: u64,
    existing: Option<BookView>,
    page_count: Option<usize>,
) -> BookView {
    let mtime = mtime_of(modified);
    let size = len as i64;
    let reuse = reuses_pdf_metadata(existing, mtime, size);
    let c = existing->0;
    BookView {
        path: path,
        title: path_file_name(path),
        kind: pdf_kind(),
        size: size,
        mtime: mtime,
        page_count: if reuse {
            c.page_count
        } else {
            match page_count {
                Some(n) => n as i64,
                None => 0,
            }
        },
        pages_json: if reuse {
            c.pages_json
        } else {
            None
        },
        content_signature: if reuse {
            c.content_signature
        } else {
            None
        },
        is_oversized: if reuse {
            c.is_oversized
        } else {
            false
        },
        avg_page_pixels: if reuse {
            c.avg_page_pixels
        } else {
            0
        },
        cover_path: if reuse {
            c.cover_path
        } else {
            None
        },
    }
}

/// The category recorded for a directory.
pub open spec fn category_spec(path: Seq<char>, modified: Option<u64>) -> CategoryView {
    CategoryView {
        name: match path_file_name(path) {
            Some(n) => n,
            None => Seq::empty(),
        },
        path: path,
        mtime: mtime_of(modified),
    }
}

pub open spec fn opt_book_view(o: Option<&CachedBookMetadata>) -> Option<BookView> {
    match o {
        Some(c) => Some(c@),
        None => None,
    }
}

fn kind_string(pdf: bool) -> (r: String)
    ensures
        r@ == if pdf {
            pdf_kind()
        } else {
            image_folder_kind()
        },
{
    if pdf {
        String::from_str("pdf")
    } else {
        String::from_str("image_folder")
    }
}

/// That `dims` is what reading the image file at `path` gave.  Nothing else is known
/// of it: the answer depends on the file's contents at the time of the reading.
pub uninterp spec fn dimensions_read_from(path: Seq<char>, dims: Option<(u32, u32)>) -> bool;

/// The dimensions of an image file, as `image::image_dimensions` reads them from its
/// header; `None` where the file cannot be opened or decoded.  The contract records
/// only which file the answer was read from; the answer depends on the file's
/// contents, so nothing is claimed of its value.
#[verifier::external_body]
fn measure_image(path: &str) -> (r: Option<(u32, u32)>)
    ensures
        dimensions_read_from(path@, r),
{
    image::image_dimensions(path).ok()
}

/// The indices of the images sampled for measuring: see `sample_indices`.
pub fn sample_image_indices(n: usize, count: usize) -> (r: Vec<usize>)
    requires
        count <= 1 || count >= n || (count - 1) * (n - 1) <= usize::MAX,
    ensures
        r@.map_values(|i: usize| i as int) == sample_indices(n as nat, count as nat),
{
    let mut r: Vec<usize> = Vec::new();
    if count <= 1 {
        if n > 0 {
            r.push(0);
        }
        assert(r@.map_values(|i: usize| i as int) =~= sample_indices(n as nat, count as nat));
        return r;
    }
    if count >= n {
        let mut i: usize = 0;
        while i < n
            invariant
                0 <= i <= n,
                r.len() == i,
                forall|k: int| 0 <= k < i ==> r@[k] == k,
            decreases n - i,
        {
            r.push(i);
            i = i + 1;
        }
        assert(r@.map_values(|k: usize| k as int) =~= sample_indices(n as nat, count as nat));
        return r;
    }
    let last = n - 1;
    let ghost full = Seq::new(count as nat, |i: int| i * (n - 1) / (count - 1));
    let mut i: usize = 0;
    while i < count
        invariant
            2 <= count < n,
            (count - 1) * (n - 1) <= usize::MAX,
            last == n - 1,
            full == Seq::new(count as nat, |i: int| i * (n - 1) / (count - 1)),
            0 <= i <= count,
            r@.map_values(|k: usize| k as int) == dedup_ascending(full.subrange(0, i as int)),
        decreases count - i,
    {
        assert(i * last <= (count - 1) * last) by (nonlinear_arith)
            requires
                i < count,
        ;
        let idx = i * last / (count - 1);
        proof {
            assert(full.subrange(0, i + 1).drop_last() =~= full.subrange(0, i as int));
            assert(full[i as int] == idx);
        }
        if r.len() > 0 && r[r.len() - 1] == idx {
        } else {
            r.push(idx);
        }
        assert(r@.map_values(|k: usize| k as int) =~= dedup_ascending(full.subrange(0, i + 1)));
        i = i + 1;
    }
    assert(full.subrange(0, count as int) =~= full);
    r
}

/// The paths that `sample_count` samples pick out of `paths`: those at
/// `sample_indices`, in order.
pub open spec fn sampled_paths(paths: Seq<Seq<char>>, sample_count: nat) -> Seq<Seq<char>> {
    sample_indices(paths.len(), sample_count).map_values(|i: int| paths[i])
}

/// The up to five images of `paths` whose dimensions give an image folder's average:
/// evenly spaced, the first and the last included.
pub open spec fn measured_paths(paths: Seq<Seq<char>>) -> Seq<Seq<char>> {
    sampled_paths(paths, min5(paths.len()))
}

/// `dims` holds, in order, one reading of each image file of `samples`.
pub open spec fn read_from_files(samples: Seq<Seq<char>>, dims: Seq<Option<(u32, u32)>>) -> bool {
    &&& dims.len() == samples.len()
    &&& forall|k: int| 0 <= k < dims.len() ==> #[trigger] dimensions_read_from(samples[k], dims[k])
}

/// The paths of `images` that `sample_count` samples pick: see `sampled_paths`.
pub fn sample_image_paths(images: &Vec<String>, sample_count: usize) -> (r: Vec<String>)
    requires
        sample_count <= 1 || sample_count >= images.len() || (sample_count - 1) * (images.len() - 1)
            <= usize::MAX,
    ensures
        r@.map_values(|s: String| s@) == sampled_paths(images@.map_values(|s: String| s@), sample_count as nat),
{
    let indices = sample_image_indices(images.len(), sample_count);
    let ghost idx = indices@.map_values(|i: usize| i as int);
    let ghost views = images@.map_values(|s: String| s@);
    let mut r: Vec<String> = Vec::new();
    let mut k: usize = 0;
    while k < indices.len()
        invariant
            idx == indices@.map_values(|i: usize| i as int),
            idx == sample_indices(images.len() as nat, sample_count as nat),
            views == images@.map_values(|s: String| s@),
            0 <= k <= indices.len(),
            r.len() == k,
            forall|j: int| 0 <= j < k ==> #[trigger] r@[j]@ == views[idx[j]],
        decreases indices.len() - k,
    {
        proof {
            if images.len() > 0 {
                lemma_sample_indices_in_range(images.len() as nat, sample_count as nat, k as int);
            } else {
                assert(sample_indices(0, sample_count as nat).len() == 0);
            }
            assert(idx[k as int] == indices@[k as int] as int);
        }
        r.push(images[indices[k]].clone());
        k = k + 1;
    }
    assert(r@.map_values(|s: String| s@) =~= sampled_paths(views, sample_count as nat));
    r
}

/// One reading of each image file of `samples`, in order.
fn measure_all(samples: &Vec<String>) -> (r: Vec<Option<(u32, u32)>>)
    ensures
        read_from_files(samples@.map_values(|s: String| s@), r@),
{
    let ghost views = samples@.map_values(|s: String| s@);
    let mut r: Vec<Option<(u32, u32)>> = Vec::new();
    let mut k: usize = 0;
    while k < samples.len()
        invariant
            views == samples@.map_values(|s: String| s@),
            0 <= k <= samples.len(),
            r.len() == k,
            forall|j: int| 0 <= j < k ==> #[trigger] dimensions_read_from(views[j], r@[j]),
        decreases samples.len() - k,
    {
        let d = measure_image(samples[k].as_str());
        r.push(d);
        proof {
            assert(r@[k as int] == d);
        }
        k = k + 1;
    }
    r
}

/// The average pixel count of measured images: see `average_pixels`.
pub fn average_measured_pixels(dims: &Vec<Option<(u32, u32)>>) -> (r: u64)
    ensures
        r == average_pixels(dims@),
{
    let mut total: u64 = 0;
    let mut measured: u64 = 0;
    let mut k: usize = 0;
    while k < dims.len()
        invariant
            0 <= k <= dims.len(),
            total == total_pixels(dims@.subrange(0, k as int)),
            measured == measured_count(dims@.subrange(0, k as int)),
            measured <= k,
        decreases dims.len() - k,
    {
        proof {
            assert(dims@.subrange(0, k + 1).drop_last() =~= dims@.subrange(0, k as int));
        }
        match dims[k] {
            Some((w, h)) => {
                assert((w as u64) * (h as u64) <= u64::MAX) by (nonlinear_arith)
                    requires
                        w <= u32::MAX,
                        h <= u32::MAX,
                ;
                total = total.saturating_add((w as u64) * (h as u64));
                measured = measured + 1;
            },
            None => {},
        }
        k = k + 1;
    }
    assert(dims@.subrange(0, k as int) =~= dims@);
    if measured == 0 {
        0
    } else {
        total / measured
    }
}

/// One reading of each of the up to five images sampled evenly from `paths` (first
/// and last included); none for an empty list.
fn sample_dimensions(paths: &Vec<String>) -> (r: Vec<Option<(u32, u32)>>)
    requires
        paths.len() <= usize::MAX / 5,
    ensures
        read_from_files(measured_paths(paths@.map_values(|s: String| s@)), r@),
{
    let count = if paths.len() < 5 {
        paths.len()
    } else {
        5
    };
    let samples = sample_image_paths(paths, count);
    measure_all(&samples)
}

/// Average pixel count of up to five images sampled evenly from `paths` (first and
/// last included), measured from the files; `0` for an empty list or when no sample
/// can be read.  The readings depend on the files, so the contract states the outcome
/// for every answer they may give, each read from its sampled file.
pub fn analyze_image_folder(paths: &Vec<String>) -> (r: u64)
    requires
        paths.len() <= usize::MAX / 5,
    ensures
        paths.len() == 0 ==> r == 0,
        exists|dims: Seq<Option<(u32, u32)>>|
            read_from_files(measured_paths(paths@.map_values(|s: String| s@)), dims) && r
                == #[trigger] average_pixels(dims),
{
    let dims = sample_dimensions(paths);
    proof {
        if paths.len() == 0 {
            assert(sample_indices(0, 0).len() == 0);
            assert(dims@ =~= Seq::<Option<(u32, u32)>>::empty());
            assert(average_pixels(dims@) == 0);
        }
    }
    average_measured_pixels(&dims)
}

pub open spec fn min5(n: nat) -> nat {
    if n < 5 {
        n
    } else {
        5
    }
}

proof fn lemma_dedup_bounded(s: Seq<int>, lo: int, hi: int, k: int)
    requires
        forall|i: int| 0 <= i < s.len() ==> lo <= #[trigger] s[i] < hi,
        0 <= k < dedup_ascending(s).len(),
    ensures
        lo <= dedup_ascending(s)[k] < hi,
    decreases s.len(),
{
    let rest = dedup_ascending(s.drop_last());
    if k < rest.len() {
        assert forall|i: int| 0 <= i < s.drop_last().len() implies lo <= #[trigger] s.drop_last()[i] < hi by {
            assert(s.drop_last()[i] == s[i]);
        }
        lemma_dedup_bounded(s.drop_last(), lo, hi, k);
    }
}

proof fn lemma_sample_indices_in_range(n: nat, count: nat, k: int)
    requires
        0 <= k < sample_indices(n, count).len(),
        n > 0,
    ensures
        0 <= sample_indices(n, count)[k] < n,
{
    if count <= 1 {
    } else if count >= n {
    } else {
        let full = Seq::new(count, |i: int| i * (n - 1) / (count - 1));
        assert forall|i: int| 0 <= i < full.len() implies 0 <= #[trigger] full[i] < n by {
            assert(0 <= i * (n - 1) <= (count - 1) * (n - 1)) by (nonlinear_arith)
                requires
                    0 <= i < count,
                    n >= 1,
            ;
            assert(i * (n - 1) / (count - 1) <= n - 1) by (nonlinear_arith)
                requires
                    0 <= i * (n - 1) <= (count - 1) * (n - 1),
                    count >= 2,
            ;
        }
        lemma_dedup_bounded(full, 0, n as int, k);
    }
}

fn push_le_bytes(x: i64, out: &mut Vec<u8>)
    ensures
        final(out)@ == old(out)@ + le_bytes(x),
{
    let v = x as u64;
    let ghost start = out@;
    let mut k: u64 = 0;
    while k < 8
        invariant
            0 <= k <= 8,
            v == x as u64,
            out@ == start + le_bytes(x).subrange(0, k as int),
        decreases 8 - k,
    {
        out.push((v >> (8 * k)) as u8);
        k = k + 1;
        assert(out@ =~= start + le_bytes(x).subrange(0, k as int));
    }
    assert(le_bytes(x).subrange(0, 8) =~= le_bytes(x));
}

proof fn lemma_fnv1a_skip(h: u64, s: Seq<u8>, k: int)
    requires
        0 <= k < s.len(),
    ensures
        fnv1a(h, s.skip(k)) == fnv1a((h ^ (s[k] as u64)).wrapping_mul(fnv_prime()), s.skip(k + 1)),
{
    assert(s.skip(k).drop_first() =~= s.skip(k + 1));
}

/// The signature of an image folder: see `folder_signature`.
pub fn build_image_folder_signature(images: &Vec<ImageEntry>) -> (r: String)
    ensures
        r@ == folder_signature(images_view(images@)),
{
    let mut bytes: Vec<u8> = Vec::new();
    let mut i: usize = 0;
    while i < images.len()
        invariant
            0 <= i <= images.len(),
            bytes@ == signature_bytes(images_view(images@).subrange(0, i as int)),
        decreases images.len() - i,
    {
        let e = &images[i];
        let ghost before = bytes@;
        bytes.extend_from_slice(e.path.as_str().as_bytes());
        bytes.push(0u8);
        push_le_bytes(e.mtime, &mut bytes);
        bytes.push(0u8);
        push_le_bytes(e.size, &mut bytes);
        bytes.push(0u8);
        proof {
            let sv = images_view(images@);
            assert(sv.subrange(0, i + 1).drop_last() =~= sv.subrange(0, i as int));
            assert(sv[i as int] == e@);
            assert(bytes@ =~= before + entry_signature_bytes(e@));
        }
        i = i + 1;
    }
    assert(images_view(images@).subrange(0, i as int) =~= images_view(images@));
    let ghost all = bytes@;
    let mut hash: u64 = 0xcbf29ce484222325u64;
    let mut k: usize = 0;
    assert(all.skip(0) =~= all);
    while k < bytes.len()
        invariant
            0 <= k <= bytes.len(),
            all == bytes@,
            fnv1a(hash, all.skip(k as int)) == fnv1a(fnv_offset(), all),
        decreases bytes.len() - k,
    {
        proof {
            lemma_fnv1a_skip(hash, all, k as int);
        }
        hash = (hash ^ (bytes[k] as u64)).wrapping_mul(0x100000001b3u64);
        k = k + 1;
    }
    assert(all.skip(k as int).len() == 0);
    u64_to_hex16(hash)
}

proof fn lemma_insert_multiset(s: Seq<ImageEntryView>, p: int, x: ImageEntryView)
    requires
        0 <= p <= s.len(),
    ensures
        s.insert(p, x).to_multiset() == s.to_multiset().insert(x),
{
    let t = s.insert(p, x);
    assert(t.remove(p) =~= s);
    t.to_multiset_ensures();
    assert(t[p] == x);
    assert(t.contains(x));
    assert(t.to_multiset().count(x) > 0);
    assert(s.to_multiset() == t.to_multiset().remove(x));
    assert(s.to_multiset().insert(x) =~= t.to_multiset());
}

/// A copy of an image entry.
pub fn copy_image(e: &ImageEntry) -> (r: ImageEntry)
    ensures
        r@ == e@,
{
    ImageEntry { path: e.path.clone(), mtime: e.mtime, size: e.size }
}

/// `images` sorted by path: the same entries, ascending by path.
pub fn sort_images_by_path(images: &Vec<ImageEntry>) -> (r: Vec<ImageEntry>)
    ensures
        sorted_by_path(images_view(r@)),
        images_view(r@).to_multiset() == images_view(images@).to_multiset(),
{
    let ghost src = images_view(images@);
    let mut out: Vec<ImageEntry> = Vec::new();
    let mut i: usize = 0;
    proof {
        assert(src.subrange(0, 0) =~= Seq::<ImageEntryView>::empty());
        assert(images_view(out@) =~= Seq::<ImageEntryView>::empty());
    }
    while i < images.len()
        invariant
            0 <= i <= images.len(),
            src == images_view(images@),
            sorted_by_path(images_view(out@)),
            images_view(out@).to_multiset() == src.subrange(0, i as int).to_multiset(),
        decreases images.len() - i,
    {
        let x = copy_image(&images[i]);
        let mut pos: usize = 0;
        while pos < out.len() && !str_lt(x.path.as_str(), out[pos].path.as_str())
            invariant
                0 <= pos <= out.len(),
                forall|q: int| 0 <= q < pos ==> !lex_lt(x.path@, #[trigger] out@[q].path@),
            decreases out.len() - pos,
        {
            pos = pos + 1;
        }
        let ghost before = images_view(out@);
        let ghost xv = x@;
        out.insert(pos, x);
        proof {
            broadcast use vstd::seq_lib::group_to_multiset_ensures;

            let after = images_view(out@);
            assert(after =~= before.insert(pos as int, xv));
            lemma_insert_multiset(before, pos as int, xv);
            assert forall|a: int, b: int| 0 <= a < b < after.len() implies !lex_lt(
                #[trigger] after[b].path,
                #[trigger] after[a].path,
            ) by {
                if b < pos {
                    assert(after[a] == before[a] && after[b] == before[b]);
                } else if b == pos {
                    assert(after[a] == before[a]);
                } else if a == pos {
                    assert(after[b] == before[b - 1]);
                    assert(pos < before.len());
                    assert(lex_lt(xv.path, before[pos as int].path));
                    if lex_lt(before[b - 1].path, xv.path) {
                        lemma_lex_lt_transitive(before[b - 1].path, xv.path, before[pos as int].path);
                        if b - 1 == pos {
                            lemma_lex_lt_irreflexive(before[pos as int].path);
                        }
                    }
                } else if a < pos {
                    assert(after[a] == before[a] && after[b] == before[b - 1]);
                } else {
                    assert(after[a] == before[a - 1] && after[b] == before[b - 1]);
                }
            }
            assert(src.subrange(0, i + 1) =~= src.subrange(0, i as int).push(xv));
        }
        i = i + 1;
    }
    assert(src.subrange(0, i as int) =~= src);
    out
}

impl ConfigurableRecognizer {
    pub open spec fn exts(&self) -> Seq<Seq<char>> {
        strings_view(self.image_extensions@)
    }

    pub fn new() -> (r: ConfigurableRecognizer)
        ensures
            r.exts() == default_image_extensions(),
            r.min_image_count == 3,
            r.oversized_image_avg_pixels == 10_000_000,
    {
        Self::default()
    }

    pub fn with_config(
        image_extensions: Vec<String>,
        min_image_count: usize,
        oversized_image_avg_pixels: u64,
    ) -> (r: ConfigurableRecognizer)
        ensures
            r.image_extensions == image_extensions,
            r.min_image_count == min_image_count,
            r.oversized_image_avg_pixels == oversized_image_avg_pixels,
    {
        ConfigurableRecognizer { image_extensions, min_image_count, oversized_image_avg_pixels }
    }

    /// The recognizer for a scanner configuration and a cache configuration.
    pub fn from_configs(config: ScannerConfig, cache: CacheConfig) -> (r: ConfigurableRecognizer)
        ensures
            r.image_extensions == config.image_extensions,
            r.min_image_count == config.min_image_count,
            r.oversized_image_avg_pixels == cache.oversized_image_avg_pixels,
    {
        ConfigurableRecognizer {
            image_extensions: config.image_extensions,
            min_image_count: config.min_image_count,
            oversized_image_avg_pixels: cache.oversized_image_avg_pixels,
        }
    }

    pub fn copy(&self) -> (r: ConfigurableRecognizer)
        ensures
            r.exts() == self.exts(),
            r.image_extensions@ == self.image_extensions@,
            r.min_image_count == self.min_image_count,
            r.oversized_image_avg_pixels == self.oversized_image_avg_pixels,
    {
        ConfigurableRecognizer {
            image_extensions: copy_strings(&self.image_extensions),
            min_image_count: self.min_image_count,
            oversized_image_avg_pixels: self.oversized_image_avg_pixels,
        }
    }

    /// Whether the file name of `path` starts with a dot.
    pub fn is_hidden(&self, path: &str) -> (r: bool)
        ensures
            r == hidden_path(path@),
    {
        match file_name(path) {
            Some(n) => {
                let v = crate::text::chars_of(n.as_str());
                v.len() > 0 && v[0] == '.'
            },
            None => false,
        }
    }

    fn lower_ext(&self, path: &str) -> (r: Option<String>)
        ensures
            opt_view(r) == lower_extension(path@),
    {
        match extension(path) {
            Some(e) => Some(to_lowercase(e.as_str())),
            None => None,
        }
    }

    fn is_image_ext(&self, ext: &String) -> (r: bool)
        ensures
            r == self.exts().contains(ext@),
    {
        crate::config::contains_string(&self.image_extensions, ext)
    }

    /// The image entries of a listing, in listing order, and whether it holds a PDF file
    /// or a subdirectory (hidden entries are passed over).
    pub fn classify_entries(&self, entries: &Vec<DirEntryFacts>) -> (r: (Vec<ImageEntry>, bool, bool))
        ensures
            images_view(r.0@) == image_entries(self.exts(), entries@),
            r.1 == has_pdf(self.exts(), entries@),
            r.2 == has_subdirs(entries@),
    {
        let mut images: Vec<ImageEntry> = Vec::new();
        let mut pdf = false;
        let mut subdirs = false;
        let mut i: usize = 0;
        while i < entries.len()
            invariant
                0 <= i <= entries.len(),
                images_view(images@) == image_entries(self.exts(), entries@.subrange(0, i as int)),
                pdf == has_pdf(self.exts(), entries@.subrange(0, i as int)),
                subdirs == has_subdirs(entries@.subrange(0, i as int)),
            decreases entries.len() - i,
        {
            let e = &entries[i];
            let ghost pre = entries@.subrange(0, i as int);
            let ghost next = entries@.subrange(0, i + 1);
            proof {
                assert(next.drop_last() =~= pre);
                assert(next.last() == *e);
            }
            let hidden = self.is_hidden(e.path.as_str());
            let mut is_img = false;
            let mut is_pdf = false;
            let mut is_dir = false;
            if !hidden {
                match e.kind {
                    EntryKind::Dir => {
                        is_dir = true;
                    },
                    EntryKind::File => {
                        match self.lower_ext(e.path.as_str()) {
                            Some(x) => {
                                if self.is_image_ext(&x) {
                                    match &e.stamp {
                                        Some(st) => {
                                            is_img = true;
                                            images.push(
                                                ImageEntry {
                                                    path: e.path.clone(),
                                                    mtime: system_time_to_secs(st.modified_secs),
                                                    size: st.len as i64,
                                                },
                                            );
                                        },
                                        None => {},
                                    }
                                } else {
                                    is_pdf = crate::text::str_eq(x.as_str(), "pdf");
                                }
                            },
                            None => {},
                        }
                    },
                    _ => {},
                }
            }
            proof {
                assert(is_img == is_image_entry(self.exts(), *e));
                assert(is_pdf == is_pdf_entry(self.exts(), *e));
                assert(is_dir == is_subdir_entry(*e));
                if is_img {
                    assert(images_view(images@) =~= image_entries(self.exts(), next));
                } else {
                    assert(images_view(images@) =~= image_entries(self.exts(), next));
                }
                if pdf || is_pdf {
                    if is_pdf {
                        assert(is_pdf_entry(self.exts(), next[i as int]));
                    } else {
                        let k = choose|k: int| 0 <= k < pre.len() && #[trigger] is_pdf_entry(self.exts(), pre[k]);
                        assert(next[k] == pre[k]);
                    }
                }
                if has_pdf(self.exts(), next) {
                    let k = choose|k: int| 0 <= k < next.len() && #[trigger] is_pdf_entry(self.exts(), next[k]);
                    if k < i {
                        assert(pre[k] == next[k]);
                    }
                }
                if subdirs || is_dir {
                    if is_dir {
                        assert(is_subdir_entry(next[i as int]));
                    } else {
                        let k = choose|k: int| 0 <= k < pre.len() && #[trigger] is_subdir_entry(pre[k]);
                        assert(next[k] == pre[k]);
                    }
                }
                if has_subdirs(next) {
                    let k = choose|k: int| 0 <= k < next.len() && #[trigger] is_subdir_entry(next[k]);
                    if k < i {
                        assert(pre[k] == next[k]);
                    }
                }
            }
            pdf = pdf || is_pdf;
            subdirs = subdirs || is_dir;
            i = i + 1;
        }
        assert(entries@.subrange(0, i as int) =~= entries@);
        (images, pdf, subdirs)
    }
}

impl From<(ScannerConfig, CacheConfig)> for ConfigurableRecognizer {
    fn from(configs: (ScannerConfig, CacheConfig)) -> (r: ConfigurableRecognizer) {
        let (config, cache) = configs;
        ConfigurableRecognizer {
            image_extensions: config.image_extensions,
            min_image_count: config.min_image_count,
            oversized_image_avg_pixels: cache.oversized_image_avg_pixels,
        }
    }
}

impl vstd::std_specs::convert::FromSpecImpl<(ScannerConfig, CacheConfig)> for ConfigurableRecognizer {
    open spec fn obeys_from_spec() -> bool {
        true
    }

    open spec fn from_spec(configs: (ScannerConfig, CacheConfig)) -> ConfigurableRecognizer {
        ConfigurableRecognizer {
            image_extensions: configs.0.image_extensions,
            min_image_count: configs.0.min_image_count,
            oversized_image_avg_pixels: configs.1.oversized_image_avg_pixels,
        }
    }
}

impl Default for ConfigurableRecognizer {
    fn default() -> (r: ConfigurableRecognizer)
        ensures
            r.exts() == default_image_extensions(),
            r.min_image_count == 3,
            r.oversized_image_avg_pixels == 10_000_000,
    {
        ConfigurableRecognizer {
            image_extensions: default_image_extension_list(),
            min_image_count: 3,
            oversized_image_avg_pixels: 10_000_000,
        }
    }
}

fn image_paths_of(images: &Vec<ImageEntry>) -> (r: Vec<String>)
    ensures
        r@.map_values(|s: String| s@) == images_view(images@).map_values(|e: ImageEntryView| e.path),
        r.len() == images.len(),
{
    let mut r: Vec<String> = Vec::new();
    let mut i: usize = 0;
    while i < images.len()
        invariant
            0 <= i <= images.len(),
            r.len() == i,
            forall|k: int| 0 <= k < i ==> #[trigger] r@[k]@ == images@[k].path@,
        decreases images.len() - i,
    {
        r.push(images[i].path.clone());
        i = i + 1;
    }
    assert(r@.map_values(|s: String| s@) =~= images_view(images@).map_values(|e: ImageEntryView| e.path));
    r
}

/// The image-folder book for a directory whose sorted images are `images`, given the
/// dimensions `dims` measured for the sampled images: see `image_book_spec`.
pub fn image_book_from_measurements(
    threshold: u64,
    path: &str,
    dir_mtime: Option<u64>,
    dir_len: u64,
    images: &Vec<ImageEntry>,
    existing: Option<&CachedBookMetadata>,
    dims: &Vec<Option<(u32, u32)>>,
) -> (r: ScannedBookFile)
    ensures
        r@ == image_book_spec(
            threshold,
            path@,
            dir_mtime,
            dir_len,
            images_view(images@),
            opt_book_view(existing),
            dims@,
        ),
{
    let sig = build_image_folder_signature(images);
    let reuse = match existing {
        Some(c) => crate::text::str_eq(c.kind.as_str(), "image_folder") && match &c.content_signature {
            Some(cs) => crate::text::str_eq(cs.as_str(), sig.as_str()),
            None => false,
        },
        None => false,
    };
    let avg: u64 = if reuse {
        match existing {
            Some(c) => c.avg_page_pixels as u64,
            None => 0,
        }
    } else {
        average_measured_pixels(dims)
    };
    let paths = image_paths_of(images);
    let cover = if images.len() > 0 {
        Some(images[0].path.clone())
    } else {
        None
    };
    let json = to_json_string_list(&paths);
    ScannedBookFile {
        path: String::from_str(path),
        title: file_name(path),
        kind: kind_string(false),
        size: dir_len as i64,
        mtime: system_time_to_secs(dir_mtime),
        page_count: images.len() as i64,
        pages_json: json,
        content_signature: Some(sig),
        is_oversized: avg >= threshold,
        avg_page_pixels: avg as i64,
        cover_path: cover,
    }
}

/// Whether `dims` are the readings that give the pixel average of an image folder whose
/// sorted images are `images`: unless the cached average is reused, one reading of each
/// sampled image (see `measured_paths`), in order.
pub open spec fn measured_for(
    images: Seq<ImageEntryView>,
    existing: Option<BookView>,
    dims: Seq<Option<(u32, u32)>>,
) -> bool {
    ||| reuses_image_average(existing, folder_signature(images))
    ||| read_from_files(measured_paths(images.map_values(|e: ImageEntryView| e.path)), dims)
}

/// The image-folder book for a directory whose sorted images are `images`; the pixel
/// average is the cached one where the folder signature is unchanged, else measured
/// from sampled images.  The readings depend on the files, so the contract states the
/// outcome for every answer they may give, each read from its sampled file.
pub fn fill_image_book_model(
    threshold: u64,
    path: &str,
    dir_mtime: Option<u64>,
    dir_len: u64,
    images: &Vec<ImageEntry>,
    existing: Option<&CachedBookMetadata>,
) -> (r: ScannedBookFile)
    requires
        images.len() <= usize::MAX / 5,
    ensures
        exists|dims: Seq<Option<(u32, u32)>>|
            measured_for(images_view(images@), opt_book_view(existing), dims) && #[trigger] image_book_spec(
                threshold,
                path@,
                dir_mtime,
                dir_len,
                images_view(images@),
                opt_book_view(existing),
                dims,
            ) == r@,
{
    let sig = build_image_folder_signature(images);
    let reuse = match existing {
        Some(c) => crate::text::str_eq(c.kind.as_str(), "image_folder") && match &c.content_signature {
            Some(cs) => crate::text::str_eq(cs.as_str(), sig.as_str()),
            None => false,
        },
        None => false,
    };
    let dims = if reuse {
        Vec::new()
    } else {
        let paths = image_paths_of(images);
        sample_dimensions(&paths)
    };
    proof {
        assert(reuse == reuses_image_average(opt_book_view(existing), folder_signature(images_view(images@))));
    }
    let r = image_book_from_measurements(threshold, path, dir_mtime, dir_len, images, existing, &dims);
    assert(measured_for(images_view(images@), opt_book_view(existing), dims@));
    r
}

/// The book for a PDF file: see `pdf_book_spec`.
pub fn fill_pdf_book_model(
    path: &str,
    modified: Option<u64>,
    len: u64,
    existing: Option<&CachedBookMetadata>,
    page_count: Option<usize>,
) -> (r: ScannedBookFile)
    ensures
        r@ == pdf_book_spec(path@, modified, len, opt_book_view(existing), page_count),
{
    let mtime = system_time_to_secs(modified);
    let size = len as i64;
    let reuse = match existing {
        Some(c) => crate::text::str_eq(c.kind.as_str(), "pdf") && c.mtime == mtime && c.size == size,
        None => false,
    };
    let title = file_name(path);
    match existing {
        Some(c) => {
            if reuse {
                return ScannedBookFile {
                    path: String::from_str(path),
                    title,
                    kind: kind_string(true),
                    size,
                    mtime,
                    page_count: c.page_count,
                    pages_json: copy_opt(&c.pages_json),
                    content_signature: copy_opt(&c.content_signature),
                    is_oversized: c.is_oversized,
                    avg_page_pixels: c.avg_page_pixels,
                    cover_path: copy_opt(&c.cover_path),
                };
            }
        },
        None => {},
    }
    ScannedBookFile {
        path: String::from_str(path),
        title,
        kind: kind_string(true),
        size,
        mtime,
        page_count: match page_count {
            Some(n) => n as i64,
            None => 0,
        },
        pages_json: None,
        content_signature: None,
        is_oversized: false,
        avg_page_pixels: 0,
        cover_path: None,
    }
}

/// The category recorded for a directory: see `category_spec`.
pub fn fill_category_model(path: &str, modified: Option<u64>) -> (r: ScannedCategory)
    ensures
        r@ == category_spec(path@, modified),
{
    ScannedCategory {
        name: match file_name(path) {
            Some(n) => n,
            None => String::new(),
        },
        path: String::from_str(path),
        mtime: system_time_to_secs(modified),
    }
}

/// What a directory is taken for, given its listing.
pub open spec fn inspection_spec(
    rec_exts: Seq<Seq<char>>,
    min_count: usize,
    threshold: u64,
    path: Seq<char>,
    dir_mtime: Option<u64>,
    dir_len: u64,
    entries: Seq<DirEntryFacts>,
    existing: Option<BookView>,
    sorted_images: Seq<ImageEntryView>,
    dims: Seq<Option<(u32, u32)>>,
    category: Option<CategoryView>,
    book: Option<BookView>,
    recurse: bool,
) -> bool {
    let images = image_entries(rec_exts, entries);
    let is_book = images.len() >= min_count;
    let mixed = has_pdf(rec_exts, entries) || has_subdirs(entries);
    &&& sorted_by_path(sorted_images)
    &&& sorted_images.to_multiset() == images.to_multiset()
    &&& category == (if mixed || !is_book {
        Some(category_spec(path, dir_mtime))
    } else {
        None
    })
    &&& book == (if is_book {
        Some(image_book_spec(threshold, path, dir_mtime, dir_len, sorted_images, existing, dims))
    } else {
        None
    })
    &&& is_book ==> measured_for(sorted_images, existing, dims)
    &&& recurse == (mixed || !is_book)
}

pub open spec fn opt_category_view(o: Option<ScannedCategory>) -> Option<CategoryView> {
    match o {
        Some(c) => Some(c@),
        None => None,
    }
}

pub open spec fn opt_scanned_view(o: Option<ScannedBookFile>) -> Option<BookView> {
    match o {
        Some(b) => Some(b@),
        None => None,
    }
}

impl ConfigurableRecognizer {
    /// Inspects a directory from its listing: a directory with at least
    /// `min_image_count` visible images directly inside is an image-folder book (pages
    /// sorted by path); a directory that is not a book, or that also holds a PDF file or
    /// a subdirectory, is a category that the scan descends into.
    pub fn inspect_directory(
        &self,
        path: &str,
        dir_mtime: Option<u64>,
        dir_len: u64,
        entries: &Vec<DirEntryFacts>,
        existing: Option<&CachedBookMetadata>,
    ) -> (r: DirectoryInspection)
        requires
            entries.len() <= usize::MAX / 5,
        ensures
            exists|sorted: Seq<ImageEntryView>, dims: Seq<Option<(u32, u32)>>|
                #[trigger] inspection_spec(
                    self.exts(),
                    self.min_image_count,
                    self.oversized_image_avg_pixels,
                    path@,
                    dir_mtime,
                    dir_len,
                    entries@,
                    opt_book_view(existing),
                    sorted,
                    dims,
                    opt_category_view(r.category),
                    opt_scanned_view(r.book),
                    r.recurse,
                ),
    {
        let (found, pdf, subdirs) = self.classify_entries(entries);
        proof {
            lemma_image_entries_len(self.exts(), entries@);
        }
        let images = sort_images_by_path(&found);
        proof {
            broadcast use vstd::seq_lib::group_to_multiset_ensures;

            assert(images_view(images@).len() == images_view(images@).to_multiset().len());
            assert(images_view(found@).len() == images_view(found@).to_multiset().len());
            assert(images_view(images@).len() == images_view(found@).len());
        }
        let is_book = images.len() >= self.min_image_count;
        let mixed = pdf || subdirs;
        let category = if mixed || !is_book {
            Some(fill_category_model(path, dir_mtime))
        } else {
            None
        };
        let book = if is_book {
            Some(
                fill_image_book_model(
                    self.oversized_image_avg_pixels,
                    path,
                    dir_mtime,
                    dir_len,
                    &images,
                    existing,
                ),
            )
        } else {
            None
        };
        let r = DirectoryInspection { category, book, recurse: mixed || !is_book };
        proof {
            let sorted = images_view(images@);
            if is_book {
                let dims = choose|dims: Seq<Option<(u32, u32)>>|
                    measured_for(sorted, opt_book_view(existing), dims) && #[trigger] image_book_spec(
                        self.oversized_image_avg_pixels,
                        path@,
                        dir_mtime,
                        dir_len,
                        sorted,
                        opt_book_view(existing),
                        dims,
                    ) == r.book->0@;
                assert(inspection_spec(
                    self.exts(),
                    self.min_image_count,
                    self.oversized_image_avg_pixels,
                    path@,
                    dir_mtime,
                    dir_len,
                    entries@,
                    opt_book_view(existing),
                    sorted,
                    dims,
                    opt_category_view(r.category),
                    opt_scanned_view(r.book),
                    r.recurse,
                ));
            } else {
                let dims: Seq<Option<(u32, u32)>> = Seq::empty();
                assert(inspection_spec(
                    self.exts(),
                    self.min_image_count,
                    self.oversized_image_avg_pixels,
                    path@,
                    dir_mtime,
                    dir_len,
                    entries@,
                    opt_book_view(existing),
                    sorted,
                    dims,
                    opt_category_view(r.category),
                    opt_scanned_view(r.book),
                    r.recurse,
                ));
            }
        }
        r
    }

    /// Whether a file needs its PDF page count read: it is a visible `.pdf` file whose
    /// cached metadata cannot be reused.
    pub fn needs_pdf_page_count(
        &self,
        path: &str,
        modified: Option<u64>,
        len: u64,
        existing: Option<&CachedBookMetadata>,
    ) -> (r: bool)
        ensures
            r == (!hidden_path(path@) && path_extension(path@) == Some(pdf_kind())
                && !reuses_pdf_metadata(opt_book_view(existing), mtime_of(modified), len as i64)),
    {
        if self.is_hidden(path) {
            return false;
        }
        let is_pdf = match extension(path) {
            Some(e) => crate::text::str_eq(e.as_str(), "pdf"),
            None => false,
        };
        if !is_pdf {
            return false;
        }
        let mtime = system_time_to_secs(modified);
        let size = len as i64;
        match existing {
            Some(c) => !(crate::text::str_eq(c.kind.as_str(), "pdf") && c.mtime == mtime && c.size == size),
            None => true,
        }
    }

    /// The book for a file: a visible file whose extension is exactly `pdf` is a PDF
    /// book; any other file is nothing.  `page_count` is the page count read from the
    /// file where `needs_pdf_page_count` asked for it.
    pub fn analyze_file(
        &self,
        path: &str,
        modified: Option<u64>,
        len: u64,
        existing: Option<&CachedBookMetadata>,
        page_count: Option<usize>,
    ) -> (r: Option<ScannedBookFile>)
        ensures
            opt_scanned_view(r) == if !hidden_path(path@) && path_extension(path@) == Some(
                pdf_kind(),
            ) {
                Some(pdf_book_spec(path@, modified, len, opt_book_view(existing), page_count))
            } else {
                None
            },
    {
        if self.is_hidden(path) {
            return None;
        }
        match extension(path) {
            Some(e) => {
                if crate::text::str_eq(e.as_str(), "pdf") {
                    Some(fill_pdf_book_model(path, modified, len, existing, page_count))
                } else {
                    None
                }
            },
            None => None,
        }
    }
}

proof fn lemma_image_entries_len(exts: Seq<Seq<char>>, es: Seq<DirEntryFacts>)
    ensures
        image_entries(exts, es).len() <= es.len(),
    decreases es.len(),
{
    if es.len() > 0 {
        lemma_image_entries_len(exts, es.drop_last());
    }
}

/// The entry is a visible file whose extension, lower-cased, is `pdf` and which is not
/// taken as an image.
pub open spec fn visible_pdf_file(exts: Seq<Seq<char>>, e: DirEntryFacts) -> bool {
    &&& e.kind is File
    &&& !hidden_path(e.path@)
    &&& path_extension(e.path@) matches Some(x) && lowercase_of(x) == "pdf"@
    &&& !exts.contains("pdf"@)
}

/// What a directory is taken for, by what its listing holds.  A directory that holds a
/// visible PDF file or a visible subdirectory, whatever its image count, is recorded
/// as a category and descended into (besides being an image book where it has enough
/// images); so is a directory with too few images to be a book.  A directory with
/// enough images and neither is only an image book: no category, no descent.
pub proof fn law_mixed_directories_are_descended(
    rec_exts: Seq<Seq<char>>,
    min_count: usize,
    threshold: u64,
    path: Seq<char>,
    dir_mtime: Option<u64>,
    dir_len: u64,
    entries: Seq<DirEntryFacts>,
    existing: Option<BookView>,
    sorted: Seq<ImageEntryView>,
    dims: Seq<Option<(u32, u32)>>,
    category: Option<CategoryView>,
    book: Option<BookView>,
    recurse: bool,
)
    requires
        inspection_spec(
            rec_exts,
            min_count,
            threshold,
            path,
            dir_mtime,
            dir_len,
            entries,
            existing,
            sorted,
            dims,
            category,
            book,
            recurse,
        ),
    ensures
        (exists|i: int| 0 <= i < entries.len() && #[trigger] visible_pdf_file(rec_exts, entries[i])) ==> recurse
            && category == Some(category_spec(path, dir_mtime)),
        (exists|i: int| 0 <= i < entries.len() && (#[trigger] entries[i]).kind is Dir && !hidden_path(entries[i].path@))
            ==> recurse && category == Some(category_spec(path, dir_mtime)),
        image_entries(rec_exts, entries).len() < min_count ==> recurse && category == Some(
            category_spec(path, dir_mtime),
        ) && book is None,
        (forall|i: int| 0 <= i < entries.len() ==> !#[trigger] visible_pdf_file(rec_exts, entries[i]) && !(
        entries[i].kind is Dir && !hidden_path(entries[i].path@))) && image_entries(rec_exts, entries).len()
            >= min_count ==> !recurse && category is None && book is Some,
{
    if exists|i: int| 0 <= i < entries.len() && #[trigger] visible_pdf_file(rec_exts, entries[i]) {
        let i = choose|i: int| 0 <= i < entries.len() && #[trigger] visible_pdf_file(rec_exts, entries[i]);
        assert(is_pdf_entry(rec_exts, entries[i]));
    }
    if exists|i: int| 0 <= i < entries.len() && (#[trigger] entries[i]).kind is Dir && !hidden_path(entries[i].path@) {
        let i = choose|i: int| 0 <= i < entries.len() && (#[trigger] entries[i]).kind is Dir && !hidden_path(entries[i].path@);
        assert(is_subdir_entry(entries[i]));
    }
    if forall|i: int| 0 <= i < entries.len() ==> !#[trigger] visible_pdf_file(rec_exts, entries[i]) && !(
    entries[i].kind is Dir && !hidden_path(entries[i].path@)) {
        if has_pdf(rec_exts, entries) {
            let i = choose|i: int| 0 <= i < entries.len() && #[trigger] is_pdf_entry(rec_exts, entries[i]);
            assert(!visible_pdf_file(rec_exts, entries[i]));
        }
        if has_subdirs(entries) {
            let i = choose|i: int| 0 <= i < entries.len() && #[trigger] is_subdir_entry(entries[i]);
            assert(!visible_pdf_file(rec_exts, entries[i]));
        }
    }
}

} // verus!
