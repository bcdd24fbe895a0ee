//! Names and choices of the asset cache: which cache a request clears, the file and
//! directory names of cached covers, page previews and SVG pages, and which source a
//! book's cover is made from.  Reading, writing and resizing images stays with the
//! caller.

use crate::domain::book_files;
use crate::json::{parse_json_string_list, parsed_json_string_list};
use crate::paths::{file_name, file_stem, path_file_name, path_file_stem};
use crate::scanner::types::opt_view;
use crate::text::{
    chars_of, decimal, digit_char, dot_pred, hex_lower, is_control, is_control_char, lemma_trim_by_from,
    str_eq, string_of_chars, trim, trim_by, trim_dots, trim_spec, u64_to_hex, u64_to_string, ws_pred,
};
use std::hash::{Hash, Hasher};
use vstd::prelude::*;

verus! {

/// Which part of the asset cache to clear.
#[derive(Clone, Copy, PartialEq, Eq, Structural)]
pub enum CacheClearTarget {
    All,
    Covers,
    ImagePages,
    PdfSvg,
}

/// The name by which a request selects a cache target.
pub open spec fn target_name(t: CacheClearTarget) -> Seq<char> {
    match t {
        CacheClearTarget::All => "all"@,
        CacheClearTarget::Covers => "covers"@,
        CacheClearTarget::ImagePages => "thumbnails"@,
        CacheClearTarget::PdfSvg => "svg"@,
    }
}

/// The target a request names, `None` for an unsupported name.
pub open spec fn target_of_name(name: Seq<char>) -> Option<CacheClearTarget> {
    if name == "all"@ {
        Some(CacheClearTarget::All)
    } else if name == "covers"@ {
        Some(CacheClearTarget::Covers)
    } else if name == "thumbnails"@ {
        Some(CacheClearTarget::ImagePages)
    } else if name == "svg"@ {
        Some(CacheClearTarget::PdfSvg)
    } else {
        None
    }
}

impl CacheClearTarget {
    /// The target named `name`; `None` where the name is not supported.
    pub fn parse(name: &str) -> (r: Option<CacheClearTarget>)
        ensures
            r == target_of_name(name@),
    {
        if str_eq(name, "all") {
            Some(CacheClearTarget::All)
        } else if str_eq(name, "covers") {
            Some(CacheClearTarget::Covers)
        } else if str_eq(name, "thumbnails") {
            Some(CacheClearTarget::ImagePages)
        } else if str_eq(name, "svg") {
            Some(CacheClearTarget::PdfSvg)
        } else {
            None
        }
    }

    /// The name of the target, as a response reports it.
    pub fn name(&self) -> (r: &'static str)
        ensures
            r@ == target_name(*self),
    {
        match self {
            CacheClearTarget::All => "all",
            CacheClearTarget::Covers => "covers",
            CacheClearTarget::ImagePages => "thumbnails",
            CacheClearTarget::PdfSvg => "svg",
        }
    }

    /// Whether clearing this target clears the covers.
    pub fn clears_covers(&self) -> (r: bool)
        ensures
            r == (*self == CacheClearTarget::All || *self == CacheClearTarget::Covers),
    {
        match self {
            CacheClearTarget::All | CacheClearTarget::Covers => true,
            _ => false,
        }
    }

    /// Whether clearing this target clears the image page previews.
    pub fn clears_image_pages(&self) -> (r: bool)
        ensures
            r == (*self == CacheClearTarget::All || *self == CacheClearTarget::ImagePages),
    {
        match self {
            CacheClearTarget::All | CacheClearTarget::ImagePages => true,
            _ => false,
        }
    }

    /// Whether clearing this target clears the SVG pages.
    pub fn clears_pdf_svg(&self) -> (r: bool)
        ensures
            r == (*self == CacheClearTarget::All || *self == CacheClearTarget::PdfSvg),
    {
        match self {
            CacheClearTarget::All | CacheClearTarget::PdfSvg => true,
            _ => false,
        }
    }
}

/// A target's name selects that target again, and the names of distinct targets
/// differ.
pub proof fn law_target_name_roundtrip(t: CacheClearTarget)
    ensures
        target_of_name(target_name(t)) == Some(t),
{
    reveal_strlit("all");
    reveal_strlit("covers");
    reveal_strlit("thumbnails");
    reveal_strlit("svg");
    assert("all"@.len() == 3 && "svg"@.len() == 3 && "covers"@.len() == 6 && "thumbnails"@.len() == 10);
    assert("all"@[0] == 'a' && "svg"@[0] == 's');
}

/// What hashing a string with a `DefaultHasher::new()` gives (`Hash` for `str`, then
/// `finish`).
pub uninterp spec fn default_hash(s: Seq<char>) -> u64;

/// Hashes `value` with a fresh `std::collections::hash_map::DefaultHasher`.  The
/// contract claims that the result is the named `default_hash` of the string: a
/// `DefaultHasher::new()` starts from fixed keys, so the hash depends on the string
/// alone.
#[verifier::external_body]
fn hash_str(value: &str) -> (r: u64)
    ensures
        r == default_hash(value@),
{
    let mut hasher = std::collections::hash_map::DefaultHasher::new();
    value.hash(&mut hasher);
    hasher.finish()
}

/// The cache key of a book path: its hash in lower-case hexadecimal.
pub open spec fn hash_key_spec(value: Seq<char>) -> Seq<char> {
    hex_lower(default_hash(value) as nat)
}

pub fn hash_key(value: &str) -> (r: String)
    ensures
        r@ == hash_key_spec(value@),
{
    u64_to_hex(hash_str(value))
}

/// The characters that cannot stand in a directory name, with the control characters.
pub open spec fn unsafe_name_char(c: char) -> bool {
    ||| c == '/'
    ||| c == '\\'
    ||| c == ':'
    ||| c == '*'
    ||| c == '?'
    ||| c == '"'
    ||| c == '<'
    ||| c == '>'
    ||| c == '|'
    ||| is_control(c)
}

/// `s` with each character that cannot stand in a directory name replaced by `_`.
pub open spec fn sanitized(s: Seq<char>) -> Seq<char> {
    s.map_values(|c: char| if unsafe_name_char(c) { '_' } else { c })
}

/// The readable part of a book's cache directory: the file stem of its path (else its
/// file name), sanitized and trimmed of white space and dots, else `book`.
pub open spec fn display_dir_name(book_path: Seq<char>) -> Seq<char> {
    let shown = match path_file_stem(book_path) {
        Some(s) => Some(s),
        None => path_file_name(book_path),
    };
    let base = match shown {
        Some(s) => if s.len() > 0 {
            s
        } else {
            "book"@
        },
        None => "book"@,
    };
    let t = trim_spec(trim_by(trim_spec(sanitized(base)), dot_pred()));
    if t.len() == 0 {
        "book"@
    } else {
        t
    }
}

proof fn lemma_sanitized_safe(s: Seq<char>)
    ensures
        forall|i: int| 0 <= i < sanitized(s).len() ==> !unsafe_name_char(#[trigger] sanitized(s)[i]),
{
}

proof fn lemma_hex_safe(n: nat)
    ensures
        forall|i: int| 0 <= i < hex_lower(n).len() ==> !unsafe_name_char(#[trigger] hex_lower(n)[i]),
    decreases n,
{
    if n >= 16 {
        lemma_hex_safe(n / 16);
        let a = hex_lower(n / 16);
        let b = seq![digit_char(n % 16)];
        assert forall|i: int| 0 <= i < hex_lower(n).len() implies !unsafe_name_char(#[trigger] hex_lower(n)[i]) by {
            if i < a.len() {
                assert(hex_lower(n)[i] == a[i]);
            } else {
                assert(hex_lower(n)[i] == b[i - a.len()]);
            }
        }
    }
}

proof fn lemma_trim_keeps_safe(s: Seq<char>, p: spec_fn(char) -> bool)
    requires
        forall|i: int| 0 <= i < s.len() ==> !unsafe_name_char(#[trigger] s[i]),
    ensures
        forall|i: int| 0 <= i < trim_by(s, p).len() ==> !unsafe_name_char(#[trigger] trim_by(s, p)[i]),
{
    lemma_trim_by_from(s, p);
    assert forall|i: int| 0 <= i < trim_by(s, p).len() implies !unsafe_name_char(#[trigger] trim_by(s, p)[i]) by {
        assert(s.contains(trim_by(s, p)[i]));
        let j = choose|j: int| 0 <= j < s.len() && s[j] == trim_by(s, p)[i];
    }
}

/// The readable part of a cache directory name is never empty and holds no character
/// that cannot stand in a file name (no path separator among them).
pub proof fn law_display_dir_name_is_safe(book_path: Seq<char>)
    ensures
        display_dir_name(book_path).len() > 0,
        forall|i: int|
            0 <= i < display_dir_name(book_path).len() ==> !unsafe_name_char(#[trigger] display_dir_name(book_path)[i]),
{
    let shown = match path_file_stem(book_path) {
        Some(s) => Some(s),
        None => path_file_name(book_path),
    };
    let base = match shown {
        Some(s) => if s.len() > 0 {
            s
        } else {
            "book"@
        },
        None => "book"@,
    };
    reveal_strlit("book");
    lemma_sanitized_safe(base);
    let t0 = trim_spec(sanitized(base));
    lemma_trim_keeps_safe(sanitized(base), ws_pred());
    let t1 = trim_by(t0, dot_pred());
    lemma_trim_keeps_safe(t0, dot_pred());
    lemma_trim_keeps_safe(t1, ws_pred());
}

/// The name of a book's cache directory holds no character that cannot stand in a
/// file name: it is one path component.
pub proof fn law_cache_dir_name_is_one_component(book_path: Seq<char>)
    ensures
        forall|i: int|
            0 <= i < cache_book_dir_name_spec(book_path).len() ==> !unsafe_name_char(
                #[trigger] cache_book_dir_name_spec(book_path)[i],
            ),
{
    law_display_dir_name_is_safe(book_path);
    lemma_hex_safe(default_hash(book_path) as nat);
    let a = display_dir_name(book_path);
    let h = hash_key_spec(book_path);
    reveal_strlit("-");
    assert forall|i: int|
        0 <= i < cache_book_dir_name_spec(book_path).len() implies !unsafe_name_char(
        #[trigger] cache_book_dir_name_spec(book_path)[i],
    ) by {
        let full = cache_book_dir_name_spec(book_path);
        assert(full == a + "-"@ + h);
        if i < a.len() {
            assert(full[i] == a[i]);
        } else if i == a.len() {
            assert(full[i] == '-');
        } else {
            assert(full[i] == h[i - a.len() - 1]);
        }
    }
}

/// The cache directory of a book: its readable name, `-` and the hash of its path.
pub open spec fn cache_book_dir_name_spec(book_path: Seq<char>) -> Seq<char> {
    display_dir_name(book_path) + "-"@ + hash_key_spec(book_path)
}

fn sanitize(s: &str) -> (r: String)
    ensures
        r@ == sanitized(s@),
{
    let v = chars_of(s);
    let mut out: Vec<char> = Vec::new();
    let mut i: usize = 0;
    while i < v.len()
        invariant
            v@ == s@,
            0 <= i <= v.len(),
            out@ == sanitized(v@.subrange(0, i as int)),
        decreases v.len() - i,
    {
        let c = v[i];
        let bad = c == '/' || c == '\\' || c == ':' || c == '*' || c == '?' || c == '"' || c == '<'
            || c == '>' || c == '|' || is_control_char(c);
        if bad {
            out.push('_');
        } else {
            out.push(c);
        }
        i = i + 1;
        assert(out@ =~= sanitized(v@.subrange(0, i as int)));
    }
    assert(v@.subrange(0, i as int) =~= v@);
    string_of_chars(&out)
}

fn display_name_of(book_path: &str) -> (r: String)
    ensures
        r@ == display_dir_name(book_path@),
{
    let shown = match file_stem(book_path) {
        Some(s) => Some(s),
        None => file_name(book_path),
    };
    let base = match shown {
        Some(s) => if !s.as_str().is_empty() {
            s
        } else {
            String::from_str("book")
        },
        None => String::from_str("book"),
    };
    let cleaned = sanitize(base.as_str());
    let t1 = trim(cleaned.as_str());
    let t2 = trim_dots(t1.as_str());
    let t3 = trim(t2.as_str());
    if t3.as_str().is_empty() {
        String::from_str("book")
    } else {
        t3
    }
}

/// The name of the cache directory of a book.
pub fn cache_book_dir_name(book_path: &str) -> (r: String)
    ensures
        r@ == cache_book_dir_name_spec(book_path@),
{
    let mut r = display_name_of(book_path);
    r.append("-");
    let h = hash_key(book_path);
    r.append(h.as_str());
    r
}

/// The file name of a book's cached cover: the hash of its path and `.jpg`.
pub fn cover_file_name(book_path: &str) -> (r: String)
    ensures
        r@ == hash_key_spec(book_path@) + ".jpg"@,
{
    let mut r = hash_key(book_path);
    r.append(".jpg");
    r
}

/// The file name of a cached SVG page (pages counted from 1).
pub fn pdf_svg_file_name(page: usize) -> (r: String)
    ensures
        r@ == "page-"@ + decimal(page as nat) + ".svg"@,
{
    let mut r = String::from_str("page-");
    let n = u64_to_string(page as u64);
    r.append(n.as_str());
    r.append(".svg");
    r
}

/// The file name of a cached page preview: the page counted from 1, the width and the
/// extension.
pub fn image_page_file_name(page_index: usize, width: u32, ext: &str) -> (r: String)
    requires
        page_index < usize::MAX,
    ensures
        r@ == "page-"@ + decimal(page_index as nat + 1) + "-w"@ + decimal(width as nat) + "."@ + ext@,
{
    let mut r = String::from_str("page-");
    let n = u64_to_string((page_index + 1) as u64);
    r.append(n.as_str());
    r.append("-w");
    let w = u64_to_string(width as u64);
    r.append(w.as_str());
    r.append(".");
    r.append(ext);
    r
}

/// The width of page previews: the configured one, at least 256.
pub fn preview_width(configured: u32) -> (r: u32)
    ensures
        r == if configured < 256 {
            256
        } else {
            configured
        },
{
    if configured < 256 {
        256
    } else {
        configured
    }
}

/// The first page listed in a book's `pages_json` (an absent list reads as `[]`).
pub open spec fn first_image_path_spec(pages_json: Option<Seq<char>>) -> Option<Seq<char>> {
    let text = match pages_json {
        Some(t) => t,
        None => "[]"@,
    };
    match parsed_json_string_list(text) {
        Some(pages) => if pages.len() > 0 {
            Some(pages[0])
        } else {
            None
        },
        None => None,
    }
}

pub fn first_image_path(book: &book_files::Model) -> (r: Option<String>)
    ensures
        opt_view(r) == first_image_path_spec(opt_view(book.pages_json)),
{
    let parsed = match &book.pages_json {
        Some(t) => parse_json_string_list(t.as_str()),
        None => parse_json_string_list("[]"),
    };
    match parsed {
        Some(pages) => if pages.len() > 0 {
            Some(pages[0].clone())
        } else {
            None
        },
        None => None,
    }
}

/// How a book's cover is made: `Some(None)` from the PDF itself, `Some(Some(p))` from
/// the image `p` (the stored cover path, else the first page), `None` where an image
/// book has neither.
pub open spec fn cover_source_spec(book: book_files::ModelView) -> Option<Option<Seq<char>>> {
    if book.kind == "pdf"@ {
        Some(None)
    } else {
        match book.cover_path {
            Some(p) => Some(Some(p)),
            None => match first_image_path_spec(book.pages_json) {
                Some(p) => Some(Some(p)),
                None => None,
            },
        }
    }
}

pub fn cover_source(book: &book_files::Model) -> (r: Option<Option<String>>)
    ensures
        match r {
            Some(Some(p)) => cover_source_spec(book@) == Some(Some(p@)),
            Some(None) => cover_source_spec(book@) == Some(None::<Seq<char>>),
            None => cover_source_spec(book@) is None,
        },
{
    if str_eq(book.kind.as_str(), "pdf") {
        Some(None)
    } else {
        match &book.cover_path {
            Some(p) => Some(Some(p.clone())),
            None => match first_image_path(book) {
                Some(p) => Some(Some(p)),
                None => None,
            },
        }
    }
}

/// A cover job: the index of the book in the list and how its cover is made.
pub struct CoverJob {
    pub book_index: usize,
    pub source_image_path: Option<String>,
}

/// The books that get a cover job, in order, with their sources.
pub open spec fn cover_jobs_spec(books: Seq<book_files::Model>) -> Seq<(int, Option<Seq<char>>)>
    decreases books.len(),
{
    if books.len() == 0 {
        Seq::empty()
    } else {
        let r = cover_jobs_spec(books.drop_last());
        match cover_source_spec(books.last()@) {
            Some(s) => r.push(((books.len() - 1) as int, s)),
            None => r,
        }
    }
}

pub open spec fn cover_jobs_view(jobs: Seq<CoverJob>) -> Seq<(int, Option<Seq<char>>)> {
    jobs.map_values(|j: CoverJob| (j.book_index as int, opt_view(j.source_image_path)))
}

/// The cover jobs for a list of books: PDFs, and image books with a cover source.
pub fn cover_jobs(books: &Vec<book_files::Model>) -> (r: Vec<CoverJob>)
    ensures
        cover_jobs_view(r@) == cover_jobs_spec(books@),
{
    let mut r: Vec<CoverJob> = Vec::new();
    let mut i: usize = 0;
    while i < books.len()
        invariant
            0 <= i <= books.len(),
            cover_jobs_view(r@) == cover_jobs_spec(books@.subrange(0, i as int)),
        decreases books.len() - i,
    {
        proof {
            assert(books@.subrange(0, i + 1).drop_last() =~= books@.subrange(0, i as int));
            assert(books@.subrange(0, i + 1).last() == books@[i as int]);
        }
        let ghost old_r = r@;
        match cover_source(&books[i]) {
            Some(s) => {
                r.push(CoverJob { book_index: i, source_image_path: s });
                assert(cover_jobs_view(r@) =~= cover_jobs_view(old_r).push(
                    (i as int, opt_view(r@.last().source_image_path)),
                ));
            },
            None => {},
        }
        i = i + 1;
    }
    assert(books@.subrange(0, i as int) =~= books@);
    r
}

/// The title a cover progress message shows: the book's title, else its path.
pub fn cover_title(book: &book_files::Model) -> (r: String)
    ensures
        r@ == match opt_view(book.title) {
            Some(t) => t,
            None => book.path@,
        },
{
    match &book.title {
        Some(t) => t.clone(),
        None => book.path.clone(),
    }
}

/// The progress message after the cover of job `index` (from 0) of `total` was made.
pub fn cover_progress_message(index: usize, total: usize, title: &str) -> (r: String)
    requires
        index < usize::MAX,
    ensures
        r@ == "已生成封面 "@ + decimal(index as nat + 1) + "/"@ + decimal(total as nat) + ": "@ + title@,
{
    let mut r = String::from_str("已生成封面 ");
    let a = u64_to_string((index + 1) as u64);
    r.append(a.as_str());
    r.append("/");
    let b = u64_to_string(total as u64);
    r.append(b.as_str());
    r.append(": ");
    r.append(title);
    r
}

/// The progress message when the cover of the book at `path` cannot be made, with
/// the error text `err`.
pub fn cover_failed_message(path: &str, err: &str) -> (r: String)
    ensures
        r@ == "封面生成失败: "@ + path@ + " ("@ + err@ + ")"@,
{
    let mut r = String::from_str("封面生成失败: ");
    r.append(path);
    r.append(" (");
    r.append(err);
    r.append(")");
    r
}

proof fn lemma_cover_job_indices(books: Seq<book_files::Model>)
    ensures
        forall|k: int|
            0 <= k < cover_jobs_spec(books).len() ==> 0 <= (#[trigger] cover_jobs_spec(books)[k]).0 < books.len()
                && cover_source_spec(books[cover_jobs_spec(books)[k].0]@) == Some(cover_jobs_spec(books)[k].1),
        forall|a: int, b: int|
            0 <= a < b < cover_jobs_spec(books).len() ==> (#[trigger] cover_jobs_spec(books)[a]).0
                < (#[trigger] cover_jobs_spec(books)[b]).0,
        forall|i: int|
            0 <= i < books.len() && (cover_source_spec(#[trigger] books[i]@) is Some) ==> exists|k: int|
                0 <= k < cover_jobs_spec(books).len() && #[trigger] cover_jobs_spec(books)[k].0 == i,
    decreases books.len(),
{
    if books.len() > 0 {
        let d = books.drop_last();
        lemma_cover_job_indices(d);
        let r = cover_jobs_spec(d);
        assert forall|k: int| 0 <= k < r.len() implies cover_source_spec(books[r[k].0]@) == Some(r[k].1) by {
            assert(books[r[k].0] == d[r[k].0]);
        }
        assert forall|i: int|
            0 <= i < books.len() && (cover_source_spec(#[trigger] books[i]@) is Some) implies exists|k: int|
                0 <= k < cover_jobs_spec(books).len() && #[trigger] cover_jobs_spec(books)[k].0 == i by {
            if i < d.len() {
                assert(d[i] == books[i]);
                let k = choose|k: int| 0 <= k < r.len() && #[trigger] r[k].0 == i;
                assert(cover_jobs_spec(books)[k] == r[k]);
            } else {
                assert(books.last() == books[i]);
                assert(cover_jobs_spec(books)[r.len() as int].0 == i);
            }
        }
    }
}

/// Every book that can have a cover gets exactly one cover job, the first book as much
/// as any other: a job for the book at index `i` exists exactly when the book is a PDF,
/// or has a stored cover path, or lists a first page; the job is made from the PDF
/// itself for a PDF and from that image otherwise; and the jobs follow the list order,
/// so no book has two.
pub proof fn law_each_coverable_book_gets_one_job(books: Seq<book_files::Model>, i: int)
    requires
        0 <= i < books.len(),
    ensures
        (exists|k: int| 0 <= k < cover_jobs_spec(books).len() && #[trigger] cover_jobs_spec(books)[k].0 == i)
            <==> (books[i].kind@ == "pdf"@ || books[i].cover_path is Some || first_image_path_spec(
            opt_view(books[i].pages_json),
        ) is Some),
        forall|k: int|
            0 <= k < cover_jobs_spec(books).len() && #[trigger] cover_jobs_spec(books)[k].0 == i ==> cover_jobs_spec(
                books,
            )[k].1 == (if books[i].kind@ == "pdf"@ {
                None
            } else if books[i].cover_path is Some {
                Some(books[i].cover_path->0@)
            } else {
                first_image_path_spec(opt_view(books[i].pages_json))
            }),
        forall|a: int, b: int|
            0 <= a < b < cover_jobs_spec(books).len() ==> (#[trigger] cover_jobs_spec(books)[a]).0
                < (#[trigger] cover_jobs_spec(books)[b]).0,
{
    lemma_cover_job_indices(books);
    let v = books[i]@;
    assert(v.kind == books[i].kind@);
    assert(v.cover_path == opt_view(books[i].cover_path));
    assert(v.pages_json == opt_view(books[i].pages_json));
    if exists|k: int| 0 <= k < cover_jobs_spec(books).len() && #[trigger] cover_jobs_spec(books)[k].0 == i {
        let k = choose|k: int| 0 <= k < cover_jobs_spec(books).len() && #[trigger] cover_jobs_spec(books)[k].0 == i;
        assert(cover_source_spec(books[cover_jobs_spec(books)[k].0]@) == Some(cover_jobs_spec(books)[k].1));
    }
    if cover_source_spec(v) is Some {
        assert(cover_source_spec(books[i]@) is Some);
    }
}

} // verus!
