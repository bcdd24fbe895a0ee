//! What the book endpoints answer: list paging, the shape of book responses, the pages
//! of a book and the favourite pages with their sizes and spreads.

use crate::domain::{book_files, page_favorites, page_spreads};
use crate::json::{parse_json_string_list, parsed_json_string_list};
use crate::paths::{file_name, file_stem, path_file_name, path_file_stem};
use crate::scanner::types::{copy_opt, opt_view};
use crate::text::{
    decimal, i64_to_string, parse_i64, parse_i64_spec, parse_unsigned, parse_usize, signed_decimal,
    str_eq, u64_to_string,
};
use vstd::prelude::*;

verus! {

pub struct ListQuery {
    pub page: Option<usize>,
    pub page_size: Option<usize>,
    pub sort: Option<String>,
    pub all: Option<bool>,
}

pub struct PageQuery {
    pub realsize: Option<bool>,
}

pub struct BookResponse {
    pub id: String,
    pub path: String,
    pub title: Option<String>,
    pub kind: String,
    pub book_type: String,
    pub size: i64,
    pub mtime: i64,
    pub page_count: i64,
    pub is_favorite: bool,
    pub cover_path: Option<String>,
    pub created_at: Option<String>,
}

pub struct BookResponseView {
    pub id: Seq<char>,
    pub path: Seq<char>,
    pub title: Option<Seq<char>>,
    pub kind: Seq<char>,
    pub book_type: Seq<char>,
    pub size: i64,
    pub mtime: i64,
    pub page_count: i64,
    pub is_favorite: bool,
    pub cover_path: Option<Seq<char>>,
    pub created_at: Option<Seq<char>>,
}

impl View for BookResponse {
    type V = BookResponseView;

    open spec fn view(&self) -> BookResponseView {
        BookResponseView {
            id: self.id@,
            path: self.path@,
            title: opt_view(self.title),
            kind: self.kind@,
            book_type: self.book_type@,
            size: self.size,
            mtime: self.mtime,
            page_count: self.page_count,
            is_favorite: self.is_favorite,
            cover_path: opt_view(self.cover_path),
            created_at: opt_view(self.created_at),
        }
    }
}

pub open spec fn book_responses_view(v: Seq<BookResponse>) -> Seq<BookResponseView> {
    v.map_values(|b: BookResponse| b@)
}

pub struct BooksResponse {
    pub success: bool,
    pub message: String,
    pub items: Vec<BookResponse>,
    pub data: Vec<BookResponse>,
    pub page: usize,
    pub page_size: usize,
    pub total: usize,
    pub total_pages: usize,
}

pub struct BookDetailResponse {
    pub id: String,
    pub title: String,
    pub path: String,
    pub book_type: String,
    pub page_count: i64,
    pub is_favorite: bool,
    pub description: Option<String>,
    pub optimization_strategy: i32,
    pub avg_page_pixels: Option<i64>,
    pub is_oversized: bool,
}

pub struct FavoriteMutationResponse {
    pub success: bool,
}

pub struct LocalActionResponse {
    pub success: bool,
}

pub struct BookPagesResponse {
    pub pages: Vec<PageInfo>,
}

pub struct PageInfo {
    pub filename: String,
    pub w: Option<u32>,
    pub h: Option<u32>,
}

/// The stored size of one page.
pub struct PageMeta {
    pub w: u32,
    pub h: u32,
}

pub struct SpreadResponse {
    pub book_id: String,
    pub filename: String,
    pub next_file: String,
    pub direction: String,
    pub created_at: i64,
}

pub struct SpreadListResponse {
    pub spreads: Vec<SpreadResponse>,
}

pub struct CreateSpreadRequest {
    pub filename: String,
    pub next_file: String,
    pub direction: Option<String>,
}

pub struct CreateSpreadResponse {
    pub success: bool,
    pub spread: SpreadResponse,
}

pub struct DeleteSpreadResponse {
    pub success: bool,
}

pub struct PageFavoriteResponse {
    pub book_id: String,
    pub filename: String,
    pub created_at: i64,
}

pub struct PageFavoriteListResponse {
    pub favorites: Vec<PageFavoriteResponse>,
}

pub struct CreatePageFavoriteRequest {
    pub filename: String,
}

pub struct CreatePageFavoriteResponse {
    pub success: bool,
    pub favorite: PageFavoriteResponse,
}

pub struct DeletePageFavoriteResponse {
    pub success: bool,
}

pub struct AllPageFavoritesResponse {
    pub pages: Vec<FavoritePageItem>,
}

pub struct FavoritePageItem {
    pub book_id: String,
    pub book_title: String,
    pub book_type: String,
    pub filename: String,
    pub w: Option<u32>,
    pub h: Option<u32>,
    pub next_file: Option<String>,
    pub direction: Option<String>,
}

impl From<page_spreads::Model> for SpreadResponse {
    fn from(m: page_spreads::Model) -> (r: SpreadResponse) {
        SpreadResponse {
            book_id: m.book_id,
            filename: m.filename,
            next_file: m.next_file,
            direction: m.direction,
            created_at: m.created_at,
        }
    }
}

impl vstd::std_specs::convert::FromSpecImpl<page_spreads::Model> for SpreadResponse {
    open spec fn obeys_from_spec() -> bool {
        true
    }

    open spec fn from_spec(m: page_spreads::Model) -> SpreadResponse {
        SpreadResponse {
            book_id: m.book_id,
            filename: m.filename,
            next_file: m.next_file,
            direction: m.direction,
            created_at: m.created_at,
        }
    }
}

impl From<page_favorites::Model> for PageFavoriteResponse {
    fn from(m: page_favorites::Model) -> (r: PageFavoriteResponse) {
        PageFavoriteResponse { book_id: m.book_id, filename: m.filename, created_at: m.created_at }
    }
}

impl vstd::std_specs::convert::FromSpecImpl<page_favorites::Model> for PageFavoriteResponse {
    open spec fn obeys_from_spec() -> bool {
        true
    }

    open spec fn from_spec(m: page_favorites::Model) -> PageFavoriteResponse {
        PageFavoriteResponse { book_id: m.book_id, filename: m.filename, created_at: m.created_at }
    }
}

/// Whether a book kind is the PDF kind.
pub fn is_pdf_kind(kind: &str) -> (r: bool)
    ensures
        r == (kind@ == "pdf"@),
{
    str_eq(kind, "pdf")
}

/// The type a client is shown for a book kind.
pub open spec fn book_type_spec(kind: Seq<char>) -> Seq<char> {
    if kind == "pdf"@ {
        "pdf_book"@
    } else {
        "image_book"@
    }
}

pub fn frontend_book_type(book: &book_files::Model) -> (r: String)
    ensures
        r@ == book_type_spec(book.kind@),
{
    if is_pdf_kind(book.kind.as_str()) {
        String::from_str("pdf_book")
    } else {
        String::from_str("image_book")
    }
}

/// A book as a list shows it.
pub open spec fn book_response_spec(b: book_files::ModelView) -> BookResponseView {
    BookResponseView {
        id: signed_decimal(b.id as int),
        path: b.path,
        title: b.title,
        kind: b.kind,
        book_type: book_type_spec(b.kind),
        size: b.size,
        mtime: b.mtime,
        page_count: b.page_count,
        is_favorite: b.is_favorite,
        cover_path: b.cover_path,
        created_at: b.created_at,
    }
}

pub fn to_book_response(book: &book_files::Model) -> (r: BookResponse)
    ensures
        r@ == book_response_spec(book@),
{
    BookResponse {
        id: i64_to_string(book.id),
        path: book.path.clone(),
        title: copy_opt(&book.title),
        kind: book.kind.clone(),
        book_type: frontend_book_type(book),
        size: book.size,
        mtime: book.mtime,
        page_count: book.page_count,
        is_favorite: book.is_favorite,
        cover_path: copy_opt(&book.cover_path),
        created_at: copy_opt(&book.created_at),
    }
}

impl BookResponse {
    pub fn copy(&self) -> (r: BookResponse)
        ensures
            r@ == self@,
    {
        BookResponse {
            id: self.id.clone(),
            path: self.path.clone(),
            title: copy_opt(&self.title),
            kind: self.kind.clone(),
            book_type: self.book_type.clone(),
            size: self.size,
            mtime: self.mtime,
            page_count: self.page_count,
            is_favorite: self.is_favorite,
            cover_path: copy_opt(&self.cover_path),
            created_at: copy_opt(&self.created_at),
        }
    }
}

/// The number of pages of `page_size` items that `total` items fill.
pub open spec fn total_pages_spec(total: nat, page_size: nat) -> nat {
    if total == 0 {
        0
    } else {
        ((total + page_size - 1) / page_size as int) as nat
    }
}

/// The list response for one page of books: every book as a list shows it (twice:
/// as `items` and as `data`), the paging numbers, and the number of pages.
pub fn build_books_response(books: Vec<book_files::Model>, total: usize, page: usize, page_size: usize) -> (r:
    BooksResponse)
    requires
        page_size > 0,
    ensures
        r.success,
        r.message@ == "查询成功"@,
        book_responses_view(r.items@) == book_files::models_view(books@).map_values(
            |b: book_files::ModelView| book_response_spec(b),
        ),
        book_responses_view(r.data@) == book_responses_view(r.items@),
        r.page == page,
        r.page_size == page_size,
        r.total == total,
        r.total_pages == total_pages_spec(total as nat, page_size as nat),
{
    let mut items: Vec<BookResponse> = Vec::new();
    let mut data: Vec<BookResponse> = Vec::new();
    let mut i: usize = 0;
    while i < books.len()
        invariant
            0 <= i <= books.len(),
            items@.len() == i,
            data@.len() == i,
            forall|k: int| 0 <= k < i ==> (#[trigger] items@[k])@ == book_response_spec(books@[k]@),
            forall|k: int| 0 <= k < i ==> (#[trigger] data@[k])@ == items@[k]@,
        decreases books.len() - i,
    {
        let item = to_book_response(&books[i]);
        data.push(item.copy());
        items.push(item);
        i = i + 1;
    }
    assert(book_responses_view(items@) =~= book_files::models_view(books@).map_values(
        |b: book_files::ModelView| book_response_spec(b),
    ));
    assert(book_responses_view(data@) =~= book_responses_view(items@));
    let total_pages = if total == 0 {
        0
    } else {
        let q = total / page_size;
        if total % page_size == 0 {
            q
        } else {
            assert(q < total) by (nonlinear_arith)
                requires
                    q == total / page_size,
                    total % page_size != 0,
                    page_size > 0,
            {
                assert(page_size != 1);
                assert(total == q * page_size + total % page_size);
                assert(q * page_size >= q * 2);
            }
            q + 1
        }
    };
    proof {
        if total > 0 {
            let t = total as int;
            let p = page_size as int;
            assert((t + p - 1) / p == if t % p == 0 { t / p } else { t / p + 1 }) by (nonlinear_arith)
                requires
                    t > 0,
                    p > 0,
            {
                let q = t / p;
                let m = t % p;
                assert(t == q * p + m);
                assert(0 <= m < p);
                if m == 0 {
                    assert(t + p - 1 == q * p + (p - 1));
                } else {
                    assert(t + p - 1 == (q + 1) * p + (m - 1));
                }
            }
        }
    }
    BooksResponse {
        success: true,
        message: String::from_str("查询成功"),
        items,
        data,
        page,
        page_size,
        total,
        total_pages,
    }
}

/// Whether a list is sorted newest first: unless the sort asked for is
/// `created_at_asc`.
pub open spec fn sort_desc_spec(q: ListQuery) -> bool {
    match q.sort {
        Some(s) => s@ != "created_at_asc"@,
        None => true,
    }
}

pub fn sort_desc(query: &ListQuery) -> (r: bool)
    ensures
        r == sort_desc_spec(*query),
{
    match &query.sort {
        Some(s) => !str_eq(s.as_str(), "created_at_asc"),
        None => true,
    }
}

/// Whether the whole list is asked for.
pub fn wants_all(query: &ListQuery) -> (r: bool)
    ensures
        r == match query.all {
            Some(b) => b,
            None => false,
        },
{
    match query.all {
        Some(b) => b,
        None => false,
    }
}

/// The page asked for (1 where none or 0 is given) and the page size (the default
/// where none is given, clamped to 1..=`max_page_size`).
pub fn page_window(query: &ListQuery, default_page_size: usize, max_page_size: usize) -> (r: (usize, usize))
    requires
        max_page_size >= 1,
    ensures
        r.0 == match query.page {
            Some(p) => if p < 1 {
                1
            } else {
                p
            },
            None => 1,
        },
        r.1 == ({
            let s = match query.page_size {
                Some(s) => s,
                None => default_page_size,
            };
            if s < 1 {
                1
            } else if s > max_page_size {
                max_page_size
            } else {
                s
            }
        }),
{
    let page = match query.page {
        Some(p) => if p < 1 {
            1
        } else {
            p
        },
        None => 1,
    };
    let s = match query.page_size {
        Some(s) => s,
        None => default_page_size,
    };
    let size = if s < 1 {
        1
    } else if s > max_page_size {
        max_page_size
    } else {
        s
    };
    (page, size)
}

/// The page size of a whole-list response: the number of books, at least 1.
pub fn whole_list_page_size(total: usize) -> (r: usize)
    ensures
        r == if total < 1 {
            1
        } else {
            total
        },
{
    if total < 1 {
        1
    } else {
        total
    }
}

/// The title shown for a book: its title, else the file stem of its path, else the
/// path.
pub open spec fn display_title_spec(b: book_files::ModelView) -> Seq<char> {
    match b.title {
        Some(t) => t,
        None => match path_file_stem(b.path) {
            Some(s) => s,
            None => b.path,
        },
    }
}

fn stem_or_path(path: &str) -> (r: String)
    ensures
        r@ == match path_file_stem(path@) {
            Some(s) => s,
            None => path@,
        },
{
    match file_stem(path) {
        Some(s) => s,
        None => String::from_str(path),
    }
}

pub fn display_title(book: &book_files::Model) -> (r: String)
    ensures
        r@ == display_title_spec(book@),
{
    match &book.title {
        Some(t) => t.clone(),
        None => stem_or_path(book.path.as_str()),
    }
}

/// The detail of a book: PDFs and oversized image books are read with strategy 2,
/// others with 1; the average page size is shown where it is positive.
pub fn to_book_detail_response(book: &book_files::Model) -> (r: BookDetailResponse)
    ensures
        r.id@ == signed_decimal(book.id as int),
        r.title@ == display_title_spec(book@),
        r.path@ == book.path@,
        r.book_type@ == book_type_spec(book.kind@),
        r.page_count == book.page_count,
        r.is_favorite == book.is_favorite,
        r.description is None,
        r.optimization_strategy == if book.kind@ == "pdf"@ || book.is_oversized {
            2i32
        } else {
            1i32
        },
        r.avg_page_pixels == if book.avg_page_pixels > 0 {
            Some(book.avg_page_pixels)
        } else {
            None
        },
        r.is_oversized == book.is_oversized,
{
    let strategy: i32 = if is_pdf_kind(book.kind.as_str()) || book.is_oversized {
        2
    } else {
        1
    };
    BookDetailResponse {
        id: i64_to_string(book.id),
        title: display_title(book),
        path: book.path.clone(),
        book_type: frontend_book_type(book),
        page_count: book.page_count,
        is_favorite: book.is_favorite,
        description: None,
        optimization_strategy: strategy,
        avg_page_pixels: if book.avg_page_pixels > 0 {
            Some(book.avg_page_pixels)
        } else {
            None
        },
        is_oversized: book.is_oversized,
    }
}

/// The text of a book's page list: its `pages_json`, `[]` where it has none.
pub open spec fn pages_text(pages_json: Option<Seq<char>>) -> Seq<char> {
    match pages_json {
        Some(t) => t,
        None => "[]"@,
    }
}

pub open spec fn strings_view(v: Seq<String>) -> Seq<Seq<char>> {
    v.map_values(|s: String| s@)
}

/// The page paths of a book; `None` where its stored list is not a JSON list of
/// strings.
pub fn page_paths(book: &book_files::Model) -> (r: Option<Vec<String>>)
    ensures
        match r {
            Some(v) => parsed_json_string_list(pages_text(opt_view(book.pages_json))) == Some(strings_view(v@)),
            None => parsed_json_string_list(pages_text(opt_view(book.pages_json))) is None,
        },
{
    let r = match &book.pages_json {
        Some(t) => parse_json_string_list(t.as_str()),
        None => parse_json_string_list("[]"),
    };
    r
}

/// The stored size of page `i`, both `None` where none is stored.
pub open spec fn meta_dims(meta: Seq<PageMeta>, i: int) -> (Option<u32>, Option<u32>) {
    if 0 <= i < meta.len() {
        (Some(meta[i].w), Some(meta[i].h))
    } else {
        (None, None)
    }
}

fn dims_at(meta: &Vec<PageMeta>, i: usize) -> (r: (Option<u32>, Option<u32>))
    ensures
        r == meta_dims(meta@, i as int),
{
    if i < meta.len() {
        (Some(meta[i].w), Some(meta[i].h))
    } else {
        (None, None)
    }
}

/// The name of a page file: the file name of its path, empty where it has none.
pub open spec fn page_file_name_spec(p: Seq<char>) -> Seq<char> {
    match path_file_name(p) {
        Some(n) => n,
        None => Seq::empty(),
    }
}

pub fn page_file_name(path: &str) -> (r: String)
    ensures
        r@ == page_file_name_spec(path@),
{
    match file_name(path) {
        Some(n) => n,
        None => String::new(),
    }
}

/// The pages of a PDF: numbered from 1, with their stored sizes.
pub fn pdf_page_infos(page_count: usize, meta: &Vec<PageMeta>) -> (r: Vec<PageInfo>)
    ensures
        r@.len() == page_count,
        forall|i: int|
            0 <= i < page_count ==> {
                &&& (#[trigger] r@[i]).filename@ == decimal((i + 1) as nat)
                &&& (r@[i].w, r@[i].h) == meta_dims(meta@, i)
            },
{
    let mut r: Vec<PageInfo> = Vec::new();
    let mut i: usize = 0;
    while i < page_count
        invariant
            0 <= i <= page_count,
            r@.len() == i,
            forall|k: int|
                0 <= k < i ==> {
                    &&& (#[trigger] r@[k]).filename@ == decimal((k + 1) as nat)
                    &&& (r@[k].w, r@[k].h) == meta_dims(meta@, k)
                },
        decreases page_count - i,
    {
        let (w, h) = dims_at(meta, i);
        let filename = u64_to_string((i as u64) + 1);
        r.push(PageInfo { filename, w, h });
        i = i + 1;
    }
    r
}

/// The pages of an image book: the file names of its page paths, with their stored
/// sizes.
pub fn image_page_infos(paths: &Vec<String>, meta: &Vec<PageMeta>) -> (r: Vec<PageInfo>)
    ensures
        r@.len() == paths@.len(),
        forall|i: int|
            0 <= i < paths@.len() ==> {
                &&& (#[trigger] r@[i]).filename@ == page_file_name_spec(paths@[i]@)
                &&& (r@[i].w, r@[i].h) == meta_dims(meta@, i)
            },
{
    let mut r: Vec<PageInfo> = Vec::new();
    let mut i: usize = 0;
    while i < paths.len()
        invariant
            0 <= i <= paths.len(),
            r@.len() == i,
            forall|k: int|
                0 <= k < i ==> {
                    &&& (#[trigger] r@[k]).filename@ == page_file_name_spec(paths@[k]@)
                    &&& (r@[k].w, r@[k].h) == meta_dims(meta@, k)
                },
        decreases paths.len() - i,
    {
        let (w, h) = dims_at(meta, i);
        let filename = page_file_name(paths[i].as_str());
        r.push(PageInfo { filename, w, h });
        i = i + 1;
    }
    r
}

/// The index of the first page whose file name is `filename`.
pub open spec fn page_index_by_name(pages: Seq<String>, filename: Seq<char>) -> Option<int>
    decreases pages.len(),
{
    if pages.len() == 0 {
        None
    } else {
        match page_index_by_name(pages.drop_last(), filename) {
            Some(i) => Some(i),
            None => if path_file_name(pages.last()@) == Some(filename) {
                Some(pages.len() - 1)
            } else {
                None
            },
        }
    }
}

pub fn find_page_by_name(pages: &Vec<String>, filename: &str) -> (r: Option<usize>)
    ensures
        match r {
            Some(i) => page_index_by_name(pages@, filename@) == Some(i as int) && i < pages@.len(),
            None => page_index_by_name(pages@, filename@) is None,
        },
{
    let mut i: usize = 0;
    while i < pages.len()
        invariant
            0 <= i <= pages.len(),
            page_index_by_name(pages@.subrange(0, i as int), filename@) is None,
        decreases pages.len() - i,
    {
        proof {
            assert(pages@.subrange(0, i + 1).drop_last() =~= pages@.subrange(0, i as int));
            assert(pages@.subrange(0, i + 1).last() == pages@[i as int]);
        }
        let matches = match file_name(pages[i].as_str()) {
            Some(n) => str_eq(n.as_str(), filename),
            None => false,
        };
        if matches {
            proof {
                lemma_index_by_name_prefix(pages@, filename@, i as int + 1);
            }
            return Some(i);
        }
        i = i + 1;
    }
    assert(pages@.subrange(0, i as int) =~= pages@);
    None
}

proof fn lemma_index_by_name_prefix(pages: Seq<String>, filename: Seq<char>, n: int)
    requires
        0 <= n <= pages.len(),
        page_index_by_name(pages.subrange(0, n), filename) is Some,
    ensures
        page_index_by_name(pages, filename) == page_index_by_name(pages.subrange(0, n), filename),
    decreases pages.len() - n,
{
    if n < pages.len() {
        assert(pages.subrange(0, n + 1).drop_last() =~= pages.subrange(0, n));
        lemma_index_by_name_prefix(pages, filename, n + 1);
    } else {
        assert(pages.subrange(0, n) =~= pages);
    }
}

/// The path of page number `page` (counted from 1; 0 reads as 1).
pub fn page_at(pages: &Vec<String>, page: usize) -> (r: Option<String>)
    ensures
        match r {
            Some(p) => {
                let i = if page == 0 {
                    0
                } else {
                    page - 1
                };
                0 <= i < pages@.len() && p@ == pages@[i]@
            },
            None => (if page == 0 {
                0
            } else {
                page - 1
            }) >= pages@.len(),
        },
{
    let i = if page == 0 {
        0
    } else {
        page - 1
    };
    if i < pages.len() {
        Some(pages[i].clone())
    } else {
        None
    }
}

/// Whether a page is served as stored rather than as a preview: where the request
/// asks for the real size, or the book is not oversized.
pub fn serves_full_size(query: &PageQuery, is_oversized: bool) -> (r: bool)
    ensures
        r == (match query.realsize {
            Some(b) => b,
            None => false,
        } || !is_oversized),
{
    let wants_real_size = match query.realsize {
        Some(b) => b,
        None => false,
    };
    wants_real_size || !is_oversized
}

/// The reading direction of a new spread: the one asked for, else `ltr`.
pub fn spread_direction(direction: &Option<String>) -> (r: String)
    ensures
        r@ == match opt_view(*direction) {
            Some(d) => d,
            None => "ltr"@,
        },
{
    match direction {
        Some(d) => d.clone(),
        None => String::from_str("ltr"),
    }
}

/// The id of the book a favourite page belongs to (0 where it does not parse).
pub fn favorite_book_id(fav: &page_favorites::Model) -> (r: i64)
    ensures
        r == match parse_i64_spec(fav.book_id@) {
            Some(x) => x,
            None => 0,
        },
{
    match parse_i64(fav.book_id.as_str()) {
        Some(x) => x,
        None => 0,
    }
}

/// The index of a favourite page in its book: for a PDF, the page number the file name
/// gives (1 where it does not parse) less one; for an image book, the index of the
/// page with that file name (0 where none has it).
pub open spec fn favorite_page_index(kind: Seq<char>, pages: Seq<String>, filename: Seq<char>) -> int {
    if kind == "pdf"@ {
        let n = match parse_unsigned(filename, usize::MAX as int) {
            Some(x) => x,
            None => 1,
        };
        if n == 0 {
            0
        } else {
            n - 1
        }
    } else {
        match page_index_by_name(pages, filename) {
            Some(i) => i,
            None => 0,
        }
    }
}

/// The first spread of a book that starts at `filename`.
pub open spec fn spread_for(spreads: Seq<page_spreads::Model>, filename: Seq<char>) -> Option<page_spreads::Model>
    decreases spreads.len(),
{
    if spreads.len() == 0 {
        None
    } else if spreads[0].filename@ == filename {
        Some(spreads[0])
    } else {
        spread_for(spreads.drop_first(), filename)
    }
}

fn find_spread<'b>(spreads: &'b Vec<page_spreads::Model>, filename: &str) -> (r: Option<&'b page_spreads::Model>)
    ensures
        match r {
            Some(s) => spread_for(spreads@, filename@) == Some(*s),
            None => spread_for(spreads@, filename@) is None,
        },
{
    let mut i: usize = 0;
    assert(spreads@.skip(0) =~= spreads@);
    while i < spreads.len()
        invariant
            0 <= i <= spreads.len(),
            spread_for(spreads@, filename@) == spread_for(spreads@.skip(i as int), filename@),
        decreases spreads.len() - i,
    {
        proof {
            assert(spreads@.skip(i as int).drop_first() =~= spreads@.skip(i + 1));
            assert(spreads@.skip(i as int)[0] == spreads@[i as int]);
        }
        if str_eq(spreads[i].filename.as_str(), filename) {
            return Some(&spreads[i]);
        }
        i = i + 1;
    }
    None
}

/// The entry of the favourite-pages list for one favourite of a stored book: the
/// book's title and kind, the page's stored size, and the spread that starts at the
/// page, if any.  `pages` are the paths the book lists (empty where its list does not
/// parse), `spreads` the book's spreads where they could be loaded.
pub fn favorite_page_item(
    fav: &page_favorites::Model,
    book: &book_files::Model,
    pages: &Vec<String>,
    meta: &Vec<PageMeta>,
    spreads: Option<&Vec<page_spreads::Model>>,
) -> (r: FavoritePageItem)
    ensures
        r.book_id@ == fav.book_id@,
        r.book_title@ == display_title_spec(book@),
        r.book_type@ == book.kind@,
        r.filename@ == fav.filename@,
        (r.w, r.h) == ({
            let i = favorite_page_index(book.kind@, pages@, fav.filename@);
            meta_dims(meta@, i)
        }),
        opt_view(r.next_file) == match spreads {
            Some(s) => match spread_for(s@, fav.filename@) {
                Some(sp) => Some(sp.next_file@),
                None => None,
            },
            None => None,
        },
        opt_view(r.direction) == match spreads {
            Some(s) => match spread_for(s@, fav.filename@) {
                Some(sp) => Some(sp.direction@),
                None => None,
            },
            None => None,
        },
{
    let index: usize = if is_pdf_kind(book.kind.as_str()) {
        let n = match parse_usize(fav.filename.as_str()) {
            Some(x) => x,
            None => 1,
        };
        if n == 0 {
            0
        } else {
            n - 1
        }
    } else {
        match find_page_by_name(pages, fav.filename.as_str()) {
            Some(i) => i,
            None => 0,
        }
    };
    let (w, h) = dims_at(meta, index);
    let spread = match spreads {
        Some(s) => find_spread(s, fav.filename.as_str()),
        None => None,
    };
    let next_file = match spread {
        Some(sp) => Some(sp.next_file.clone()),
        None => None,
    };
    let direction = match spread {
        Some(sp) => Some(sp.direction.clone()),
        None => None,
    };
    FavoritePageItem {
        book_id: fav.book_id.clone(),
        book_title: display_title(book),
        book_type: book.kind.clone(),
        filename: fav.filename.clone(),
        w,
        h,
        next_file,
        direction,
    }
}

} // verus!
