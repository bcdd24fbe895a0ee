//! What the database synchronisation decides: the difference between the database and
//! a scan, the rows to insert and their parents, the change report, the category tree
//! and the descendants of a category.

use crate::domain::{book_files, categories, libraries};
use crate::paths::{file_name, parent, path_file_name, path_parent};
use crate::scanner::types::{opt_view, BookView, CachedBookMetadata, ScannedBookFile, ScanResult, copy_opt};
use crate::sorting::{lemma_sorted_items_from, stable_sort_by_key, stably_sorted};
use crate::text::{str_eq, strip_prefix};
use vstd::utf8::encode_utf8;
use vstd::prelude::*;

verus! {

pub struct DatabaseData {
    pub libraries: Vec<libraries::Model>,
    pub categories: Vec<categories::Model>,
    pub book_files: Vec<book_files::Model>,
}

pub struct DatabaseSnapshot {
    pub libraries: Vec<libraries::Model>,
    pub categories: Vec<categories::Model>,
    pub book_files: Vec<book_files::Model>,
}

pub struct CategoryNode {
    pub id: i64,
    pub name: String,
    pub path: String,
    pub book_count: usize,
    pub sub_categories: Vec<CategoryNode>,
}

/// What must change in the database to match a scan.
pub struct DiffData {
    pub new_library_paths: Vec<String>,
    pub deleted_library_ids: Vec<i64>,
    pub new_category_paths: Vec<String>,
    pub deleted_category_ids: Vec<i64>,
    pub new_book_file_paths: Vec<String>,
    pub deleted_book_file_ids: Vec<i64>,
    pub updated_book_files: Vec<book_files::Model>,
}

pub struct LibraryChangeDetail {
    pub path: String,
    pub name: String,
}

pub struct CategoryChangeDetail {
    pub path: String,
    pub name: String,
    pub library_path: Option<String>,
    pub parent_path: Option<String>,
}

pub struct BookChangeDetail {
    pub path: String,
    pub title: String,
    pub category_path: Option<String>,
}

pub struct SyncReport {
    pub inserted_libraries: usize,
    pub deleted_libraries: usize,
    pub inserted_categories: usize,
    pub deleted_categories: usize,
    pub inserted_book_files: usize,
    pub deleted_book_files: usize,
    pub updated_book_files: usize,
    pub inserted_library_details: Vec<LibraryChangeDetail>,
    pub deleted_library_details: Vec<LibraryChangeDetail>,
    pub inserted_category_details: Vec<CategoryChangeDetail>,
    pub deleted_category_details: Vec<CategoryChangeDetail>,
    pub inserted_book_file_details: Vec<BookChangeDetail>,
    pub deleted_book_file_details: Vec<BookChangeDetail>,
    pub updated_book_file_details: Vec<BookChangeDetail>,
}

/// The file path of a database URL: the URL without a leading `sqlite://` or, failing
/// that, `sqlite:`.
pub open spec fn sqlite_path_spec(url: Seq<char>) -> Seq<char> {
    if "sqlite://"@.is_prefix_of(url) {
        url.skip("sqlite://"@.len() as int)
    } else if "sqlite:"@.is_prefix_of(url) {
        url.skip("sqlite:"@.len() as int)
    } else {
        url
    }
}

pub fn normalize_sqlite_path(database_url: &str) -> (r: String)
    ensures
        r@ == sqlite_path_spec(database_url@),
{
    match strip_prefix(database_url, "sqlite://") {
        Some(rest) => rest,
        None => match strip_prefix(database_url, "sqlite:") {
            Some(rest) => rest,
            None => String::from_str(database_url),
        },
    }
}

/// The name shown for a path: its file name, else the path itself.
pub open spec fn path_name_spec(path: Seq<char>) -> Seq<char> {
    match path_file_name(path) {
        Some(n) => n,
        None => path,
    }
}

pub fn path_name(path: &str) -> (r: String)
    ensures
        r@ == path_name_spec(path@),
{
    match file_name(path) {
        Some(n) => n,
        None => String::from_str(path),
    }
}

/// The title shown for a book: its title, else the name of its path.
pub open spec fn title_spec(title: Option<Seq<char>>, path: Seq<char>) -> Seq<char> {
    match title {
        Some(t) => t,
        None => path_name_spec(path),
    }
}

pub fn display_book_title(book: &book_files::Model) -> (r: String)
    ensures
        r@ == title_spec(opt_view(book.title), book.path@),
{
    match &book.title {
        Some(t) => t.clone(),
        None => path_name(book.path.as_str()),
    }
}

pub fn scanned_book_title(book: &ScannedBookFile) -> (r: String)
    ensures
        r@ == title_spec(opt_view(book.title), book.path@),
{
    match &book.title {
        Some(t) => t.clone(),
        None => path_name(book.path.as_str()),
    }
}

/// A scanned book differs from its row in what the scan measures: time, size, pages,
/// signature or pixel statistics.
pub open spec fn requires_update_spec(db: book_files::ModelView, s: BookView) -> bool {
    ||| db.mtime != s.mtime
    ||| db.size != s.size
    ||| db.page_count != s.page_count
    ||| db.pages_json != s.pages_json
    ||| db.content_signature != s.content_signature
    ||| db.is_oversized != s.is_oversized
    ||| db.avg_page_pixels != s.avg_page_pixels
}

fn opt_str_eq(a: &Option<String>, b: &Option<String>) -> (r: bool)
    ensures
        r == (opt_view(*a) == opt_view(*b)),
{
    match (a, b) {
        (Some(x), Some(y)) => str_eq(x.as_str(), y.as_str()),
        (None, None) => true,
        _ => false,
    }
}

pub fn book_requires_update(db_book: &book_files::Model, scanned_book: &ScannedBookFile) -> (r: bool)
    ensures
        r == requires_update_spec(db_book@, scanned_book@),
{
    db_book.mtime != scanned_book.mtime || db_book.size != scanned_book.size || db_book.page_count
        != scanned_book.page_count || !opt_str_eq(&db_book.pages_json, &scanned_book.pages_json)
        || !opt_str_eq(&db_book.content_signature, &scanned_book.content_signature)
        || db_book.is_oversized != scanned_book.is_oversized || db_book.avg_page_pixels
        != scanned_book.avg_page_pixels
}

/// What a scan may reuse of a stored book.
pub fn to_cached_metadata(book: &book_files::Model) -> (r: CachedBookMetadata)
    ensures
        r@ == (BookView {
            path: book@.path,
            title: book@.title,
            kind: book@.kind,
            size: book@.size,
            mtime: book@.mtime,
            page_count: book@.page_count,
            pages_json: book@.pages_json,
            content_signature: book@.content_signature,
            is_oversized: book@.is_oversized,
            avg_page_pixels: book@.avg_page_pixels,
            cover_path: book@.cover_path,
        }),
{
    CachedBookMetadata {
        path: book.path.clone(),
        title: copy_opt(&book.title),
        kind: book.kind.clone(),
        size: book.size,
        mtime: book.mtime,
        page_count: book.page_count,
        pages_json: copy_opt(&book.pages_json),
        content_signature: copy_opt(&book.content_signature),
        is_oversized: book.is_oversized,
        avg_page_pixels: book.avg_page_pixels,
        cover_path: copy_opt(&book.cover_path),
    }
}

impl book_files::Model {
    pub fn copy(&self) -> (r: book_files::Model)
        ensures
            r == *self,
    {
        book_files::Model {
            id: self.id,
            category_id: self.category_id,
            path: self.path.clone(),
            title: copy_opt(&self.title),
            kind: self.kind.clone(),
            size: self.size,
            mtime: self.mtime,
            page_count: self.page_count,
            pages_json: copy_opt(&self.pages_json),
            content_signature: copy_opt(&self.content_signature),
            is_oversized: self.is_oversized,
            avg_page_pixels: self.avg_page_pixels,
            is_favorite: self.is_favorite,
            cover_path: copy_opt(&self.cover_path),
            created_at: copy_opt(&self.created_at),
        }
    }

    /// The row with its favourite flag set to `is_favorite` and everything else kept.
    pub fn with_favorite(&self, is_favorite: bool) -> (r: book_files::Model)
        ensures
            r@ == (book_files::ModelView { is_favorite, ..self@ }),
    {
        let mut r = self.copy();
        r.is_favorite = is_favorite;
        r
    }
}

impl categories::Model {
    pub fn copy(&self) -> (r: categories::Model)
        ensures
            r == *self,
    {
        categories::Model {
            id: self.id,
            library_id: self.library_id,
            parent_id: self.parent_id,
            name: self.name.clone(),
            path: self.path.clone(),
            mtime: self.mtime,
        }
    }
}

/// The sort key of a path by its length in bytes (`String::len`).
pub open spec fn len_key(p: Seq<char>) -> i64 {
    let n = encode_utf8(p).len() as usize;
    if n <= i64::MAX {
        n as i64
    } else {
        i64::MAX
    }
}

/// The sort key that orders paths by length in bytes, longest first.
pub open spec fn rev_len_key(p: Seq<char>) -> i64 {
    (-len_key(p)) as i64
}

fn len_key_of(p: &str) -> (r: i64)
    ensures
        r == len_key(p@),
{
    let n = p.len();
    if (n as u64) <= 9223372036854775807u64 {
        n as i64
    } else {
        9223372036854775807i64
    }
}

/// Each path paired with its length key.
pub open spec fn keyed_by_len(s: Seq<String>) -> Seq<(i64, String)> {
    s.map_values(|p: String| (len_key(p@), p))
}

pub open spec fn seq_contains_view(v: Seq<String>, p: Seq<char>) -> bool {
    exists|i: int| 0 <= i < v.len() && #[trigger] v[i]@ == p
}

fn contains_path(v: &Vec<String>, p: &str) -> (r: bool)
    ensures
        r == seq_contains_view(v@, p@),
{
    let mut i: usize = 0;
    while i < v.len()
        invariant
            0 <= i <= v.len(),
            forall|k: int| 0 <= k < i ==> v@[k]@ != p@,
        decreases v.len() - i,
    {
        if str_eq(v[i].as_str(), p) {
            return true;
        }
        i = i + 1;
    }
    false
}

/// The paths of `s` that `set` does not hold, in order.
pub open spec fn paths_not_in(s: Seq<String>, set: Seq<String>) -> Seq<String>
    decreases s.len(),
{
    if s.len() == 0 {
        Seq::empty()
    } else {
        let r = paths_not_in(s.drop_last(), set);
        if seq_contains_view(set, s.last()@) {
            r
        } else {
            r.push(s.last())
        }
    }
}

pub open spec fn library_roots(libs: Seq<libraries::Model>) -> Seq<String> {
    libs.map_values(|l: libraries::Model| l.root_path)
}

pub open spec fn category_paths(cats: Seq<categories::Model>) -> Seq<String> {
    cats.map_values(|c: categories::Model| c.path)
}

pub open spec fn scanned_category_paths(cats: Seq<crate::scanner::types::ScannedCategory>) -> Seq<String> {
    cats.map_values(|c: crate::scanner::types::ScannedCategory| c.path)
}

pub open spec fn book_paths(books: Seq<book_files::Model>) -> Seq<String> {
    books.map_values(|b: book_files::Model| b.path)
}

pub open spec fn scanned_book_paths(books: Seq<ScannedBookFile>) -> Seq<String> {
    books.map_values(|b: ScannedBookFile| b.path)
}

/// Ids of the libraries whose root path `set` does not hold.
pub open spec fn libraries_not_in(libs: Seq<libraries::Model>, set: Seq<String>) -> Seq<i64>
    decreases libs.len(),
{
    if libs.len() == 0 {
        Seq::empty()
    } else {
        let r = libraries_not_in(libs.drop_last(), set);
        if seq_contains_view(set, libs.last().root_path@) {
            r
        } else {
            r.push(libs.last().id)
        }
    }
}

/// (Sort key, id) of the categories whose path `set` does not hold, in order.
pub open spec fn categories_not_in(cats: Seq<categories::Model>, set: Seq<String>) -> Seq<(i64, i64)>
    decreases cats.len(),
{
    if cats.len() == 0 {
        Seq::empty()
    } else {
        let r = categories_not_in(cats.drop_last(), set);
        if seq_contains_view(set, cats.last().path@) {
            r
        } else {
            r.push((rev_len_key(cats.last().path@), cats.last().id))
        }
    }
}

/// Ids of the books whose path `set` does not hold.
pub open spec fn books_not_in(books: Seq<book_files::Model>, set: Seq<String>) -> Seq<i64>
    decreases books.len(),
{
    if books.len() == 0 {
        Seq::empty()
    } else {
        let r = books_not_in(books.drop_last(), set);
        if seq_contains_view(set, books.last().path@) {
            r
        } else {
            r.push(books.last().id)
        }
    }
}

/// The last row whose path is `p` (the one a map built from the rows keeps).
pub open spec fn last_book_with_path(books: Seq<book_files::Model>, p: Seq<char>) -> Option<book_files::Model>
    decreases books.len(),
{
    if books.len() == 0 {
        None
    } else if books.last().path@ == p {
        Some(books.last())
    } else {
        last_book_with_path(books.drop_last(), p)
    }
}

/// The row that replaces `db` after a scan found `s` at its path: what the scan
/// measures comes from `s`, the title from `s` where it has one, the rest from `db`.
pub open spec fn merged_update(db: book_files::ModelView, s: BookView) -> book_files::ModelView {
    book_files::ModelView {
        id: db.id,
        category_id: db.category_id,
        path: s.path,
        title: match s.title {
            Some(t) => Some(t),
            None => db.title,
        },
        kind: s.kind,
        size: s.size,
        mtime: s.mtime,
        page_count: s.page_count,
        pages_json: s.pages_json,
        content_signature: s.content_signature,
        is_oversized: s.is_oversized,
        avg_page_pixels: s.avg_page_pixels,
        is_favorite: db.is_favorite,
        cover_path: db.cover_path,
        created_at: db.created_at,
    }
}

/// The rows to update: for each scanned book, in scan order, whose path the database
/// holds and which differs from that row.
pub open spec fn updated_books(scan: Seq<ScannedBookFile>, db: Seq<book_files::Model>) -> Seq<book_files::ModelView>
    decreases scan.len(),
{
    if scan.len() == 0 {
        Seq::empty()
    } else {
        let r = updated_books(scan.drop_last(), db);
        let b = scan.last();
        match last_book_with_path(db, b.path@) {
            Some(d) => if requires_update_spec(d@, b@) {
                r.push(merged_update(d@, b@))
            } else {
                r
            },
            None => r,
        }
    }
}

fn strings_not_in(s: &Vec<String>, set: &Vec<String>) -> (r: Vec<String>)
    ensures
        r@ == paths_not_in(s@, set@),
{
    let mut r: Vec<String> = Vec::new();
    let mut i: usize = 0;
    while i < s.len()
        invariant
            0 <= i <= s.len(),
            r@ == paths_not_in(s@.subrange(0, i as int), set@),
        decreases s.len() - i,
    {
        proof {
            assert(s@.subrange(0, i + 1).drop_last() =~= s@.subrange(0, i as int));
        }
        if !contains_path(set, s[i].as_str()) {
            r.push(s[i].clone());
        }
        assert(r@ =~= paths_not_in(s@.subrange(0, i + 1), set@));
        i = i + 1;
    }
    assert(s@.subrange(0, i as int) =~= s@);
    r
}

fn root_paths_of(libs: &Vec<libraries::Model>) -> (r: Vec<String>)
    ensures
        r@ == library_roots(libs@),
{
    let mut r: Vec<String> = Vec::new();
    let mut i: usize = 0;
    while i < libs.len()
        invariant
            0 <= i <= libs.len(),
            r@ == library_roots(libs@).subrange(0, i as int),
        decreases libs.len() - i,
    {
        r.push(libs[i].root_path.clone());
        i = i + 1;
        assert(r@ =~= library_roots(libs@).subrange(0, i as int));
    }
    assert(library_roots(libs@).subrange(0, i as int) =~= library_roots(libs@));
    r
}

fn category_paths_of(cats: &Vec<categories::Model>) -> (r: Vec<String>)
    ensures
        r@ == category_paths(cats@),
{
    let mut r: Vec<String> = Vec::new();
    let mut i: usize = 0;
    while i < cats.len()
        invariant
            0 <= i <= cats.len(),
            r@ == category_paths(cats@).subrange(0, i as int),
        decreases cats.len() - i,
    {
        r.push(cats[i].path.clone());
        i = i + 1;
        assert(r@ =~= category_paths(cats@).subrange(0, i as int));
    }
    assert(category_paths(cats@).subrange(0, i as int) =~= category_paths(cats@));
    r
}

fn scanned_category_paths_of(cats: &Vec<crate::scanner::types::ScannedCategory>) -> (r: Vec<String>)
    ensures
        r@ == scanned_category_paths(cats@),
{
    let mut r: Vec<String> = Vec::new();
    let mut i: usize = 0;
    while i < cats.len()
        invariant
            0 <= i <= cats.len(),
            r@ == scanned_category_paths(cats@).subrange(0, i as int),
        decreases cats.len() - i,
    {
        r.push(cats[i].path.clone());
        i = i + 1;
        assert(r@ =~= scanned_category_paths(cats@).subrange(0, i as int));
    }
    assert(scanned_category_paths(cats@).subrange(0, i as int) =~= scanned_category_paths(cats@));
    r
}

fn book_paths_of(books: &Vec<book_files::Model>) -> (r: Vec<String>)
    ensures
        r@ == book_paths(books@),
{
    let mut r: Vec<String> = Vec::new();
    let mut i: usize = 0;
    while i < books.len()
        invariant
            0 <= i <= books.len(),
            r@ == book_paths(books@).subrange(0, i as int),
        decreases books.len() - i,
    {
        r.push(books[i].path.clone());
        i = i + 1;
        assert(r@ =~= book_paths(books@).subrange(0, i as int));
    }
    assert(book_paths(books@).subrange(0, i as int) =~= book_paths(books@));
    r
}

fn scanned_book_paths_of(books: &Vec<ScannedBookFile>) -> (r: Vec<String>)
    ensures
        r@ == scanned_book_paths(books@),
{
    let mut r: Vec<String> = Vec::new();
    let mut i: usize = 0;
    while i < books.len()
        invariant
            0 <= i <= books.len(),
            r@ == scanned_book_paths(books@).subrange(0, i as int),
        decreases books.len() - i,
    {
        r.push(books[i].path.clone());
        i = i + 1;
        assert(r@ =~= scanned_book_paths(books@).subrange(0, i as int));
    }
    assert(scanned_book_paths(books@).subrange(0, i as int) =~= scanned_book_paths(books@));
    r
}

fn find_last_book<'b>(books: &'b Vec<book_files::Model>, p: &str) -> (r: Option<&'b book_files::Model>)
    ensures
        match r {
            Some(b) => last_book_with_path(books@, p@) == Some(*b),
            None => last_book_with_path(books@, p@) is None,
        },
{
    let mut i: usize = books.len();
    assert(books@.subrange(0, i as int) =~= books@);
    while i > 0
        invariant
            0 <= i <= books.len(),
            last_book_with_path(books@, p@) == last_book_with_path(books@.subrange(0, i as int), p@),
        decreases i,
    {
        let ghost pre = books@.subrange(0, i as int);
        assert(pre.drop_last() =~= books@.subrange(0, i - 1));
        assert(pre.last() == books@[i - 1]);
        if str_eq(books[i - 1].path.as_str(), p) {
            return Some(&books[i - 1]);
        }
        i = i - 1;
    }
    None
}

fn merge_update(db: &book_files::Model, b: &ScannedBookFile) -> (r: book_files::Model)
    ensures
        r@ == merged_update(db@, b@),
{
    book_files::Model {
        id: db.id,
        category_id: db.category_id,
        path: b.path.clone(),
        title: match &b.title {
            Some(t) => Some(t.clone()),
            None => copy_opt(&db.title),
        },
        kind: b.kind.clone(),
        size: b.size,
        mtime: b.mtime,
        page_count: b.page_count,
        pages_json: copy_opt(&b.pages_json),
        content_signature: copy_opt(&b.content_signature),
        is_oversized: b.is_oversized,
        avg_page_pixels: b.avg_page_pixels,
        is_favorite: db.is_favorite,
        cover_path: copy_opt(&db.cover_path),
        created_at: copy_opt(&db.created_at),
    }
}

/// What must change in the database to match a scan: the configured scan paths that
/// have no library, the libraries whose root is no longer configured, the scanned
/// categories that have no row (shortest path first, so parents come before their
/// children), the category rows the scan no longer found (longest path first), the
/// scanned books that have no row, the book rows the scan no longer found, and the
/// rows of books whose scanned measurements changed.
pub fn compute_diff(scan_paths: &Vec<String>, db_data: &DatabaseData, scan_data: &ScanResult) -> (r: DiffData)
    ensures
        r.new_library_paths@ == paths_not_in(scan_paths@, library_roots(db_data.libraries@)),
        r.deleted_library_ids@ == libraries_not_in(db_data.libraries@, scan_paths@),
        exists|sorted: Seq<(i64, String)>|
            #[trigger] stably_sorted(
                sorted,
                keyed_by_len(paths_not_in(
                    scanned_category_paths(scan_data.categories@),
                    category_paths(db_data.categories@),
                )),
            ) && r.new_category_paths@ == sorted.map_values(|x: (i64, String)| x.1),
        forall|a: int, b: int|
            0 <= a < b < r.new_category_paths@.len() ==> len_key(#[trigger] r.new_category_paths@[a]@) <= len_key(
                #[trigger] r.new_category_paths@[b]@,
            ),
        exists|sorted: Seq<(i64, i64)>|
            #[trigger] stably_sorted(
                sorted,
                categories_not_in(
                    db_data.categories@,
                    scanned_category_paths(scan_data.categories@),
                ),
            ) && r.deleted_category_ids@ == sorted.map_values(|x: (i64, i64)| x.1),
        r.new_book_file_paths@ == paths_not_in(
            scanned_book_paths(scan_data.book_files@),
            book_paths(db_data.book_files@),
        ),
        r.deleted_book_file_ids@ == books_not_in(
            db_data.book_files@,
            scanned_book_paths(scan_data.book_files@),
        ),
        book_files::models_view(r.updated_book_files@) == updated_books(
            scan_data.book_files@,
            db_data.book_files@,
        ),
{
    let db_roots = root_paths_of(&db_data.libraries);
    let new_library_paths = strings_not_in(scan_paths, &db_roots);

    let mut deleted_library_ids: Vec<i64> = Vec::new();
    let mut i: usize = 0;
    while i < db_data.libraries.len()
        invariant
            0 <= i <= db_data.libraries.len(),
            deleted_library_ids@ == libraries_not_in(db_data.libraries@.subrange(0, i as int), scan_paths@),
        decreases db_data.libraries.len() - i,
    {
        proof {
            assert(db_data.libraries@.subrange(0, i + 1).drop_last() =~= db_data.libraries@.subrange(0, i as int));
        }
        if !contains_path(scan_paths, db_data.libraries[i].root_path.as_str()) {
            deleted_library_ids.push(db_data.libraries[i].id);
        }
        i = i + 1;
    }
    assert(db_data.libraries@.subrange(0, i as int) =~= db_data.libraries@);

    let db_category_paths = category_paths_of(&db_data.categories);
    let scan_category_paths = scanned_category_paths_of(&scan_data.categories);
    let new_categories = strings_not_in(&scan_category_paths, &db_category_paths);
    let mut keyed: Vec<(i64, String)> = Vec::new();
    let mut i: usize = 0;
    while i < new_categories.len()
        invariant
            0 <= i <= new_categories.len(),
            keyed@ == keyed_by_len(new_categories@.subrange(0, i as int)),
        decreases new_categories.len() - i,
    {
        let p = new_categories[i].clone();
        let k = len_key_of(p.as_str());
        keyed.push((k, p));
        i = i + 1;
        assert(keyed@ =~= keyed_by_len(new_categories@.subrange(0, i as int)));
    }
    assert(new_categories@.subrange(0, i as int) =~= new_categories@);
    let ghost keyed_src = keyed@;
    let sorted = stable_sort_by_key(keyed);
    let mut new_category_paths: Vec<String> = Vec::new();
    let mut i: usize = 0;
    while i < sorted.len()
        invariant
            0 <= i <= sorted.len(),
            new_category_paths@ == sorted@.subrange(0, i as int).map_values(|x: (i64, String)| x.1),
        decreases sorted.len() - i,
    {
        new_category_paths.push(sorted[i].1.clone());
        i = i + 1;
        assert(new_category_paths@ =~= sorted@.subrange(0, i as int).map_values(|x: (i64, String)| x.1));
    }
    assert(sorted@.subrange(0, i as int) =~= sorted@);
    proof {
        lemma_sorted_items_from(sorted@, keyed_src);
        assert forall|k: int| 0 <= k < sorted@.len() implies (#[trigger] sorted@[k]).0 == len_key(sorted@[k].1@) by {
            let x = sorted@[k];
            assert(keyed_src.contains(x));
            let m = choose|m: int| 0 <= m < keyed_src.len() && keyed_src[m] == x;
            assert(keyed_src[m] == (len_key(new_categories@[m]@), new_categories@[m]));
        }
        assert forall|a: int, b: int| 0 <= a < b < new_category_paths@.len() implies len_key(
            #[trigger] new_category_paths@[a]@,
        ) <= len_key(#[trigger] new_category_paths@[b]@) by {
            assert(new_category_paths@[a] == sorted@[a].1);
            assert(new_category_paths@[b] == sorted@[b].1);
            assert(sorted@[a].0 <= sorted@[b].0);
        }
    }

    let mut deleted_keyed: Vec<(i64, i64)> = Vec::new();
    let mut i: usize = 0;
    while i < db_data.categories.len()
        invariant
            0 <= i <= db_data.categories.len(),
            scan_category_paths@ == scanned_category_paths(scan_data.categories@),
            deleted_keyed@ == categories_not_in(db_data.categories@.subrange(0, i as int), scan_category_paths@),
        decreases db_data.categories.len() - i,
    {
        proof {
            assert(db_data.categories@.subrange(0, i + 1).drop_last() =~= db_data.categories@.subrange(0, i as int));
        }
        let c = &db_data.categories[i];
        if !contains_path(&scan_category_paths, c.path.as_str()) {
            let k = len_key_of(c.path.as_str());
            deleted_keyed.push((-k, c.id));
        }
        i = i + 1;
    }
    assert(db_data.categories@.subrange(0, i as int) =~= db_data.categories@);
    let deleted_sorted = stable_sort_by_key(deleted_keyed);
    let mut deleted_category_ids: Vec<i64> = Vec::new();
    let mut i: usize = 0;
    while i < deleted_sorted.len()
        invariant
            0 <= i <= deleted_sorted.len(),
            deleted_category_ids@ == deleted_sorted@.subrange(0, i as int).map_values(|x: (i64, i64)| x.1),
        decreases deleted_sorted.len() - i,
    {
        deleted_category_ids.push(deleted_sorted[i].1);
        i = i + 1;
        assert(deleted_category_ids@ =~= deleted_sorted@.subrange(0, i as int).map_values(|x: (i64, i64)| x.1));
    }
    assert(deleted_sorted@.subrange(0, i as int) =~= deleted_sorted@);

    let db_book_paths = book_paths_of(&db_data.book_files);
    let scan_book_paths = scanned_book_paths_of(&scan_data.book_files);
    let new_book_file_paths = strings_not_in(&scan_book_paths, &db_book_paths);

    let mut deleted_book_file_ids: Vec<i64> = Vec::new();
    let mut i: usize = 0;
    while i < db_data.book_files.len()
        invariant
            0 <= i <= db_data.book_files.len(),
            scan_book_paths@ == scanned_book_paths(scan_data.book_files@),
            deleted_book_file_ids@ == books_not_in(db_data.book_files@.subrange(0, i as int), scan_book_paths@),
        decreases db_data.book_files.len() - i,
    {
        proof {
            assert(db_data.book_files@.subrange(0, i + 1).drop_last() =~= db_data.book_files@.subrange(0, i as int));
        }
        if !contains_path(&scan_book_paths, db_data.book_files[i].path.as_str()) {
            deleted_book_file_ids.push(db_data.book_files[i].id);
        }
        i = i + 1;
    }
    assert(db_data.book_files@.subrange(0, i as int) =~= db_data.book_files@);

    let mut updated_book_files: Vec<book_files::Model> = Vec::new();
    let mut i: usize = 0;
    while i < scan_data.book_files.len()
        invariant
            0 <= i <= scan_data.book_files.len(),
            book_files::models_view(updated_book_files@) == updated_books(
                scan_data.book_files@.subrange(0, i as int),
                db_data.book_files@,
            ),
        decreases scan_data.book_files.len() - i,
    {
        proof {
            assert(scan_data.book_files@.subrange(0, i + 1).drop_last() =~= scan_data.book_files@.subrange(0, i as int));
        }
        let b = &scan_data.book_files[i];
        match find_last_book(&db_data.book_files, b.path.as_str()) {
            Some(d) => {
                if book_requires_update(d, b) {
                    updated_book_files.push(merge_update(d, b));
                }
            },
            None => {},
        }
        assert(book_files::models_view(updated_book_files@) =~= updated_books(
            scan_data.book_files@.subrange(0, i + 1),
            db_data.book_files@,
        ));
        i = i + 1;
    }
    assert(scan_data.book_files@.subrange(0, i as int) =~= scan_data.book_files@);

    DiffData {
        new_library_paths,
        deleted_library_ids,
        new_category_paths,
        deleted_category_ids,
        new_book_file_paths,
        deleted_book_file_ids,
        updated_book_files,
    }
}


/// The categories whose parent is `id`, in order.
pub open spec fn children_of(cats: Seq<categories::Model>, id: i64) -> Seq<categories::Model>
    decreases cats.len(),
{
    if cats.len() == 0 {
        Seq::empty()
    } else {
        let r = children_of(cats.drop_last(), id);
        if cats.last().parent_id == Some(id) {
            r.push(cats.last())
        } else {
            r
        }
    }
}

/// The categories without a parent, in order.
pub open spec fn roots_of(cats: Seq<categories::Model>) -> Seq<categories::Model>
    decreases cats.len(),
{
    if cats.len() == 0 {
        Seq::empty()
    } else {
        let r = roots_of(cats.drop_last());
        if cats.last().parent_id is None {
            r.push(cats.last())
        } else {
            r
        }
    }
}

/// The number of books in the category `id`.
pub open spec fn count_books(books: Seq<book_files::Model>, id: i64) -> nat
    decreases books.len(),
{
    if books.len() == 0 {
        0
    } else if books.last().category_id == id {
        count_books(books.drop_last(), id) + 1
    } else {
        count_books(books.drop_last(), id)
    }
}

/// `n` is the tree node of category `c`, down to `depth` levels of sub-categories:
/// its id, name and path are the category's, its count the number of books in it, and
/// its sub-categories the nodes of the category's children, in order.
pub open spec fn node_of(
    n: CategoryNode,
    c: categories::Model,
    cats: Seq<categories::Model>,
    books: Seq<book_files::Model>,
    depth: nat,
) -> bool
    decreases depth, 0nat,
{
    &&& n.id == c.id
    &&& n.name@ == c.name@
    &&& n.path@ == c.path@
    &&& n.book_count == count_books(books, c.id)
    &&& if depth == 0 {
        n.sub_categories@.len() == 0
    } else {
        nodes_of(n.sub_categories@, children_of(cats, c.id), cats, books, (depth - 1) as nat)
    }
}

/// `ns` are the tree nodes of the categories `cs`, one for one, in order.
pub open spec fn nodes_of(
    ns: Seq<CategoryNode>,
    cs: Seq<categories::Model>,
    cats: Seq<categories::Model>,
    books: Seq<book_files::Model>,
    depth: nat,
) -> bool
    decreases depth, ns.len() + 1,
{
    &&& ns.len() == cs.len()
    &&& ns.len() > 0 ==> {
        &&& nodes_of(ns.drop_last(), cs.drop_last(), cats, books, depth)
        &&& node_of(ns.last(), cs.last(), cats, books, depth)
    }
}

proof fn lemma_count_books_le(books: Seq<book_files::Model>, id: i64)
    ensures
        count_books(books, id) <= books.len(),
    decreases books.len(),
{
    if books.len() > 0 {
        lemma_count_books_le(books.drop_last(), id);
    }
}

fn count_books_in(books: &Vec<book_files::Model>, id: i64) -> (r: usize)
    ensures
        r == count_books(books@, id),
{
    let mut n: usize = 0;
    let mut i: usize = 0;
    while i < books.len()
        invariant
            0 <= i <= books.len(),
            n == count_books(books@.subrange(0, i as int), id),
        decreases books.len() - i,
    {
        proof {
            assert(books@.subrange(0, i + 1).drop_last() =~= books@.subrange(0, i as int));
            lemma_count_books_le(books@.subrange(0, i as int), id);
        }
        if books[i].category_id == id {
            n = n + 1;
        }
        i = i + 1;
    }
    assert(books@.subrange(0, i as int) =~= books@);
    n
}

fn build_node(
    c: &categories::Model,
    cats: &Vec<categories::Model>,
    books: &Vec<book_files::Model>,
    depth: usize,
) -> (r: CategoryNode)
    ensures
        node_of(r, *c, cats@, books@, depth as nat),
    decreases depth,
{
    let mut subs: Vec<CategoryNode> = Vec::new();
    if depth > 0 {
        let mut i: usize = 0;
        while i < cats.len()
            invariant
                0 <= i <= cats.len(),
                depth > 0,
                nodes_of(subs@, children_of(cats@.subrange(0, i as int), c.id), cats@, books@, (depth - 1) as nat),
            decreases cats.len() - i,
        {
            let ghost pre = cats@.subrange(0, i as int);
            let ghost old_subs = subs@;
            proof {
                assert(cats@.subrange(0, i + 1).drop_last() =~= pre);
                assert(cats@.subrange(0, i + 1).last() == cats@[i as int]);
            }
            let is_child = match cats[i].parent_id {
                Some(p) => p == c.id,
                None => false,
            };
            if is_child {
                let child = build_node(&cats[i], cats, books, depth - 1);
                subs.push(child);
                proof {
                    assert(subs@.drop_last() =~= old_subs);
                    assert(children_of(cats@.subrange(0, i + 1), c.id).drop_last() =~= children_of(pre, c.id));
                }
            }
            i = i + 1;
        }
        assert(cats@.subrange(0, i as int) =~= cats@);
    }
    let count = count_books_in(books, c.id);
    CategoryNode {
        id: c.id,
        name: c.name.clone(),
        path: c.path.clone(),
        book_count: count,
        sub_categories: subs,
    }
}

/// The category forest: a node for each category without a parent, in order, each
/// with the nodes of its children below it, as deep as there are categories.
pub fn build_category_tree(categories: &Vec<categories::Model>, books: &Vec<book_files::Model>) -> (r: Vec<
    CategoryNode,
>)
    ensures
        nodes_of(r@, roots_of(categories@), categories@, books@, categories@.len()),
{
    let mut r: Vec<CategoryNode> = Vec::new();
    let mut i: usize = 0;
    while i < categories.len()
        invariant
            0 <= i <= categories.len(),
            nodes_of(r@, roots_of(categories@.subrange(0, i as int)), categories@, books@, categories@.len()),
        decreases categories.len() - i,
    {
        let ghost pre = categories@.subrange(0, i as int);
        let ghost old_r = r@;
        proof {
            assert(categories@.subrange(0, i + 1).drop_last() =~= pre);
            assert(categories@.subrange(0, i + 1).last() == categories@[i as int]);
        }
        if categories[i].parent_id.is_none() {
            let node = build_node(&categories[i], categories, books, categories.len());
            r.push(node);
            proof {
                assert(r@.drop_last() =~= old_r);
                assert(roots_of(categories@.subrange(0, i + 1)).drop_last() =~= roots_of(pre));
            }
        }
        i = i + 1;
    }
    assert(categories@.subrange(0, i as int) =~= categories@);
    r
}

/// Every id of `r` after the first is the id of a category whose parent stands
/// earlier in `r`.
pub open spec fn each_reached(r: Seq<i64>, cats: Seq<categories::Model>) -> bool {
    forall|k: int|
        #![trigger r[k]]
        1 <= k < r.len() ==> exists|j: int, c: int|
            #![trigger cats[c], r[j]]
            0 <= j < k && 0 <= c < cats.len() && cats[c].id == r[k] && cats[c].parent_id == Some(r[j])
}

/// Every category whose parent is in `r` is in `r`.
pub open spec fn closed_under_children(r: Seq<i64>, cats: Seq<categories::Model>) -> bool {
    forall|j: int, c: int|
        0 <= j < r.len() && 0 <= c < cats.len() && #[trigger] cats[c].parent_id == Some(#[trigger] r[j])
            ==> r.contains(cats[c].id)
}

proof fn lemma_distinct_bounded(r: Seq<i64>, ids: Seq<i64>)
    requires
        r.no_duplicates(),
        forall|k: int| 0 <= k < r.len() ==> ids.contains(#[trigger] r[k]),
    ensures
        r.len() <= ids.len(),
{
    r.unique_seq_to_set();
    ids.lemma_cardinality_of_set();
    assert(r.to_set().subset_of(ids.to_set())) by {
        assert forall|x: i64| r.to_set().contains(x) implies ids.to_set().contains(x) by {
            let k = choose|k: int| 0 <= k < r.len() && r[k] == x;
        }
    }
    vstd::set_lib::lemma_len_subset(r.to_set(), ids.to_set());
}

fn contains_id(v: &Vec<i64>, x: i64) -> (r: bool)
    ensures
        r == v@.contains(x),
{
    let mut i: usize = 0;
    while i < v.len()
        invariant
            0 <= i <= v.len(),
            forall|k: int| 0 <= k < i ==> v@[k] != x,
        decreases v.len() - i,
    {
        if v[i] == x {
            assert(v@[i as int] == x);
            return true;
        }
        i = i + 1;
    }
    false
}

/// `r` followed by the ids of the categories of `cats` whose parent is `current`, in
/// the order of `cats`, each one that `r` does not hold yet.
pub open spec fn append_children(cats: Seq<categories::Model>, r: Seq<i64>, current: i64) -> Seq<i64>
    decreases cats.len(),
{
    if cats.len() == 0 {
        r
    } else {
        let r1 = append_children(cats.drop_last(), r, current);
        if cats.last().parent_id == Some(current) && !r1.contains(cats.last().id) {
            r1.push(cats.last().id)
        } else {
            r1
        }
    }
}

/// The queue `r` after visiting its entries from position `i` on, at most `steps` of
/// them: each visit appends the children of the visited id.
pub open spec fn visit_queue(cats: Seq<categories::Model>, r: Seq<i64>, i: nat, steps: nat) -> Seq<i64>
    decreases steps,
{
    if steps == 0 || i >= r.len() {
        r
    } else {
        visit_queue(cats, append_children(cats, r, r[i as int]), i + 1, (steps - 1) as nat)
    }
}

/// The ids reached from `id` breadth first: `id`, then the children of each reached id
/// in turn, in the order of `cats`, each id once. No more than `cats.len() + 1` ids can
/// be reached, so as many visits reach them all.
pub open spec fn breadth_first_ids(cats: Seq<categories::Model>, id: i64) -> Seq<i64> {
    visit_queue(cats, seq![id], 0, cats.len() + 1)
}

/// The ids of `category_id` and of all categories below it, each once, starting with
/// `category_id` and going down level by level.
#[verifier::rlimit(80)]
#[verifier::spinoff_prover]
pub fn collect_descendant_category_ids(category_id: i64, categories: &Vec<categories::Model>) -> (r: Vec<i64>)
    ensures
        r@ == breadth_first_ids(categories@, category_id),
        r@.len() >= 1,
        r@[0] == category_id,
        r@.no_duplicates(),
        each_reached(r@, categories@),
        closed_under_children(r@, categories@),
{
    let ghost cats = categories@;
    let ghost ids = seq![category_id] + cats.map_values(|c: categories::Model| c.id);
    let mut result: Vec<i64> = Vec::new();
    result.push(category_id);
    let mut index: usize = 0;
    proof {
        assert(ids[0] == category_id);
    }
    while index < result.len()
        invariant
            cats == categories@,
            ids == seq![category_id] + cats.map_values(|c: categories::Model| c.id),
            result@.len() >= 1,
            result@[0] == category_id,
            result@.no_duplicates(),
            forall|k: int| 0 <= k < result@.len() ==> ids.contains(#[trigger] result@[k]),
            each_reached(result@, cats),
            0 <= index <= result@.len(),
            index <= cats.len() + 1,
            breadth_first_ids(cats, category_id) == visit_queue(
                cats,
                result@,
                index as nat,
                (cats.len() + 1 - index) as nat,
            ),
            forall|j: int, c: int|
                0 <= j < index && 0 <= c < cats.len() && #[trigger] cats[c].parent_id == Some(#[trigger] result@[j])
                    ==> result@.contains(cats[c].id),
        decreases cats.len() + 1 - index,
    {
        proof {
            lemma_distinct_bounded(result@, ids);
        }
        let current = result[index];
        let ghost before = result@;
        let mut c: usize = 0;
        while c < categories.len()
            invariant
                cats == categories@,
                ids == seq![category_id] + cats.map_values(|c: categories::Model| c.id),
                0 <= index < before.len(),
                current == before[index as int],
                result@.len() >= before.len(),
                result@.subrange(0, before.len() as int) == before,
                result@[0] == category_id,
                result@.no_duplicates(),
                forall|k: int| 0 <= k < result@.len() ==> ids.contains(#[trigger] result@[k]),
                each_reached(result@, cats),
                forall|j: int, c2: int|
                    0 <= j < index && 0 <= c2 < cats.len() && #[trigger] cats[c2].parent_id == Some(
                        #[trigger] before[j],
                    ) ==> result@.contains(cats[c2].id),
                0 <= c <= cats.len(),
                result@ == append_children(cats.subrange(0, c as int), before, current),
                forall|c2: int|
                    0 <= c2 < c && #[trigger] cats[c2].parent_id == Some(current) ==> result@.contains(cats[c2].id),
            decreases cats.len() - c,
        {
            proof {
                assert(cats.subrange(0, c + 1).drop_last() =~= cats.subrange(0, c as int));
                assert(cats.subrange(0, c + 1).last() == cats[c as int]);
            }
            let is_child = match categories[c].parent_id {
                Some(p) => p == current,
                None => false,
            };
            if is_child {
                let id = categories[c].id;
                if !contains_id(&result, id) {
                    let ghost prev = result@;
                    result.push(id);
                    proof {
                        assert(result@.subrange(0, before.len() as int) =~= before) by {
                            assert(prev.subrange(0, before.len() as int) == before);
                        }
                        assert forall|k: int| 0 <= k < result@.len() implies ids.contains(#[trigger] result@[k]) by {
                            if k == result@.len() - 1 {
                                assert(ids[c as int + 1] == cats[c as int].id);
                            } else {
                                assert(result@[k] == prev[k]);
                            }
                        }
                        assert forall|k: int| #![trigger result@[k]] 1 <= k < result@.len() implies exists|j: int, c3: int|
                            #![trigger cats[c3], result@[j]]
                            0 <= j < k && 0 <= c3 < cats.len() && cats[c3].id == result@[k]
                                && cats[c3].parent_id == Some(result@[j]) by {
                            if k == result@.len() - 1 {
                                assert(cats[c as int].id == result@[k]);
                                assert(result@[index as int] == current);
                                assert(cats[c as int].parent_id == Some(result@[index as int]));
                            } else {
                                assert(result@[k] == prev[k]);
                                let (j, c3) = choose|j: int, c3: int|
                                    #![trigger cats[c3], prev[j]]
                                    0 <= j < k && 0 <= c3 < cats.len() && cats[c3].id == prev[k]
                                        && cats[c3].parent_id == Some(prev[j]);
                                assert(result@[j] == prev[j]);
                                assert(cats[c3].id == result@[k]);
                            }
                        }
                        assert forall|x: int, y: int| 0 <= x < y < result@.len() implies result@[x] != result@[y] by {
                            if y == result@.len() - 1 {
                                assert(result@[x] == prev[x]);
                                assert(prev.contains(prev[x]));
                            }
                        }
                        assert forall|j: int, c2: int|
                            0 <= j < index && 0 <= c2 < cats.len() && #[trigger] cats[c2].parent_id == Some(
                                #[trigger] before[j],
                            ) implies result@.contains(cats[c2].id) by {
                            assert(prev.contains(cats[c2].id));
                            let k = choose|k: int| 0 <= k < prev.len() && prev[k] == cats[c2].id;
                            assert(result@[k] == prev[k]);
                        }
                        assert forall|c2: int|
                            0 <= c2 < c + 1 && #[trigger] cats[c2].parent_id == Some(current) implies result@.contains(
                                cats[c2].id,
                            ) by {
                            if c2 == c {
                                assert(result@[result@.len() - 1] == id);
                            } else {
                                assert(prev.contains(cats[c2].id));
                                let k = choose|k: int| 0 <= k < prev.len() && prev[k] == cats[c2].id;
                                assert(result@[k] == prev[k]);
                            }
                        }
                    }
                }
            }
            c = c + 1;
        }
        proof {
            assert(cats.subrange(0, cats.len() as int) =~= cats);
            assert(result@ == append_children(cats, before, current));
            assert(visit_queue(cats, before, index as nat, (cats.len() + 1 - index) as nat) == visit_queue(
                cats,
                result@,
                (index + 1) as nat,
                (cats.len() + 1 - (index + 1)) as nat,
            ));
            assert forall|j: int, c2: int|
                0 <= j < index + 1 && 0 <= c2 < cats.len() && #[trigger] cats[c2].parent_id == Some(
                    #[trigger] result@[j],
                ) implies result@.contains(cats[c2].id) by {
                assert(result@[j] == before[j]) by {
                    assert(result@.subrange(0, before.len() as int)[j] == before[j]);
                }
            }
        }
        index = index + 1;
    }
    result
}

/// The books whose category is one of `ids`, in order.
pub open spec fn books_in(books: Seq<book_files::Model>, ids: Seq<i64>) -> Seq<book_files::Model>
    decreases books.len(),
{
    if books.len() == 0 {
        Seq::empty()
    } else {
        let r = books_in(books.drop_last(), ids);
        if ids.contains(books.last().category_id) {
            r.push(books.last())
        } else {
            r
        }
    }
}

/// The books of `books` whose category is one of `ids`, in order.
pub fn books_in_categories(books: Vec<book_files::Model>, ids: &Vec<i64>) -> (r: Vec<book_files::Model>)
    ensures
        r@ == books_in(books@, ids@),
{
    let mut r: Vec<book_files::Model> = Vec::new();
    let mut i: usize = 0;
    while i < books.len()
        invariant
            0 <= i <= books.len(),
            r@ == books_in(books@.subrange(0, i as int), ids@),
        decreases books.len() - i,
    {
        proof {
            assert(books@.subrange(0, i + 1).drop_last() =~= books@.subrange(0, i as int));
        }
        if contains_id(ids, books[i].category_id) {
            r.push(books[i].copy());
        }
        i = i + 1;
    }
    assert(books@.subrange(0, i as int) =~= books@);
    r
}

/// The bounds of the connection pool: at least one connection at most, and at most
/// as many at least.
pub fn connection_bounds(max_connections: u32, min_connections: u32) -> (r: (u32, u32))
    ensures
        r.0 == if max_connections < 1 {
            1
        } else {
            max_connections
        },
        r.1 == if min_connections > r.0 {
            r.0
        } else {
            min_connections
        },
        r.1 <= r.0,
{
    let max = if max_connections < 1 {
        1
    } else {
        max_connections
    };
    let min = if min_connections > max {
        max
    } else {
        min_connections
    };
    (max, min)
}

/// The URL the database is opened with: `sqlite:` and the file path.
pub fn sqlite_file_url(path: &str) -> (r: String)
    ensures
        r@ == "sqlite:"@ + path@,
{
    let mut r = String::from_str("sqlite:");
    r.append(path);
    r
}

proof fn lemma_paths_not_in_empty(s: Seq<String>, set: Seq<String>)
    requires
        forall|i: int| 0 <= i < s.len() ==> seq_contains_view(set, #[trigger] s[i]@),
    ensures
        paths_not_in(s, set) == Seq::<String>::empty(),
    decreases s.len(),
{
    if s.len() > 0 {
        lemma_paths_not_in_empty(s.drop_last(), set);
        assert(seq_contains_view(set, s[s.len() - 1]@));
    }
}

proof fn lemma_libraries_not_in_empty(libs: Seq<libraries::Model>, set: Seq<String>)
    requires
        forall|i: int| 0 <= i < libs.len() ==> seq_contains_view(set, #[trigger] libs[i].root_path@),
    ensures
        libraries_not_in(libs, set) == Seq::<i64>::empty(),
    decreases libs.len(),
{
    if libs.len() > 0 {
        lemma_libraries_not_in_empty(libs.drop_last(), set);
        assert(seq_contains_view(set, libs[libs.len() - 1].root_path@));
    }
}

proof fn lemma_categories_not_in_empty(cats: Seq<categories::Model>, set: Seq<String>)
    requires
        forall|i: int| 0 <= i < cats.len() ==> seq_contains_view(set, #[trigger] cats[i].path@),
    ensures
        categories_not_in(cats, set) == Seq::<(i64, i64)>::empty(),
    decreases cats.len(),
{
    if cats.len() > 0 {
        assert forall|i: int| 0 <= i < cats.drop_last().len() implies seq_contains_view(
            set,
            #[trigger] cats.drop_last()[i].path@,
        ) by {
            assert(cats.drop_last()[i] == cats[i]);
        }
        lemma_categories_not_in_empty(cats.drop_last(), set);
        assert(seq_contains_view(set, cats[cats.len() - 1].path@));
    }
}

proof fn lemma_books_not_in_empty(books: Seq<book_files::Model>, set: Seq<String>)
    requires
        forall|i: int| 0 <= i < books.len() ==> seq_contains_view(set, #[trigger] books[i].path@),
    ensures
        books_not_in(books, set) == Seq::<i64>::empty(),
    decreases books.len(),
{
    if books.len() > 0 {
        lemma_books_not_in_empty(books.drop_last(), set);
        assert(seq_contains_view(set, books[books.len() - 1].path@));
    }
}

/// No stored book differs from the scanned book at its path in what a scan measures.
pub open spec fn no_book_changed(scan: Seq<ScannedBookFile>, db: Seq<book_files::Model>) -> bool {
    forall|i: int|
        0 <= i < scan.len() ==> match last_book_with_path(db, (#[trigger] scan[i]).path@) {
            Some(d) => !requires_update_spec(d@, scan[i]@),
            None => true,
        }
}

proof fn lemma_updated_books_empty(scan: Seq<ScannedBookFile>, db: Seq<book_files::Model>)
    requires
        no_book_changed(scan, db),
    ensures
        updated_books(scan, db) == Seq::<book_files::ModelView>::empty(),
    decreases scan.len(),
{
    if scan.len() > 0 {
        assert(no_book_changed(scan.drop_last(), db)) by {
            assert forall|i: int| 0 <= i < scan.drop_last().len() implies match last_book_with_path(
                db,
                (#[trigger] scan.drop_last()[i]).path@,
            ) {
                Some(d) => !requires_update_spec(d@, scan.drop_last()[i]@),
                None => true,
            } by {
                assert(scan.drop_last()[i] == scan[i]);
            }
        }
        lemma_updated_books_empty(scan.drop_last(), db);
        assert(scan.last() == scan[scan.len() - 1]);
    }
}

proof fn lemma_sorted_empty<T>(r: Seq<(i64, T)>)
    requires
        stably_sorted(r, Seq::<(i64, T)>::empty()),
    ensures
        r.len() == 0,
{
    if r.len() > 0 {
        lemma_sorted_items_from(r, Seq::<(i64, T)>::empty());
        assert(Seq::<(i64, T)>::empty().contains(r[0]));
    }
}

/// Every path of `a` is a path of `b`.
pub open spec fn all_paths_in(a: Seq<String>, b: Seq<String>) -> bool {
    forall|i: int| 0 <= i < a.len() ==> seq_contains_view(b, #[trigger] a[i]@)
}

/// Where the database already holds what a scan found (every configured path has a
/// library and every library root is configured, the stored and the scanned
/// categories have the same paths, so have the books, and no stored book differs from
/// its scanned one in what a scan measures), the diff adds, deletes and updates
/// nothing: a synchronisation followed by a scan of unchanged files is a fixed point.
pub proof fn law_matching_database_needs_no_change(scan_paths: Seq<String>, db: DatabaseData, scan: ScanResult)
    requires
        all_paths_in(scan_paths, library_roots(db.libraries@)),
        all_paths_in(library_roots(db.libraries@), scan_paths),
        all_paths_in(scanned_category_paths(scan.categories@), category_paths(db.categories@)),
        all_paths_in(category_paths(db.categories@), scanned_category_paths(scan.categories@)),
        all_paths_in(scanned_book_paths(scan.book_files@), book_paths(db.book_files@)),
        all_paths_in(book_paths(db.book_files@), scanned_book_paths(scan.book_files@)),
        no_book_changed(scan.book_files@, db.book_files@),
    ensures
        paths_not_in(scan_paths, library_roots(db.libraries@)).len() == 0,
        libraries_not_in(db.libraries@, scan_paths).len() == 0,
        forall|sorted: Seq<(i64, String)>|
            #[trigger] stably_sorted(
                sorted,
                keyed_by_len(paths_not_in(
                    scanned_category_paths(scan.categories@),
                    category_paths(db.categories@),
                )),
            ) ==> sorted.len() == 0,
        forall|sorted: Seq<(i64, i64)>|
            #[trigger] stably_sorted(
                sorted,
                categories_not_in(db.categories@, scanned_category_paths(scan.categories@)),
            ) ==> sorted.len() == 0,
        paths_not_in(scanned_book_paths(scan.book_files@), book_paths(db.book_files@)).len() == 0,
        books_not_in(db.book_files@, scanned_book_paths(scan.book_files@)).len() == 0,
        updated_books(scan.book_files@, db.book_files@).len() == 0,
{
    lemma_paths_not_in_empty(scan_paths, library_roots(db.libraries@));
    assert forall|i: int| 0 <= i < db.libraries@.len() implies seq_contains_view(
        scan_paths,
        #[trigger] db.libraries@[i].root_path@,
    ) by {
        assert(library_roots(db.libraries@)[i] == db.libraries@[i].root_path);
    }
    lemma_libraries_not_in_empty(db.libraries@, scan_paths);
    let new_cats = paths_not_in(scanned_category_paths(scan.categories@), category_paths(db.categories@));
    lemma_paths_not_in_empty(scanned_category_paths(scan.categories@), category_paths(db.categories@));
    assert(keyed_by_len(new_cats) =~= Seq::<(i64, String)>::empty());
    assert forall|sorted: Seq<(i64, String)>| #[trigger] stably_sorted(sorted, keyed_by_len(new_cats)) implies sorted.len()
        == 0 by {
        lemma_sorted_empty(sorted);
    }
    assert forall|i: int| 0 <= i < db.categories@.len() implies seq_contains_view(
        scanned_category_paths(scan.categories@),
        #[trigger] db.categories@[i].path@,
    ) by {
        assert(category_paths(db.categories@)[i] == db.categories@[i].path);
    }
    lemma_categories_not_in_empty(db.categories@, scanned_category_paths(scan.categories@));
    assert forall|sorted: Seq<(i64, i64)>|
        #[trigger] stably_sorted(
            sorted,
            categories_not_in(db.categories@, scanned_category_paths(scan.categories@)),
        ) implies sorted.len() == 0 by {
        lemma_sorted_empty(sorted);
    }
    lemma_paths_not_in_empty(scanned_book_paths(scan.book_files@), book_paths(db.book_files@));
    assert forall|i: int| 0 <= i < db.book_files@.len() implies seq_contains_view(
        scanned_book_paths(scan.book_files@),
        #[trigger] db.book_files@[i].path@,
    ) by {
        assert(book_paths(db.book_files@)[i] == db.book_files@[i].path);
    }
    lemma_books_not_in_empty(db.book_files@, scanned_book_paths(scan.book_files@));
    lemma_updated_books_empty(scan.book_files@, db.book_files@);
}

/// No two categories share an id (the id is the primary key).
pub open spec fn unique_ids(cats: Seq<categories::Model>) -> bool {
    forall|i: int, j: int| 0 <= i < cats.len() && 0 <= j < cats.len() && cats[i].id == cats[j].id ==> i == j
}

/// `ch` is a path down the category tree: it starts at a category without a parent,
/// each next one is a child of the one before, and all are categories of `cats`.
pub open spec fn is_descent(cats: Seq<categories::Model>, ch: Seq<categories::Model>) -> bool {
    &&& ch.len() >= 1
    &&& ch[0].parent_id is None
    &&& forall|i: int| 0 <= i < ch.len() ==> cats.contains(#[trigger] ch[i])
    &&& forall|i: int| 0 < i < ch.len() ==> (#[trigger] ch[i]).parent_id == Some(ch[i - 1].id)
}

proof fn lemma_same_id_same_row(cats: Seq<categories::Model>, x: categories::Model, y: categories::Model)
    requires
        unique_ids(cats),
        cats.contains(x),
        cats.contains(y),
        x.id == y.id,
    ensures
        x == y,
{
    let a = choose|a: int| 0 <= a < cats.len() && cats[a] == x;
    let b = choose|b: int| 0 <= b < cats.len() && cats[b] == y;
    assert(cats[a].id == cats[b].id);
}

proof fn lemma_descent_distinct(cats: Seq<categories::Model>, ch: Seq<categories::Model>, i: int, j: int)
    requires
        unique_ids(cats),
        is_descent(cats, ch),
        0 <= i < j < ch.len(),
    ensures
        ch[i] != ch[j],
    decreases i,
{
    if ch[i] == ch[j] {
        assert(ch[j].parent_id == Some(ch[j - 1].id));
        if i > 0 {
            assert(ch[i].parent_id == Some(ch[i - 1].id));
            assert(cats.contains(ch[i - 1]));
            assert(cats.contains(ch[j - 1]));
            lemma_same_id_same_row(cats, ch[i - 1], ch[j - 1]);
            lemma_descent_distinct(cats, ch, i - 1, j - 1);
        }
    }
}

/// Where no two categories share an id, every descent in the category tree holds at
/// most as many categories as there are: no category lies `categories.len()` levels
/// below a root, so the tree that `build_category_tree` builds that deep is never cut
/// short.
pub proof fn law_category_tree_depth_bounded(cats: Seq<categories::Model>, ch: Seq<categories::Model>)
    requires
        unique_ids(cats),
        is_descent(cats, ch),
    ensures
        ch.len() <= cats.len(),
{
    assert(ch.no_duplicates()) by {
        assert forall|i: int, j: int| 0 <= i < ch.len() && 0 <= j < ch.len() && i != j implies ch[i] != ch[j] by {
            if i < j {
                lemma_descent_distinct(cats, ch, i, j);
            } else {
                lemma_descent_distinct(cats, ch, j, i);
            }
        }
    }
    ch.unique_seq_to_set();
    cats.lemma_cardinality_of_set();
    assert(ch.to_set().subset_of(cats.to_set())) by {
        assert forall|x: categories::Model| ch.to_set().contains(x) implies cats.to_set().contains(x) by {
            let k = choose|k: int| 0 <= k < ch.len() && ch[k] == x;
            assert(cats.contains(ch[k]));
        }
    }
    vstd::set_lib::lemma_len_subset(ch.to_set(), cats.to_set());
}

proof fn lemma_count_books_is_filter(books: Seq<book_files::Model>, id: i64)
    ensures
        count_books(books, id) == books.filter(|b: book_files::Model| b.category_id == id).len(),
    decreases books.len(),
{
    reveal(Seq::filter);
    if books.len() > 0 {
        lemma_count_books_is_filter(books.drop_last(), id);
    }
}

/// A node of the category tree counts every book whose category is the node's
/// category, whatever else the book holds: its count is the number of books in the list
/// whose `category_id` is the node's id.
pub proof fn law_node_counts_every_book_of_its_category(
    n: CategoryNode,
    c: categories::Model,
    cats: Seq<categories::Model>,
    books: Seq<book_files::Model>,
    depth: nat,
)
    requires
        node_of(n, c, cats, books, depth),
    ensures
        n.id == c.id,
        n.book_count == books.filter(|b: book_files::Model| b.category_id == c.id).len(),
{
    lemma_count_books_is_filter(books, c.id);
}

/// The books listed for a set of categories are exactly the books whose category is
/// one of the ids, whichever position it has among them, in the order of the list:
/// the books of `books` kept by the test "`ids` contains its `category_id`".
pub proof fn law_books_in_categories_are_those_with_a_listed_category(
    books: Seq<book_files::Model>,
    ids: Seq<i64>,
)
    ensures
        books_in(books, ids) == books.filter(|b: book_files::Model| ids.contains(b.category_id)),
    decreases books.len(),
{
    reveal(Seq::filter);
    if books.len() > 0 {
        law_books_in_categories_are_those_with_a_listed_category(books.drop_last(), ids);
    }
}

} // verus!
