//! The decisions a database synchronisation takes row by row: which library and parent
//! a new category belongs to, which category a new book goes into, and what the change
//! report says of each inserted, updated and deleted row.  The database calls that sit
//! between these decisions belong to the caller, who hands back the ids they produce.

use crate::domain::{book_files, categories, libraries};
use crate::paths::{file_name, parent, path_file_name, path_parent};
use crate::scanner::types::{opt_view, BookView, ScannedBookFile, ScannedCategory};
use crate::service::database::{
    display_book_title, path_name, path_name_spec, scanned_book_title, title_spec,
    BookChangeDetail, CategoryChangeDetail, DatabaseData, LibraryChangeDetail, SyncReport,
};
use crate::text::{str_eq, strip_prefix};
use vstd::utf8::encode_utf8;
use vstd::prelude::*;

verus! {

/// The length of a string in bytes (`str::len`).
pub open spec fn byte_len(s: Seq<char>) -> usize {
    encode_utf8(s).len() as usize
}

/// A path-to-id map as the pairs put into it, in order.
pub open spec fn ids_view(m: Seq<(String, i64)>) -> Seq<(Seq<char>, i64)> {
    m.map_values(|e: (String, i64)| (e.0@, e.1))
}

/// The id the map holds for `k`: the one put in last for it.
pub open spec fn map_get(m: Seq<(Seq<char>, i64)>, k: Seq<char>) -> Option<i64>
    decreases m.len(),
{
    if m.len() == 0 {
        None
    } else if m.last().0 == k {
        Some(m.last().1)
    } else {
        map_get(m.drop_last(), k)
    }
}

/// The entry whose path is the longest prefix of `p`, counted in bytes; among entries
/// of equal length the one put in last.
pub open spec fn longest_prefix_entry(m: Seq<(Seq<char>, i64)>, p: Seq<char>) -> Option<(Seq<char>, i64)>
    decreases m.len(),
{
    if m.len() == 0 {
        None
    } else {
        let r = longest_prefix_entry(m.drop_last(), p);
        let e = m.last();
        if e.0.is_prefix_of(p) && (match r {
            Some(b) => byte_len(b.0) <= byte_len(e.0),
            None => true,
        }) {
            Some(e)
        } else {
            r
        }
    }
}

/// The library whose root is the longest prefix of `p`, counted in bytes; among roots
/// of equal length the last one.
pub open spec fn longest_prefix_library(libs: Seq<libraries::Model>, p: Seq<char>) -> Option<libraries::Model>
    decreases libs.len(),
{
    if libs.len() == 0 {
        None
    } else {
        let r = longest_prefix_library(libs.drop_last(), p);
        let l = libs.last();
        if l.root_path@.is_prefix_of(p) && (match r {
            Some(b) => byte_len(b.root_path@) <= byte_len(l.root_path@),
            None => true,
        }) {
            Some(l)
        } else {
            r
        }
    }
}

/// The first category whose path is `p`.
pub open spec fn first_category_with_path(cats: Seq<categories::Model>, p: Seq<char>) -> Option<categories::Model>
    decreases cats.len(),
{
    if cats.len() == 0 {
        None
    } else if cats[0].path@ == p {
        Some(cats[0])
    } else {
        first_category_with_path(cats.drop_first(), p)
    }
}

/// The last category whose id is `id` (the one a map built from the rows keeps).
pub open spec fn last_category_with_id(cats: Seq<categories::Model>, id: i64) -> Option<categories::Model>
    decreases cats.len(),
{
    if cats.len() == 0 {
        None
    } else if cats.last().id == id {
        Some(cats.last())
    } else {
        last_category_with_id(cats.drop_last(), id)
    }
}

/// The last library whose id is `id`.
pub open spec fn last_library_with_id(libs: Seq<libraries::Model>, id: i64) -> Option<libraries::Model>
    decreases libs.len(),
{
    if libs.len() == 0 {
        None
    } else if libs.last().id == id {
        Some(libs.last())
    } else {
        last_library_with_id(libs.drop_last(), id)
    }
}

/// The last book whose id is `id`.
pub open spec fn last_book_with_id(books: Seq<book_files::Model>, id: i64) -> Option<book_files::Model>
    decreases books.len(),
{
    if books.len() == 0 {
        None
    } else if books.last().id == id {
        Some(books.last())
    } else {
        last_book_with_id(books.drop_last(), id)
    }
}

/// The first scanned category whose path is `p`.
pub open spec fn first_scanned_category(cats: Seq<ScannedCategory>, p: Seq<char>) -> Option<ScannedCategory>
    decreases cats.len(),
{
    if cats.len() == 0 {
        None
    } else if cats[0].path@ == p {
        Some(cats[0])
    } else {
        first_scanned_category(cats.drop_first(), p)
    }
}

/// The first scanned book whose path is `p`.
pub open spec fn first_scanned_book(books: Seq<ScannedBookFile>, p: Seq<char>) -> Option<ScannedBookFile>
    decreases books.len(),
{
    if books.len() == 0 {
        None
    } else if books[0].path@ == p {
        Some(books[0])
    } else {
        first_scanned_book(books.drop_first(), p)
    }
}

/// The root of the library a category path belongs to: the longest matching root
/// among the libraries inserted in this run, else among the stored ones, else empty.
pub open spec fn library_path_spec(
    p: Seq<char>,
    library_ids: Seq<(Seq<char>, i64)>,
    libs: Seq<libraries::Model>,
) -> Seq<char> {
    match longest_prefix_entry(library_ids, p) {
        Some(e) => e.0,
        None => match longest_prefix_library(libs, p) {
            Some(l) => l.root_path@,
            None => Seq::empty(),
        },
    }
}

/// The id of the library a category path belongs to, chosen as its root is.
pub open spec fn library_id_spec(
    p: Seq<char>,
    library_ids: Seq<(Seq<char>, i64)>,
    libs: Seq<libraries::Model>,
) -> Option<i64> {
    match longest_prefix_entry(library_ids, p) {
        Some(e) => Some(e.1),
        None => match longest_prefix_library(libs, p) {
            Some(l) => Some(l.id),
            None => None,
        },
    }
}

/// A category recorded in a run is found again by its path, with the id it was
/// recorded with, whatever was recorded before it: the books planned after it go into
/// it.
pub proof fn law_recorded_category_is_found(
    category_ids: Seq<(Seq<char>, i64)>,
    cats: Seq<categories::Model>,
    p: Seq<char>,
    id: i64,
)
    ensures
        category_id_for(category_ids.push((p, id)), cats, p) == Some(id),
        category_known(category_ids.push((p, id)), cats, p),
{
    assert(category_ids.push((p, id)).last() == (p, id));
}

/// Whether a category with path `p` is known: inserted in this run or stored.
pub open spec fn category_known(category_ids: Seq<(Seq<char>, i64)>, cats: Seq<categories::Model>, p: Seq<char>) -> bool {
    map_get(category_ids, p) is Some || first_category_with_path(cats, p) is Some
}

/// The category path of a new book: the book's own path where a category has it,
/// else the parent directory of the book.
pub open spec fn book_category_path_spec(
    p: Seq<char>,
    category_ids: Seq<(Seq<char>, i64)>,
    cats: Seq<categories::Model>,
) -> Option<Seq<char>> {
    if category_known(category_ids, cats, p) {
        Some(p)
    } else {
        path_parent(p)
    }
}

/// The id of the category with path `p`: the one inserted in this run, else the first
/// stored one.
pub open spec fn category_id_for(
    category_ids: Seq<(Seq<char>, i64)>,
    cats: Seq<categories::Model>,
    p: Seq<char>,
) -> Option<i64> {
    match map_get(category_ids, p) {
        Some(id) => Some(id),
        None => match first_category_with_path(cats, p) {
            Some(c) => Some(c.id),
            None => None,
        },
    }
}

/// The path of the stored category with id `id`, empty where there is none.
pub open spec fn category_path_spec(id: i64, cats: Seq<categories::Model>) -> Seq<char> {
    match last_category_with_id(cats, id) {
        Some(c) => c.path@,
        None => Seq::empty(),
    }
}

/// The name of a new library or category: the last component of its path, else
/// `Unnamed`.
pub open spec fn entry_name_spec(p: Seq<char>) -> Seq<char> {
    match path_file_name(p) {
        Some(n) => n,
        None => "Unnamed"@,
    }
}

pub fn entry_name(path: &str) -> (r: String)
    ensures
        r@ == entry_name_spec(path@),
{
    match file_name(path) {
        Some(n) => n,
        None => String::from_str("Unnamed"),
    }
}

fn str_byte_len(s: &str) -> (r: usize)
    ensures
        r == byte_len(s@),
{
    s.len()
}

fn is_prefix(prefix: &str, s: &str) -> (r: bool)
    ensures
        r == prefix@.is_prefix_of(s@),
{
    match strip_prefix(s, prefix) {
        Some(_) => true,
        None => false,
    }
}

/// The index of the entry `longest_prefix_entry` picks.
fn longest_prefix_index(m: &Vec<(String, i64)>, p: &str) -> (r: Option<usize>)
    ensures
        match r {
            Some(j) => j < m.len() && longest_prefix_entry(ids_view(m@), p@) == Some(ids_view(m@)[j as int]),
            None => longest_prefix_entry(ids_view(m@), p@) is None,
        },
{
    let ghost mv = ids_view(m@);
    let mut best: Option<usize> = None;
    let mut best_len: usize = 0;
    let mut i: usize = 0;
    while i < m.len()
        invariant
            mv == ids_view(m@),
            0 <= i <= m.len(),
            match best {
                Some(j) => j < i && longest_prefix_entry(mv.subrange(0, i as int), p@) == Some(mv[j as int])
                    && best_len == byte_len(mv[j as int].0),
                None => longest_prefix_entry(mv.subrange(0, i as int), p@) is None,
            },
        decreases m.len() - i,
    {
        proof {
            assert(mv.subrange(0, i + 1).drop_last() =~= mv.subrange(0, i as int));
            assert(mv.subrange(0, i + 1).last() == mv[i as int]);
        }
        let key = m[i].0.as_str();
        if is_prefix(key, p) {
            let n = str_byte_len(key);
            match best {
                Some(_) => {
                    if best_len <= n {
                        best = Some(i);
                        best_len = n;
                    }
                },
                None => {
                    best = Some(i);
                    best_len = n;
                },
            }
        }
        i = i + 1;
    }
    assert(mv.subrange(0, i as int) =~= mv);
    best
}

/// The index of the library `longest_prefix_library` picks.
fn longest_prefix_library_index(libs: &Vec<libraries::Model>, p: &str) -> (r: Option<usize>)
    ensures
        match r {
            Some(j) => j < libs.len() && longest_prefix_library(libs@, p@) == Some(libs@[j as int]),
            None => longest_prefix_library(libs@, p@) is None,
        },
{
    let mut best: Option<usize> = None;
    let mut best_len: usize = 0;
    let mut i: usize = 0;
    while i < libs.len()
        invariant
            0 <= i <= libs.len(),
            match best {
                Some(j) => j < i && longest_prefix_library(libs@.subrange(0, i as int), p@) == Some(libs@[j as int])
                    && best_len == byte_len(libs@[j as int].root_path@),
                None => longest_prefix_library(libs@.subrange(0, i as int), p@) is None,
            },
        decreases libs.len() - i,
    {
        proof {
            assert(libs@.subrange(0, i + 1).drop_last() =~= libs@.subrange(0, i as int));
            assert(libs@.subrange(0, i + 1).last() == libs@[i as int]);
        }
        let root = libs[i].root_path.as_str();
        if is_prefix(root, p) {
            let n = str_byte_len(root);
            match best {
                Some(_) => {
                    if best_len <= n {
                        best = Some(i);
                        best_len = n;
                    }
                },
                None => {
                    best = Some(i);
                    best_len = n;
                },
            }
        }
        i = i + 1;
    }
    assert(libs@.subrange(0, i as int) =~= libs@);
    best
}

fn map_lookup(m: &Vec<(String, i64)>, k: &str) -> (r: Option<i64>)
    ensures
        r == map_get(ids_view(m@), k@),
{
    let ghost mv = ids_view(m@);
    let mut i: usize = m.len();
    assert(mv.subrange(0, i as int) =~= mv);
    while i > 0
        invariant
            mv == ids_view(m@),
            0 <= i <= m.len(),
            map_get(mv, k@) == map_get(mv.subrange(0, i as int), k@),
        decreases i,
    {
        proof {
            assert(mv.subrange(0, i as int).drop_last() =~= mv.subrange(0, i - 1));
            assert(mv.subrange(0, i as int).last() == mv[i - 1]);
        }
        if str_eq(m[i - 1].0.as_str(), k) {
            return Some(m[i - 1].1);
        }
        i = i - 1;
    }
    None
}

fn find_category_by_path<'b>(cats: &'b Vec<categories::Model>, p: &str) -> (r: Option<&'b categories::Model>)
    ensures
        match r {
            Some(c) => first_category_with_path(cats@, p@) == Some(*c),
            None => first_category_with_path(cats@, p@) is None,
        },
{
    let mut i: usize = 0;
    assert(cats@.skip(0) =~= cats@);
    while i < cats.len()
        invariant
            0 <= i <= cats.len(),
            first_category_with_path(cats@, p@) == first_category_with_path(cats@.skip(i as int), p@),
        decreases cats.len() - i,
    {
        proof {
            assert(cats@.skip(i as int).drop_first() =~= cats@.skip(i + 1));
            assert(cats@.skip(i as int)[0] == cats@[i as int]);
        }
        if str_eq(cats[i].path.as_str(), p) {
            return Some(&cats[i]);
        }
        i = i + 1;
    }
    None
}

fn find_category_by_id<'b>(cats: &'b Vec<categories::Model>, id: i64) -> (r: Option<&'b categories::Model>)
    ensures
        match r {
            Some(c) => last_category_with_id(cats@, id) == Some(*c),
            None => last_category_with_id(cats@, id) is None,
        },
{
    let mut i: usize = cats.len();
    assert(cats@.subrange(0, i as int) =~= cats@);
    while i > 0
        invariant
            0 <= i <= cats.len(),
            last_category_with_id(cats@, id) == last_category_with_id(cats@.subrange(0, i as int), id),
        decreases i,
    {
        proof {
            assert(cats@.subrange(0, i as int).drop_last() =~= cats@.subrange(0, i - 1));
            assert(cats@.subrange(0, i as int).last() == cats@[i - 1]);
        }
        if cats[i - 1].id == id {
            return Some(&cats[i - 1]);
        }
        i = i - 1;
    }
    None
}

fn find_library_by_id<'b>(libs: &'b Vec<libraries::Model>, id: i64) -> (r: Option<&'b libraries::Model>)
    ensures
        match r {
            Some(l) => last_library_with_id(libs@, id) == Some(*l),
            None => last_library_with_id(libs@, id) is None,
        },
{
    let mut i: usize = libs.len();
    assert(libs@.subrange(0, i as int) =~= libs@);
    while i > 0
        invariant
            0 <= i <= libs.len(),
            last_library_with_id(libs@, id) == last_library_with_id(libs@.subrange(0, i as int), id),
        decreases i,
    {
        proof {
            assert(libs@.subrange(0, i as int).drop_last() =~= libs@.subrange(0, i - 1));
            assert(libs@.subrange(0, i as int).last() == libs@[i - 1]);
        }
        if libs[i - 1].id == id {
            return Some(&libs[i - 1]);
        }
        i = i - 1;
    }
    None
}

fn find_book_by_id<'b>(books: &'b Vec<book_files::Model>, id: i64) -> (r: Option<&'b book_files::Model>)
    ensures
        match r {
            Some(b) => last_book_with_id(books@, id) == Some(*b),
            None => last_book_with_id(books@, id) is None,
        },
{
    let mut i: usize = books.len();
    assert(books@.subrange(0, i as int) =~= books@);
    while i > 0
        invariant
            0 <= i <= books.len(),
            last_book_with_id(books@, id) == last_book_with_id(books@.subrange(0, i as int), id),
        decreases i,
    {
        proof {
            assert(books@.subrange(0, i as int).drop_last() =~= books@.subrange(0, i - 1));
            assert(books@.subrange(0, i as int).last() == books@[i - 1]);
        }
        if books[i - 1].id == id {
            return Some(&books[i - 1]);
        }
        i = i - 1;
    }
    None
}

fn find_scanned_category<'b>(cats: &'b Vec<ScannedCategory>, p: &str) -> (r: Option<&'b ScannedCategory>)
    ensures
        match r {
            Some(c) => first_scanned_category(cats@, p@) == Some(*c),
            None => first_scanned_category(cats@, p@) is None,
        },
{
    let mut i: usize = 0;
    assert(cats@.skip(0) =~= cats@);
    while i < cats.len()
        invariant
            0 <= i <= cats.len(),
            first_scanned_category(cats@, p@) == first_scanned_category(cats@.skip(i as int), p@),
        decreases cats.len() - i,
    {
        proof {
            assert(cats@.skip(i as int).drop_first() =~= cats@.skip(i + 1));
            assert(cats@.skip(i as int)[0] == cats@[i as int]);
        }
        if str_eq(cats[i].path.as_str(), p) {
            return Some(&cats[i]);
        }
        i = i + 1;
    }
    None
}

fn find_scanned_book<'b>(books: &'b Vec<ScannedBookFile>, p: &str) -> (r: Option<&'b ScannedBookFile>)
    ensures
        match r {
            Some(b) => first_scanned_book(books@, p@) == Some(*b),
            None => first_scanned_book(books@, p@) is None,
        },
{
    let mut i: usize = 0;
    assert(books@.skip(0) =~= books@);
    while i < books.len()
        invariant
            0 <= i <= books.len(),
            first_scanned_book(books@, p@) == first_scanned_book(books@.skip(i as int), p@),
        decreases books.len() - i,
    {
        proof {
            assert(books@.skip(i as int).drop_first() =~= books@.skip(i + 1));
            assert(books@.skip(i as int)[0] == books@[i as int]);
        }
        if str_eq(books[i].path.as_str(), p) {
            return Some(&books[i]);
        }
        i = i + 1;
    }
    None
}

/// The root of the library a category path belongs to (empty where none matches).
pub fn resolve_library_path(
    category_path: &str,
    library_ids: &Vec<(String, i64)>,
    libraries: &Vec<libraries::Model>,
) -> (r: String)
    ensures
        r@ == library_path_spec(category_path@, ids_view(library_ids@), libraries@),
{
    match longest_prefix_index(library_ids, category_path) {
        Some(j) => library_ids[j].0.clone(),
        None => match longest_prefix_library_index(libraries, category_path) {
            Some(j) => libraries[j].root_path.clone(),
            None => String::new(),
        },
    }
}

/// The category path of a new book.
pub fn resolve_book_category_path(
    book_path: &str,
    category_ids: &Vec<(String, i64)>,
    categories: &Vec<categories::Model>,
) -> (r: Option<String>)
    ensures
        opt_view(r) == book_category_path_spec(book_path@, ids_view(category_ids@), categories@),
{
    let known = match map_lookup(category_ids, book_path) {
        Some(_) => true,
        None => match find_category_by_path(categories, book_path) {
            Some(_) => true,
            None => false,
        },
    };
    if known {
        Some(String::from_str(book_path))
    } else {
        parent(book_path)
    }
}

/// The path of the stored category with id `category_id` (empty where there is none).
pub fn resolve_category_path(category_id: i64, categories: &Vec<categories::Model>) -> (r: String)
    ensures
        r@ == category_path_spec(category_id, categories@),
{
    match find_category_by_id(categories, category_id) {
        Some(c) => c.path.clone(),
        None => String::new(),
    }
}

pub struct LibraryChangeDetailView {
    pub path: Seq<char>,
    pub name: Seq<char>,
}

impl View for LibraryChangeDetail {
    type V = LibraryChangeDetailView;

    open spec fn view(&self) -> LibraryChangeDetailView {
        LibraryChangeDetailView { path: self.path@, name: self.name@ }
    }
}

pub struct CategoryChangeDetailView {
    pub path: Seq<char>,
    pub name: Seq<char>,
    pub library_path: Option<Seq<char>>,
    pub parent_path: Option<Seq<char>>,
}

impl View for CategoryChangeDetail {
    type V = CategoryChangeDetailView;

    open spec fn view(&self) -> CategoryChangeDetailView {
        CategoryChangeDetailView {
            path: self.path@,
            name: self.name@,
            library_path: opt_view(self.library_path),
            parent_path: opt_view(self.parent_path),
        }
    }
}

pub struct BookChangeDetailView {
    pub path: Seq<char>,
    pub title: Seq<char>,
    pub category_path: Option<Seq<char>>,
}

impl View for BookChangeDetail {
    type V = BookChangeDetailView;

    open spec fn view(&self) -> BookChangeDetailView {
        BookChangeDetailView {
            path: self.path@,
            title: self.title@,
            category_path: opt_view(self.category_path),
        }
    }
}

/// A change report with its details as sequences of plain values.
pub struct SyncReportView {
    pub inserted_libraries: usize,
    pub deleted_libraries: usize,
    pub inserted_categories: usize,
    pub deleted_categories: usize,
    pub inserted_book_files: usize,
    pub deleted_book_files: usize,
    pub updated_book_files: usize,
    pub inserted_library_details: Seq<LibraryChangeDetailView>,
    pub deleted_library_details: Seq<LibraryChangeDetailView>,
    pub inserted_category_details: Seq<CategoryChangeDetailView>,
    pub deleted_category_details: Seq<CategoryChangeDetailView>,
    pub inserted_book_file_details: Seq<BookChangeDetailView>,
    pub deleted_book_file_details: Seq<BookChangeDetailView>,
    pub updated_book_file_details: Seq<BookChangeDetailView>,
}

pub open spec fn library_details_view(v: Seq<LibraryChangeDetail>) -> Seq<LibraryChangeDetailView> {
    v.map_values(|d: LibraryChangeDetail| d@)
}

pub open spec fn category_details_view(v: Seq<CategoryChangeDetail>) -> Seq<CategoryChangeDetailView> {
    v.map_values(|d: CategoryChangeDetail| d@)
}

pub open spec fn book_details_view(v: Seq<BookChangeDetail>) -> Seq<BookChangeDetailView> {
    v.map_values(|d: BookChangeDetail| d@)
}

impl View for SyncReport {
    type V = SyncReportView;

    open spec fn view(&self) -> SyncReportView {
        SyncReportView {
            inserted_libraries: self.inserted_libraries,
            deleted_libraries: self.deleted_libraries,
            inserted_categories: self.inserted_categories,
            deleted_categories: self.deleted_categories,
            inserted_book_files: self.inserted_book_files,
            deleted_book_files: self.deleted_book_files,
            updated_book_files: self.updated_book_files,
            inserted_library_details: library_details_view(self.inserted_library_details@),
            deleted_library_details: library_details_view(self.deleted_library_details@),
            inserted_category_details: category_details_view(self.inserted_category_details@),
            deleted_category_details: category_details_view(self.deleted_category_details@),
            inserted_book_file_details: book_details_view(self.inserted_book_file_details@),
            deleted_book_file_details: book_details_view(self.deleted_book_file_details@),
            updated_book_file_details: book_details_view(self.updated_book_file_details@),
        }
    }
}

/// The report of a run that changed nothing.
pub open spec fn empty_report() -> SyncReportView {
    SyncReportView {
        inserted_libraries: 0,
        deleted_libraries: 0,
        inserted_categories: 0,
        deleted_categories: 0,
        inserted_book_files: 0,
        deleted_book_files: 0,
        updated_book_files: 0,
        inserted_library_details: Seq::empty(),
        deleted_library_details: Seq::empty(),
        inserted_category_details: Seq::empty(),
        deleted_category_details: Seq::empty(),
        inserted_book_file_details: Seq::empty(),
        deleted_book_file_details: Seq::empty(),
        updated_book_file_details: Seq::empty(),
    }
}

/// Each count of the report is the length of its list of details.
pub open spec fn counts_match_details(r: SyncReportView) -> bool {
    &&& r.inserted_libraries == r.inserted_library_details.len()
    &&& r.deleted_libraries == r.deleted_library_details.len()
    &&& r.inserted_categories == r.inserted_category_details.len()
    &&& r.deleted_categories == r.deleted_category_details.len()
    &&& r.inserted_book_files == r.inserted_book_file_details.len()
    &&& r.deleted_book_files == r.deleted_book_file_details.len()
    &&& r.updated_book_files == r.updated_book_file_details.len()
}

impl SyncReport {
    /// A report of a run that changed nothing.
    pub fn new() -> (r: SyncReport)
        ensures
            r@ == empty_report(),
            counts_match_details(r@),
    {
        let r = SyncReport {
            inserted_libraries: 0,
            deleted_libraries: 0,
            inserted_categories: 0,
            deleted_categories: 0,
            inserted_book_files: 0,
            deleted_book_files: 0,
            updated_book_files: 0,
            inserted_library_details: Vec::new(),
            deleted_library_details: Vec::new(),
            inserted_category_details: Vec::new(),
            deleted_category_details: Vec::new(),
            inserted_book_file_details: Vec::new(),
            deleted_book_file_details: Vec::new(),
            updated_book_file_details: Vec::new(),
        };
        assert(r@.inserted_library_details =~= Seq::empty());
        assert(r@.deleted_library_details =~= Seq::empty());
        assert(r@.inserted_category_details =~= Seq::empty());
        assert(r@.deleted_category_details =~= Seq::empty());
        assert(r@.inserted_book_file_details =~= Seq::empty());
        assert(r@.deleted_book_file_details =~= Seq::empty());
        assert(r@.updated_book_file_details =~= Seq::empty());
        r
    }
}

/// The row to insert for a new category.
pub struct CategoryInsert {
    pub library_id: i64,
    pub parent_id: Option<i64>,
    pub name: String,
    pub path: String,
    pub mtime: i64,
}

pub struct CategoryInsertView {
    pub library_id: i64,
    pub parent_id: Option<i64>,
    pub name: Seq<char>,
    pub path: Seq<char>,
    pub mtime: i64,
}

impl View for CategoryInsert {
    type V = CategoryInsertView;

    open spec fn view(&self) -> CategoryInsertView {
        CategoryInsertView {
            library_id: self.library_id,
            parent_id: self.parent_id,
            name: self.name@,
            path: self.path@,
            mtime: self.mtime,
        }
    }
}

/// The row to insert for a new book: the scanned book, the category it goes into and
/// that category's path.
pub struct BookInsert {
    pub category_id: i64,
    pub book: ScannedBookFile,
    pub category_path: Option<String>,
}

pub struct BookInsertView {
    pub category_id: i64,
    pub book: BookView,
    pub category_path: Option<Seq<char>>,
}

impl View for BookInsert {
    type V = BookInsertView;

    open spec fn view(&self) -> BookInsertView {
        BookInsertView {
            category_id: self.category_id,
            book: self.book@,
            category_path: opt_view(self.category_path),
        }
    }
}

/// What a new category is inserted as: `None` where no library root is a prefix of
/// its path (the category is skipped).  The parent is the category at the parent
/// directory, inserted in this run or stored; the time is the scanned one (0 where the
/// scan has none).
pub open spec fn category_insert_spec(
    p: Seq<char>,
    library_ids: Seq<(Seq<char>, i64)>,
    category_ids: Seq<(Seq<char>, i64)>,
    db: DatabaseData,
    scanned: Seq<ScannedCategory>,
) -> Option<CategoryInsertView> {
    match library_id_spec(p, library_ids, db.libraries@) {
        None => None,
        Some(library_id) => Some(CategoryInsertView {
            library_id,
            parent_id: match path_parent(p) {
                Some(pp) => category_id_for(category_ids, db.categories@, pp),
                None => None,
            },
            name: entry_name_spec(p),
            path: p,
            mtime: match first_scanned_category(scanned, p) {
                Some(c) => c.mtime,
                None => 0,
            },
        }),
    }
}

/// What a new book is inserted as: `None` where the scan holds no book at the path or
/// no category is known for it (the book is skipped).
pub open spec fn book_insert_spec(
    p: Seq<char>,
    category_ids: Seq<(Seq<char>, i64)>,
    db: DatabaseData,
    scanned: Seq<ScannedBookFile>,
) -> Option<BookInsertView> {
    let cp = book_category_path_spec(p, category_ids, db.categories@);
    let cid = match cp {
        Some(c) => category_id_for(category_ids, db.categories@, c),
        None => None,
    };
    match first_scanned_book(scanned, p) {
        None => None,
        Some(b) => match cid {
            None => None,
            Some(category_id) => Some(BookInsertView { category_id, book: b@, category_path: cp }),
        },
    }
}

/// The detail reported of a deleted book.
pub open spec fn deleted_book_detail(b: book_files::Model, cats: Seq<categories::Model>) -> BookChangeDetailView {
    let c = category_path_spec(b.category_id, cats);
    BookChangeDetailView {
        path: b.path@,
        title: title_spec(opt_view(b.title), b.path@),
        category_path: if c.len() > 0 {
            Some(c)
        } else {
            path_parent(b.path@)
        },
    }
}

/// The detail reported of a deleted category.
pub open spec fn deleted_category_detail(c: categories::Model, db: DatabaseData) -> CategoryChangeDetailView {
    CategoryChangeDetailView {
        path: c.path@,
        name: c.name@,
        library_path: match last_library_with_id(db.libraries@, c.library_id) {
            Some(l) => Some(l.root_path@),
            None => None,
        },
        parent_path: match c.parent_id {
            Some(pid) => match last_category_with_id(db.categories@, pid) {
                Some(pc) => Some(pc.path@),
                None => None,
            },
            None => None,
        },
    }
}

/// The state of a synchronisation run: the ids of the libraries and categories
/// inserted so far, by path, and the report.
pub struct SyncState {
    pub library_ids: Vec<(String, i64)>,
    pub category_ids: Vec<(String, i64)>,
    pub report: SyncReport,
}

impl SyncState {
    pub fn new() -> (r: SyncState)
        ensures
            r.library_ids@.len() == 0,
            r.category_ids@.len() == 0,
            r.report@ == empty_report(),
            counts_match_details(r.report@),
    {
        SyncState { library_ids: Vec::new(), category_ids: Vec::new(), report: SyncReport::new() }
    }


    /// The id of the category at path `p`: the one inserted in this run, else the
    /// first stored one.
    pub fn category_id_of(&self, categories: &Vec<categories::Model>, p: &str) -> (r: Option<i64>)
        ensures
            r == category_id_for(ids_view(self.category_ids@), categories@, p@),
    {
        match map_lookup(&self.category_ids, p) {
            Some(id) => Some(id),
            None => match find_category_by_path(categories, p) {
                Some(c) => Some(c.id),
                None => None,
            },
        }
    }

    /// What the new category at `category_path` is inserted as; `None` where it is
    /// skipped for want of a library.
    pub fn plan_category(
        &self,
        category_path: &str,
        db: &DatabaseData,
        scanned: &Vec<ScannedCategory>,
    ) -> (r: Option<CategoryInsert>)
        ensures
            match r {
                Some(c) => category_insert_spec(
                    category_path@,
                    ids_view(self.library_ids@),
                    ids_view(self.category_ids@),
                    *db,
                    scanned@,
                ) == Some(c@),
                None => category_insert_spec(
                    category_path@,
                    ids_view(self.library_ids@),
                    ids_view(self.category_ids@),
                    *db,
                    scanned@,
                ) is None,
            },
    {
        let library_id = match longest_prefix_index(&self.library_ids, category_path) {
            Some(j) => Some(self.library_ids[j].1),
            None => match longest_prefix_library_index(&db.libraries, category_path) {
                Some(j) => Some(db.libraries[j].id),
                None => None,
            },
        };
        match library_id {
            None => None,
            Some(library_id) => {
                let parent_id = match parent(category_path) {
                    Some(pp) => self.category_id_of(&db.categories, pp.as_str()),
                    None => None,
                };
                let name = entry_name(category_path);
                let mtime = match find_scanned_category(scanned, category_path) {
                    Some(c) => c.mtime,
                    None => 0,
                };
                Some(CategoryInsert { library_id, parent_id, name, path: String::from_str(category_path), mtime })
            },
        }
    }

    /// What the new book at `book_path` is inserted as; `None` where it is skipped.
    pub fn plan_book(&self, book_path: &str, db: &DatabaseData, scanned: &Vec<ScannedBookFile>) -> (r: Option<BookInsert>)
        ensures
            match r {
                Some(b) => book_insert_spec(book_path@, ids_view(self.category_ids@), *db, scanned@) == Some(b@),
                None => book_insert_spec(book_path@, ids_view(self.category_ids@), *db, scanned@) is None,
            },
    {
        let category_path = resolve_book_category_path(book_path, &self.category_ids, &db.categories);
        let category_id = match &category_path {
            Some(cp) => self.category_id_of(&db.categories, cp.as_str()),
            None => None,
        };
        match find_scanned_book(scanned, book_path) {
            None => None,
            Some(book) => match category_id {
                None => None,
                Some(category_id) => Some(BookInsert { category_id, book: book.copy(), category_path }),
            },
        }
    }

    /// Records the library inserted at `root_path` with id `id`.
    pub fn record_library(&mut self, root_path: &str, id: i64)
        requires
            old(self).report.inserted_libraries < usize::MAX,
        ensures
            counts_match_details(old(self).report@) ==> counts_match_details(final(self).report@),
            ids_view(final(self).library_ids@) == ids_view(old(self).library_ids@).push((root_path@, id)),
            final(self).category_ids@ == old(self).category_ids@,
            final(self).report@ == (SyncReportView {
                inserted_libraries: (old(self).report@.inserted_libraries + 1) as usize,
                inserted_library_details: old(self).report@.inserted_library_details.push(
                    LibraryChangeDetailView { path: root_path@, name: path_name_spec(root_path@) },
                ),
                ..old(self).report@
            }),
    {
        self.library_ids.push((String::from_str(root_path), id));
        self.report.inserted_libraries = self.report.inserted_libraries + 1;
        self.report.inserted_library_details.push(
            LibraryChangeDetail { path: String::from_str(root_path), name: path_name(root_path) },
        );
        assert(ids_view(self.library_ids@) =~= ids_view(old(self).library_ids@).push((root_path@, id)));
        assert(library_details_view(self.report.inserted_library_details@) =~= old(
            self,
        ).report@.inserted_library_details.push(
            LibraryChangeDetailView { path: root_path@, name: path_name_spec(root_path@) },
        ));
    }

    /// Records the category inserted as `insert` with id `id`.
    pub fn record_category(&mut self, insert: &CategoryInsert, id: i64, libraries: &Vec<libraries::Model>)
        requires
            old(self).report.inserted_categories < usize::MAX,
        ensures
            counts_match_details(old(self).report@) ==> counts_match_details(final(self).report@),
            ids_view(final(self).category_ids@) == ids_view(old(self).category_ids@).push((insert.path@, id)),
            final(self).library_ids@ == old(self).library_ids@,
            final(self).report@ == (SyncReportView {
                inserted_categories: (old(self).report@.inserted_categories + 1) as usize,
                inserted_category_details: old(self).report@.inserted_category_details.push(
                    CategoryChangeDetailView {
                        path: insert.path@,
                        name: insert.name@,
                        library_path: Some(
                            library_path_spec(insert.path@, ids_view(old(self).library_ids@), libraries@),
                        ),
                        parent_path: path_parent(insert.path@),
                    },
                ),
                ..old(self).report@
            }),
    {
        self.category_ids.push((insert.path.clone(), id));
        let library_path = resolve_library_path(insert.path.as_str(), &self.library_ids, libraries);
        let detail = CategoryChangeDetail {
            path: insert.path.clone(),
            name: insert.name.clone(),
            library_path: Some(library_path),
            parent_path: parent(insert.path.as_str()),
        };
        self.report.inserted_categories = self.report.inserted_categories + 1;
        self.report.inserted_category_details.push(detail);
        assert(ids_view(self.category_ids@) =~= ids_view(old(self).category_ids@).push((insert.path@, id)));
        assert(category_details_view(self.report.inserted_category_details@) =~= old(
            self,
        ).report@.inserted_category_details.push(detail@));
    }

    /// Records the book inserted as `insert`.
    pub fn record_book(&mut self, insert: &BookInsert)
        requires
            old(self).report.inserted_book_files < usize::MAX,
        ensures
            counts_match_details(old(self).report@) ==> counts_match_details(final(self).report@),
            final(self).library_ids@ == old(self).library_ids@,
            final(self).category_ids@ == old(self).category_ids@,
            final(self).report@ == (SyncReportView {
                inserted_book_files: (old(self).report@.inserted_book_files + 1) as usize,
                inserted_book_file_details: old(self).report@.inserted_book_file_details.push(
                    BookChangeDetailView {
                        path: insert.book.path@,
                        title: title_spec(opt_view(insert.book.title), insert.book.path@),
                        category_path: opt_view(insert.category_path),
                    },
                ),
                ..old(self).report@
            }),
    {
        let detail = BookChangeDetail {
            path: insert.book.path.clone(),
            title: scanned_book_title(&insert.book),
            category_path: crate::scanner::types::copy_opt(&insert.category_path),
        };
        self.report.inserted_book_files = self.report.inserted_book_files + 1;
        self.report.inserted_book_file_details.push(detail);
        assert(book_details_view(self.report.inserted_book_file_details@) =~= old(
            self,
        ).report@.inserted_book_file_details.push(detail@));
    }

    /// Records the update of the stored book `book`.
    pub fn record_updated_book(&mut self, book: &book_files::Model, categories: &Vec<categories::Model>)
        requires
            old(self).report.updated_book_files < usize::MAX,
        ensures
            counts_match_details(old(self).report@) ==> counts_match_details(final(self).report@),
            final(self).library_ids@ == old(self).library_ids@,
            final(self).category_ids@ == old(self).category_ids@,
            final(self).report@ == (SyncReportView {
                updated_book_files: (old(self).report@.updated_book_files + 1) as usize,
                updated_book_file_details: old(self).report@.updated_book_file_details.push(
                    BookChangeDetailView {
                        path: book.path@,
                        title: title_spec(opt_view(book.title), book.path@),
                        category_path: Some(category_path_spec(book.category_id, categories@)),
                    },
                ),
                ..old(self).report@
            }),
    {
        let detail = BookChangeDetail {
            path: book.path.clone(),
            title: display_book_title(book),
            category_path: Some(resolve_category_path(book.category_id, categories)),
        };
        self.report.updated_book_files = self.report.updated_book_files + 1;
        self.report.updated_book_file_details.push(detail);
        assert(book_details_view(self.report.updated_book_file_details@) =~= old(
            self,
        ).report@.updated_book_file_details.push(detail@));
    }

    /// Records the deletion of the book with id `book_id`; the detail is reported where
    /// the book is stored.
    pub fn record_deleted_book(&mut self, book_id: i64, db: &DatabaseData)
        requires
            old(self).report.deleted_book_files < usize::MAX,
        ensures
            counts_match_details(old(self).report@) && last_book_with_id(db.book_files@, book_id) is Some ==> counts_match_details(final(self).report@),
            final(self).library_ids@ == old(self).library_ids@,
            final(self).category_ids@ == old(self).category_ids@,
            final(self).report@ == (SyncReportView {
                deleted_book_files: (old(self).report@.deleted_book_files + 1) as usize,
                deleted_book_file_details: match last_book_with_id(db.book_files@, book_id) {
                    Some(b) => old(self).report@.deleted_book_file_details.push(
                        deleted_book_detail(b, db.categories@),
                    ),
                    None => old(self).report@.deleted_book_file_details,
                },
                ..old(self).report@
            }),
    {
        match find_book_by_id(&db.book_files, book_id) {
            Some(book) => {
                let c = resolve_category_path(book.category_id, &db.categories);
                let category_path = if !c.as_str().is_empty() {
                    Some(c)
                } else {
                    parent(book.path.as_str())
                };
                let detail = BookChangeDetail {
                    path: book.path.clone(),
                    title: display_book_title(book),
                    category_path,
                };
                self.report.deleted_book_file_details.push(detail);
                assert(book_details_view(self.report.deleted_book_file_details@) =~= old(
                    self,
                ).report@.deleted_book_file_details.push(detail@));
            },
            None => {},
        }
        self.report.deleted_book_files = self.report.deleted_book_files + 1;
    }

    /// Records the deletion of the category with id `category_id`; the detail is
    /// reported where the category is stored.
    pub fn record_deleted_category(&mut self, category_id: i64, db: &DatabaseData)
        requires
            old(self).report.deleted_categories < usize::MAX,
        ensures
            counts_match_details(old(self).report@) && last_category_with_id(db.categories@, category_id) is Some ==> counts_match_details(final(self).report@),
            final(self).library_ids@ == old(self).library_ids@,
            final(self).category_ids@ == old(self).category_ids@,
            final(self).report@ == (SyncReportView {
                deleted_categories: (old(self).report@.deleted_categories + 1) as usize,
                deleted_category_details: match last_category_with_id(db.categories@, category_id) {
                    Some(c) => old(self).report@.deleted_category_details.push(deleted_category_detail(c, *db)),
                    None => old(self).report@.deleted_category_details,
                },
                ..old(self).report@
            }),
    {
        match find_category_by_id(&db.categories, category_id) {
            Some(category) => {
                let library_path = match find_library_by_id(&db.libraries, category.library_id) {
                    Some(l) => Some(l.root_path.clone()),
                    None => None,
                };
                let parent_path = match category.parent_id {
                    Some(pid) => match find_category_by_id(&db.categories, pid) {
                        Some(pc) => Some(pc.path.clone()),
                        None => None,
                    },
                    None => None,
                };
                let detail = CategoryChangeDetail {
                    path: category.path.clone(),
                    name: category.name.clone(),
                    library_path,
                    parent_path,
                };
                self.report.deleted_category_details.push(detail);
                assert(category_details_view(self.report.deleted_category_details@) =~= old(
                    self,
                ).report@.deleted_category_details.push(detail@));
            },
            None => {},
        }
        self.report.deleted_categories = self.report.deleted_categories + 1;
    }

    /// Records the deletion of the library with id `library_id`; the detail is reported
    /// where the library is stored.
    pub fn record_deleted_library(&mut self, library_id: i64, db: &DatabaseData)
        requires
            old(self).report.deleted_libraries < usize::MAX,
        ensures
            counts_match_details(old(self).report@) && last_library_with_id(db.libraries@, library_id) is Some ==> counts_match_details(final(self).report@),
            final(self).library_ids@ == old(self).library_ids@,
            final(self).category_ids@ == old(self).category_ids@,
            final(self).report@ == (SyncReportView {
                deleted_libraries: (old(self).report@.deleted_libraries + 1) as usize,
                deleted_library_details: match last_library_with_id(db.libraries@, library_id) {
                    Some(l) => old(self).report@.deleted_library_details.push(
                        LibraryChangeDetailView { path: l.root_path@, name: l.name@ },
                    ),
                    None => old(self).report@.deleted_library_details,
                },
                ..old(self).report@
            }),
    {
        match find_library_by_id(&db.libraries, library_id) {
            Some(library) => {
                let detail = LibraryChangeDetail { path: library.root_path.clone(), name: library.name.clone() };
                self.report.deleted_library_details.push(detail);
                assert(library_details_view(self.report.deleted_library_details@) =~= old(
                    self,
                ).report@.deleted_library_details.push(detail@));
            },
            None => {},
        }
        self.report.deleted_libraries = self.report.deleted_libraries + 1;
    }
}

} // verus!
