//! Values that a scan produces, kept apart from the database rows.

use vstd::prelude::*;

verus! {

/// An optional string as an optional character sequence.
pub open spec fn opt_view(o: Option<String>) -> Option<Seq<char>> {
    match o {
        Some(s) => Some(s@),
        None => None,
    }
}

pub struct ScannedBookFile {
    pub path: String,
    pub title: Option<String>,
    pub kind: String,
    pub size: i64,
    pub mtime: i64,
    pub page_count: i64,
    pub pages_json: Option<String>,
    pub content_signature: Option<String>,
    pub is_oversized: bool,
    pub avg_page_pixels: i64,
    pub cover_path: Option<String>,
}

/// A scanned book with strings as character sequences.
pub struct BookView {
    pub path: Seq<char>,
    pub title: Option<Seq<char>>,
    pub kind: Seq<char>,
    pub size: i64,
    pub mtime: i64,
    pub page_count: i64,
    pub pages_json: Option<Seq<char>>,
    pub content_signature: Option<Seq<char>>,
    pub is_oversized: bool,
    pub avg_page_pixels: i64,
    pub cover_path: Option<Seq<char>>,
}

impl View for ScannedBookFile {
    type V = BookView;

    open spec fn view(&self) -> BookView {
        BookView {
            path: self.path@,
            title: opt_view(self.title),
            kind: self.kind@,
            size: self.size,
            mtime: self.mtime,
            page_count: self.page_count,
            pages_json: opt_view(self.pages_json),
            content_signature: opt_view(self.content_signature),
            is_oversized: self.is_oversized,
            avg_page_pixels: self.avg_page_pixels,
            cover_path: opt_view(self.cover_path),
        }
    }
}

pub struct ScannedCategory {
    pub name: String,
    pub path: String,
    pub mtime: i64,
}

pub struct CategoryView {
    pub name: Seq<char>,
    pub path: Seq<char>,
    pub mtime: i64,
}

impl View for ScannedCategory {
    type V = CategoryView;

    open spec fn view(&self) -> CategoryView {
        CategoryView { name: self.name@, path: self.path@, mtime: self.mtime }
    }
}

/// What a scan found: books and categories, in the order they were met.
pub struct ScanResult {
    pub book_files: Vec<ScannedBookFile>,
    pub categories: Vec<ScannedCategory>,
}

pub open spec fn books_view(v: Seq<ScannedBookFile>) -> Seq<BookView> {
    v.map_values(|b: ScannedBookFile| b@)
}

pub open spec fn categories_view(v: Seq<ScannedCategory>) -> Seq<CategoryView> {
    v.map_values(|c: ScannedCategory| c@)
}

pub enum ItemClassification {
    Book(ScannedBookFile),
    Category(ScannedCategory),
    Ignore,
}

/// What the database already holds of a book, offered to a scan so that it can reuse
/// page counts and measurements of unchanged files.
pub struct CachedBookMetadata {
    pub path: String,
    pub title: Option<String>,
    pub kind: String,
    pub size: i64,
    pub mtime: i64,
    pub page_count: i64,
    pub pages_json: Option<String>,
    pub content_signature: Option<String>,
    pub is_oversized: bool,
    pub avg_page_pixels: i64,
    pub cover_path: Option<String>,
}

impl View for CachedBookMetadata {
    type V = BookView;

    open spec fn view(&self) -> BookView {
        BookView {
            path: self.path@,
            title: opt_view(self.title),
            kind: self.kind@,
            size: self.size,
            mtime: self.mtime,
            page_count: self.page_count,
            pages_json: opt_view(self.pages_json),
            content_signature: opt_view(self.content_signature),
            is_oversized: self.is_oversized,
            avg_page_pixels: self.avg_page_pixels,
            cover_path: opt_view(self.cover_path),
        }
    }
}

pub fn copy_opt(o: &Option<String>) -> (r: Option<String>)
    ensures
        r == *o,
{
    match o {
        Some(s) => Some(s.clone()),
        None => None,
    }
}

impl CachedBookMetadata {
    pub fn copy(&self) -> (r: CachedBookMetadata)
        ensures
            r@ == self@,
    {
        CachedBookMetadata {
            path: self.path.clone(),
            title: copy_opt(&self.title),
            kind: self.kind.clone(),
            size: self.size,
            mtime: self.mtime,
            page_count: self.page_count,
            pages_json: copy_opt(&self.pages_json),
            content_signature: copy_opt(&self.content_signature),
            is_oversized: self.is_oversized,
            avg_page_pixels: self.avg_page_pixels,
            cover_path: copy_opt(&self.cover_path),
        }
    }
}

impl ScannedBookFile {
    pub fn copy(&self) -> (r: ScannedBookFile)
        ensures
            r@ == self@,
    {
        ScannedBookFile {
            path: self.path.clone(),
            title: copy_opt(&self.title),
            kind: self.kind.clone(),
            size: self.size,
            mtime: self.mtime,
            page_count: self.page_count,
            pages_json: copy_opt(&self.pages_json),
            content_signature: copy_opt(&self.content_signature),
            is_oversized: self.is_oversized,
            avg_page_pixels: self.avg_page_pixels,
            cover_path: copy_opt(&self.cover_path),
        }
    }
}

} // verus!
