//! Database rows and the request and response shapes of the library's records.

pub mod book_files;
pub mod categories;
pub mod libraries;
pub mod page_favorites;
pub mod page_spreads;
pub mod user_data;

use vstd::prelude::*;

verus! {

/// The SQL type of a column.
pub enum ColumnType {
    Text,
    Integer,
}

pub struct CreateLibraryRequest {
    pub name: String,
    pub root_path: String,
}

pub struct UpdateLibraryRequest {
    pub name: Option<String>,
    pub root_path: Option<String>,
}

pub struct LibraryResponse {
    pub id: i64,
    pub name: String,
    pub root_path: String,
    pub last_scanned_at: i64,
}

pub struct CreateCategoryRequest {
    pub library_id: i64,
    pub parent_id: Option<i64>,
    pub name: String,
    pub path: String,
    pub mtime: i64,
}

pub struct UpdateCategoryRequest {
    pub parent_id: Option<i64>,
    pub name: Option<String>,
    pub path: Option<String>,
    pub mtime: Option<i64>,
}

pub struct CategoryResponse {
    pub id: i64,
    pub library_id: i64,
    pub parent_id: Option<i64>,
    pub name: String,
    pub path: String,
    pub mtime: i64,
}

pub struct CreateBookFileRequest {
    pub category_id: i64,
    pub path: String,
    pub kind: String,
    pub size: i64,
    pub mtime: i64,
    pub hash: Option<String>,
    pub page_count: i32,
    pub pages_json: Option<String>,
}

pub struct UpdateBookFileRequest {
    pub category_id: Option<i64>,
    pub path: Option<String>,
    pub kind: Option<String>,
    pub size: Option<i64>,
    pub mtime: Option<i64>,
    pub hash: Option<String>,
    pub page_count: Option<i32>,
    pub pages_json: Option<String>,
}

pub struct BookFileResponse {
    pub id: i64,
    pub category_id: i64,
    pub path: String,
    pub kind: String,
    pub size: i64,
    pub mtime: i64,
    pub hash: Option<String>,
    pub page_count: i32,
    pub pages_json: Option<String>,
}

pub struct CreateBookRequest {
    pub file_id: i64,
    pub title: String,
    pub cover_path: Option<String>,
}

pub struct UpdateBookRequest {
    pub file_id: Option<i64>,
    pub title: Option<String>,
    pub cover_path: Option<String>,
    pub last_page: Option<i32>,
    pub is_finished: Option<bool>,
    pub favorite: Option<bool>,
}

pub struct BookResponse {
    pub id: i64,
    pub file_id: i64,
    pub title: String,
    pub cover_path: Option<String>,
    pub last_page: i32,
    pub is_finished: bool,
    pub favorite: bool,
    pub last_read_at: i64,
}

pub struct DeleteResponse {
    pub success: bool,
    pub message: String,
}

} // verus!
