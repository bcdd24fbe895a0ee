//! Rows of the `book_files` table.

use crate::scanner::types::opt_view;
use vstd::prelude::*;

verus! {

pub struct Model {
    pub id: i64,
    pub category_id: i64,
    pub path: String,
    pub title: Option<String>,
    pub kind: String,
    pub size: i64,
    pub mtime: i64,
    pub page_count: i64,
    pub pages_json: Option<String>,
    pub content_signature: Option<String>,
    pub is_oversized: bool,
    pub avg_page_pixels: i64,
    pub is_favorite: bool,
    pub cover_path: Option<String>,
    pub created_at: Option<String>,
}

/// A book row with strings as character sequences.
pub struct ModelView {
    pub id: i64,
    pub category_id: i64,
    pub path: Seq<char>,
    pub title: Option<Seq<char>>,
    pub kind: Seq<char>,
    pub size: i64,
    pub mtime: i64,
    pub page_count: i64,
    pub pages_json: Option<Seq<char>>,
    pub content_signature: Option<Seq<char>>,
    pub is_oversized: bool,
    pub avg_page_pixels: i64,
    pub is_favorite: bool,
    pub cover_path: Option<Seq<char>>,
    pub created_at: Option<Seq<char>>,
}

impl View for Model {
    type V = ModelView;

    open spec fn view(&self) -> ModelView {
        ModelView {
            id: self.id,
            category_id: self.category_id,
            path: self.path@,
            title: opt_view(self.title),
            kind: self.kind@,
            size: self.size,
            mtime: self.mtime,
            page_count: self.page_count,
            pages_json: opt_view(self.pages_json),
            content_signature: opt_view(self.content_signature),
            is_oversized: self.is_oversized,
            avg_page_pixels: self.avg_page_pixels,
            is_favorite: self.is_favorite,
            cover_path: opt_view(self.cover_path),
            created_at: opt_view(self.created_at),
        }
    }
}

pub open spec fn models_view(v: Seq<Model>) -> Seq<ModelView> {
    v.map_values(|m: Model| m@)
}

} // verus!
