//! Rows of the `page_favorites` table: single pages that a reader marked.

use super::ColumnType;
use vstd::prelude::*;

verus! {

/// The `page_favorites` table.
pub struct Entity;

impl Entity {
    pub fn table_name(&self) -> (r: &'static str)
        ensures
            r@ == "page_favorites"@,
    {
        "page_favorites"
    }
}

pub struct Model {
    pub book_id: String,
    pub filename: String,
    pub created_at: i64,
}

pub struct ModelView {
    pub book_id: Seq<char>,
    pub filename: Seq<char>,
    pub created_at: i64,
}

impl View for Model {
    type V = ModelView;

    open spec fn view(&self) -> ModelView {
        ModelView {
            book_id: self.book_id@,
            filename: self.filename@,
            created_at: self.created_at,
        }
    }
}

impl Model {
    pub fn copy(&self) -> (r: Model)
        ensures
            r@ == self@,
    {
        Model {
            book_id: self.book_id.clone(),
            filename: self.filename.clone(),
            created_at: self.created_at,
        }
    }
}

pub enum Column {
    BookId,
    Filename,
    CreatedAt,
}

impl Column {
    pub open spec fn column_type(self) -> ColumnType {
        match self {
            Column::BookId => ColumnType::Text,
            Column::Filename => ColumnType::Text,
            Column::CreatedAt => ColumnType::Integer,
        }
    }

    /// The SQL type of the column.
    pub fn def(&self) -> (r: ColumnType)
        ensures
            r == self.column_type(),
    {
        match self {
            Column::BookId => ColumnType::Text,
            Column::Filename => ColumnType::Text,
            Column::CreatedAt => ColumnType::Integer,
        }
    }
}

/// The columns of the composite primary key.
pub enum PrimaryKey {
    BookId,
    Filename,
}

impl PrimaryKey {
    /// The key is not generated by the database.
    pub fn auto_increment() -> (r: bool)
        ensures
            !r,
    {
        false
    }
}

} // verus!
