//! Rows of the `page_spreads` table: two pages that a reader joined into a spread.

use super::ColumnType;
use vstd::prelude::*;

verus! {

/// The `page_spreads` table.
pub struct Entity;

impl Entity {
    pub fn table_name(&self) -> (r: &'static str)
        ensures
            r@ == "page_spreads"@,
    {
        "page_spreads"
    }
}

pub struct Model {
    pub book_id: String,
    pub filename: String,
    pub next_file: String,
    pub direction: String,
    pub created_at: i64,
}

pub struct ModelView {
    pub book_id: Seq<char>,
    pub filename: Seq<char>,
    pub next_file: Seq<char>,
    pub direction: Seq<char>,
    pub created_at: i64,
}

impl View for Model {
    type V = ModelView;

    open spec fn view(&self) -> ModelView {
        ModelView {
            book_id: self.book_id@,
            filename: self.filename@,
            next_file: self.next_file@,
            direction: self.direction@,
            created_at: self.created_at,
        }
    }
}

impl Model {
    pub fn copy(&self) -> (r: Model)
        ensures
            r@ == self@,
    {
        Model {
            book_id: self.book_id.clone(),
            filename: self.filename.clone(),
            next_file: self.next_file.clone(),
            direction: self.direction.clone(),
            created_at: self.created_at,
        }
    }
}

pub enum Column {
    BookId,
    Filename,
    NextFile,
    Direction,
    CreatedAt,
}

impl Column {
    pub open spec fn column_type(self) -> ColumnType {
        match self {
            Column::BookId => ColumnType::Text,
            Column::Filename => ColumnType::Text,
            Column::NextFile => ColumnType::Text,
            Column::Direction => ColumnType::Text,
            Column::CreatedAt => ColumnType::Integer,
        }
    }

    /// The SQL type of the column.
    pub fn def(&self) -> (r: ColumnType)
        ensures
            r == self.column_type(),
    {
        match self {
            Column::BookId => ColumnType::Text,
            Column::Filename => ColumnType::Text,
            Column::NextFile => ColumnType::Text,
            Column::Direction => ColumnType::Text,
            Column::CreatedAt => ColumnType::Integer,
        }
    }
}

/// The columns of the composite primary key.
pub enum PrimaryKey {
    BookId,
    Filename,
}

impl PrimaryKey {
    /// The key is not generated by the database.
    pub fn auto_increment() -> (r: bool)
        ensures
            !r,
    {
        false
    }
}

} // verus!
