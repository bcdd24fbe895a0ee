//! Rows of the `user_data` table: global settings (empty `book_id`) and per-book settings.

use super::ColumnType;
use vstd::prelude::*;

verus! {

/// The `user_data` table.
pub struct Entity;

impl Entity {
    pub fn table_name(&self) -> (r: &'static str)
        ensures
            r@ == "user_data"@,
    {
        "user_data"
    }
}

pub struct Model {
    pub book_id: String,
    pub key: String,
    pub value: String,
}

pub struct ModelView {
    pub book_id: Seq<char>,
    pub key: Seq<char>,
    pub value: Seq<char>,
}

impl View for Model {
    type V = ModelView;

    open spec fn view(&self) -> ModelView {
        ModelView {
            book_id: self.book_id@,
            key: self.key@,
            value: self.value@,
        }
    }
}

impl Model {
    pub fn copy(&self) -> (r: Model)
        ensures
            r@ == self@,
    {
        Model {
            book_id: self.book_id.clone(),
            key: self.key.clone(),
            value: self.value.clone(),
        }
    }
}

pub enum Column {
    BookId,
    Key,
    Value,
}

impl Column {
    pub open spec fn column_type(self) -> ColumnType {
        match self {
            Column::BookId => ColumnType::Text,
            Column::Key => ColumnType::Text,
            Column::Value => ColumnType::Text,
        }
    }

    /// The SQL type of the column.
    pub fn def(&self) -> (r: ColumnType)
        ensures
            r == self.column_type(),
    {
        match self {
            Column::BookId => ColumnType::Text,
            Column::Key => ColumnType::Text,
            Column::Value => ColumnType::Text,
        }
    }
}

/// The columns of the composite primary key.
pub enum PrimaryKey {
    BookId,
    Key,
}

impl PrimaryKey {
    /// The key is not generated by the database.
    pub fn auto_increment() -> (r: bool)
        ensures
            !r,
    {
        false
    }
}

} // verus!
