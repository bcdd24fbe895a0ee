//! Rows of the `categories` table.

use vstd::prelude::*;

verus! {

pub struct Model {
    pub id: i64,
    pub library_id: i64,
    pub parent_id: Option<i64>,
    pub name: String,
    pub path: String,
    pub mtime: i64,
}

pub struct ModelView {
    pub id: i64,
    pub library_id: i64,
    pub parent_id: Option<i64>,
    pub name: Seq<char>,
    pub path: Seq<char>,
    pub mtime: i64,
}

impl View for Model {
    type V = ModelView;

    open spec fn view(&self) -> ModelView {
        ModelView {
            id: self.id,
            library_id: self.library_id,
            parent_id: self.parent_id,
            name: self.name@,
            path: self.path@,
            mtime: self.mtime,
        }
    }
}

pub open spec fn models_view(v: Seq<Model>) -> Seq<ModelView> {
    v.map_values(|m: Model| m@)
}

} // verus!
