//! Rows of the `libraries` table.

use vstd::prelude::*;

verus! {

pub struct Model {
    pub id: i64,
    pub name: String,
    pub root_path: String,
    pub last_scanned_at: i64,
}

pub struct ModelView {
    pub id: i64,
    pub name: Seq<char>,
    pub root_path: Seq<char>,
    pub last_scanned_at: i64,
}

impl View for Model {
    type V = ModelView;

    open spec fn view(&self) -> ModelView {
        ModelView {
            id: self.id,
            name: self.name@,
            root_path: self.root_path@,
            last_scanned_at: self.last_scanned_at,
        }
    }
}

pub open spec fn models_view(v: Seq<Model>) -> Seq<ModelView> {
    v.map_values(|m: Model| m@)
}

} // verus!
