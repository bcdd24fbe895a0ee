//! What the settings endpoints answer and store: global settings (book id empty) and
//! per-book settings, as key/value pairs.

use crate::domain::user_data;
use vstd::prelude::*;

verus! {

pub struct SettingsResponse {
    pub settings: Vec<UserDataItem>,
}

pub struct UserDataItem {
    pub key: String,
    pub value: String,
}

pub struct UpdateSettingsRequest {
    pub settings: Vec<UserDataItem>,
}

pub struct UpdateSettingsResponse {
    pub success: bool,
}

pub struct UpdateBookSettingsRequest {
    pub settings: Vec<UserDataItem>,
}

pub struct UpdateBookSettingsResponse {
    pub success: bool,
}

impl From<user_data::Model> for UserDataItem {
    fn from(m: user_data::Model) -> (r: UserDataItem) {
        UserDataItem { key: m.key, value: m.value }
    }
}

impl vstd::std_specs::convert::FromSpecImpl<user_data::Model> for UserDataItem {
    open spec fn obeys_from_spec() -> bool {
        true
    }

    open spec fn from_spec(m: user_data::Model) -> UserDataItem {
        UserDataItem { key: m.key, value: m.value }
    }
}

/// The key and value of each item, in order.
pub open spec fn items_view(items: Seq<UserDataItem>) -> Seq<(Seq<char>, Seq<char>)> {
    items.map_values(|i: UserDataItem| (i.key@, i.value@))
}

/// The key and value of each stored row, in order.
pub open spec fn rows_view(rows: Seq<user_data::Model>) -> Seq<(Seq<char>, Seq<char>)> {
    rows.map_values(|m: user_data::Model| (m.key@, m.value@))
}

/// The settings response for the stored rows: their keys and values, in order.
pub fn settings_response(rows: &Vec<user_data::Model>) -> (r: SettingsResponse)
    ensures
        items_view(r.settings@) == rows_view(rows@),
{
    let mut settings: Vec<UserDataItem> = Vec::new();
    let mut i: usize = 0;
    while i < rows.len()
        invariant
            0 <= i <= rows.len(),
            settings@.len() == i,
            forall|k: int| 0 <= k < i ==> (#[trigger] settings@[k]).key@ == rows@[k].key@ && settings@[k].value@ == rows@[k].value@,
        decreases rows.len() - i,
    {
        settings.push(UserDataItem { key: rows[i].key.clone(), value: rows[i].value.clone() });
        i = i + 1;
    }
    assert(items_view(settings@) =~= rows_view(rows@));
    SettingsResponse { settings }
}

/// The (key, value) pairs an update stores, in order.
pub fn setting_pairs(items: &Vec<UserDataItem>) -> (r: Vec<(String, String)>)
    ensures
        r@.map_values(|p: (String, String)| (p.0@, p.1@)) == items_view(items@),
{
    let mut r: Vec<(String, String)> = Vec::new();
    let mut i: usize = 0;
    while i < items.len()
        invariant
            0 <= i <= items.len(),
            r@.len() == i,
            forall|k: int| 0 <= k < i ==> (#[trigger] r@[k]).0@ == items@[k].key@ && r@[k].1@ == items@[k].value@,
        decreases items.len() - i,
    {
        r.push((items[i].key.clone(), items[i].value.clone()));
        i = i + 1;
    }
    assert(r@.map_values(|p: (String, String)| (p.0@, p.1@)) =~= items_view(items@));
    r
}

} // verus!
