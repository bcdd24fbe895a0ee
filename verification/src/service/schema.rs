//! The database schema: its statements, and the columns added to databases made by
//! earlier schemas.

use crate::text::{chars_of, string_of_chars, trim_spec, str_eq};
use vstd::prelude::*;

verus! {

pub const SCHEMA_SQL: &'static str = "
CREATE TABLE IF NOT EXISTS libraries (
    id INTEGER PRIMARY KEY AUTOINCREMENT,
    name TEXT NOT NULL,
    root_path TEXT NOT NULL UNIQUE,
    last_scanned_at INTEGER
);

CREATE TABLE IF NOT EXISTS categories (
    id INTEGER PRIMARY KEY AUTOINCREMENT,
    library_id INTEGER NOT NULL,
    parent_id INTEGER,
    name TEXT NOT NULL,
    path TEXT NOT NULL UNIQUE,
    mtime INTEGER NOT NULL,
    FOREIGN KEY (library_id) REFERENCES libraries(id) ON DELETE CASCADE,
    FOREIGN KEY (parent_id) REFERENCES categories(id) ON DELETE CASCADE
);

CREATE TABLE IF NOT EXISTS book_files (
    id INTEGER PRIMARY KEY AUTOINCREMENT,
    category_id INTEGER NOT NULL,
    path TEXT NOT NULL UNIQUE,
    title TEXT,
    kind TEXT NOT NULL,
    size INTEGER NOT NULL,
    mtime INTEGER NOT NULL,
    page_count INTEGER NOT NULL,
    pages_json TEXT,
    content_signature TEXT,
    is_oversized INTEGER NOT NULL DEFAULT 0,
    avg_page_pixels INTEGER NOT NULL DEFAULT 0,
    is_favorite INTEGER DEFAULT 0,
    cover_path TEXT,
    created_at TEXT DEFAULT (strftime('%Y-%m-%d %H:%M:%S', 'now', '+8 hours')),
    FOREIGN KEY (category_id) REFERENCES categories(id) ON DELETE CASCADE
);

CREATE TABLE IF NOT EXISTS page_spreads (
    book_id TEXT NOT NULL,
    filename TEXT NOT NULL,
    next_file TEXT NOT NULL,
    created_at INTEGER NOT NULL,
    PRIMARY KEY (book_id, filename)
);

CREATE TABLE IF NOT EXISTS user_data (
    book_id TEXT NOT NULL DEFAULT '',
    key TEXT NOT NULL,
    value TEXT NOT NULL,
    PRIMARY KEY (book_id, key)
);

CREATE TABLE IF NOT EXISTS page_favorites (
    book_id TEXT NOT NULL,
    filename TEXT NOT NULL,
    created_at INTEGER NOT NULL DEFAULT (strftime('%s','now')),
    PRIMARY KEY (book_id, filename)
);
";

/// The pieces of `s` between semicolons (`str::split(';')`): one more than there are
/// semicolons.
pub open spec fn split_semicolons(s: Seq<char>) -> Seq<Seq<char>>
    decreases s.len(),
{
    if s.len() == 0 {
        seq![Seq::empty()]
    } else {
        let r = split_semicolons(s.drop_last());
        if s.last() == ';' {
            r.push(Seq::empty())
        } else {
            r.update(r.len() - 1, r.last().push(s.last()))
        }
    }
}

proof fn lemma_split_nonempty(s: Seq<char>)
    ensures
        split_semicolons(s).len() >= 1,
    decreases s.len(),
{
    if s.len() > 0 {
        lemma_split_nonempty(s.drop_last());
    }
}

/// The pieces that are not blank, in order.
pub open spec fn nonblank(p: Seq<Seq<char>>) -> Seq<Seq<char>>
    decreases p.len(),
{
    if p.len() == 0 {
        Seq::empty()
    } else {
        let r = nonblank(p.drop_last());
        if trim_spec(p.last()).len() > 0 {
            r.push(p.last())
        } else {
            r
        }
    }
}

fn is_blank(s: &str) -> (r: bool)
    ensures
        r == (trim_spec(s@).len() == 0),
{
    let t = crate::text::trim(s);
    t.as_str().is_empty()
}

/// The statements of a schema: its pieces between semicolons that are not blank, as
/// they stand.
pub fn schema_statements(sql: &str) -> (r: Vec<String>)
    ensures
        r@.map_values(|s: String| s@) == nonblank(split_semicolons(sql@)),
{
    let v = chars_of(sql);
    let mut pieces: Vec<Vec<char>> = Vec::new();
    pieces.push(Vec::new());
    let mut i: usize = 0;
    while i < v.len()
        invariant
            v@ == sql@,
            0 <= i <= v.len(),
            pieces@.len() >= 1,
            pieces@.map_values(|p: Vec<char>| p@) == split_semicolons(v@.subrange(0, i as int)),
        decreases v.len() - i,
    {
        proof {
            assert(v@.subrange(0, i + 1).drop_last() =~= v@.subrange(0, i as int));
            assert(v@.subrange(0, i + 1).last() == v@[i as int]);
            lemma_split_nonempty(v@.subrange(0, i as int));
        }
        let ghost before = pieces@.map_values(|p: Vec<char>| p@);
        let c = v[i];
        if c == ';' {
            pieces.push(Vec::new());
            assert(pieces@.map_values(|p: Vec<char>| p@) =~= before.push(Seq::empty()));
        } else {
            let last = pieces.len() - 1;
            let mut piece = pieces.pop().unwrap();
            piece.push(c);
            pieces.push(piece);
            assert(pieces@.map_values(|p: Vec<char>| p@) =~= before.update(last as int, before.last().push(c)));
        }
        i = i + 1;
    }
    assert(v@.subrange(0, i as int) =~= v@);
    let ghost all = pieces@.map_values(|p: Vec<char>| p@);
    let mut r: Vec<String> = Vec::new();
    let mut j: usize = 0;
    while j < pieces.len()
        invariant
            all == pieces@.map_values(|p: Vec<char>| p@),
            0 <= j <= pieces.len(),
            r@.map_values(|s: String| s@) == nonblank(all.subrange(0, j as int)),
        decreases pieces.len() - j,
    {
        proof {
            assert(all.subrange(0, j + 1).drop_last() =~= all.subrange(0, j as int));
            assert(all.subrange(0, j + 1).last() == pieces@[j as int]@);
        }
        let s = string_of_chars(&pieces[j]);
        let ghost before = r@.map_values(|s: String| s@);
        if !is_blank(s.as_str()) {
            r.push(s);
            assert(r@.map_values(|s: String| s@) =~= before.push(pieces@[j as int]@));
        }
        j = j + 1;
    }
    assert(all.subrange(0, j as int) =~= all);
    r
}

/// The columns that later versions added to `book_files`, each with the statement
/// that adds it.
pub open spec fn added_columns() -> Seq<(Seq<char>, Seq<char>)> {
    seq![
        ("is_oversized"@, "ALTER TABLE book_files ADD COLUMN is_oversized INTEGER NOT NULL DEFAULT 0"@),
        ("content_signature"@, "ALTER TABLE book_files ADD COLUMN content_signature TEXT"@),
        ("avg_page_pixels"@, "ALTER TABLE book_files ADD COLUMN avg_page_pixels INTEGER NOT NULL DEFAULT 0"@),
    ]
}

pub open spec fn has_column(columns: Seq<String>, name: Seq<char>) -> bool {
    exists|k: int| 0 <= k < columns.len() && #[trigger] columns[k]@ == name
}

/// The statements that add the columns a table lacks, in order.
pub open spec fn missing_alters(columns: Seq<String>, added: Seq<(Seq<char>, Seq<char>)>) -> Seq<Seq<char>>
    decreases added.len(),
{
    if added.len() == 0 {
        Seq::empty()
    } else {
        let r = missing_alters(columns, added.drop_last());
        if has_column(columns, added.last().0) {
            r
        } else {
            r.push(added.last().1)
        }
    }
}

fn contains_column(columns: &Vec<String>, name: &str) -> (r: bool)
    ensures
        r == has_column(columns@, name@),
{
    let mut i: usize = 0;
    while i < columns.len()
        invariant
            0 <= i <= columns.len(),
            forall|k: int| 0 <= k < i ==> columns@[k]@ != name@,
        decreases columns.len() - i,
    {
        if str_eq(columns[i].as_str(), name) {
            return true;
        }
        i = i + 1;
    }
    false
}

/// The statements that bring `book_files` up to date, given the columns it has.
pub fn missing_column_alters(columns: &Vec<String>) -> (r: Vec<&'static str>)
    ensures
        r@.map_values(|s: &'static str| s@) == missing_alters(columns@, added_columns()),
{
    let mut r: Vec<&'static str> = Vec::new();
    let ghost a = added_columns();
    proof {
        assert(a.subrange(0, 0) =~= Seq::<(Seq<char>, Seq<char>)>::empty());
        assert(a.len() == 3);
        assert(a.subrange(0, 1).last() == a[0]);
        assert(a.subrange(0, 2).last() == a[1]);
        assert(a.subrange(0, 3).last() == a[2]);
        assert(missing_alters(columns@, a.subrange(0, 0)) =~= Seq::<Seq<char>>::empty());
    }
    if !contains_column(columns, "is_oversized") {
        r.push("ALTER TABLE book_files ADD COLUMN is_oversized INTEGER NOT NULL DEFAULT 0");
    }
    proof {
        assert(a.subrange(0, 1).drop_last() =~= a.subrange(0, 0));
        assert(r@.map_values(|s: &'static str| s@) =~= missing_alters(columns@, a.subrange(0, 1)));
    }
    if !contains_column(columns, "content_signature") {
        r.push("ALTER TABLE book_files ADD COLUMN content_signature TEXT");
    }
    proof {
        assert(a.subrange(0, 2).drop_last() =~= a.subrange(0, 1));
        assert(r@.map_values(|s: &'static str| s@) =~= missing_alters(columns@, a.subrange(0, 2)));
    }
    if !contains_column(columns, "avg_page_pixels") {
        r.push("ALTER TABLE book_files ADD COLUMN avg_page_pixels INTEGER NOT NULL DEFAULT 0");
    }
    proof {
        assert(a.subrange(0, 3).drop_last() =~= a.subrange(0, 2));
        assert(a.subrange(0, 3) =~= a);
        assert(r@.map_values(|s: &'static str| s@) =~= missing_alters(columns@, a));
    }
    r
}

} // verus!
