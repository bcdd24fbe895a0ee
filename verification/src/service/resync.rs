//! What a synchronisation leaves behind: run again against the same scan, the diff
//! finds nothing to add, delete or update.

use crate::domain::{book_files, categories, libraries};
use crate::scanner::types::{BookView, ScanResult, ScannedBookFile};
use crate::service::database::{
    all_paths_in, book_paths, books_not_in, categories_not_in, category_paths, keyed_by_len,
    last_book_with_path, law_matching_database_needs_no_change, libraries_not_in, library_roots,
    merged_update, no_book_changed, paths_not_in, requires_update_spec, scanned_book_paths,
    scanned_category_paths, seq_contains_view, updated_books, DatabaseData,
};
use crate::service::sync::{last_book_with_id, last_category_with_id, last_library_with_id};
use crate::sorting::{lemma_sorted_items_from, stably_sorted};
use vstd::prelude::*;

verus! {

proof fn lemma_paths_not_in_has(s: Seq<String>, set: Seq<String>, p: Seq<char>)
    ensures
        seq_contains_view(paths_not_in(s, set), p) <==> seq_contains_view(s, p) && !seq_contains_view(set, p),
    decreases s.len(),
{
    if s.len() > 0 {
        let d = s.drop_last();
        lemma_paths_not_in_has(d, set, p);
        let r = paths_not_in(d, set);
        if seq_contains_view(s, p) {
            let i = choose|i: int| 0 <= i < s.len() && #[trigger] s[i]@ == p;
            if i < d.len() {
                assert(d[i]@ == p);
            }
        }
        if seq_contains_view(d, p) {
            let i = choose|i: int| 0 <= i < d.len() && #[trigger] d[i]@ == p;
            assert(s[i]@ == p);
        }
        if !seq_contains_view(set, s.last()@) {
            let rp = r.push(s.last());
            if seq_contains_view(rp, p) {
                let i = choose|i: int| 0 <= i < rp.len() && #[trigger] rp[i]@ == p;
                if i < r.len() {
                    assert(r[i]@ == p);
                } else {
                    assert(s[s.len() - 1]@ == p);
                }
            }
            if seq_contains_view(r, p) {
                let i = choose|i: int| 0 <= i < r.len() && #[trigger] r[i]@ == p;
                assert(rp[i]@ == p);
            }
            if s.last()@ == p {
                assert(rp[r.len() as int]@ == p);
            }
        }
    }
}

proof fn lemma_libraries_not_in_has(libs: Seq<libraries::Model>, set: Seq<String>, id: i64)
    ensures
        libraries_not_in(libs, set).contains(id) <==> exists|i: int|
            0 <= i < libs.len() && #[trigger] libs[i].id == id && !seq_contains_view(set, libs[i].root_path@),
    decreases libs.len(),
{
    if libs.len() > 0 {
        let d = libs.drop_last();
        lemma_libraries_not_in_has(d, set, id);
        let r = libraries_not_in(d, set);
        if exists|i: int| 0 <= i < libs.len() && #[trigger] libs[i].id == id && !seq_contains_view(set, libs[i].root_path@) {
            let i = choose|i: int|
                0 <= i < libs.len() && #[trigger] libs[i].id == id && !seq_contains_view(set, libs[i].root_path@);
            if i < d.len() {
                assert(d[i] == libs[i]);
                assert(r.contains(id));
                if !seq_contains_view(set, libs.last().root_path@) {
                    let k = choose|k: int| 0 <= k < r.len() && r[k] == id;
                    assert(r.push(libs.last().id)[k] == id);
                }
            } else {
                assert(r.push(libs.last().id)[r.len() as int] == id);
            }
        }
        if libraries_not_in(libs, set).contains(id) {
            if !seq_contains_view(set, libs.last().root_path@) {
                let rp = r.push(libs.last().id);
                let k = choose|k: int| 0 <= k < rp.len() && rp[k] == id;
                if k < r.len() {
                    assert(r[k] == id);
                    let i = choose|i: int|
                        0 <= i < d.len() && #[trigger] d[i].id == id && !seq_contains_view(set, d[i].root_path@);
                    assert(libs[i] == d[i]);
                } else {
                    assert(libs[libs.len() - 1].id == id);
                }
            } else {
                let i = choose|i: int|
                    0 <= i < d.len() && #[trigger] d[i].id == id && !seq_contains_view(set, d[i].root_path@);
                assert(libs[i] == d[i]);
            }
        }
    }
}

/// Whether the diff's list of deleted categories names the id `id`.
pub open spec fn names_category(cn: Seq<(i64, i64)>, id: i64) -> bool {
    exists|k: int| 0 <= k < cn.len() && #[trigger] cn[k].1 == id
}

proof fn lemma_categories_not_in_has(cats: Seq<categories::Model>, set: Seq<String>, id: i64)
    ensures
        names_category(categories_not_in(cats, set), id) <==> exists|i: int|
            0 <= i < cats.len() && #[trigger] cats[i].id == id && !seq_contains_view(set, cats[i].path@),
    decreases cats.len(),
{
    if cats.len() > 0 {
        let d = cats.drop_last();
        lemma_categories_not_in_has(d, set, id);
        let r = categories_not_in(d, set);
        let last = cats.last();
        let rp = r.push((crate::service::database::rev_len_key(last.path@), last.id));
        if exists|i: int| 0 <= i < cats.len() && #[trigger] cats[i].id == id && !seq_contains_view(set, cats[i].path@) {
            let i = choose|i: int|
                0 <= i < cats.len() && #[trigger] cats[i].id == id && !seq_contains_view(set, cats[i].path@);
            if i < d.len() {
                assert(d[i] == cats[i]);
                assert(names_category(r, id));
                if !seq_contains_view(set, last.path@) {
                    let k = choose|k: int| 0 <= k < r.len() && #[trigger] r[k].1 == id;
                    assert(rp[k].1 == id);
                }
            } else {
                assert(rp[r.len() as int].1 == id);
            }
        }
        if names_category(categories_not_in(cats, set), id) {
            if !seq_contains_view(set, last.path@) {
                let k = choose|k: int| 0 <= k < rp.len() && #[trigger] rp[k].1 == id;
                if k < r.len() {
                    assert(r[k].1 == id);
                    let i = choose|i: int|
                        0 <= i < d.len() && #[trigger] d[i].id == id && !seq_contains_view(set, d[i].path@);
                    assert(cats[i] == d[i]);
                } else {
                    assert(cats[cats.len() - 1].id == id);
                }
            } else {
                let i = choose|i: int|
                    0 <= i < d.len() && #[trigger] d[i].id == id && !seq_contains_view(set, d[i].path@);
                assert(cats[i] == d[i]);
            }
        }
    }
}

proof fn lemma_books_not_in_has(books: Seq<book_files::Model>, set: Seq<String>, id: i64)
    ensures
        books_not_in(books, set).contains(id) <==> exists|i: int|
            0 <= i < books.len() && #[trigger] books[i].id == id && !seq_contains_view(set, books[i].path@),
    decreases books.len(),
{
    if books.len() > 0 {
        let d = books.drop_last();
        lemma_books_not_in_has(d, set, id);
        let r = books_not_in(d, set);
        if exists|i: int| 0 <= i < books.len() && #[trigger] books[i].id == id && !seq_contains_view(set, books[i].path@) {
            let i = choose|i: int|
                0 <= i < books.len() && #[trigger] books[i].id == id && !seq_contains_view(set, books[i].path@);
            if i < d.len() {
                assert(d[i] == books[i]);
                assert(r.contains(id));
                if !seq_contains_view(set, books.last().path@) {
                    let k = choose|k: int| 0 <= k < r.len() && r[k] == id;
                    assert(r.push(books.last().id)[k] == id);
                }
            } else {
                assert(r.push(books.last().id)[r.len() as int] == id);
            }
        }
        if books_not_in(books, set).contains(id) {
            if !seq_contains_view(set, books.last().path@) {
                let rp = r.push(books.last().id);
                let k = choose|k: int| 0 <= k < rp.len() && rp[k] == id;
                if k < r.len() {
                    assert(r[k] == id);
                    let i = choose|i: int|
                        0 <= i < d.len() && #[trigger] d[i].id == id && !seq_contains_view(set, d[i].path@);
                    assert(books[i] == d[i]);
                } else {
                    assert(books[books.len() - 1].id == id);
                }
            } else {
                let i = choose|i: int|
                    0 <= i < d.len() && #[trigger] d[i].id == id && !seq_contains_view(set, d[i].path@);
                assert(books[i] == d[i]);
            }
        }
    }
}

proof fn lemma_last_book_is_a_row(books: Seq<book_files::Model>, p: Seq<char>)
    ensures
        last_book_with_path(books, p) matches Some(d) ==> d.path@ == p && exists|j: int|
            0 <= j < books.len() && #[trigger] books[j] == d,
        (exists|j: int| 0 <= j < books.len() && #[trigger] books[j].path@ == p) ==> last_book_with_path(
            books,
            p,
        ) is Some,
    decreases books.len(),
{
    if books.len() > 0 {
        let d = books.drop_last();
        lemma_last_book_is_a_row(d, p);
        if books.last().path@ != p {
            if let Some(b) = last_book_with_path(d, p) {
                let j = choose|j: int| 0 <= j < d.len() && #[trigger] d[j] == b;
                assert(books[j] == b);
            }
            if exists|j: int| 0 <= j < books.len() && #[trigger] books[j].path@ == p {
                let j = choose|j: int| 0 <= j < books.len() && #[trigger] books[j].path@ == p;
                assert(d[j] == books[j]);
            }
        } else {
            assert(books[books.len() - 1] == books.last());
        }
    }
}

proof fn lemma_updated_books_has(scan: Seq<ScannedBookFile>, db: Seq<book_files::Model>, u: book_files::ModelView)
    ensures
        updated_books(scan, db).contains(u) <==> exists|i: int|
            0 <= i < scan.len() && #[trigger] updated_at(scan, db, i, u),
    decreases scan.len(),
{
    if scan.len() > 0 {
        let d = scan.drop_last();
        lemma_updated_books_has(d, db, u);
        let r = updated_books(d, db);
        let b = scan.last();
        assert forall|i: int| 0 <= i < d.len() implies updated_at(d, db, i, u) == updated_at(scan, db, i, u) by {
            assert(d[i] == scan[i]);
        }
        if exists|i: int| 0 <= i < scan.len() && #[trigger] updated_at(scan, db, i, u) {
            let i = choose|i: int| 0 <= i < scan.len() && #[trigger] updated_at(scan, db, i, u);
            if i < d.len() {
                assert(updated_at(d, db, i, u));
                assert(r.contains(u));
                let k = choose|k: int| 0 <= k < r.len() && r[k] == u;
                if let Some(x) = last_book_with_path(db, b.path@) {
                    if requires_update_spec(x@, b@) {
                        assert(r.push(merged_update(x@, b@))[k] == u);
                    }
                }
            } else {
                assert(scan[i] == b);
                let x = last_book_with_path(db, b.path@)->0;
                assert(r.push(merged_update(x@, b@))[r.len() as int] == u);
            }
        }
        if updated_books(scan, db).contains(u) {
            let k = choose|k: int| 0 <= k < updated_books(scan, db).len() && updated_books(scan, db)[k] == u;
            match last_book_with_path(db, b.path@) {
                Some(x) => {
                    if requires_update_spec(x@, b@) && k == r.len() {
                        assert(updated_at(scan, db, scan.len() - 1, u));
                    } else {
                        assert(r[k] == u);
                        let i = choose|i: int| 0 <= i < d.len() && #[trigger] updated_at(d, db, i, u);
                        assert(updated_at(scan, db, i, u));
                    }
                },
                None => {
                    assert(r[k] == u);
                    let i = choose|i: int| 0 <= i < d.len() && #[trigger] updated_at(d, db, i, u);
                    assert(updated_at(scan, db, i, u));
                },
            }
        }
    }
}

/// `u` is the update that the scanned book at position `i` calls for: the last row
/// with its path differs from it, and `u` is that row with the scan's measurements.
pub open spec fn updated_at(
    scan: Seq<ScannedBookFile>,
    db: Seq<book_files::Model>,
    i: int,
    u: book_files::ModelView,
) -> bool {
    last_book_with_path(db, scan[i].path@) matches Some(x) && requires_update_spec(x@, scan[i]@) && u
        == merged_update(x@, scan[i]@)
}

/// No two rows share an id (the id is the primary key).
pub open spec fn library_ids_unique(libs: Seq<libraries::Model>) -> bool {
    forall|i: int, j: int| 0 <= i < libs.len() && 0 <= j < libs.len() && #[trigger] libs[i].id == #[trigger] libs[j].id ==> i == j
}

pub open spec fn category_ids_unique(cats: Seq<categories::Model>) -> bool {
    forall|i: int, j: int| 0 <= i < cats.len() && 0 <= j < cats.len() && #[trigger] cats[i].id == #[trigger] cats[j].id ==> i == j
}

pub open spec fn book_ids_unique(books: Seq<book_files::Model>) -> bool {
    forall|i: int, j: int| 0 <= i < books.len() && 0 <= j < books.len() && #[trigger] books[i].id == #[trigger] books[j].id ==> i == j
}

/// No two rows share a path (the path is unique).
pub open spec fn book_paths_unique(books: Seq<book_files::Model>) -> bool {
    forall|i: int, j: int| 0 <= i < books.len() && 0 <= j < books.len() && #[trigger] books[i].path@ == #[trigger] books[j].path@ ==> i == j
}

/// No two scanned books share a path (a scan visits each path once).
pub open spec fn scanned_paths_unique(books: Seq<ScannedBookFile>) -> bool {
    forall|i: int, j: int| 0 <= i < books.len() && 0 <= j < books.len() && #[trigger] books[i].path@ == #[trigger] books[j].path@ ==> i == j
}

/// The row `r` holds what the scan measured of the book `s`.
pub open spec fn holds_scanned(r: book_files::ModelView, s: BookView) -> bool {
    &&& r.path == s.path
    &&& r.size == s.size
    &&& r.mtime == s.mtime
    &&& r.page_count == s.page_count
    &&& r.pages_json == s.pages_json
    &&& r.content_signature == s.content_signature
    &&& r.is_oversized == s.is_oversized
    &&& r.avg_page_pixels == s.avg_page_pixels
}

/// The library rows `db1` holds after a run that applied the diff between `db0` and the
/// configured roots `sp`: the rows of `db0` whose ids the diff does not delete (by
/// root path), and a row for each new root, nothing else.
pub open spec fn libraries_synced(sp: Seq<String>, db0: DatabaseData, db1: DatabaseData) -> bool {
    let old = db0.libraries@;
    let new = db1.libraries@;
    let added = paths_not_in(sp, library_roots(old));
    let gone = libraries_not_in(old, sp);
    &&& forall|j: int|
        0 <= j < new.len() ==> seq_contains_view(added, #[trigger] new[j].root_path@) || exists|i: int|
            0 <= i < old.len() && #[trigger] old[i].root_path@ == new[j].root_path@ && !gone.contains(old[i].id)
    &&& forall|i: int|
        0 <= i < old.len() && !gone.contains(#[trigger] old[i].id) ==> seq_contains_view(
            library_roots(new),
            old[i].root_path@,
        )
    &&& forall|k: int| 0 <= k < added.len() ==> seq_contains_view(library_roots(new), #[trigger] added[k]@)
}

/// The category rows `db1` holds after a run that applied the diff between `db0` and
/// `scan` and inserted every new category: the rows of `db0` whose ids the diff does
/// not delete (by path), and a row for each new path, nothing else.
pub open spec fn categories_synced(db0: DatabaseData, scan: ScanResult, db1: DatabaseData) -> bool {
    let old = db0.categories@;
    let new = db1.categories@;
    let sp = scanned_category_paths(scan.categories@);
    let added = paths_not_in(sp, category_paths(old));
    let gone = categories_not_in(old, sp);
    &&& forall|j: int|
        0 <= j < new.len() ==> seq_contains_view(added, #[trigger] new[j].path@) || exists|i: int|
            0 <= i < old.len() && #[trigger] old[i].path@ == new[j].path@ && !names_category(gone, old[i].id)
    &&& forall|i: int|
        0 <= i < old.len() && !names_category(gone, #[trigger] old[i].id) ==> seq_contains_view(
            category_paths(new),
            old[i].path@,
        )
    &&& forall|k: int| 0 <= k < added.len() ==> seq_contains_view(category_paths(new), #[trigger] added[k]@)
}

/// The book rows `db1` holds after a run that applied the diff between `db0` and `scan`,
/// inserted every new book and removed no kept book with its category: each row of
/// `db0` whose id the diff does not delete, replaced by its update where the diff has
/// one; a row holding the scanned measurements for each new path; nothing else.
pub open spec fn books_synced(db0: DatabaseData, scan: ScanResult, db1: DatabaseData) -> bool {
    let old = db0.book_files@;
    let new = db1.book_files@;
    let sp = scanned_book_paths(scan.book_files@);
    let added = paths_not_in(sp, book_paths(old));
    let gone = books_not_in(old, sp);
    let upd = updated_books(scan.book_files@, old);
    &&& forall|j: int|
        0 <= j < new.len() ==> (seq_contains_view(added, #[trigger] new[j].path@) && exists|i: int|
            0 <= i < scan.book_files@.len() && #[trigger] holds_scanned(new[j]@, scan.book_files@[i]@)) || exists|i: int|
            0 <= i < old.len() && #[trigger] old[i].path@ == new[j].path@ && !gone.contains(old[i].id) && (
            upd.contains(new[j]@) && new[j]@.id == old[i].id || (forall|k: int|
                0 <= k < upd.len() ==> (#[trigger] upd[k]).id != old[i].id) && new[j]@ == old[i]@)
    &&& forall|i: int|
        0 <= i < old.len() && !gone.contains(#[trigger] old[i].id) ==> seq_contains_view(
            book_paths(new),
            old[i].path@,
        )
    &&& forall|k: int| 0 <= k < added.len() ==> seq_contains_view(book_paths(new), #[trigger] added[k]@)
}

proof fn lemma_libraries_match(sp: Seq<String>, db0: DatabaseData, db1: DatabaseData)
    requires
        library_ids_unique(db0.libraries@),
        libraries_synced(sp, db0, db1),
    ensures
        all_paths_in(sp, library_roots(db1.libraries@)),
        all_paths_in(library_roots(db1.libraries@), sp),
{
    let old = db0.libraries@;
    let new = db1.libraries@;
    let added = paths_not_in(sp, library_roots(old));
    let gone = libraries_not_in(old, sp);
    assert forall|i: int| 0 <= i < sp.len() implies seq_contains_view(library_roots(new), #[trigger] sp[i]@) by {
        let p = sp[i]@;
        lemma_paths_not_in_has(sp, library_roots(old), p);
        if seq_contains_view(library_roots(old), p) {
            let i0 = choose|i0: int| 0 <= i0 < library_roots(old).len() && #[trigger] library_roots(old)[i0]@ == p;
            assert(old[i0].root_path@ == p);
            lemma_libraries_not_in_has(old, sp, old[i0].id);
            if gone.contains(old[i0].id) {
                let i1 = choose|i1: int|
                    0 <= i1 < old.len() && #[trigger] old[i1].id == old[i0].id && !seq_contains_view(sp, old[i1].root_path@);
                assert(i1 == i0);
            }
        } else {
            let k = choose|k: int| 0 <= k < added.len() && #[trigger] added[k]@ == p;
            assert(seq_contains_view(library_roots(new), added[k]@));
        }
    }
    assert forall|j: int| 0 <= j < library_roots(new).len() implies seq_contains_view(sp, #[trigger] library_roots(new)[j]@) by {
        let p = new[j].root_path@;
        assert(library_roots(new)[j]@ == p);
        lemma_paths_not_in_has(sp, library_roots(old), p);
        if !seq_contains_view(added, p) {
            let i0 = choose|i0: int|
                0 <= i0 < old.len() && #[trigger] old[i0].root_path@ == new[j].root_path@ && !gone.contains(old[i0].id);
            lemma_libraries_not_in_has(old, sp, old[i0].id);
        }
    }
}

proof fn lemma_categories_match(db0: DatabaseData, scan: ScanResult, db1: DatabaseData)
    requires
        category_ids_unique(db0.categories@),
        categories_synced(db0, scan, db1),
    ensures
        all_paths_in(scanned_category_paths(scan.categories@), category_paths(db1.categories@)),
        all_paths_in(category_paths(db1.categories@), scanned_category_paths(scan.categories@)),
{
    let old = db0.categories@;
    let new = db1.categories@;
    let sp = scanned_category_paths(scan.categories@);
    let added = paths_not_in(sp, category_paths(old));
    let gone = categories_not_in(old, sp);
    assert forall|i: int| 0 <= i < sp.len() implies seq_contains_view(category_paths(new), #[trigger] sp[i]@) by {
        let p = sp[i]@;
        lemma_paths_not_in_has(sp, category_paths(old), p);
        if seq_contains_view(category_paths(old), p) {
            let i0 = choose|i0: int| 0 <= i0 < category_paths(old).len() && #[trigger] category_paths(old)[i0]@ == p;
            assert(old[i0].path@ == p);
            lemma_categories_not_in_has(old, sp, old[i0].id);
            if names_category(gone, old[i0].id) {
                let i1 = choose|i1: int|
                    0 <= i1 < old.len() && #[trigger] old[i1].id == old[i0].id && !seq_contains_view(sp, old[i1].path@);
                assert(i1 == i0);
            }
        } else {
            let k = choose|k: int| 0 <= k < added.len() && #[trigger] added[k]@ == p;
            assert(seq_contains_view(category_paths(new), added[k]@));
        }
    }
    assert forall|j: int| 0 <= j < category_paths(new).len() implies seq_contains_view(sp, #[trigger] category_paths(new)[j]@) by {
        let p = new[j].path@;
        assert(category_paths(new)[j]@ == p);
        lemma_paths_not_in_has(sp, category_paths(old), p);
        if !seq_contains_view(added, p) {
            let i0 = choose|i0: int|
                0 <= i0 < old.len() && #[trigger] old[i0].path@ == new[j].path@ && !names_category(gone, old[i0].id);
            lemma_categories_not_in_has(old, sp, old[i0].id);
        }
    }
}

proof fn lemma_books_match(db0: DatabaseData, scan: ScanResult, db1: DatabaseData)
    requires
        book_ids_unique(db0.book_files@),
        books_synced(db0, scan, db1),
    ensures
        all_paths_in(scanned_book_paths(scan.book_files@), book_paths(db1.book_files@)),
        all_paths_in(book_paths(db1.book_files@), scanned_book_paths(scan.book_files@)),
{
    let old = db0.book_files@;
    let new = db1.book_files@;
    let sp = scanned_book_paths(scan.book_files@);
    let added = paths_not_in(sp, book_paths(old));
    let gone = books_not_in(old, sp);
    assert forall|i: int| 0 <= i < sp.len() implies seq_contains_view(book_paths(new), #[trigger] sp[i]@) by {
        let p = sp[i]@;
        lemma_paths_not_in_has(sp, book_paths(old), p);
        if seq_contains_view(book_paths(old), p) {
            let i0 = choose|i0: int| 0 <= i0 < book_paths(old).len() && #[trigger] book_paths(old)[i0]@ == p;
            assert(old[i0].path@ == p);
            lemma_books_not_in_has(old, sp, old[i0].id);
            if gone.contains(old[i0].id) {
                let i1 = choose|i1: int|
                    0 <= i1 < old.len() && #[trigger] old[i1].id == old[i0].id && !seq_contains_view(sp, old[i1].path@);
                assert(i1 == i0);
            }
        } else {
            let k = choose|k: int| 0 <= k < added.len() && #[trigger] added[k]@ == p;
            assert(seq_contains_view(book_paths(new), added[k]@));
        }
    }
    assert forall|j: int| 0 <= j < book_paths(new).len() implies seq_contains_view(sp, #[trigger] book_paths(new)[j]@) by {
        let p = new[j].path@;
        assert(book_paths(new)[j]@ == p);
        lemma_paths_not_in_has(sp, book_paths(old), p);
        if !seq_contains_view(added, p) {
            let i0 = choose|i0: int| 0 <= i0 < old.len() && #[trigger] old[i0].path@ == new[j].path@ && !gone.contains(old[i0].id);
            lemma_books_not_in_has(old, sp, old[i0].id);
        }
    }
}

proof fn lemma_books_unchanged(db0: DatabaseData, scan: ScanResult, db1: DatabaseData)
    requires
        book_paths_unique(db0.book_files@),
        scanned_paths_unique(scan.book_files@),
        books_synced(db0, scan, db1),
    ensures
        no_book_changed(scan.book_files@, db1.book_files@),
{
    let old = db0.book_files@;
    let new = db1.book_files@;
    let sc = scan.book_files@;
    let sp = scanned_book_paths(sc);
    let added = paths_not_in(sp, book_paths(old));
    let gone = books_not_in(old, sp);
    let upd = updated_books(sc, old);
    assert forall|i: int| 0 <= i < sc.len() implies match last_book_with_path(new, (#[trigger] sc[i]).path@) {
        Some(d) => !requires_update_spec(d@, sc[i]@),
        None => true,
    } by {
        let s = sc[i];
        let p = s.path@;
        lemma_last_book_is_a_row(new, p);
        if let Some(d) = last_book_with_path(new, p) {
            let j = choose|j: int| 0 <= j < new.len() && #[trigger] new[j] == d;
            if seq_contains_view(added, new[j].path@) && exists|m: int|
                0 <= m < sc.len() && #[trigger] holds_scanned(new[j]@, sc[m]@) {
                let m = choose|m: int| 0 <= m < sc.len() && #[trigger] holds_scanned(new[j]@, sc[m]@);
                assert(sc[m].path@ == p);
                assert(m == i);
            } else {
                let i0 = choose|i0: int|
                    0 <= i0 < old.len() && #[trigger] old[i0].path@ == new[j].path@ && !gone.contains(old[i0].id) && (
                    upd.contains(new[j]@) && new[j]@.id == old[i0].id || (forall|k: int|
                        0 <= k < upd.len() ==> (#[trigger] upd[k]).id != old[i0].id) && new[j]@ == old[i0]@);
                if upd.contains(d@) && d@.id == old[i0].id {
                    lemma_updated_books_has(sc, old, d@);
                    let m = choose|m: int| 0 <= m < sc.len() && #[trigger] updated_at(sc, old, m, d@);
                    assert(sc[m].path@ == p);
                    assert(m == i);
                } else {
                    assert(d@ == old[i0]@);
                    if requires_update_spec(old[i0]@, s@) {
                        lemma_last_book_is_a_row(old, p);
                        let x = last_book_with_path(old, p)->0;
                        let j1 = choose|j1: int| 0 <= j1 < old.len() && #[trigger] old[j1] == x;
                        assert(j1 == i0);
                        let u = merged_update(x@, s@);
                        assert(updated_at(sc, old, i, u));
                        lemma_updated_books_has(sc, old, u);
                        let k = choose|k: int| 0 <= k < upd.len() && upd[k] == u;
                        assert(upd[k].id != old[i0].id);
                    }
                }
            }
        }
    }
}

/// A synchronisation is a fixed point.  Where `db1` holds what a run left after
/// applying the diff between `db0` and a scan (the configured roots `sp`): every
/// planned row inserted, every kept row kept (no book removed with a deleted
/// category), every update written; and where ids, stored book paths and scanned book
/// paths are each unique: the diff between `db1` and the same scan adds, deletes and
/// updates nothing.
pub proof fn law_second_sync_changes_nothing(sp: Seq<String>, db0: DatabaseData, scan: ScanResult, db1: DatabaseData)
    requires
        library_ids_unique(db0.libraries@),
        category_ids_unique(db0.categories@),
        book_ids_unique(db0.book_files@),
        book_paths_unique(db0.book_files@),
        scanned_paths_unique(scan.book_files@),
        libraries_synced(sp, db0, db1),
        categories_synced(db0, scan, db1),
        books_synced(db0, scan, db1),
    ensures
        paths_not_in(sp, library_roots(db1.libraries@)).len() == 0,
        libraries_not_in(db1.libraries@, sp).len() == 0,
        forall|sorted: Seq<(i64, String)>|
            #[trigger] stably_sorted(
                sorted,
                keyed_by_len(paths_not_in(
                    scanned_category_paths(scan.categories@),
                    category_paths(db1.categories@),
                )),
            ) ==> sorted.len() == 0,
        forall|sorted: Seq<(i64, i64)>|
            #[trigger] stably_sorted(
                sorted,
                categories_not_in(db1.categories@, scanned_category_paths(scan.categories@)),
            ) ==> sorted.len() == 0,
        paths_not_in(scanned_book_paths(scan.book_files@), book_paths(db1.book_files@)).len() == 0,
        books_not_in(db1.book_files@, scanned_book_paths(scan.book_files@)).len() == 0,
        updated_books(scan.book_files@, db1.book_files@).len() == 0,
{
    lemma_libraries_match(sp, db0, db1);
    lemma_categories_match(db0, scan, db1);
    lemma_books_match(db0, scan, db1);
    lemma_books_unchanged(db0, scan, db1);
    law_matching_database_needs_no_change(sp, db1, scan);
}

proof fn lemma_library_with_id_found(libs: Seq<libraries::Model>, id: i64, i: int)
    requires
        0 <= i < libs.len(),
        libs[i].id == id,
    ensures
        last_library_with_id(libs, id) is Some,
    decreases libs.len(),
{
    if libs.last().id != id {
        assert(libs.drop_last()[i] == libs[i]);
        lemma_library_with_id_found(libs.drop_last(), id, i);
    }
}

proof fn lemma_category_with_id_found(cats: Seq<categories::Model>, id: i64, i: int)
    requires
        0 <= i < cats.len(),
        cats[i].id == id,
    ensures
        last_category_with_id(cats, id) is Some,
    decreases cats.len(),
{
    if cats.last().id != id {
        assert(cats.drop_last()[i] == cats[i]);
        lemma_category_with_id_found(cats.drop_last(), id, i);
    }
}

proof fn lemma_book_with_id_found(books: Seq<book_files::Model>, id: i64, i: int)
    requires
        0 <= i < books.len(),
        books[i].id == id,
    ensures
        last_book_with_id(books, id) is Some,
    decreases books.len(),
{
    if books.last().id != id {
        assert(books.drop_last()[i] == books[i]);
        lemma_book_with_id_found(books.drop_last(), id, i);
    }
}

/// Every row that the diff between `db` and a scan deletes is a stored row: each id in
/// its list of deleted libraries, in its list of deleted books, and in any stable sort
/// of its deleted categories (the order the run deletes them in) is the id of a row of
/// `db`.  So each deletion that a run records finds its row and adds its detail; as a
/// new report has every count equal to the length of its details, and each recording
/// keeps that (`SyncState::record_*`), so does the report of a whole run.
pub proof fn law_deleted_ids_are_stored(
    sp: Seq<String>,
    db: DatabaseData,
    scan: ScanResult,
    sorted: Seq<(i64, i64)>,
    id: i64,
)
    ensures
        libraries_not_in(db.libraries@, sp).contains(id) ==> last_library_with_id(db.libraries@, id) is Some,
        books_not_in(db.book_files@, scanned_book_paths(scan.book_files@)).contains(id)
            ==> last_book_with_id(db.book_files@, id) is Some,
        stably_sorted(sorted, categories_not_in(db.categories@, scanned_category_paths(scan.categories@)))
            && sorted.map_values(|x: (i64, i64)| x.1).contains(id) ==> last_category_with_id(
            db.categories@,
            id,
        ) is Some,
{
    lemma_libraries_not_in_has(db.libraries@, sp, id);
    if libraries_not_in(db.libraries@, sp).contains(id) {
        let i = choose|i: int|
            0 <= i < db.libraries@.len() && #[trigger] db.libraries@[i].id == id && !seq_contains_view(
                sp,
                db.libraries@[i].root_path@,
            );
        lemma_library_with_id_found(db.libraries@, id, i);
    }
    let bp = scanned_book_paths(scan.book_files@);
    lemma_books_not_in_has(db.book_files@, bp, id);
    if books_not_in(db.book_files@, bp).contains(id) {
        let i = choose|i: int|
            0 <= i < db.book_files@.len() && #[trigger] db.book_files@[i].id == id && !seq_contains_view(
                bp,
                db.book_files@[i].path@,
            );
        lemma_book_with_id_found(db.book_files@, id, i);
    }
    let cp = scanned_category_paths(scan.categories@);
    let cn = categories_not_in(db.categories@, cp);
    if stably_sorted(sorted, cn) && sorted.map_values(|x: (i64, i64)| x.1).contains(id) {
        let ids = sorted.map_values(|x: (i64, i64)| x.1);
        let k = choose|k: int| 0 <= k < ids.len() && #[trigger] ids[k] == id;
        assert(sorted[k].1 == id);
        lemma_sorted_items_from(sorted, cn);
        assert(cn.contains(sorted[k]));
        let m = choose|m: int| 0 <= m < cn.len() && cn[m] == sorted[k];
        assert(names_category(cn, id));
        lemma_categories_not_in_has(db.categories@, cp, id);
        let i = choose|i: int|
            0 <= i < db.categories@.len() && #[trigger] db.categories@[i].id == id && !seq_contains_view(
                cp,
                db.categories@[i].path@,
            );
        lemma_category_with_id_found(db.categories@, id, i);
    }
}

/// An update that the diff calls for changes only what the scan measures: each updated
/// row is the stored row at its path with the same id, category, favourite flag, cover
/// path and creation time, and it takes its kind, size, time, pages, signature and pixel
/// statistics from the scanned book at that path.
pub proof fn law_updates_keep_stored_fields(
    scan: Seq<ScannedBookFile>,
    db: Seq<book_files::Model>,
    u: book_files::ModelView,
)
    requires
        updated_books(scan, db).contains(u),
    ensures
        exists|j: int|
            0 <= j < db.len() && (#[trigger] db[j])@.path == u.path && db[j].id == u.id && db[j].category_id
                == u.category_id && db[j].is_favorite == u.is_favorite && db[j]@.cover_path == u.cover_path
                && db[j]@.created_at == u.created_at,
        exists|i: int|
            0 <= i < scan.len() && (#[trigger] scan[i])@.path == u.path && u.kind == scan[i]@.kind && u.size
                == scan[i].size && u.mtime == scan[i].mtime && u.page_count == scan[i].page_count && u.pages_json
                == scan[i]@.pages_json && u.content_signature == scan[i]@.content_signature && u.is_oversized
                == scan[i].is_oversized && u.avg_page_pixels == scan[i].avg_page_pixels,
{
    lemma_updated_books_has(scan, db, u);
    let i = choose|i: int| 0 <= i < scan.len() && #[trigger] updated_at(scan, db, i, u);
    let p = scan[i].path@;
    lemma_last_book_is_a_row(db, p);
    let x = last_book_with_path(db, p)->0;
    let j = choose|j: int| 0 <= j < db.len() && #[trigger] db[j] == x;
    assert(db[j]@.path == u.path);
    assert(scan[i]@.path == u.path);
}

} // verus!
