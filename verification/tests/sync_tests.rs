use auxm::service::database::{connection_bounds, sqlite_file_url};
use auxm::domain::{book_files, categories, libraries};
use auxm::scanner::types::{ScannedBookFile, ScannedCategory};
use auxm::service::database::DatabaseData;
use auxm::service::sync::{entry_name, resolve_book_category_path, resolve_category_path, resolve_library_path, SyncState};
use auxm::service::schema::{missing_column_alters, schema_statements, SCHEMA_SQL};

fn lib(id: i64, root: &str) -> libraries::Model {
    libraries::Model { id, name: root.rsplit('/').next().unwrap().to_string(), root_path: root.to_string(), last_scanned_at: 0 }
}

fn cat(id: i64, library_id: i64, parent_id: Option<i64>, path: &str) -> categories::Model {
    categories::Model { id, library_id, parent_id, name: path.rsplit('/').next().unwrap().to_string(), path: path.to_string(), mtime: 5 }
}

fn book(id: i64, category_id: i64, path: &str) -> book_files::Model {
    book_files::Model {
        id,
        category_id,
        path: path.to_string(),
        title: None,
        kind: "pdf".to_string(),
        size: 1,
        mtime: 1,
        page_count: 1,
        pages_json: None,
        content_signature: None,
        is_oversized: false,
        avg_page_pixels: 0,
        is_favorite: false,
        cover_path: None,
        created_at: None,
    }
}

fn scanned(path: &str) -> ScannedBookFile {
    ScannedBookFile {
        path: path.to_string(),
        title: None,
        kind: "pdf".to_string(),
        size: 3,
        mtime: 4,
        page_count: 2,
        pages_json: None,
        content_signature: None,
        is_oversized: false,
        avg_page_pixels: 0,
        cover_path: None,
    }
}

#[test]
fn library_path_is_the_longest_matching_root() {
    let libs = vec![lib(1, "/books"), lib(2, "/books/manga")];
    assert_eq!(resolve_library_path("/books/manga/one", &vec![], &libs), "/books/manga");
    assert_eq!(resolve_library_path("/books/novels", &vec![], &libs), "/books");
    assert_eq!(resolve_library_path("/elsewhere", &vec![], &libs), "");
    let inserted = vec![("/books/manga/one".to_string(), 9)];
    assert_eq!(resolve_library_path("/books/manga/one/vol", &inserted, &libs), "/books/manga/one");
}

#[test]
fn book_category_is_its_own_path_or_its_parent() {
    let cats = vec![cat(1, 1, None, "/books/folder")];
    assert_eq!(resolve_book_category_path("/books/folder", &vec![], &cats), Some("/books/folder".to_string()));
    assert_eq!(resolve_book_category_path("/books/folder/a.pdf", &vec![], &cats), Some("/books/folder".to_string()));
    let inserted = vec![("/new/book".to_string(), 3)];
    assert_eq!(resolve_book_category_path("/new/book", &inserted, &cats), Some("/new/book".to_string()));
}

#[test]
fn category_path_by_id_is_empty_when_unknown() {
    let cats = vec![cat(1, 1, None, "/a"), cat(2, 1, Some(1), "/a/b")];
    assert_eq!(resolve_category_path(2, &cats), "/a/b");
    assert_eq!(resolve_category_path(7, &cats), "");
}

#[test]
fn entry_names_fall_back_to_unnamed() {
    assert_eq!(entry_name("/books/manga"), "manga");
    assert_eq!(entry_name("/"), "Unnamed");
}

#[test]
fn planning_a_sync_run() {
    let db = DatabaseData {
        libraries: vec![lib(1, "/books")],
        categories: vec![cat(10, 1, None, "/books")],
        book_files: vec![book(100, 10, "/books/old.pdf")],
    };
    let scanned_categories = vec![ScannedCategory { name: "series".to_string(), path: "/books/series".to_string(), mtime: 42 }];
    let scanned_books = vec![scanned("/books/series/v1.pdf")];
    let mut state = SyncState::new();

    state.record_library("/extra", 2);
    assert_eq!(state.report.inserted_libraries, 1);
    assert_eq!(state.report.inserted_library_details[0].name, "extra");

    let plan = state.plan_category("/books/series", &db, &scanned_categories).unwrap();
    assert_eq!(plan.library_id, 1);
    assert_eq!(plan.parent_id, Some(10));
    assert_eq!(plan.name, "series");
    assert_eq!(plan.mtime, 42);
    assert!(state.plan_category("/nowhere/x", &db, &scanned_categories).is_none());

    state.record_category(&plan, 11, &db.libraries);
    assert_eq!(state.report.inserted_categories, 1);
    let detail = &state.report.inserted_category_details[0];
    assert_eq!(detail.library_path, Some("/books".to_string()));
    assert_eq!(detail.parent_path, Some("/books".to_string()));

    let insert = state.plan_book("/books/series/v1.pdf", &db, &scanned_books).unwrap();
    assert_eq!(insert.category_id, 11);
    assert_eq!(insert.category_path, Some("/books/series".to_string()));
    assert!(state.plan_book("/books/series/missing.pdf", &db, &scanned_books).is_none());
    state.record_book(&insert);
    assert_eq!(state.report.inserted_book_file_details[0].title, "v1.pdf");

    state.record_deleted_book(100, &db);
    state.record_deleted_book(555, &db);
    assert_eq!(state.report.deleted_book_files, 2);
    assert_eq!(state.report.deleted_book_file_details.len(), 1);
    assert_eq!(state.report.deleted_book_file_details[0].category_path, Some("/books".to_string()));

    state.record_deleted_category(10, &db);
    assert_eq!(state.report.deleted_category_details[0].library_path, Some("/books".to_string()));
    assert_eq!(state.report.deleted_category_details[0].parent_path, None);
    state.record_deleted_library(1, &db);
    assert_eq!(state.report.deleted_library_details[0].path, "/books");
    assert_eq!(state.report.deleted_libraries, 1);
}

#[test]
fn deleted_book_without_category_reports_its_parent_directory() {
    let db = DatabaseData { libraries: vec![], categories: vec![], book_files: vec![book(5, 77, "/x/y/z.pdf")] };
    let mut state = SyncState::new();
    state.record_deleted_book(5, &db);
    assert_eq!(state.report.deleted_book_file_details[0].category_path, Some("/x/y".to_string()));
}

#[test]
fn updated_book_reports_its_category_path() {
    let cats = vec![cat(3, 1, None, "/lib/cat")];
    let mut state = SyncState::new();
    state.record_updated_book(&book(1, 3, "/lib/cat/a.pdf"), &cats);
    state.record_updated_book(&book(2, 9, "/lib/other/b.pdf"), &cats);
    assert_eq!(state.report.updated_book_files, 2);
    assert_eq!(state.report.updated_book_file_details[0].category_path, Some("/lib/cat".to_string()));
    assert_eq!(state.report.updated_book_file_details[1].category_path, Some(String::new()));
}

#[test]
fn schema_splits_into_six_statements() {
    let statements = schema_statements(SCHEMA_SQL);
    assert_eq!(statements.len(), 6);
    assert!(statements[0].trim().starts_with("CREATE TABLE IF NOT EXISTS libraries"));
    assert_eq!(schema_statements("a;; b ;  "), vec!["a".to_string(), " b ".to_string()]);
}

#[test]
fn only_missing_columns_are_added() {
    let all = missing_column_alters(&vec![]);
    assert_eq!(all.len(), 3);
    let some = missing_column_alters(&vec!["is_oversized".to_string(), "avg_page_pixels".to_string()]);
    assert_eq!(some, vec!["ALTER TABLE book_files ADD COLUMN content_signature TEXT"]);
}

#[test]
fn connection_pool_bounds() {
    assert_eq!(connection_bounds(16, 1), (16, 1));
    assert_eq!(connection_bounds(0, 0), (1, 0));
    assert_eq!(connection_bounds(4, 9), (4, 4));
    assert_eq!(sqlite_file_url("data/auxm.db"), "sqlite:data/auxm.db");
}

#[test]
fn report_counts_equal_their_detail_lists_when_every_deleted_row_is_stored() {
    let db = DatabaseData {
        libraries: vec![lib(1, "/books")],
        categories: vec![cat(10, 1, None, "/books"), cat(11, 1, Some(10), "/books/a")],
        book_files: vec![book(100, 11, "/books/a/x.pdf"), book(101, 10, "/books/y.pdf")],
    };
    let mut state = SyncState::new();
    state.record_library("/more", 2);
    state.record_updated_book(&book(101, 10, "/books/y.pdf"), &db.categories);
    state.record_deleted_book(100, &db);
    state.record_deleted_category(11, &db);
    state.record_deleted_library(1, &db);
    let r = &state.report;
    assert_eq!(r.inserted_libraries, r.inserted_library_details.len());
    assert_eq!(r.deleted_libraries, r.deleted_library_details.len());
    assert_eq!(r.inserted_categories, r.inserted_category_details.len());
    assert_eq!(r.deleted_categories, r.deleted_category_details.len());
    assert_eq!(r.inserted_book_files, r.inserted_book_file_details.len());
    assert_eq!(r.deleted_book_files, r.deleted_book_file_details.len());
    assert_eq!(r.updated_book_files, r.updated_book_file_details.len());
    assert_eq!(r.deleted_book_files, 1);
}
