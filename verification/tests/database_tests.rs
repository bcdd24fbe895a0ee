use auxm::domain::{book_files, categories, libraries};
use auxm::scanner::types::{ScannedBookFile, ScannedCategory};
use auxm::scanner::ScanResult;
use auxm::service::database::{
    book_requires_update, build_category_tree, books_in_categories, collect_descendant_category_ids,
    compute_diff, display_book_title, normalize_sqlite_path, path_name, DatabaseData,
};

fn db_book(id: i64, category_id: i64, path: &str) -> book_files::Model {
    book_files::Model {
        id,
        category_id,
        path: path.to_string(),
        title: None,
        kind: "pdf".to_string(),
        size: 100,
        mtime: 10,
        page_count: 8,
        pages_json: None,
        content_signature: None,
        is_oversized: false,
        avg_page_pixels: 0,
        is_favorite: false,
        cover_path: None,
        created_at: None,
    }
}

fn scanned_of(b: &book_files::Model) -> ScannedBookFile {
    ScannedBookFile {
        path: b.path.clone(),
        title: b.title.clone(),
        kind: b.kind.clone(),
        size: b.size,
        mtime: b.mtime,
        page_count: b.page_count,
        pages_json: b.pages_json.clone(),
        content_signature: b.content_signature.clone(),
        is_oversized: b.is_oversized,
        avg_page_pixels: b.avg_page_pixels,
        cover_path: b.cover_path.clone(),
    }
}

fn category(id: i64, parent_id: Option<i64>, path: &str) -> categories::Model {
    categories::Model {
        id,
        library_id: 1,
        parent_id,
        name: path.rsplit('/').next().unwrap().to_string(),
        path: path.to_string(),
        mtime: 0,
    }
}

#[test]
fn book_requires_update_detects_content_signature_change() {
    let db_book = book_files::Model {
        id: 1,
        category_id: 1,
        path: "/library/book".to_string(),
        title: Some("book".to_string()),
        kind: "image_folder".to_string(),
        size: 100,
        mtime: 10,
        page_count: 2,
        pages_json: Some("[\"a\",\"b\"]".to_string()),
        content_signature: Some("old-signature".to_string()),
        is_oversized: false,
        avg_page_pixels: 123,
        is_favorite: false,
        cover_path: Some("/library/book/a.png".to_string()),
        created_at: None,
    };
    let scanned_book = ScannedBookFile {
        path: db_book.path.clone(),
        title: db_book.title.clone(),
        kind: db_book.kind.clone(),
        size: db_book.size,
        mtime: db_book.mtime,
        page_count: db_book.page_count,
        pages_json: db_book.pages_json.clone(),
        content_signature: Some("new-signature".to_string()),
        is_oversized: db_book.is_oversized,
        avg_page_pixels: db_book.avg_page_pixels,
        cover_path: db_book.cover_path.clone(),
    };
    assert!(book_requires_update(&db_book, &scanned_book));
}

#[test]
fn book_requires_update_ignores_identical_scanned_book() {
    let db_book = book_files::Model {
        id: 1,
        category_id: 1,
        path: "/library/book".to_string(),
        title: Some("book".to_string()),
        kind: "pdf".to_string(),
        size: 100,
        mtime: 10,
        page_count: 8,
        pages_json: None,
        content_signature: None,
        is_oversized: false,
        avg_page_pixels: 0,
        is_favorite: false,
        cover_path: None,
        created_at: None,
    };
    let scanned_book = ScannedBookFile {
        path: db_book.path.clone(),
        title: db_book.title.clone(),
        kind: db_book.kind.clone(),
        size: db_book.size,
        mtime: db_book.mtime,
        page_count: db_book.page_count,
        pages_json: db_book.pages_json.clone(),
        content_signature: db_book.content_signature.clone(),
        is_oversized: db_book.is_oversized,
        avg_page_pixels: db_book.avg_page_pixels,
        cover_path: db_book.cover_path.clone(),
    };
    assert!(!book_requires_update(&db_book, &scanned_book));
}

#[test]
fn book_requires_update_ignores_title_and_cover() {
    let db = db_book(1, 1, "/lib/a.pdf");
    let mut s = scanned_of(&db);
    s.title = Some("Another".to_string());
    s.cover_path = Some("/x.png".to_string());
    assert!(!book_requires_update(&db, &s));
    s.size = 101;
    assert!(book_requires_update(&db, &s));
}

#[test]
fn sqlite_paths_lose_their_scheme() {
    assert_eq!(normalize_sqlite_path("sqlite://data/auxm.db"), "data/auxm.db");
    assert_eq!(normalize_sqlite_path("sqlite:auxm.db"), "auxm.db");
    assert_eq!(normalize_sqlite_path("/plain/file.db"), "/plain/file.db");
}

#[test]
fn names_and_titles_fall_back_to_the_path() {
    assert_eq!(path_name("/lib/comics"), "comics");
    assert_eq!(path_name("/"), "/");
    let mut b = db_book(1, 1, "/lib/a.pdf");
    assert_eq!(display_book_title(&b), "a.pdf");
    b.title = Some("Title".to_string());
    assert_eq!(display_book_title(&b), "Title");
}

#[test]
fn diff_finds_new_deleted_and_updated_rows() {
    let db = DatabaseData {
        libraries: vec![
            libraries::Model { id: 1, name: "lib".to_string(), root_path: "/lib".to_string(), last_scanned_at: 0 },
            libraries::Model { id: 2, name: "old".to_string(), root_path: "/old".to_string(), last_scanned_at: 0 },
        ],
        categories: vec![category(10, None, "/lib"), category(11, Some(10), "/lib/gone")],
        book_files: vec![db_book(100, 10, "/lib/keep.pdf"), db_book(101, 11, "/lib/gone/x.pdf")],
    };
    let mut changed = scanned_of(&db.book_files[0]);
    changed.size = 999;
    let scan = ScanResult {
        book_files: vec![changed, ScannedBookFile { path: "/lib/new/y.pdf".to_string(), ..scanned_of(&db.book_files[0]) }],
        categories: vec![
            ScannedCategory { name: "lib".to_string(), path: "/lib".to_string(), mtime: 0 },
            ScannedCategory { name: "deeper".to_string(), path: "/lib/new/deeper".to_string(), mtime: 0 },
            ScannedCategory { name: "new".to_string(), path: "/lib/new".to_string(), mtime: 0 },
        ],
    };
    let scan_paths = vec!["/lib".to_string(), "/fresh".to_string()];
    let diff = compute_diff(&scan_paths, &db, &scan);
    assert_eq!(diff.new_library_paths, vec!["/fresh".to_string()]);
    assert_eq!(diff.deleted_library_ids, vec![2]);
    assert_eq!(diff.new_category_paths, vec!["/lib/new".to_string(), "/lib/new/deeper".to_string()]);
    assert_eq!(diff.deleted_category_ids, vec![11]);
    assert_eq!(diff.new_book_file_paths, vec!["/lib/new/y.pdf".to_string()]);
    assert_eq!(diff.deleted_book_file_ids, vec![101]);
    assert_eq!(diff.updated_book_files.len(), 1);
    assert_eq!(diff.updated_book_files[0].id, 100);
    assert_eq!(diff.updated_book_files[0].size, 999);
}

#[test]
fn second_diff_after_applying_the_first_is_empty() {
    let lib = |id: i64, root: &str| libraries::Model { id, name: root.to_string(), root_path: root.to_string(), last_scanned_at: 0 };
    let db0 = DatabaseData {
        libraries: vec![lib(1, "/lib"), lib(2, "/old")],
        categories: vec![category(10, None, "/lib"), category(11, Some(10), "/lib/gone")],
        book_files: vec![db_book(100, 10, "/lib/keep.pdf"), db_book(101, 11, "/lib/gone/x.pdf")],
    };
    let mut changed = scanned_of(&db0.book_files[0]);
    changed.size = 999;
    let fresh_book = ScannedBookFile { path: "/lib/new/y.pdf".to_string(), mtime: 77, ..scanned_of(&db0.book_files[0]) };
    let scan = ScanResult {
        book_files: vec![changed, fresh_book],
        categories: vec![
            ScannedCategory { name: "lib".to_string(), path: "/lib".to_string(), mtime: 0 },
            ScannedCategory { name: "new".to_string(), path: "/lib/new".to_string(), mtime: 0 },
        ],
    };
    let scan_paths = vec!["/lib".to_string(), "/fresh".to_string()];
    let d0 = compute_diff(&scan_paths, &db0, &scan);

    let mut libs: Vec<libraries::Model> =
        db0.libraries.iter().filter(|l| !d0.deleted_library_ids.contains(&l.id)).map(|l| lib(l.id, &l.root_path)).collect();
    for (k, p) in d0.new_library_paths.iter().enumerate() {
        libs.push(lib(50 + k as i64, p));
    }
    let mut cats: Vec<categories::Model> = db0
        .categories
        .iter()
        .filter(|c| !d0.deleted_category_ids.contains(&c.id))
        .map(|c| category(c.id, c.parent_id, &c.path))
        .collect();
    for (k, p) in d0.new_category_paths.iter().enumerate() {
        cats.push(category(60 + k as i64, Some(10), p));
    }
    let mut books: Vec<book_files::Model> = Vec::new();
    for b in db0.book_files.iter().filter(|b| !d0.deleted_book_file_ids.contains(&b.id)) {
        match d0.updated_book_files.iter().find(|u| u.id == b.id) {
            Some(u) => books.push(book_files::Model { size: u.size, ..db_book(u.id, u.category_id, &u.path) }),
            None => books.push(db_book(b.id, b.category_id, &b.path)),
        }
    }
    for (k, p) in d0.new_book_file_paths.iter().enumerate() {
        let s = scan.book_files.iter().find(|s| &s.path == p).unwrap();
        books.push(book_files::Model { mtime: s.mtime, size: s.size, ..db_book(70 + k as i64, 60, p) });
    }
    let db1 = DatabaseData { libraries: libs, categories: cats, book_files: books };

    let d1 = compute_diff(&scan_paths, &db1, &scan);
    assert!(d1.new_library_paths.is_empty());
    assert!(d1.deleted_library_ids.is_empty());
    assert!(d1.new_category_paths.is_empty());
    assert!(d1.deleted_category_ids.is_empty());
    assert!(d1.new_book_file_paths.is_empty());
    assert!(d1.deleted_book_file_ids.is_empty());
    assert!(d1.updated_book_files.is_empty());
}

#[test]
fn diff_deletes_deeper_categories_first() {
    let db = DatabaseData {
        libraries: vec![],
        categories: vec![category(1, None, "/a"), category(2, Some(1), "/a/bb"), category(3, Some(2), "/a/bb/c")],
        book_files: vec![],
    };
    let scan = ScanResult { book_files: vec![], categories: vec![] };
    let diff = compute_diff(&vec![], &db, &scan);
    assert_eq!(diff.deleted_category_ids, vec![3, 2, 1]);
}

#[test]
fn diff_of_matching_database_is_empty() {
    let db = DatabaseData {
        libraries: vec![libraries::Model { id: 1, name: "lib".to_string(), root_path: "/lib".to_string(), last_scanned_at: 0 }],
        categories: vec![category(10, None, "/lib")],
        book_files: vec![db_book(100, 10, "/lib/a.pdf")],
    };
    let scan = ScanResult {
        book_files: vec![scanned_of(&db.book_files[0])],
        categories: vec![ScannedCategory { name: "lib".to_string(), path: "/lib".to_string(), mtime: 0 }],
    };
    let diff = compute_diff(&vec!["/lib".to_string()], &db, &scan);
    assert!(diff.new_library_paths.is_empty());
    assert!(diff.deleted_library_ids.is_empty());
    assert!(diff.new_category_paths.is_empty());
    assert!(diff.deleted_category_ids.is_empty());
    assert!(diff.new_book_file_paths.is_empty());
    assert!(diff.deleted_book_file_ids.is_empty());
    assert!(diff.updated_book_files.is_empty());
}

#[test]
fn category_tree_nests_children_and_counts_books() {
    let cats = vec![category(1, None, "/a"), category(2, Some(1), "/a/b"), category(3, None, "/c"), category(4, Some(2), "/a/b/d")];
    let books = vec![db_book(10, 2, "/a/b/x.pdf"), db_book(11, 2, "/a/b/y.pdf"), db_book(12, 3, "/c/z.pdf")];
    let tree = build_category_tree(&cats, &books);
    assert_eq!(tree.len(), 2);
    assert_eq!(tree[0].id, 1);
    assert_eq!(tree[0].book_count, 0);
    assert_eq!(tree[0].sub_categories.len(), 1);
    assert_eq!(tree[0].sub_categories[0].id, 2);
    assert_eq!(tree[0].sub_categories[0].book_count, 2);
    assert_eq!(tree[0].sub_categories[0].sub_categories[0].id, 4);
    assert_eq!(tree[1].id, 3);
    assert_eq!(tree[1].book_count, 1);
    assert_eq!(tree[1].name, "c");
}

#[test]
fn descendants_come_level_by_level_in_list_order() {
    let cats = vec![
        category(5, Some(2), "/a/b/e"),
        category(2, Some(1), "/a/b"),
        category(3, Some(1), "/a/c"),
        category(4, Some(3), "/a/c/d"),
        category(1, None, "/a"),
    ];
    assert_eq!(collect_descendant_category_ids(1, &cats), vec![1, 2, 3, 5, 4]);
}

#[test]
fn descendants_end_on_a_cycle_of_parents() {
    let cats = vec![category(1, Some(2), "/a"), category(2, Some(1), "/b")];
    assert_eq!(collect_descendant_category_ids(1, &cats), vec![1, 2]);
}

#[test]
fn descendants_include_the_category_and_everything_below() {
    let cats = vec![category(1, None, "/a"), category(2, Some(1), "/a/b"), category(3, Some(2), "/a/b/c"), category(4, None, "/d")];
    let ids = collect_descendant_category_ids(1, &cats);
    assert_eq!(ids, vec![1, 2, 3]);
    assert_eq!(collect_descendant_category_ids(4, &cats), vec![4]);
    assert_eq!(collect_descendant_category_ids(99, &cats), vec![99]);
    let books = vec![db_book(10, 3, "/a/b/c/x.pdf"), db_book(11, 4, "/d/y.pdf")];
    let found = books_in_categories(books, &ids);
    assert_eq!(found.len(), 1);
    assert_eq!(found[0].id, 10);
}

#[test]
fn deep_chain_tree_is_complete() {
    let cats = vec![category(1, None, "/a"), category(2, Some(1), "/a/b"), category(3, Some(2), "/a/b/c")];
    let tree = build_category_tree(&cats, &vec![]);
    assert_eq!(tree.len(), 1);
    assert_eq!(tree[0].sub_categories[0].sub_categories[0].id, 3);
    assert!(tree[0].sub_categories[0].sub_categories[0].sub_categories.is_empty());
}
