use auxm::config::{Config, EnvOverrides};
use auxm::domain::{book_files, page_favorites, page_spreads, user_data};
use auxm::error::{AppError, ConfigError};
use auxm::handlers::books::{
    build_books_response, favorite_book_id, favorite_page_item, find_page_by_name, image_page_infos, page_at,
    page_paths, page_window, pdf_page_infos, serves_full_size, sort_desc, to_book_detail_response, to_book_response,
    wants_all, whole_list_page_size, ListQuery, PageFavoriteResponse, PageMeta, PageQuery, SpreadResponse,
};
use auxm::handlers::categories::to_category_node_response;
use auxm::handlers::config::{apply_config_update, root_path_response, settings_of, ConfigUpdateRequest};
use auxm::handlers::system::{
    build_scan_response, covers_done_message, covers_failed_message, health_response, scan_failed_message,
    scan_summary_message, snapshot_failed_message,
};
use auxm::handlers::user_data::{setting_pairs, settings_response, UserDataItem};
use auxm::service::database::CategoryNode;
use auxm::service::sync::SyncState;

fn book(kind: &str) -> book_files::Model {
    book_files::Model {
        id: 42,
        category_id: 1,
        path: "/lib/Great Book.pdf".to_string(),
        title: None,
        kind: kind.to_string(),
        size: 10,
        mtime: 20,
        page_count: 3,
        pages_json: Some("[\"/lib/b/001.png\",\"/lib/b/002.png\"]".to_string()),
        content_signature: None,
        is_oversized: false,
        avg_page_pixels: 0,
        is_favorite: true,
        cover_path: None,
        created_at: Some("2024-01-01".to_string()),
    }
}

fn query(page: Option<usize>, size: Option<usize>, sort: Option<&str>, all: Option<bool>) -> ListQuery {
    ListQuery { page, page_size: size, sort: sort.map(|s| s.to_string()), all }
}

#[test]
fn list_paging_numbers() {
    let r = build_books_response(vec![book("pdf"), book("image_folder")], 25, 3, 10);
    assert!(r.success);
    assert_eq!(r.message, "查询成功");
    assert_eq!(r.items.len(), 2);
    assert_eq!(r.data.len(), 2);
    assert_eq!(r.total_pages, 3);
    assert_eq!(r.items[0].id, "42");
    assert_eq!(r.items[0].book_type, "pdf_book");
    assert_eq!(r.items[1].book_type, "image_book");
    assert_eq!(build_books_response(vec![], 0, 1, 10).total_pages, 0);
    assert_eq!(build_books_response(vec![], 20, 1, 10).total_pages, 2);
}

#[test]
fn list_query_defaults_and_clamps() {
    assert!(sort_desc(&query(None, None, None, None)));
    assert!(!sort_desc(&query(None, None, Some("created_at_asc"), None)));
    assert!(sort_desc(&query(None, None, Some("anything"), None)));
    assert!(!wants_all(&query(None, None, None, None)));
    assert!(wants_all(&query(None, None, None, Some(true))));
    assert_eq!(page_window(&query(None, None, None, None), 10, 100), (1, 10));
    assert_eq!(page_window(&query(Some(0), Some(0), None, None), 10, 100), (1, 1));
    assert_eq!(page_window(&query(Some(4), Some(500), None, None), 100, 200), (4, 200));
    assert_eq!(whole_list_page_size(0), 1);
    assert_eq!(whole_list_page_size(7), 7);
}

#[test]
fn book_responses() {
    let r = to_book_response(&book("pdf"));
    assert_eq!(r.path, "/lib/Great Book.pdf");
    assert_eq!(r.created_at, Some("2024-01-01".to_string()));
    let d = to_book_detail_response(&book("pdf"));
    assert_eq!(d.title, "Great Book");
    assert_eq!(d.optimization_strategy, 2);
    assert_eq!(d.avg_page_pixels, None);
    let mut img = book("image_folder");
    img.avg_page_pixels = 5;
    let d2 = to_book_detail_response(&img);
    assert_eq!(d2.optimization_strategy, 1);
    assert_eq!(d2.avg_page_pixels, Some(5));
    assert_eq!(d2.book_type, "image_book");
}

#[test]
fn page_listing() {
    let b = book("image_folder");
    let pages = page_paths(&b).unwrap();
    assert_eq!(pages.len(), 2);
    let meta = vec![PageMeta { w: 10, h: 20 }];
    let infos = image_page_infos(&pages, &meta);
    assert_eq!(infos[0].filename, "001.png");
    assert_eq!((infos[0].w, infos[0].h), (Some(10), Some(20)));
    assert_eq!((infos[1].w, infos[1].h), (None, None));
    let pdf = pdf_page_infos(3, &meta);
    assert_eq!(pdf.len(), 3);
    assert_eq!(pdf[2].filename, "3");
    assert_eq!(find_page_by_name(&pages, "002.png"), Some(1));
    assert_eq!(find_page_by_name(&pages, "009.png"), None);
    assert_eq!(page_at(&pages, 0), Some("/lib/b/001.png".to_string()));
    assert_eq!(page_at(&pages, 2), Some("/lib/b/002.png".to_string()));
    assert_eq!(page_at(&pages, 3), None);
    let mut broken = b;
    broken.pages_json = Some("{".to_string());
    assert!(page_paths(&broken).is_none());
    assert!(serves_full_size(&PageQuery { realsize: None }, false));
    assert!(!serves_full_size(&PageQuery { realsize: None }, true));
    assert!(serves_full_size(&PageQuery { realsize: Some(true) }, true));
}

#[test]
fn favorite_pages() {
    let fav = page_favorites::Model { book_id: "42".to_string(), filename: "002.png".to_string(), created_at: 1 };
    assert_eq!(favorite_book_id(&fav), 42);
    assert_eq!(favorite_book_id(&page_favorites::Model { book_id: "x".to_string(), ..fav.copy() }), 0);
    let b = book("image_folder");
    let pages = page_paths(&b).unwrap();
    let meta = vec![PageMeta { w: 1, h: 2 }, PageMeta { w: 3, h: 4 }];
    let spreads = vec![page_spreads::Model {
        book_id: "42".to_string(),
        filename: "002.png".to_string(),
        next_file: "003.png".to_string(),
        direction: "rtl".to_string(),
        created_at: 0,
    }];
    let item = favorite_page_item(&fav, &b, &pages, &meta, Some(&spreads));
    assert_eq!(item.book_title, "Great Book");
    assert_eq!((item.w, item.h), (Some(3), Some(4)));
    assert_eq!(item.next_file, Some("003.png".to_string()));
    assert_eq!(item.direction, Some("rtl".to_string()));
    let pdf_fav = page_favorites::Model { filename: "1".to_string(), ..fav.copy() };
    let pdf_item = favorite_page_item(&pdf_fav, &book("pdf"), &vec![], &meta, None);
    assert_eq!((pdf_item.w, pdf_item.h), (Some(1), Some(2)));
    assert_eq!(pdf_item.next_file, None);
    let s = SpreadResponse::from(spreads[0].copy());
    assert_eq!(s.next_file, "003.png");
    let f = PageFavoriteResponse::from(fav.copy());
    assert_eq!(f.filename, "002.png");
}

fn node(id: i64, count: usize, subs: Vec<CategoryNode>) -> CategoryNode {
    CategoryNode { id, name: format!("n{}", id), path: format!("/n{}", id), book_count: count, sub_categories: subs }
}

#[test]
fn category_totals_include_subcategories() {
    let tree = node(1, 2, vec![node(2, 3, vec![node(4, 5, vec![])]), node(3, 0, vec![])]);
    let r = to_category_node_response(tree);
    assert_eq!(r.book_count, 2);
    assert_eq!(r.total_book_count, 10);
    assert_eq!(r.sub_categories[0].total_book_count, 8);
    assert_eq!(r.sub_categories[1].total_book_count, 0);
    assert_eq!(r.sub_categories[0].sub_categories[0].name, "n4");
}

fn no_env() -> EnvOverrides {
    EnvOverrides { app_name: None, version: None, host: None, port: None, log_level: None, database_url: None }
}

fn empty_request() -> ConfigUpdateRequest {
    ConfigUpdateRequest {
        app_name: None,
        host: None,
        port: None,
        log_level: None,
        database_url: None,
        scan_paths: None,
        image_exts: None,
        min_image_count: None,
        cover_width: None,
        image_page_preview_width: None,
        oversized_image_avg_pixels: None,
        pdf_svg_width: None,
        max_render_jobs: None,
        http_concurrency_limit: None,
        database_max_connections: None,
        database_min_connections: None,
        file_io_concurrency: None,
    }
}

#[test]
fn config_updates() {
    let config = Config::load(None, &no_env());
    let request = ConfigUpdateRequest {
        app_name: Some("  Shelf  ".to_string()),
        host: Some("   ".to_string()),
        port: Some(0),
        scan_paths: Some(vec![" /a ".to_string(), "  ".to_string(), "/b".to_string()]),
        cover_width: Some(10),
        oversized_image_avg_pixels: Some(5),
        database_max_connections: Some(2),
        database_min_connections: Some(9),
        ..empty_request()
    };
    let updated = apply_config_update(&config, &request);
    assert_eq!(updated.app_name, "Shelf");
    assert_eq!(updated.host, "0.0.0.0");
    assert_eq!(updated.port, 1);
    assert_eq!(updated.scanner.scan_paths, vec!["/a".to_string(), "/b".to_string()]);
    assert_eq!(updated.cache.cover_width, 64);
    assert_eq!(updated.cache.oversized_image_avg_pixels, 1_000_000);
    assert_eq!(updated.internal.database_max_connections, 2);
    assert_eq!(updated.internal.database_min_connections, 2);
    assert_eq!(updated.cache.pdf_svg_width, config.cache.pdf_svg_width);
    let same = apply_config_update(&config, &empty_request());
    assert_eq!(same.app_name, config.app_name);
    assert_eq!(same.internal.database_min_connections, config.internal.database_min_connections);
    let settings = settings_of(&updated);
    assert_eq!(settings.root_path, "/a");
    assert_eq!(settings.image_exts, updated.scanner.image_extensions);
    assert_eq!(root_path_response(&config).root_path, "");
}

#[test]
fn system_responses() {
    let h = health_response("1.2.3", "sqlite-file", None);
    assert_eq!(h.status, "ok");
    assert_eq!(h.service, "auxm");
    assert_eq!((h.libraries, h.categories, h.book_files), (0, 0, 0));
    let h2 = health_response("1.2.3", "sqlite-file", Some((1, 2, 3)));
    assert_eq!(h2.book_files, 3);
    let mut state = SyncState::new();
    state.record_library("/lib", 1);
    assert_eq!(scan_summary_message(&state.report), "扫描完成，新增 0 本，更新 0 本，删除 0 本，准备生成封面缓存...");
    let response = build_scan_response(state.report);
    assert!(response.success);
    assert_eq!(response.inserted_libraries, 1);
    assert_eq!(response.inserted_library_details[0].path, "/lib");
    assert_eq!(covers_done_message(12), "封面缓存生成完成，共处理 12 本书");
}

#[test]
fn settings_roundtrip() {
    let rows = vec![user_data::Model { book_id: String::new(), key: "theme".to_string(), value: "dark".to_string() }];
    let r = settings_response(&rows);
    assert_eq!(r.settings[0].key, "theme");
    let pairs = setting_pairs(&vec![UserDataItem { key: "k".to_string(), value: "v".to_string() }]);
    assert_eq!(pairs, vec![("k".to_string(), "v".to_string())]);
    let item = UserDataItem::from(rows[0].copy());
    assert_eq!(item.value, "dark");
}

#[test]
fn errors_report_status_code_and_message() {
    let e = AppError::NotFound("book 7".to_string());
    assert_eq!(e.status_code(), 404);
    assert_eq!(e.error_code(), 404);
    assert_eq!(e.message(), "资源未找到: book 7");
    let r = AppError::DatabaseError("locked".to_string()).to_response();
    assert_eq!(r.code, 500);
    assert_eq!(r.message, "数据库错误: locked");
    assert_eq!(AppError::Conflict("x".to_string()).status_code(), 409);
    assert_eq!(AppError::BadRequest("x".to_string()).error_code(), 400);
    assert_eq!(AppError::Unauthorized("x".to_string()).status_code(), 401);
    assert_eq!(ConfigError::InvalidScanPath("/p".to_string()).message(), "无效的扫描路径: /p");
}

#[test]
fn failure_messages_carry_the_error_text() {
    assert_eq!(scan_failed_message("disk gone"), "扫描失败: disk gone");
    assert_eq!(snapshot_failed_message("db locked"), "读取扫描结果失败: db locked");
    assert_eq!(covers_failed_message("no space"), "封面缓存生成失败: no space");
}
