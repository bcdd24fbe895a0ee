use auxm::domain::book_files;
use auxm::scanner::pdf::{check_page_index, DocumentCacheIndex, PdfHelper};
use auxm::service::assets::{
    cover_failed_message,
    cache_book_dir_name, cover_file_name, cover_jobs, cover_progress_message, cover_source, first_image_path,
    hash_key, image_page_file_name, pdf_svg_file_name, preview_width, CacheClearTarget,
};
use auxm::service::restart::restart_disabled;
use std::hash::{Hash, Hasher};

fn model(kind: &str, cover: Option<&str>, pages: Option<&str>) -> book_files::Model {
    book_files::Model {
        id: 1,
        category_id: 1,
        path: "/lib/book".to_string(),
        title: None,
        kind: kind.to_string(),
        size: 0,
        mtime: 0,
        page_count: 0,
        pages_json: pages.map(|s| s.to_string()),
        content_signature: None,
        is_oversized: false,
        avg_page_pixels: 0,
        is_favorite: false,
        cover_path: cover.map(|s| s.to_string()),
        created_at: None,
    }
}

#[test]
fn cache_targets_parse_and_name() {
    assert!(matches!(CacheClearTarget::parse("all"), Some(CacheClearTarget::All)));
    assert!(matches!(CacheClearTarget::parse("covers"), Some(CacheClearTarget::Covers)));
    assert!(matches!(CacheClearTarget::parse("thumbnails"), Some(CacheClearTarget::ImagePages)));
    assert!(matches!(CacheClearTarget::parse("svg"), Some(CacheClearTarget::PdfSvg)));
    assert!(CacheClearTarget::parse("images").is_none());
    for t in [CacheClearTarget::All, CacheClearTarget::Covers, CacheClearTarget::ImagePages, CacheClearTarget::PdfSvg] {
        assert!(CacheClearTarget::parse(t.name()) == Some(t));
    }
    assert!(CacheClearTarget::All.clears_covers() && CacheClearTarget::All.clears_pdf_svg());
    assert!(!CacheClearTarget::Covers.clears_image_pages());
}

#[test]
fn hash_key_is_lower_hex_of_the_default_hasher() {
    let mut h = std::collections::hash_map::DefaultHasher::new();
    "/lib/book".hash(&mut h);
    assert_eq!(hash_key("/lib/book"), format!("{:x}", h.finish()));
    assert_ne!(hash_key("/lib/book"), hash_key("/lib/other"));
}

#[test]
fn cache_dir_names_are_sanitized() {
    let key = hash_key("/lib/My:Book?.cbz");
    assert_eq!(cache_book_dir_name("/lib/My:Book?.cbz"), format!("My_Book_-{}", key));
    let dots = hash_key("/lib/...");
    assert_eq!(cache_book_dir_name("/lib/..."), format!("book-{}", dots));
    let spaced = hash_key("/lib/ .x. ");
    assert_eq!(cache_book_dir_name("/lib/ .x. "), format!("x-{}", spaced));
}

#[test]
fn cache_file_names() {
    assert_eq!(cover_file_name("/a"), format!("{}.jpg", hash_key("/a")));
    assert_eq!(pdf_svg_file_name(3), "page-3.svg");
    assert_eq!(image_page_file_name(0, 1600, "jpg"), "page-1-w1600.jpg");
    assert_eq!(preview_width(100), 256);
    assert_eq!(preview_width(1600), 1600);
}

#[test]
fn cover_sources() {
    assert_eq!(cover_source(&model("pdf", Some("/c.png"), None)), Some(None));
    assert_eq!(cover_source(&model("image_folder", Some("/c.png"), None)), Some(Some("/c.png".to_string())));
    assert_eq!(
        cover_source(&model("image_folder", None, Some("[\"/p1.png\",\"/p2.png\"]"))),
        Some(Some("/p1.png".to_string()))
    );
    assert_eq!(cover_source(&model("image_folder", None, None)), None);
    assert_eq!(first_image_path(&model("image_folder", None, Some("not json"))), None);
    let books = vec![model("image_folder", None, None), model("pdf", None, None)];
    let jobs = cover_jobs(&books);
    assert_eq!(jobs.len(), 1);
    assert_eq!(jobs[0].book_index, 1);
    assert_eq!(jobs[0].source_image_path, None);
    assert_eq!(cover_progress_message(0, 2, "T"), "已生成封面 1/2: T");
}

#[test]
fn restart_is_disabled_by_true_values() {
    assert!(restart_disabled(Some("1")));
    assert!(restart_disabled(Some("YES")));
    assert!(!restart_disabled(Some("Yes")));
    assert!(!restart_disabled(None));
}

#[test]
fn document_cache_keeps_recent_documents() {
    let mut cache = DocumentCacheIndex::new();
    assert!(!cache.touch("/a.pdf", 0));
    assert!(!cache.touch("/b.pdf", 50_000));
    assert!(cache.touch("/a.pdf", 60_000));
    cache.evict_expired(120_000);
    assert_eq!(cache.stats().open_documents, 2);
    cache.evict_expired(145_000);
    assert_eq!(cache.stats().open_documents, 1);
    assert_eq!(cache.entries[0].0, "/a.pdf");
    assert_eq!(cache.stats().idle_ttl_secs, 90);
}

#[test]
fn page_checks() {
    assert!(check_page_index(0, 1, "/a.pdf").is_ok());
    assert_eq!(check_page_index(4, 4, "/a.pdf"), Err("page 5 out of range for /a.pdf".to_string()));
    assert_eq!(PdfHelper::page_count_from(Some(12)), Some(12));
    assert_eq!(PdfHelper::page_count_from(Some(-1)), None);
    assert_eq!(PdfHelper::page_count_from(None), None);
}

#[test]
fn cover_failure_message_names_the_book_and_the_error() {
    assert_eq!(cover_failed_message("/lib/a.pdf", "broken"), "封面生成失败: /lib/a.pdf (broken)");
}
