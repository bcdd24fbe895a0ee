use auxm::config::{CacheConfig, ScannerConfig};
use auxm::scanner::strategy::{analyze_image_folder, sample_image_paths, DirEntryFacts, EntryKind, FileStamp};
use auxm::scanner::types::ScannedBookFile;
use auxm::scanner::{CachedBookMetadata, ConfigurableRecognizer, ScanResult, Scanner};

fn empty_result() -> ScanResult {
    ScanResult { book_files: vec![], categories: vec![] }
}

fn cached_from(b: &ScannedBookFile) -> CachedBookMetadata {
    CachedBookMetadata {
        path: b.path.clone(),
        title: b.title.clone(),
        kind: b.kind.clone(),
        size: b.size,
        mtime: b.mtime,
        page_count: b.page_count,
        pages_json: b.pages_json.clone(),
        content_signature: b.content_signature.clone(),
        is_oversized: b.is_oversized,
        avg_page_pixels: b.avg_page_pixels,
        cover_path: b.cover_path.clone(),
    }
}

fn file(path: &str, secs: u64, len: u64) -> DirEntryFacts {
    DirEntryFacts { path: path.to_string(), kind: EntryKind::File, stamp: Some(FileStamp { modified_secs: Some(secs), len }) }
}

fn pdf_cache(path: &str, size: i64, mtime: i64) -> CachedBookMetadata {
    CachedBookMetadata {
        path: path.to_string(),
        title: Some("cached".to_string()),
        kind: "pdf".to_string(),
        size,
        mtime,
        page_count: 77,
        pages_json: None,
        content_signature: None,
        is_oversized: false,
        avg_page_pixels: 0,
        cover_path: None,
    }
}

#[test]
fn pdf_scan_reuses_cached_metadata_when_mtime_and_size_match() {
    let recognizer = ConfigurableRecognizer::new();
    let scanner = Scanner::with_existing_books(&recognizer, vec![pdf_cache("/lib/sample.pdf", 31, 1000)]);
    assert!(!scanner.needs_pdf_page_count("/lib/sample.pdf", Some(1000), 31));
    let mut result = empty_result();
    scanner.visit_file("/lib/sample.pdf", Some(1000), 31, None, &mut result);
    assert_eq!(result.book_files.len(), 1);
    assert_eq!(result.book_files[0].kind, "pdf");
    assert_eq!(result.book_files[0].page_count, 77);
}

#[test]
fn pdf_scan_recomputes_when_file_size_changes() {
    let recognizer = ConfigurableRecognizer::new();
    let scanner = Scanner::with_existing_books(&recognizer, vec![pdf_cache("/lib/sample.pdf", 8, 1000)]);
    assert!(scanner.needs_pdf_page_count("/lib/sample.pdf", Some(1000), 32));
    let mut result = empty_result();
    scanner.visit_file("/lib/sample.pdf", Some(1000), 32, None, &mut result);
    assert_eq!(result.book_files.len(), 1);
    assert_eq!(result.book_files[0].page_count, 0);
    let mut counted = empty_result();
    scanner.visit_file("/lib/sample.pdf", Some(1000), 32, Some(12), &mut counted);
    assert_eq!(counted.book_files[0].page_count, 12);
}

#[test]
fn hidden_and_foreign_files_are_not_books() {
    let recognizer = ConfigurableRecognizer::new();
    let scanner = Scanner::new(&recognizer);
    let mut result = empty_result();
    scanner.visit_file("/lib/.secret.pdf", Some(1), 1, None, &mut result);
    scanner.visit_file("/lib/notes.txt", Some(1), 1, None, &mut result);
    scanner.visit_file("/lib/upper.PDF", Some(1), 1, None, &mut result);
    assert!(result.book_files.is_empty());
}

fn save_png(path: &std::path::Path, side: u32) {
    image::RgbaImage::from_pixel(side, side, image::Rgba([255, 0, 0, 255])).save(path).unwrap();
}

#[test]
fn image_folder_reuses_cached_avg_pixels_when_signature_matches() {
    let recognizer = ConfigurableRecognizer::with_config(vec!["png".to_string()], 2, 100_000);
    let entries = vec![file("/lib/book/001.png", 10, 100), file("/lib/book/002.png", 11, 200)];
    let mut first = empty_result();
    Scanner::new(&recognizer).visit_dir("/lib/book", false, Some(50), 0, &entries, &mut first);
    assert_eq!(first.book_files.len(), 1);
    let mut cached = cached_from(&first.book_files[0]);
    cached.is_oversized = true;
    cached.avg_page_pixels = 123_456;
    let scanner = Scanner::with_existing_books(&recognizer, vec![cached]);
    let mut second = empty_result();
    scanner.visit_dir("/lib/book", false, Some(50), 0, &entries, &mut second);
    assert_eq!(second.book_files.len(), 1);
    assert_eq!(second.book_files[0].avg_page_pixels, 123_456);
    assert!(second.book_files[0].is_oversized);
}

#[test]
fn image_folder_recomputes_when_child_file_changes_even_if_directory_mtime_is_restored() {
    let dir = tempfile::tempdir().unwrap();
    let first_path = dir.path().join("001.png");
    let second_path = dir.path().join("002.png");
    save_png(&first_path, 10);
    save_png(&second_path, 20);
    let book = dir.path().to_string_lossy().to_string();
    let a = first_path.to_string_lossy().to_string();
    let b = second_path.to_string_lossy().to_string();
    let recognizer = ConfigurableRecognizer::with_config(vec!["png".to_string()], 2, 10_000);

    let before = vec![file(&a, 100, 90), file(&b, 100, 95)];
    let mut initial = empty_result();
    Scanner::new(&recognizer).visit_dir(&book, true, Some(7), 0, &before, &mut initial);
    let initial_book = initial.book_files[0].copy();
    assert_eq!(initial_book.avg_page_pixels, 250);

    save_png(&first_path, 30);
    let after = vec![file(&a, 101, 120), file(&b, 100, 95)];
    let scanner = Scanner::with_existing_books(&recognizer, vec![cached_from(&initial_book)]);
    let mut result = empty_result();
    scanner.visit_dir(&book, true, Some(7), 0, &after, &mut result);
    assert_eq!(result.book_files.len(), 1);
    assert_ne!(result.book_files[0].content_signature, initial_book.content_signature);
    assert_ne!(result.book_files[0].avg_page_pixels, initial_book.avg_page_pixels);
    assert_eq!(result.book_files[0].avg_page_pixels, 650);
}

#[test]
fn directory_classification_changes_when_min_image_count_changes() {
    let entries = vec![file("/lib/maybe-book/001.png", 1, 1), file("/lib/maybe-book/002.png", 1, 1)];
    let as_book = ConfigurableRecognizer::with_config(vec!["png".to_string()], 2, 100_000);
    let as_category = ConfigurableRecognizer::with_config(vec!["png".to_string()], 3, 100_000);
    let mut book_scan = empty_result();
    let recurse_book = Scanner::new(&as_book).visit_dir("/lib/maybe-book", true, Some(1), 0, &entries, &mut book_scan);
    let mut category_scan = empty_result();
    let recurse_category =
        Scanner::new(&as_category).visit_dir("/lib/maybe-book", true, Some(1), 0, &entries, &mut category_scan);
    assert_eq!(book_scan.book_files.len(), 1);
    assert_eq!(book_scan.categories.len(), 1);
    assert!(!recurse_book);
    assert!(category_scan.book_files.is_empty());
    assert_eq!(category_scan.categories.len(), 1);
    assert!(recurse_category);
}

#[test]
fn directory_classification_changes_when_image_extensions_change() {
    let entries = vec![file("/lib/ext-sensitive/001.png", 1, 1), file("/lib/ext-sensitive/002.png", 1, 1)];
    let with_png = ConfigurableRecognizer::with_config(vec!["png".to_string()], 2, 100_000);
    let without_png = ConfigurableRecognizer::with_config(vec!["jpg".to_string()], 2, 100_000);
    let mut png_scan = empty_result();
    Scanner::new(&with_png).visit_dir("/lib/ext-sensitive", true, Some(1), 0, &entries, &mut png_scan);
    let mut other_scan = empty_result();
    Scanner::new(&without_png).visit_dir("/lib/ext-sensitive", true, Some(1), 0, &entries, &mut other_scan);
    assert_eq!(png_scan.book_files.len(), 1);
    assert!(other_scan.book_files.is_empty());
    assert_eq!(other_scan.categories.len(), 1);
}

#[test]
fn hidden_directories_below_the_root_are_skipped() {
    let recognizer = ConfigurableRecognizer::new();
    let scanner = Scanner::new(&recognizer);
    assert!(!scanner.should_inspect_dir("/lib/.git", false));
    assert!(scanner.should_inspect_dir("/lib/.git", true));
    let mut result = empty_result();
    let recurse = scanner.visit_dir("/lib/.cache", false, Some(1), 0, &vec![], &mut result);
    assert!(!recurse);
    assert!(result.categories.is_empty());
}

#[test]
fn recognizer_hides_dot_files() {
    let recognizer = ConfigurableRecognizer::new();
    assert!(recognizer.is_hidden("/lib/.DS_Store"));
    assert!(!recognizer.is_hidden("/lib/book.pdf"));
    assert_eq!(recognizer.min_image_count, 3);
}

#[test]
fn recognizer_from_configs() {
    let scanner = ScannerConfig { scan_paths: vec![], image_extensions: vec!["png".to_string()], min_image_count: 7 };
    let cache = CacheConfig {
        cover_width: 1,
        image_page_preview_width: 1,
        oversized_image_avg_pixels: 42,
        pdf_svg_width: 1,
        max_render_jobs: 1,
    };
    let recognizer = ConfigurableRecognizer::from((scanner, cache));
    assert_eq!(recognizer.min_image_count, 7);
    assert_eq!(recognizer.oversized_image_avg_pixels, 42);
    assert_eq!(recognizer.image_extensions, vec!["png".to_string()]);
}

#[test]
fn image_book_lists_its_pages_sorted_with_upper_case_extensions() {
    let recognizer = ConfigurableRecognizer::with_config(vec!["png".to_string()], 2, 100_000);
    let entries = vec![file("/lib/b/002.PNG", 1, 1), file("/lib/b/001.png", 1, 1), file("/lib/b/notes.txt", 1, 1)];
    let mut result = empty_result();
    let recurse = Scanner::new(&recognizer).visit_dir("/lib/b", false, Some(3), 0, &entries, &mut result);
    assert!(!recurse);
    assert!(result.categories.is_empty());
    let book = &result.book_files[0];
    assert_eq!(book.kind, "image_folder");
    assert_eq!(book.page_count, 2);
    assert_eq!(book.pages_json, Some("[\"/lib/b/001.png\",\"/lib/b/002.PNG\"]".to_string()));
    assert_eq!(book.cover_path, Some("/lib/b/001.png".to_string()));
    assert_eq!(book.title, Some("b".to_string()));
}

#[test]
fn folder_with_subdirectory_is_book_and_category() {
    let recognizer = ConfigurableRecognizer::with_config(vec!["png".to_string()], 1, 100_000);
    let entries = vec![
        file("/lib/mixed/001.png", 1, 1),
        DirEntryFacts { path: "/lib/mixed/sub".to_string(), kind: EntryKind::Dir, stamp: None },
    ];
    let mut result = empty_result();
    let recurse = Scanner::new(&recognizer).visit_dir("/lib/mixed", false, Some(3), 0, &entries, &mut result);
    assert!(recurse);
    assert_eq!(result.categories.len(), 1);
    assert_eq!(result.book_files.len(), 1);
}

#[test]
fn image_folder_average_is_measured_from_the_files() {
    let dir = tempfile::tempdir().unwrap();
    let a = dir.path().join("a.png");
    let b = dir.path().join("b.png");
    save_png(&a, 10);
    save_png(&b, 20);
    let paths = vec![a.to_string_lossy().to_string(), b.to_string_lossy().to_string(), "/missing.png".to_string()];
    assert_eq!(analyze_image_folder(&paths), 250);
    assert_eq!(analyze_image_folder(&vec![]), 0);
}

#[test]
fn sampled_images_are_evenly_spaced_with_first_and_last() {
    let paths: Vec<String> = (0..10).map(|i| format!("/b/{:02}.png", i)).collect();
    let picked = sample_image_paths(&paths, 5);
    assert_eq!(picked, vec!["/b/00.png", "/b/02.png", "/b/04.png", "/b/06.png", "/b/09.png"]);
    assert_eq!(sample_image_paths(&paths, 1), vec!["/b/00.png"]);
    assert_eq!(sample_image_paths(&paths[..3].to_vec(), 5), vec!["/b/00.png", "/b/01.png", "/b/02.png"]);
    assert!(sample_image_paths(&Vec::new(), 5).is_empty());
}

#[test]
fn scanner_without_cache_equals_scanner_with_empty_cache() {
    let dir = tempfile::tempdir().unwrap();
    let first_path = dir.path().join("001.png");
    let second_path = dir.path().join("002.png");
    save_png(&first_path, 10);
    save_png(&second_path, 20);
    let book = dir.path().to_string_lossy().to_string();
    let entries = vec![
        file(&first_path.to_string_lossy(), 100, 90),
        file(&second_path.to_string_lossy(), 100, 95),
        file("/lib/x.pdf", 5, 10),
    ];
    let recognizer = ConfigurableRecognizer::with_config(vec!["png".to_string()], 2, 10_000);
    let fresh = Scanner::new(&recognizer);
    let empty = Scanner::with_existing_books(&recognizer, vec![]);
    let mut a = empty_result();
    let mut b = empty_result();
    let ra = fresh.visit_dir(&book, true, Some(7), 0, &entries, &mut a);
    let rb = empty.visit_dir(&book, true, Some(7), 0, &entries, &mut b);
    assert_eq!(ra, rb);
    assert_eq!(a.book_files.len(), b.book_files.len());
    assert_eq!(a.book_files[0].avg_page_pixels, 250);
    assert_eq!(b.book_files[0].avg_page_pixels, 250);
    assert_eq!(a.book_files[0].content_signature, b.book_files[0].content_signature);
    assert_eq!(a.categories.len(), b.categories.len());
    assert!(fresh.needs_pdf_page_count("/lib/x.pdf", None, 10));
    assert!(empty.needs_pdf_page_count("/lib/x.pdf", None, 10));
}
