//! What the system endpoints answer: the health summary, the scan report and the
//! progress messages of a streamed scan.

use crate::service::database::{BookChangeDetail, CategoryChangeDetail, LibraryChangeDetail, SyncReport};
use crate::service::sync::{book_details_view, category_details_view, library_details_view};
use crate::text::{decimal, u64_to_string};
use vstd::prelude::*;

verus! {

pub struct HealthResponse {
    pub status: String,
    pub service: String,
    pub version: String,
    pub storage_mode: String,
    pub libraries: usize,
    pub categories: usize,
    pub book_files: usize,
}

pub struct ScanResponse {
    pub success: bool,
    pub message: String,
    pub inserted_libraries: usize,
    pub inserted_categories: usize,
    pub inserted_book_files: usize,
    pub deleted_libraries: usize,
    pub deleted_categories: usize,
    pub deleted_book_files: usize,
    pub updated_book_files: usize,
    pub inserted_library_details: Vec<LibraryChangeDetail>,
    pub deleted_library_details: Vec<LibraryChangeDetail>,
    pub inserted_category_details: Vec<CategoryChangeDetail>,
    pub deleted_category_details: Vec<CategoryChangeDetail>,
    pub inserted_book_file_details: Vec<BookChangeDetail>,
    pub deleted_book_file_details: Vec<BookChangeDetail>,
    pub updated_book_file_details: Vec<BookChangeDetail>,
}

/// The health summary: `ok`, the service name, its version and storage mode, and the
/// number of libraries, categories and books where the database could be read (0
/// each where it could not).
pub fn health_response(
    version: &str,
    storage_mode: &str,
    counts: Option<(usize, usize, usize)>,
) -> (r: HealthResponse)
    ensures
        r.status@ == "ok"@,
        r.service@ == "auxm"@,
        r.version@ == version@,
        r.storage_mode@ == storage_mode@,
        (r.libraries, r.categories, r.book_files) == match counts {
            Some(c) => c,
            None => (0usize, 0usize, 0usize),
        },
{
    let (libraries, categories, book_files) = match counts {
        Some(c) => c,
        None => (0, 0, 0),
    };
    HealthResponse {
        status: String::from_str("ok"),
        service: String::from_str("auxm"),
        version: String::from_str(version),
        storage_mode: String::from_str(storage_mode),
        libraries,
        categories,
        book_files,
    }
}

/// The response to a finished scan: the report's counts and details, with success.
pub fn build_scan_response(report: SyncReport) -> (r: ScanResponse)
    ensures
        r.success,
        r.message@ == "扫描完成"@,
        r.inserted_libraries == report.inserted_libraries,
        r.inserted_categories == report.inserted_categories,
        r.inserted_book_files == report.inserted_book_files,
        r.deleted_libraries == report.deleted_libraries,
        r.deleted_categories == report.deleted_categories,
        r.deleted_book_files == report.deleted_book_files,
        r.updated_book_files == report.updated_book_files,
        library_details_view(r.inserted_library_details@) == library_details_view(report.inserted_library_details@),
        library_details_view(r.deleted_library_details@) == library_details_view(report.deleted_library_details@),
        category_details_view(r.inserted_category_details@) == category_details_view(report.inserted_category_details@),
        category_details_view(r.deleted_category_details@) == category_details_view(report.deleted_category_details@),
        book_details_view(r.inserted_book_file_details@) == book_details_view(report.inserted_book_file_details@),
        book_details_view(r.deleted_book_file_details@) == book_details_view(report.deleted_book_file_details@),
        book_details_view(r.updated_book_file_details@) == book_details_view(report.updated_book_file_details@),
{
    ScanResponse {
        success: true,
        message: String::from_str("扫描完成"),
        inserted_libraries: report.inserted_libraries,
        inserted_categories: report.inserted_categories,
        inserted_book_files: report.inserted_book_files,
        deleted_libraries: report.deleted_libraries,
        deleted_categories: report.deleted_categories,
        deleted_book_files: report.deleted_book_files,
        updated_book_files: report.updated_book_files,
        inserted_library_details: report.inserted_library_details,
        deleted_library_details: report.deleted_library_details,
        inserted_category_details: report.inserted_category_details,
        deleted_category_details: report.deleted_category_details,
        inserted_book_file_details: report.inserted_book_file_details,
        deleted_book_file_details: report.deleted_book_file_details,
        updated_book_file_details: report.updated_book_file_details,
    }
}

/// The message a streamed scan starts with.
pub fn scan_started_message() -> (r: String)
    ensures
        r@ == "开始扫描数据库和文件系统..."@,
{
    String::from_str("开始扫描数据库和文件系统...")
}

/// The message after the database was synchronised: the numbers of inserted, updated
/// and deleted books.
pub fn scan_summary_message(report: &SyncReport) -> (r: String)
    ensures
        r@ == "扫描完成，新增 "@ + decimal(report.inserted_book_files as nat) + " 本，更新 "@ + decimal(
            report.updated_book_files as nat,
        ) + " 本，删除 "@ + decimal(report.deleted_book_files as nat) + " 本，准备生成封面缓存..."@,
{
    let mut r = String::from_str("扫描完成，新增 ");
    let a = u64_to_string(report.inserted_book_files as u64);
    r.append(a.as_str());
    r.append(" 本，更新 ");
    let b = u64_to_string(report.updated_book_files as u64);
    r.append(b.as_str());
    r.append(" 本，删除 ");
    let c = u64_to_string(report.deleted_book_files as u64);
    r.append(c.as_str());
    r.append(" 本，准备生成封面缓存...");
    r
}

/// The message after the cache of a deleted book was removed.
pub fn cache_cleaned_message(path: &str) -> (r: String)
    ensures
        r@ == "已清理缓存: "@ + path@,
{
    let mut r = String::from_str("已清理缓存: ");
    r.append(path);
    r
}

/// The message after the covers were made.
pub fn covers_done_message(count: usize) -> (r: String)
    ensures
        r@ == "封面缓存生成完成，共处理 "@ + decimal(count as nat) + " 本书"@,
{
    let mut r = String::from_str("封面缓存生成完成，共处理 ");
    let a = u64_to_string(count as u64);
    r.append(a.as_str());
    r.append(" 本书");
    r
}

/// The message when the scan fails with the error text `err`.
pub fn scan_failed_message(err: &str) -> (r: String)
    ensures
        r@ == "扫描失败: "@ + err@,
{
    let mut r = String::from_str("扫描失败: ");
    r.append(err);
    r
}

/// The message when the books found by the scan cannot be read back, with the error
/// text `err`.
pub fn snapshot_failed_message(err: &str) -> (r: String)
    ensures
        r@ == "读取扫描结果失败: "@ + err@,
{
    let mut r = String::from_str("读取扫描结果失败: ");
    r.append(err);
    r
}

/// The message when making the covers fails with the error text `err`.
pub fn covers_failed_message(err: &str) -> (r: String)
    ensures
        r@ == "封面缓存生成失败: "@ + err@,
{
    let mut r = String::from_str("封面缓存生成失败: ");
    r.append(err);
    r
}

} // verus!
