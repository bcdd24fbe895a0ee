//! What the configuration endpoints answer and how an update request changes the
//! configuration: blank strings are ignored, scan paths are trimmed and blank ones
//! dropped, numbers are raised to their floors, and the minimum number of database
//! connections never exceeds the maximum.

use crate::config::{copy_strings, strings_view, CacheConfig, Config, InternalConfig, ScannerConfig};
use crate::text::{trim, trim_spec};
use vstd::prelude::*;

verus! {

pub struct ConfigSettings {
    pub app_name: String,
    pub host: String,
    pub port: u16,
    pub log_level: String,
    pub database_url: String,
    pub root_path: String,
    pub scan_paths: Vec<String>,
    pub image_exts: Vec<String>,
    pub min_image_count: usize,
    pub cover_width: u32,
    pub image_page_preview_width: u32,
    pub oversized_image_avg_pixels: u64,
    pub pdf_svg_width: u32,
    pub max_render_jobs: usize,
    pub http_concurrency_limit: usize,
    pub database_max_connections: u32,
    pub database_min_connections: u32,
    pub file_io_concurrency: usize,
}

pub struct ConfigUpdateRequest {
    pub app_name: Option<String>,
    pub host: Option<String>,
    pub port: Option<u16>,
    pub log_level: Option<String>,
    pub database_url: Option<String>,
    pub scan_paths: Option<Vec<String>>,
    pub image_exts: Option<Vec<String>>,
    pub min_image_count: Option<usize>,
    pub cover_width: Option<u32>,
    pub image_page_preview_width: Option<u32>,
    pub oversized_image_avg_pixels: Option<u64>,
    pub pdf_svg_width: Option<u32>,
    pub max_render_jobs: Option<usize>,
    pub http_concurrency_limit: Option<usize>,
    pub database_max_connections: Option<u32>,
    pub database_min_connections: Option<u32>,
    pub file_io_concurrency: Option<usize>,
}

pub struct RootPathResponse {
    pub root_path: String,
}

/// The root path shown: the first scan path, empty where there is none.
pub open spec fn root_path_spec(scan_paths: Seq<Seq<char>>) -> Seq<char> {
    if scan_paths.len() > 0 {
        scan_paths[0]
    } else {
        Seq::empty()
    }
}

pub fn root_path_of(config: &Config) -> (r: String)
    ensures
        r@ == root_path_spec(config.scanner@.scan_paths),
{
    if config.scanner.scan_paths.len() > 0 {
        config.scanner.scan_paths[0].clone()
    } else {
        String::new()
    }
}

pub fn root_path_response(config: &Config) -> (r: RootPathResponse)
    ensures
        r.root_path@ == root_path_spec(config.scanner@.scan_paths),
{
    RootPathResponse { root_path: root_path_of(config) }
}

/// The settings a configuration is shown with.
pub fn settings_of(config: &Config) -> (r: ConfigSettings)
    ensures
        r.app_name@ == config.app_name@,
        r.host@ == config.host@,
        r.port == config.port,
        r.log_level@ == config.log_level@,
        r.database_url@ == config.database_url@,
        r.root_path@ == root_path_spec(config.scanner@.scan_paths),
        strings_view(r.scan_paths@) == config.scanner@.scan_paths,
        strings_view(r.image_exts@) == config.scanner@.image_extensions,
        r.min_image_count == config.scanner.min_image_count,
        r.cover_width == config.cache.cover_width,
        r.image_page_preview_width == config.cache.image_page_preview_width,
        r.oversized_image_avg_pixels == config.cache.oversized_image_avg_pixels,
        r.pdf_svg_width == config.cache.pdf_svg_width,
        r.max_render_jobs == config.cache.max_render_jobs,
        r.http_concurrency_limit == config.internal.http_concurrency_limit,
        r.database_max_connections == config.internal.database_max_connections,
        r.database_min_connections == config.internal.database_min_connections,
        r.file_io_concurrency == config.internal.file_io_concurrency,
{
    ConfigSettings {
        app_name: config.app_name.clone(),
        host: config.host.clone(),
        port: config.port,
        log_level: config.log_level.clone(),
        database_url: config.database_url.clone(),
        root_path: root_path_of(config),
        scan_paths: copy_strings(&config.scanner.scan_paths),
        image_exts: copy_strings(&config.scanner.image_extensions),
        min_image_count: config.scanner.min_image_count,
        cover_width: config.cache.cover_width,
        image_page_preview_width: config.cache.image_page_preview_width,
        oversized_image_avg_pixels: config.cache.oversized_image_avg_pixels,
        pdf_svg_width: config.cache.pdf_svg_width,
        max_render_jobs: config.cache.max_render_jobs,
        http_concurrency_limit: config.internal.http_concurrency_limit,
        database_max_connections: config.internal.database_max_connections,
        database_min_connections: config.internal.database_min_connections,
        file_io_concurrency: config.internal.file_io_concurrency,
    }
}

/// A text setting after an update: the new value trimmed, unless it is absent or
/// blank.
pub open spec fn updated_text(old: Seq<char>, new: Option<Seq<char>>) -> Seq<char> {
    match new {
        Some(v) => if trim_spec(v).len() > 0 {
            trim_spec(v)
        } else {
            old
        },
        None => old,
    }
}

/// A number setting after an update: the new value raised to `floor`, unless it is
/// absent.
pub open spec fn updated_number(old: int, new: Option<int>, floor: int) -> int {
    match new {
        Some(v) => if v < floor {
            floor
        } else {
            v
        },
        None => old,
    }
}

/// The scan paths of an update, trimmed, without the blank ones, in order.
pub open spec fn trimmed_paths(s: Seq<Seq<char>>) -> Seq<Seq<char>>
    decreases s.len(),
{
    if s.len() == 0 {
        Seq::empty()
    } else {
        let r = trimmed_paths(s.drop_last());
        let t = trim_spec(s.last());
        if t.len() > 0 {
            r.push(t)
        } else {
            r
        }
    }
}

pub open spec fn opt_strings_view(o: Option<Vec<String>>) -> Option<Seq<Seq<char>>> {
    match o {
        Some(v) => Some(strings_view(v@)),
        None => None,
    }
}

pub open spec fn opt_text(o: Option<String>) -> Option<Seq<char>> {
    match o {
        Some(s) => Some(s@),
        None => None,
    }
}

pub open spec fn opt_int_usize(o: Option<usize>) -> Option<int> {
    match o {
        Some(v) => Some(v as int),
        None => None,
    }
}

pub open spec fn opt_int_u32(o: Option<u32>) -> Option<int> {
    match o {
        Some(v) => Some(v as int),
        None => None,
    }
}

pub open spec fn opt_int_u64(o: Option<u64>) -> Option<int> {
    match o {
        Some(v) => Some(v as int),
        None => None,
    }
}

pub open spec fn opt_int_u16(o: Option<u16>) -> Option<int> {
    match o {
        Some(v) => Some(v as int),
        None => None,
    }
}

fn updated_string(old: &String, new: &Option<String>) -> (r: String)
    ensures
        r@ == updated_text(old@, opt_text(*new)),
{
    match new {
        Some(v) => {
            let t = trim(v.as_str());
            if !t.as_str().is_empty() {
                t
            } else {
                old.clone()
            }
        },
        None => old.clone(),
    }
}

fn trim_paths(paths: &Vec<String>) -> (r: Vec<String>)
    ensures
        strings_view(r@) == trimmed_paths(strings_view(paths@)),
{
    let mut r: Vec<String> = Vec::new();
    let mut i: usize = 0;
    while i < paths.len()
        invariant
            0 <= i <= paths.len(),
            strings_view(r@) == trimmed_paths(strings_view(paths@.subrange(0, i as int))),
        decreases paths.len() - i,
    {
        proof {
            assert(strings_view(paths@.subrange(0, i + 1)).drop_last() =~= strings_view(paths@.subrange(0, i as int)));
            assert(strings_view(paths@.subrange(0, i + 1)).last() == paths@[i as int]@);
        }
        let t = trim(paths[i].as_str());
        if !t.as_str().is_empty() {
            r.push(t);
        }
        assert(strings_view(r@) =~= trimmed_paths(strings_view(paths@.subrange(0, i + 1))));
        i = i + 1;
    }
    assert(paths@.subrange(0, i as int) =~= paths@);
    r
}

/// The configuration after an update request, before its scan paths are checked
/// against the file system.
pub fn apply_config_update(config: &Config, request: &ConfigUpdateRequest) -> (r: Config)
    ensures
        r.app_name@ == updated_text(config.app_name@, opt_text(request.app_name)),
        r.version@ == config.version@,
        r.host@ == updated_text(config.host@, opt_text(request.host)),
        r.port as int == updated_number(config.port as int, opt_int_u16(request.port), 1),
        r.log_level@ == updated_text(config.log_level@, opt_text(request.log_level)),
        r.database_url@ == updated_text(config.database_url@, opt_text(request.database_url)),
        r.scanner@.scan_paths == match opt_strings_view(request.scan_paths) {
            Some(p) => trimmed_paths(p),
            None => config.scanner@.scan_paths,
        },
        r.scanner@.image_extensions == match opt_strings_view(request.image_exts) {
            Some(e) => e,
            None => config.scanner@.image_extensions,
        },
        r.scanner.min_image_count as int == updated_number(
            config.scanner.min_image_count as int,
            opt_int_usize(request.min_image_count),
            1,
        ),
        r.cache.cover_width as int == updated_number(
            config.cache.cover_width as int,
            opt_int_u32(request.cover_width),
            64,
        ),
        r.cache.image_page_preview_width as int == updated_number(
            config.cache.image_page_preview_width as int,
            opt_int_u32(request.image_page_preview_width),
            256,
        ),
        r.cache.oversized_image_avg_pixels as int == updated_number(
            config.cache.oversized_image_avg_pixels as int,
            opt_int_u64(request.oversized_image_avg_pixels),
            1_000_000,
        ),
        r.cache.pdf_svg_width as int == updated_number(
            config.cache.pdf_svg_width as int,
            opt_int_u32(request.pdf_svg_width),
            256,
        ),
        r.cache.max_render_jobs as int == updated_number(
            config.cache.max_render_jobs as int,
            opt_int_usize(request.max_render_jobs),
            1,
        ),
        r.internal.http_concurrency_limit as int == updated_number(
            config.internal.http_concurrency_limit as int,
            opt_int_usize(request.http_concurrency_limit),
            1,
        ),
        r.internal.database_max_connections as int == updated_number(
            config.internal.database_max_connections as int,
            opt_int_u32(request.database_max_connections),
            1,
        ),
        r.internal.database_min_connections as int == ({
            let min = updated_number(
                config.internal.database_min_connections as int,
                opt_int_u32(request.database_min_connections),
                1,
            );
            let max = r.internal.database_max_connections as int;
            if min > max {
                max
            } else {
                min
            }
        }),
        r.internal.database_min_connections <= r.internal.database_max_connections,
        r.internal.file_io_concurrency as int == updated_number(
            config.internal.file_io_concurrency as int,
            opt_int_usize(request.file_io_concurrency),
            1,
        ),
{
    let scan_paths = match &request.scan_paths {
        Some(p) => trim_paths(p),
        None => copy_strings(&config.scanner.scan_paths),
    };
    let image_extensions = match &request.image_exts {
        Some(e) => copy_strings(e),
        None => copy_strings(&config.scanner.image_extensions),
    };
    let min_image_count = match request.min_image_count {
        Some(v) => if v < 1 { 1 } else { v },
        None => config.scanner.min_image_count,
    };
    let port = match request.port {
        Some(v) => if v < 1 { 1 } else { v },
        None => config.port,
    };
    let cover_width = match request.cover_width {
        Some(v) => if v < 64 { 64 } else { v },
        None => config.cache.cover_width,
    };
    let image_page_preview_width = match request.image_page_preview_width {
        Some(v) => if v < 256 { 256 } else { v },
        None => config.cache.image_page_preview_width,
    };
    let oversized_image_avg_pixels = match request.oversized_image_avg_pixels {
        Some(v) => if v < 1_000_000 { 1_000_000 } else { v },
        None => config.cache.oversized_image_avg_pixels,
    };
    let pdf_svg_width = match request.pdf_svg_width {
        Some(v) => if v < 256 { 256 } else { v },
        None => config.cache.pdf_svg_width,
    };
    let max_render_jobs = match request.max_render_jobs {
        Some(v) => if v < 1 { 1 } else { v },
        None => config.cache.max_render_jobs,
    };
    let http_concurrency_limit = match request.http_concurrency_limit {
        Some(v) => if v < 1 { 1 } else { v },
        None => config.internal.http_concurrency_limit,
    };
    let database_max_connections = match request.database_max_connections {
        Some(v) => if v < 1 { 1 } else { v },
        None => config.internal.database_max_connections,
    };
    let requested_min = match request.database_min_connections {
        Some(v) => if v < 1 { 1 } else { v },
        None => config.internal.database_min_connections,
    };
    let database_min_connections = if requested_min > database_max_connections {
        database_max_connections
    } else {
        requested_min
    };
    let file_io_concurrency = match request.file_io_concurrency {
        Some(v) => if v < 1 { 1 } else { v },
        None => config.internal.file_io_concurrency,
    };
    Config {
        app_name: updated_string(&config.app_name, &request.app_name),
        version: config.version.clone(),
        host: updated_string(&config.host, &request.host),
        port,
        log_level: updated_string(&config.log_level, &request.log_level),
        database_url: updated_string(&config.database_url, &request.database_url),
        scanner: ScannerConfig { scan_paths, image_extensions, min_image_count },
        cache: CacheConfig {
            cover_width,
            image_page_preview_width,
            oversized_image_avg_pixels,
            pdf_svg_width,
            max_render_jobs,
        },
        internal: InternalConfig {
            http_concurrency_limit,
            database_max_connections,
            database_min_connections,
            file_io_concurrency,
        },
    }
}

} // verus!
