//! Application configuration: defaults, the values read from the configuration file,
//! environment overrides, and the pruning of scan paths that lie inside one another.

use crate::paths::{dir_answer, is_existing_dir, path_starts_with, starts_with};
use crate::text::{parse_u16, parse_unsigned};
use vstd::prelude::*;

verus! {

/// The character sequences of a list of strings.
pub open spec fn strings_view(v: Seq<String>) -> Seq<Seq<char>> {
    v.map_values(|s: String| s@)
}

/// A copy of a list of strings.
pub fn copy_strings(v: &Vec<String>) -> (r: Vec<String>)
    ensures
        r@ == v@,
{
    let mut r: Vec<String> = Vec::new();
    let mut i: usize = 0;
    while i < v.len()
        invariant
            0 <= i <= v.len(),
            r@ == v@.subrange(0, i as int),
        decreases v.len() - i,
    {
        r.push(v[i].clone());
        i = i + 1;
        assert(r@ =~= v@.subrange(0, i as int));
    }
    assert(v@.subrange(0, v.len() as int) =~= v@);
    r
}

pub struct ScannerConfig {
    pub scan_paths: Vec<String>,
    pub image_extensions: Vec<String>,
    pub min_image_count: usize,
}

pub struct CacheConfig {
    pub cover_width: u32,
    pub image_page_preview_width: u32,
    pub oversized_image_avg_pixels: u64,
    pub pdf_svg_width: u32,
    pub max_render_jobs: usize,
}

pub struct InternalConfig {
    pub http_concurrency_limit: usize,
    pub database_max_connections: u32,
    pub database_min_connections: u32,
    pub file_io_concurrency: usize,
}

pub struct Config {
    pub app_name: String,
    pub version: String,
    pub host: String,
    pub port: u16,
    pub log_level: String,
    pub database_url: String,
    pub scanner: ScannerConfig,
    pub cache: CacheConfig,
    pub internal: InternalConfig,
}

/// The `[server]` table of the configuration file.
pub struct ServerConfig {
    pub app_name: String,
    pub version: String,
    pub host: String,
    pub port: u16,
    pub log_level: String,
}

/// The `[database]` table of the configuration file.
pub struct DatabaseConfig {
    pub url: String,
}

/// The configuration file as read; the last three tables are optional.
pub struct ConfigFile {
    pub server: ServerConfig,
    pub database: DatabaseConfig,
    pub scanner: Option<ScannerConfig>,
    pub cache: Option<CacheConfig>,
    pub internal: Option<InternalConfig>,
}

/// The environment variables that the configuration reads: `APP_NAME`, `APP_VERSION`,
/// `HOST`, `PORT`, `LOG_LEVEL` and `DATABASE_URL`, each `None` where it is unset.
pub struct EnvOverrides {
    pub app_name: Option<String>,
    pub version: Option<String>,
    pub host: Option<String>,
    pub port: Option<String>,
    pub log_level: Option<String>,
    pub database_url: Option<String>,
}

/// The image extensions that a scan recognises unless configured otherwise.
pub open spec fn default_image_extensions() -> Seq<Seq<char>> {
    seq!["jpg"@, "jpeg"@, "png"@, "webp"@, "gif"@]
}

pub fn default_image_extension_list() -> (r: Vec<String>)
    ensures
        strings_view(r@) == default_image_extensions(),
{
    let mut r: Vec<String> = Vec::new();
    r.push(String::from_str("jpg"));
    r.push(String::from_str("jpeg"));
    r.push(String::from_str("png"));
    r.push(String::from_str("webp"));
    r.push(String::from_str("gif"));
    assert(strings_view(r@) =~= default_image_extensions());
    r
}

/// What a scanner configuration holds, with strings as character sequences.
pub struct ScannerConfigView {
    pub scan_paths: Seq<Seq<char>>,
    pub image_extensions: Seq<Seq<char>>,
    pub min_image_count: usize,
}

impl View for ScannerConfig {
    type V = ScannerConfigView;

    open spec fn view(&self) -> ScannerConfigView {
        ScannerConfigView {
            scan_paths: strings_view(self.scan_paths@),
            image_extensions: strings_view(self.image_extensions@),
            min_image_count: self.min_image_count,
        }
    }
}

impl ScannerConfig {
    pub open spec fn is_default(&self) -> bool {
        &&& self.scan_paths@.len() == 0
        &&& strings_view(self.image_extensions@) == default_image_extensions()
        &&& self.min_image_count == 3
    }

    /// A field-by-field copy.
    pub fn copy(&self) -> (r: ScannerConfig)
        ensures
            r@ == self@,
            r.scan_paths@ == self.scan_paths@,
            r.image_extensions@ == self.image_extensions@,
    {
        ScannerConfig {
            scan_paths: copy_strings(&self.scan_paths),
            image_extensions: copy_strings(&self.image_extensions),
            min_image_count: self.min_image_count,
        }
    }
}

impl Default for ScannerConfig {
    fn default() -> (r: ScannerConfig)
        ensures
            r.is_default(),
    {
        ScannerConfig {
            scan_paths: Vec::new(),
            image_extensions: default_image_extension_list(),
            min_image_count: 3,
        }
    }
}

impl CacheConfig {
    pub open spec fn is_default(&self) -> bool {
        &&& self.cover_width == 480
        &&& self.image_page_preview_width == 1600
        &&& self.oversized_image_avg_pixels == 10_000_000
        &&& self.pdf_svg_width == 1400
        &&& self.max_render_jobs == 4
    }

    pub fn copy(&self) -> (r: CacheConfig)
        ensures
            r == *self,
    {
        CacheConfig {
            cover_width: self.cover_width,
            image_page_preview_width: self.image_page_preview_width,
            oversized_image_avg_pixels: self.oversized_image_avg_pixels,
            pdf_svg_width: self.pdf_svg_width,
            max_render_jobs: self.max_render_jobs,
        }
    }
}

impl Default for CacheConfig {
    fn default() -> (r: CacheConfig)
        ensures
            r.is_default(),
    {
        CacheConfig {
            cover_width: 480,
            image_page_preview_width: 1600,
            oversized_image_avg_pixels: 10_000_000,
            pdf_svg_width: 1400,
            max_render_jobs: 4,
        }
    }
}

impl InternalConfig {
    pub open spec fn is_default(&self) -> bool {
        &&& self.http_concurrency_limit == 128
        &&& self.database_max_connections == 16
        &&& self.database_min_connections == 1
        &&& self.file_io_concurrency == 32
    }

    pub fn copy(&self) -> (r: InternalConfig)
        ensures
            r == *self,
    {
        InternalConfig {
            http_concurrency_limit: self.http_concurrency_limit,
            database_max_connections: self.database_max_connections,
            database_min_connections: self.database_min_connections,
            file_io_concurrency: self.file_io_concurrency,
        }
    }
}

impl Default for InternalConfig {
    fn default() -> (r: InternalConfig)
        ensures
            r.is_default(),
    {
        InternalConfig {
            http_concurrency_limit: 128,
            database_max_connections: 16,
            database_min_connections: 1,
            file_io_concurrency: 32,
        }
    }
}

/// The database URL used when the configuration names none: `DATABASE_URL` if it is
/// set, else `sqlite:auxm.db`.
pub open spec fn default_database_url_spec(env_value: Option<Seq<char>>) -> Seq<char> {
    match env_value {
        Some(v) => v,
        None => "sqlite:auxm.db"@,
    }
}

pub fn default_database_url(env_value: &Option<String>) -> (r: String)
    ensures
        r@ == default_database_url_spec(
            match env_value {
                Some(v) => Some(v@),
                None => None,
            },
        ),
{
    match env_value {
        Some(v) => v.clone(),
        None => String::from_str("sqlite:auxm.db"),
    }
}

/// Whether a list of paths, by index, is pruned at a value: some earlier entry is a
/// component prefix of a later entry that equals the value, or the value is an earlier
/// entry that lies under a later one which does not lie under it.
pub open spec fn pruned_value(s: Seq<Seq<char>>, p: Seq<char>) -> bool {
    exists|i: int, j: int|
        0 <= i < j < s.len() && #[trigger] pair_prunes(s, i, j, p)
}

pub open spec fn pair_prunes(s: Seq<Seq<char>>, i: int, j: int, p: Seq<char>) -> bool {
    ||| (s[j] == p && path_starts_with(s[j], s[i]))
    ||| (s[i] == p && !path_starts_with(s[j], s[i]) && path_starts_with(s[i], s[j]))
}

pub open spec fn kept_pred(s: Seq<Seq<char>>) -> spec_fn(Seq<char>) -> bool {
    |p: Seq<char>| !pruned_value(s, p)
}

/// The scan paths that remain when every path lying under another is removed, in
/// their given order (what `ScannerConfig::validate_scan_paths` does after it has
/// dropped the paths that are not directories).
pub open spec fn prune_nested(s: Seq<Seq<char>>) -> Seq<Seq<char>> {
    s.filter(kept_pred(s))
}

/// The entries of `s` whose flag in `keep` is set, in order.
pub open spec fn keep_where(s: Seq<Seq<char>>, keep: Seq<bool>) -> Seq<Seq<char>>
    decreases s.len(),
{
    if s.len() == 0 || keep.len() == 0 {
        Seq::empty()
    } else {
        let rest = keep_where(s.drop_last(), keep.drop_last());
        if keep.last() {
            rest.push(s.last())
        } else {
            rest
        }
    }
}

pub fn contains_string(v: &Vec<String>, x: &String) -> (r: bool)
    ensures
        r == strings_view(v@).contains(x@),
{
    let mut i: usize = 0;
    while i < v.len()
        invariant
            0 <= i <= v.len(),
            forall|k: int| 0 <= k < i ==> v@[k]@ != x@,
        decreases v.len() - i,
    {
        if v[i] == *x {
            assert(strings_view(v@)[i as int] == x@);
            return true;
        }
        i = i + 1;
    }
    proof {
        if strings_view(v@).contains(x@) {
            let k = choose|k: int| 0 <= k < strings_view(v@).len() && strings_view(v@)[k] == x@;
            assert(v@[k]@ == x@);
        }
    }
    false
}

/// `paths` with every path that lies under another removed (the comparison is by
/// whole path components), keeping the order of the rest.
pub fn prune_nested_paths(paths: &Vec<String>) -> (r: Vec<String>)
    ensures
        strings_view(r@) == prune_nested(strings_view(paths@)),
{
    let ghost s = strings_view(paths@);
    let n = paths.len();
    let mut to_remove: Vec<String> = Vec::new();
    let mut i: usize = 0;
    while i < n
        invariant
            n == paths.len(),
            s == strings_view(paths@),
            0 <= i <= n,
            forall|p: Seq<char>|
                strings_view(to_remove@).contains(p) <==> exists|a: int, b: int|
                    0 <= a < i && a < b < n && #[trigger] pair_prunes(s, a, b, p),
        decreases n - i,
    {
        let mut j: usize = i + 1;
        while j < n
            invariant
                n == paths.len(),
                s == strings_view(paths@),
                0 <= i < n,
                i + 1 <= j <= n,
                forall|p: Seq<char>|
                    strings_view(to_remove@).contains(p) <==> exists|a: int, b: int|
                        ((0 <= a < i && a < b < n) || (a == i && i < b < j))
                            && #[trigger] pair_prunes(s, a, b, p),
            decreases n - j,
        {
            let ghost before = strings_view(to_remove@);
            let p1 = &paths[i];
            let p2 = &paths[j];
            if starts_with(p2.as_str(), p1.as_str()) {
                to_remove.push(p2.clone());
            } else if starts_with(p1.as_str(), p2.as_str()) {
                to_remove.push(p1.clone());
            }
            proof {
                let after = strings_view(to_remove@);
                assert forall|p: Seq<char>|
                    after.contains(p) <==> exists|a: int, b: int|
                        ((0 <= a < i && a < b < n) || (a == i && i < b < j + 1))
                            && #[trigger] pair_prunes(s, a, b, p) by {
                    if after.contains(p) {
                        if !before.contains(p) {
                            let k = choose|k: int| 0 <= k < after.len() && after[k] == p;
                            assert(k == after.len() - 1) by {
                                if k < after.len() - 1 {
                                    assert(before[k] == after[k]);
                                }
                            }
                            assert(pair_prunes(s, i as int, j as int, p));
                        }
                    }
                    if exists|a: int, b: int|
                        ((0 <= a < i && a < b < n) || (a == i && i < b < j + 1))
                            && #[trigger] pair_prunes(s, a, b, p) {
                        let (a, b) = choose|a: int, b: int|
                            ((0 <= a < i && a < b < n) || (a == i && i < b < j + 1))
                                && #[trigger] pair_prunes(s, a, b, p);
                        if a == i && b == j {
                            assert(after[after.len() - 1] == p);
                        } else {
                            assert(before.contains(p));
                            let k = choose|k: int| 0 <= k < before.len() && before[k] == p;
                            assert(after[k] == p);
                        }
                    }
                }
            }
            j = j + 1;
        }
        i = i + 1;
    }
    let mut r: Vec<String> = Vec::new();
    let mut k: usize = 0;
    while k < n
        invariant
            n == paths.len(),
            s == strings_view(paths@),
            0 <= k <= n,
            forall|p: Seq<char>|
                strings_view(to_remove@).contains(p) <==> #[trigger] pruned_value(s, p),
            strings_view(r@) == s.subrange(0, k as int).filter(kept_pred(s)),
        decreases n - k,
    {
        proof {
            assert(s.subrange(0, k + 1).drop_last() =~= s.subrange(0, k as int));
            reveal(Seq::filter);
        }
        if !contains_string(&to_remove, &paths[k]) {
            r.push(paths[k].clone());
            assert(strings_view(r@) =~= s.subrange(0, k + 1).filter(kept_pred(s)));
        } else {
            assert(strings_view(r@) =~= s.subrange(0, k + 1).filter(kept_pred(s)));
        }
        k = k + 1;
    }
    assert(s.subrange(0, n as int) =~= s);
    r
}

/// Two strings are taken apart from a sequence in the order they stand: the filter
/// keeps the relative order of what it keeps.
proof fn lemma_filter_in_order(s: Seq<Seq<char>>, pred: spec_fn(Seq<char>) -> bool, a: int, b: int)
    requires
        0 <= a < b < s.filter(pred).len(),
    ensures
        exists|i: int, j: int|
            0 <= i < j < s.len() && s[i] == s.filter(pred)[a] && s[j] == s.filter(pred)[b],
    decreases s.len(),
{
    reveal(Seq::filter);
    let t = s.filter(pred);
    let rest = s.drop_last().filter(pred);
    if b < rest.len() {
        lemma_filter_in_order(s.drop_last(), pred, a, b);
        let (i, j) = choose|i: int, j: int|
            0 <= i < j < s.drop_last().len() && s.drop_last()[i] == rest[a] && s.drop_last()[j]
                == rest[b];
        assert(s[i] == t[a] && s[j] == t[b]);
    } else {
        lemma_filter_member(s.drop_last(), pred, a);
        let i = choose|i: int| 0 <= i < s.drop_last().len() && s.drop_last()[i] == rest[a];
        assert(s[i] == t[a]);
        assert(s[s.len() - 1] == t[b]);
    }
}

proof fn lemma_filter_member(s: Seq<Seq<char>>, pred: spec_fn(Seq<char>) -> bool, a: int)
    requires
        0 <= a < s.filter(pred).len(),
    ensures
        exists|i: int| 0 <= i < s.len() && s[i] == s.filter(pred)[a],
        pred(s.filter(pred)[a]),
    decreases s.len(),
{
    reveal(Seq::filter);
    let rest = s.drop_last().filter(pred);
    if a < rest.len() {
        lemma_filter_member(s.drop_last(), pred, a);
        let i = choose|i: int| 0 <= i < s.drop_last().len() && s.drop_last()[i] == rest[a];
        assert(s[i] == s.filter(pred)[a]);
    } else {
        assert(s[s.len() - 1] == s.filter(pred)[a]);
    }
}

/// After pruning, no kept path lies under another kept path that stands before or
/// after it: for every two positions `a < b` of the result, neither path is a
/// component prefix of the other.
pub proof fn law_pruned_paths_are_not_nested(s: Seq<Seq<char>>, a: int, b: int)
    requires
        0 <= a < b < prune_nested(s).len(),
    ensures
        !path_starts_with(prune_nested(s)[b], prune_nested(s)[a]),
        !path_starts_with(prune_nested(s)[a], prune_nested(s)[b]),
{
    let t = prune_nested(s);
    lemma_filter_in_order(s, kept_pred(s), a, b);
    let (i, j) = choose|i: int, j: int| 0 <= i < j < s.len() && s[i] == t[a] && s[j] == t[b];
    lemma_filter_member(s, kept_pred(s), a);
    lemma_filter_member(s, kept_pred(s), b);
    if path_starts_with(t[b], t[a]) {
        assert(pair_prunes(s, i, j, t[b]));
    } else if path_starts_with(t[a], t[b]) {
        assert(pair_prunes(s, i, j, t[a]));
    }
}

/// Pruning is idempotent: pruning an already pruned list changes nothing.
pub proof fn law_prune_idempotent(s: Seq<Seq<char>>)
    ensures
        prune_nested(prune_nested(s)) == prune_nested(s),
{
    let t = prune_nested(s);
    assert forall|p: Seq<char>| !#[trigger] pruned_value(t, p) by {
        if pruned_value(t, p) {
            let (a, b) = choose|a: int, b: int| 0 <= a < b < t.len() && #[trigger] pair_prunes(t, a, b, p);
            law_pruned_paths_are_not_nested(s, a, b);
        }
    }
    lemma_filter_all(t, kept_pred(t));
}

proof fn lemma_filter_all(s: Seq<Seq<char>>, pred: spec_fn(Seq<char>) -> bool)
    requires
        forall|i: int| 0 <= i < s.len() ==> pred(#[trigger] s[i]),
    ensures
        s.filter(pred) == s,
    decreases s.len(),
{
    reveal(Seq::filter);
    if s.len() > 0 {
        lemma_filter_all(s.drop_last(), pred);
        assert(s.drop_last().push(s.last()) =~= s);
    }
}

/// A path that no other entry is related to, in either direction, stays.
pub proof fn law_unrelated_path_is_kept(s: Seq<Seq<char>>, k: int)
    requires
        0 <= k < s.len(),
        forall|m: int|
            0 <= m < s.len() && m != k ==> !path_starts_with(s[k], #[trigger] s[m])
                && !path_starts_with(s[m], s[k]),
    ensures
        prune_nested(s).contains(s[k]),
{
    if pruned_value(s, s[k]) {
        let (i, j) = choose|i: int, j: int| 0 <= i < j < s.len() && #[trigger] pair_prunes(s, i, j, s[k]);
        if s[j] == s[k] && path_starts_with(s[j], s[i]) {
            if j != k {
                assert(!path_starts_with(s[k], s[j]));
            }
            assert(i != k);
        } else {
            assert(s[i] == s[k] && path_starts_with(s[i], s[j]));
            assert(j != k);
            if i != k {
                assert(!path_starts_with(s[k], s[i]));
            }
        }
    }
    assert(kept_pred(s)(s[k]));
    s.lemma_filter_contains(kept_pred(s), k);
}

impl ScannerConfig {
    /// Keeps the scan paths whose flag in `is_dir` is set, then removes every path that
    /// lies under another.  `is_dir` gives, for each path in order, whether it names an
    /// existing directory.
    pub fn retain_dirs_and_prune(&mut self, is_dir: &Vec<bool>)
        requires
            is_dir.len() == old(self).scan_paths.len(),
        ensures
            strings_view(final(self).scan_paths@) == prune_nested(
                keep_where(strings_view(old(self).scan_paths@), is_dir@),
            ),
            final(self).image_extensions == old(self).image_extensions,
            final(self).min_image_count == old(self).min_image_count,
    {
        let ghost s = strings_view(self.scan_paths@);
        let mut kept: Vec<String> = Vec::new();
        let mut i: usize = 0;
        while i < self.scan_paths.len()
            invariant
                0 <= i <= self.scan_paths.len(),
                is_dir.len() == self.scan_paths.len(),
                s == strings_view(self.scan_paths@),
                strings_view(kept@) == keep_where(s.subrange(0, i as int), is_dir@.subrange(0, i as int)),
            decreases self.scan_paths.len() - i,
        {
            proof {
                assert(s.subrange(0, i + 1).drop_last() =~= s.subrange(0, i as int));
                assert(is_dir@.subrange(0, i + 1).drop_last() =~= is_dir@.subrange(0, i as int));
            }
            if is_dir[i] {
                kept.push(self.scan_paths[i].clone());
            }
            assert(strings_view(kept@) =~= keep_where(s.subrange(0, i + 1), is_dir@.subrange(0, i + 1)));
            i = i + 1;
        }
        assert(s.subrange(0, i as int) =~= s);
        assert(is_dir@.subrange(0, i as int) =~= is_dir@);
        self.scan_paths = prune_nested_paths(&kept);
    }

    /// Drops the scan paths that are not existing directories, then removes every path
    /// that lies under another.  Which paths exist is read from the file system, so the
    /// contract states the outcome for every answer it may give.
    pub fn validate_scan_paths(&mut self)
        ensures
            exists|is_dir: Seq<bool>|
                dir_flags_read(strings_view(old(self).scan_paths@), is_dir) && strings_view(
                    final(self).scan_paths@,
                ) == prune_nested(keep_where(strings_view(old(self).scan_paths@), is_dir)),
            final(self).image_extensions == old(self).image_extensions,
            final(self).min_image_count == old(self).min_image_count,
    {
        let flags = existing_dir_flags(&self.scan_paths);
        self.retain_dirs_and_prune(&flags);
    }
}

/// For each path in order, whether it names an existing directory, as the file system
/// answers.
fn existing_dir_flags(paths: &Vec<String>) -> (r: Vec<bool>)
    ensures
        dir_flags_read(strings_view(paths@), r@),
{
    let mut flags: Vec<bool> = Vec::new();
    let mut i: usize = 0;
    while i < paths.len()
        invariant
            0 <= i <= paths.len(),
            flags.len() == i,
            forall|k: int| 0 <= k < i ==> #[trigger] dir_answer(paths@[k]@, flags@[k]),
        decreases paths.len() - i,
    {
        let answer = is_existing_dir(paths[i].as_str());
        flags.push(answer);
        assert(flags@[i as int] == answer);
        i = i + 1;
    }
    flags
}

/// `is_dir` holds, in order, the file system's answer for each of `paths`: whether it
/// names an existing directory.
pub open spec fn dir_flags_read(paths: Seq<Seq<char>>, is_dir: Seq<bool>) -> bool {
    &&& is_dir.len() == paths.len()
    &&& forall|k: int| 0 <= k < is_dir.len() ==> #[trigger] dir_answer(paths[k], is_dir[k])
}

/// `is_dir` holds the file system's answer for each scan path of the file `f`, in
/// order (none where the file has no scanner table).
pub open spec fn file_dirs_read(f: ConfigFile, is_dir: Seq<bool>) -> bool {
    match f.scanner {
        Some(sc) => dir_flags_read(strings_view(sc.scan_paths@), is_dir),
        None => is_dir.len() == 0,
    }
}

/// The number of scan paths that the file `f` lists.
pub open spec fn scan_path_count(f: ConfigFile) -> nat {
    match f.scanner {
        Some(sc) => sc.scan_paths@.len(),
        None => 0,
    }
}

/// `r` is the configuration built from the file `f`, where `is_dir` tells, for each
/// scan path of the file in order, whether it names an existing directory.
pub open spec fn built_from(f: ConfigFile, is_dir: Seq<bool>, r: Config) -> bool {
    &&& r.app_name == f.server.app_name
    &&& r.version == f.server.version
    &&& r.host == f.server.host
    &&& r.port == f.server.port
    &&& r.log_level == f.server.log_level
    &&& r.database_url == f.database.url
    &&& match f.scanner {
        Some(sc) => {
            &&& r.scanner.image_extensions == sc.image_extensions
            &&& r.scanner.min_image_count == sc.min_image_count
            &&& strings_view(r.scanner.scan_paths@) == prune_nested(keep_where(strings_view(sc.scan_paths@), is_dir))
        },
        None => r.scanner.is_default(),
    }
    &&& match f.cache {
        Some(c) => r.cache == c,
        None => r.cache.is_default(),
    }
    &&& match f.internal {
        Some(c) => r.internal == c,
        None => r.internal.is_default(),
    }
}

/// The file `f` holds the settings of `c`, every table present.
pub open spec fn holds_settings(f: ConfigFile, c: Config) -> bool {
    &&& f.server.app_name == c.app_name
    &&& f.server.version == c.version
    &&& f.server.host == c.host
    &&& f.server.port == c.port
    &&& f.server.log_level == c.log_level
    &&& f.database.url == c.database_url
    &&& f.scanner is Some && f.scanner->0@ == c.scanner@
    &&& f.cache == Some(c.cache)
    &&& f.internal == Some(c.internal)
}

/// `a` and `b` hold the same settings.
pub open spec fn same_settings(a: Config, b: Config) -> bool {
    &&& a.app_name@ == b.app_name@
    &&& a.version@ == b.version@
    &&& a.host@ == b.host@
    &&& a.port == b.port
    &&& a.log_level@ == b.log_level@
    &&& a.database_url@ == b.database_url@
    &&& a.scanner@ == b.scanner@
    &&& a.cache == b.cache
    &&& a.internal == b.internal
}

/// No path of `s` lies under another or repeats another: validating `s` against
/// existing directories leaves it as it is.
pub open spec fn none_nested(s: Seq<Seq<char>>) -> bool {
    forall|a: int, b: int|
        0 <= a < b < s.len() ==> !path_starts_with(#[trigger] s[b], #[trigger] s[a]) && !path_starts_with(
            s[a],
            s[b],
        )
}

proof fn lemma_keep_all(s: Seq<Seq<char>>, keep: Seq<bool>)
    requires
        keep.len() == s.len(),
        forall|i: int| 0 <= i < keep.len() ==> #[trigger] keep[i],
    ensures
        keep_where(s, keep) == s,
    decreases s.len(),
{
    if s.len() > 0 {
        assert forall|i: int| 0 <= i < keep.drop_last().len() implies #[trigger] keep.drop_last()[i] by {
            assert(keep.drop_last()[i] == keep[i]);
        }
        lemma_keep_all(s.drop_last(), keep.drop_last());
        assert(keep.last() == keep[keep.len() - 1]);
        assert(s.drop_last().push(s.last()) =~= s);
    }
}

/// A configuration whose scan paths are existing directories, none under another,
/// reads back with the same settings from the file that holds it: building from that
/// file, with every scan path found to be a directory, gives `c` again.
pub proof fn law_saved_configuration_reads_back(c: Config, f: ConfigFile, is_dir: Seq<bool>, r: Config)
    requires
        holds_settings(f, c),
        none_nested(strings_view(c.scanner.scan_paths@)),
        is_dir.len() == c.scanner.scan_paths@.len(),
        forall|i: int| 0 <= i < is_dir.len() ==> #[trigger] is_dir[i],
        built_from(f, is_dir, r),
    ensures
        same_settings(r, c),
{
    let s = strings_view(c.scanner.scan_paths@);
    let sc = f.scanner->0;
    assert(strings_view(sc.scan_paths@) == s);
    lemma_keep_all(s, is_dir);
    assert forall|p: Seq<char>| !#[trigger] pruned_value(s, p) by {
        if pruned_value(s, p) {
            let (i, j) = choose|i: int, j: int| 0 <= i < j < s.len() && #[trigger] pair_prunes(s, i, j, p);
            assert(!path_starts_with(s[j], s[i]) && !path_starts_with(s[i], s[j]));
        }
    }
    lemma_filter_all(s, kept_pred(s));
    assert(r.scanner@ == c.scanner@);
}

impl Config {
    /// The defaults, with the given database URL.
    pub open spec fn is_default_with(&self, database_url: Seq<char>) -> bool {
        &&& self.app_name@ == "Auxm API"@
        &&& self.version@ == "1.0.0"@
        &&& self.host@ == "0.0.0.0"@
        &&& self.port == 3001
        &&& self.log_level@ == "info"@
        &&& self.database_url@ == database_url
        &&& self.scanner.is_default()
        &&& self.cache.is_default()
        &&& self.internal.is_default()
    }

    /// The default configuration with `database_url` as its database URL.
    pub fn default_with_database_url(database_url: String) -> (r: Config)
        ensures
            r.is_default_with(database_url@),
    {
        Config {
            app_name: String::from_str("Auxm API"),
            version: String::from_str("1.0.0"),
            host: String::from_str("0.0.0.0"),
            port: 3001,
            log_level: String::from_str("info"),
            database_url,
            scanner: ScannerConfig::default(),
            cache: CacheConfig::default(),
            internal: InternalConfig::default(),
        }
    }

    /// A copy of the scanner settings.
    pub fn scanner_config(&self) -> (r: ScannerConfig)
        ensures
            r@ == self.scanner@,
    {
        self.scanner.copy()
    }

    /// The configuration built from the file `f`, where `is_dir` tells, for each scan
    /// path of the file in order, whether it names an existing directory.
    pub fn from_file_with_dirs(f: ConfigFile, is_dir: &Vec<bool>) -> (r: Config)
        requires
            is_dir.len() == scan_path_count(f),
        ensures
            built_from(f, is_dir@, r),
    {
        let scanner = match f.scanner {
            Some(sc) => {
                let mut sc = sc;
                sc.retain_dirs_and_prune(is_dir);
                sc
            },
            None => ScannerConfig::default(),
        };
        Config {
            app_name: f.server.app_name,
            version: f.server.version,
            host: f.server.host,
            port: f.server.port,
            log_level: f.server.log_level,
            database_url: f.database.url,
            scanner,
            cache: match f.cache {
                Some(c) => c,
                None => CacheConfig::default(),
            },
            internal: match f.internal {
                Some(c) => c,
                None => InternalConfig::default(),
            },
        }
    }

    /// The configuration built from a configuration file that was read and parsed
    /// (`None` when it could not be read or parsed: then the defaults with
    /// `default_database_url`), before environment overrides.  The file's scan paths
    /// are validated against the file system, so the contract states the outcome for
    /// every answer it may give.
    pub fn from_parsed_file(file: Option<ConfigFile>, default_database_url: String) -> (r: Config)
        ensures
            match file {
                None => r.is_default_with(default_database_url@),
                Some(f) => exists|is_dir: Seq<bool>|
                    file_dirs_read(f, is_dir) && #[trigger] built_from(f, is_dir, r),
            },
    {
        match file {
            Some(f) => {
                let flags = match &f.scanner {
                    Some(sc) => existing_dir_flags(&sc.scan_paths),
                    None => Vec::new(),
                };
                let ghost g = f;
                let r = Config::from_file_with_dirs(f, &flags);
                assert(built_from(g, flags@, r));
                r
            },
            None => Config::default_with_database_url(default_database_url),
        }
    }

    /// Replaces each setting whose environment variable is set; `PORT` only where it
    /// parses as a port number.
    pub fn apply_env_overrides(&mut self, env: &EnvOverrides)
        ensures
            final(self).app_name == (match env.app_name {
                Some(v) => v,
                None => old(self).app_name,
            }),
            final(self).version == (match env.version {
                Some(v) => v,
                None => old(self).version,
            }),
            final(self).host == (match env.host {
                Some(v) => v,
                None => old(self).host,
            }),
            final(self).port == (match env.port {
                Some(v) => match parse_unsigned(v@, 65535) {
                    Some(p) => p as u16,
                    None => old(self).port,
                },
                None => old(self).port,
            }),
            final(self).log_level == (match env.log_level {
                Some(v) => v,
                None => old(self).log_level,
            }),
            final(self).database_url == (match env.database_url {
                Some(v) => v,
                None => old(self).database_url,
            }),
            final(self).scanner == old(self).scanner,
            final(self).cache == old(self).cache,
            final(self).internal == old(self).internal,
    {
        if let Some(v) = &env.app_name {
            self.app_name = v.clone();
        }
        if let Some(v) = &env.version {
            self.version = v.clone();
        }
        if let Some(v) = &env.host {
            self.host = v.clone();
        }
        if let Some(v) = &env.port {
            if let Some(p) = parse_u16(v.as_str()) {
                self.port = p;
            }
        }
        if let Some(v) = &env.log_level {
            self.log_level = v.clone();
        }
        if let Some(v) = &env.database_url {
            self.database_url = v.clone();
        }
    }

    /// The configuration in effect: the parsed configuration file (or the defaults,
    /// whose database URL is `DATABASE_URL` or `sqlite:auxm.db`), then the environment
    /// overrides.
    pub fn load(file: Option<ConfigFile>, env: &EnvOverrides) -> (r: Config)
        ensures
            exists|base: Config|
                #[trigger] Config::loaded_from(base, file, env) && r == Config::overridden(base, env),
    {
        let db = default_database_url(&env.database_url);
        let ghost f = file;
        let mut config = Config::from_parsed_file(file, db);
        let ghost base = config;
        config.apply_env_overrides(env);
        assert(Config::loaded_from(base, f, env));
        config
    }

    /// `base` is a configuration that `from_parsed_file` may build from `file` with the
    /// default database URL that `env` selects.
    pub open spec fn loaded_from(base: Config, file: Option<ConfigFile>, env: &EnvOverrides) -> bool {
        match file {
            None => base.is_default_with(
                default_database_url_spec(
                    match env.database_url {
                        Some(v) => Some(v@),
                        None => None,
                    },
                ),
            ),
            Some(f) => exists|is_dir: Seq<bool>|
                file_dirs_read(f, is_dir) && #[trigger] built_from(f, is_dir, base),
        }
    }

    /// `base` with the environment overrides applied.
    pub open spec fn overridden(base: Config, env: &EnvOverrides) -> Config {
        Config {
            app_name: match env.app_name {
                Some(v) => v,
                None => base.app_name,
            },
            version: match env.version {
                Some(v) => v,
                None => base.version,
            },
            host: match env.host {
                Some(v) => v,
                None => base.host,
            },
            port: match env.port {
                Some(v) => match parse_unsigned(v@, 65535) {
                    Some(p) => p as u16,
                    None => base.port,
                },
                None => base.port,
            },
            log_level: match env.log_level {
                Some(v) => v,
                None => base.log_level,
            },
            database_url: match env.database_url {
                Some(v) => v,
                None => base.database_url,
            },
            scanner: base.scanner,
            cache: base.cache,
            internal: base.internal,
        }
    }

    /// The configuration file that holds these settings.
    pub fn to_config_file(&self) -> (r: ConfigFile)
        ensures
            holds_settings(r, *self),
    {
        ConfigFile {
            server: ServerConfig {
                app_name: self.app_name.clone(),
                version: self.version.clone(),
                host: self.host.clone(),
                port: self.port,
                log_level: self.log_level.clone(),
            },
            database: DatabaseConfig { url: self.database_url.clone() },
            scanner: Some(self.scanner.copy()),
            cache: Some(self.cache.copy()),
            internal: Some(self.internal.copy()),
        }
    }
}

} // verus!
