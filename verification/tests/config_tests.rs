use auxm::config::{Config, ConfigFile, DatabaseConfig, EnvOverrides, ScannerConfig, ServerConfig};

fn scanner_with(paths: Vec<String>) -> ScannerConfig {
    ScannerConfig { scan_paths: paths, image_extensions: vec![], min_image_count: 3 }
}

#[test]
fn test_validate_scan_paths_empty() {
    let mut config = scanner_with(vec![]);
    config.validate_scan_paths();
    assert!(config.scan_paths.is_empty());
}

#[test]
fn test_validate_scan_paths_nonexistent() {
    let mut config = scanner_with(vec!["/nonexistent/path/abc123".to_string()]);
    config.validate_scan_paths();
    assert!(config.scan_paths.is_empty());
}

#[test]
fn test_validate_scan_paths_valid() {
    let temp_dir = tempfile::tempdir().unwrap();
    let path = temp_dir.path().to_string_lossy().to_string();
    let mut config = scanner_with(vec![path]);
    config.validate_scan_paths();
    assert_eq!(config.scan_paths.len(), 1);
}

#[test]
fn test_validate_scan_paths_subpath() {
    let temp_dir = tempfile::tempdir().unwrap();
    let parent = temp_dir.path().to_string_lossy().to_string();
    let child_dir = tempfile::Builder::new().prefix("subdir").rand_bytes(0).tempdir_in(temp_dir.path()).unwrap();
    let child = child_dir.path().to_string_lossy().to_string();
    assert_eq!(child, format!("{}/subdir", parent));
    let mut config = scanner_with(vec![parent.clone(), child]);
    config.validate_scan_paths();
    assert_eq!(config.scan_paths.len(), 1);
    assert!(config.scan_paths.contains(&parent));
}

#[test]
fn test_validate_scan_paths_multiple_valid() {
    let temp_dir1 = tempfile::tempdir().unwrap();
    let temp_dir2 = tempfile::tempdir().unwrap();
    let mut config = scanner_with(vec![
        temp_dir1.path().to_string_lossy().to_string(),
        temp_dir2.path().to_string_lossy().to_string(),
    ]);
    config.validate_scan_paths();
    assert_eq!(config.scan_paths.len(), 2);
}

#[test]
fn retain_dirs_and_prune_drops_missing_and_nested_paths() {
    let mut config = scanner_with(vec![
        "/lib".to_string(),
        "/lib/comics".to_string(),
        "/missing".to_string(),
        "/other".to_string(),
    ]);
    config.retain_dirs_and_prune(&vec![true, true, false, true]);
    assert_eq!(config.scan_paths, vec!["/lib".to_string(), "/other".to_string()]);
}

#[test]
fn prune_keeps_sibling_with_common_string_prefix() {
    let mut config = scanner_with(vec!["/lib".to_string(), "/library".to_string()]);
    config.retain_dirs_and_prune(&vec![true, true]);
    assert_eq!(config.scan_paths, vec!["/lib".to_string(), "/library".to_string()]);
}

#[test]
fn prune_is_idempotent_on_concrete_paths() {
    let mut config = scanner_with(vec!["/a".to_string(), "/a/b".to_string(), "/c".to_string()]);
    config.retain_dirs_and_prune(&vec![true, true, true]);
    let once = config.scan_paths.clone();
    config.retain_dirs_and_prune(&vec![true; once.len()]);
    assert_eq!(config.scan_paths, once);
}

fn no_env() -> EnvOverrides {
    EnvOverrides { app_name: None, version: None, host: None, port: None, log_level: None, database_url: None }
}

#[test]
fn load_without_file_gives_defaults() {
    let config = Config::load(None, &no_env());
    assert_eq!(config.app_name, "Auxm API");
    assert_eq!(config.version, "1.0.0");
    assert_eq!(config.host, "0.0.0.0");
    assert_eq!(config.port, 3001);
    assert_eq!(config.log_level, "info");
    assert_eq!(config.database_url, "sqlite:auxm.db");
    assert_eq!(config.scanner.min_image_count, 3);
    assert_eq!(config.cache.cover_width, 480);
    assert_eq!(config.internal.database_max_connections, 16);
}

#[test]
fn load_applies_environment_overrides() {
    let env = EnvOverrides {
        app_name: Some("Shelf".to_string()),
        version: None,
        host: Some("127.0.0.1".to_string()),
        port: Some("8080".to_string()),
        log_level: None,
        database_url: Some("sqlite:/tmp/x.db".to_string()),
    };
    let config = Config::load(None, &env);
    assert_eq!(config.app_name, "Shelf");
    assert_eq!(config.host, "127.0.0.1");
    assert_eq!(config.port, 8080);
    assert_eq!(config.database_url, "sqlite:/tmp/x.db");
}

#[test]
fn load_ignores_unparsable_port() {
    let env = EnvOverrides { port: Some("eighty".to_string()), ..no_env() };
    let config = Config::load(None, &env);
    assert_eq!(config.port, 3001);
}

#[test]
fn load_reads_file_tables() {
    let file = ConfigFile {
        server: ServerConfig {
            app_name: "From File".to_string(),
            version: "2.0.0".to_string(),
            host: "localhost".to_string(),
            port: 4000,
            log_level: "debug".to_string(),
        },
        database: DatabaseConfig { url: "sqlite:file.db".to_string() },
        scanner: None,
        cache: None,
        internal: None,
    };
    let config = Config::load(Some(file), &no_env());
    assert_eq!(config.app_name, "From File");
    assert_eq!(config.port, 4000);
    assert_eq!(config.database_url, "sqlite:file.db");
    assert!(config.scanner.scan_paths.is_empty());
}

#[test]
fn scanner_config_is_a_copy() {
    let mut config = Config::load(None, &no_env());
    config.scanner.scan_paths = vec!["/books".to_string()];
    let scanner = config.scanner_config();
    assert_eq!(scanner.scan_paths, vec!["/books".to_string()]);
    assert_eq!(scanner.image_extensions, config.scanner.image_extensions);
}

#[test]
fn saved_configuration_reads_back_with_the_same_settings() {
    let dir1 = tempfile::tempdir().unwrap();
    let dir2 = tempfile::tempdir().unwrap();
    let mut config = Config::load(None, &no_env());
    config.app_name = "Shelf".to_string();
    config.port = 8080;
    config.cache.cover_width = 512;
    config.internal.file_io_concurrency = 7;
    config.scanner.min_image_count = 4;
    config.scanner.scan_paths = vec![
        dir1.path().to_string_lossy().to_string(),
        dir2.path().to_string_lossy().to_string(),
    ];
    let back = Config::from_file_with_dirs(config.to_config_file(), &vec![true, true]);
    assert_eq!(back.app_name, config.app_name);
    assert_eq!(back.version, config.version);
    assert_eq!(back.host, config.host);
    assert_eq!(back.port, config.port);
    assert_eq!(back.log_level, config.log_level);
    assert_eq!(back.database_url, config.database_url);
    assert_eq!(back.scanner.scan_paths, config.scanner.scan_paths);
    assert_eq!(back.scanner.image_extensions, config.scanner.image_extensions);
    assert_eq!(back.scanner.min_image_count, 4);
    assert_eq!(back.cache.cover_width, 512);
    assert_eq!(back.internal.file_io_concurrency, 7);
    let read = Config::from_parsed_file(Some(config.to_config_file()), "sqlite:other.db".to_string());
    assert_eq!(read.scanner.scan_paths, config.scanner.scan_paths);
    assert_eq!(read.database_url, config.database_url);
}
