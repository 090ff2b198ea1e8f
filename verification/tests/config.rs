use myrti::config::{
    asset_dir_from_toml, config_from_toml, ConfigError, PathFilter, TomlAssetDir,
    TomlBinPaths, TomlConfig, TomlDataDir,
};

fn dir(path: &str, excluded: Option<Vec<&str>>, included: Option<Vec<&str>>) -> TomlAssetDir {
    TomlAssetDir {
        path: path.to_owned(),
        name: Some("photos".to_owned()),
        exclude_patterns: excluded.map(|v| v.into_iter().map(|s| s.to_owned()).collect()),
        include_patterns: included.map(|v| v.into_iter().map(|s| s.to_owned()).collect()),
    }
}

fn toml(dirs: Vec<TomlAssetDir>, bin_paths: Option<TomlBinPaths>) -> TomlConfig {
    TomlConfig {
        asset_dirs: dirs,
        data_dir: TomlDataDir { path: "/data".to_owned(), name: None, db_path: Some("/data/db.sqlite".to_owned()) },
        bin_paths,
        address: Some("0.0.0.0".to_owned()),
        port: Some(3000),
    }
}

#[test]
fn valid_config_is_built() {
    let c = config_from_toml(toml(
        vec![dir("/photos", Some(vec!["**/*.tmp", "**/.thumbnails"]), Some(vec!["*.jpg"]))],
        Some(TomlBinPaths { ffmpeg: Some("/opt/ffmpeg".to_owned()), ffprobe: None, exiftool: None, gpac: None }),
    ))
    .unwrap();
    assert_eq!(c.asset_dirs.len(), 1);
    assert_eq!(c.asset_dirs[0].path, "/photos");
    assert_eq!(c.asset_dirs[0].exclude_globs.len(), 2);
    assert_eq!(c.asset_dirs[0].include_globs.len(), 1);
    assert_eq!(c.asset_dirs[0].exclude_globs[0].glob(), "**/*.tmp");
    assert_eq!(c.asset_dirs[0].exclude_patterns, vec!["**/*.tmp".to_owned(), "**/.thumbnails".to_owned()]);
    assert_eq!(c.asset_dirs[0].include_patterns, vec!["*.jpg".to_owned()]);
    assert_eq!(c.data_dir.db_path.as_deref(), Some("/data/db.sqlite"));
    assert_eq!(c.port, Some(3000));
    let (path, args) = c.bin_paths.ffmpeg_path();
    assert_eq!(path, "/opt/ffmpeg");
    assert!(args.is_empty());
    assert_eq!(c.bin_paths.ffprobe_path().0, "ffprobe");
    assert_eq!(c.bin_paths.gpac_path().0, "gpac");
    assert_eq!(c.bin_paths.exiftool_path().0, "exiftool");
    assert_eq!(c.asset_dir_index("/photos"), Some(0));
    assert_eq!(c.asset_dir_index("/videos"), None);
    assert_eq!(c.asset_dir_index("/photos/"), Some(0));
    assert_eq!(c.asset_dir_index("//photos"), Some(0));
    assert_eq!(c.asset_dir_index("/photos/a"), None);
}

#[test]
fn invalid_patterns_are_reported() {
    let err = asset_dir_from_toml(dir("/p", Some(vec!["ok", "{a,b"]), None)).err().unwrap();
    assert_eq!(
        err,
        ConfigError::InvalidExcludePattern { pattern: "{a,b".to_owned(), dir: "/p".to_owned() }
    );
    let err = config_from_toml(toml(
        vec![dir("/a", None, None), dir("/b", None, Some(vec!["[z-a"]))],
        None,
    ))
    .err()
    .unwrap();
    assert_eq!(err, ConfigError::InvalidIncludePattern { pattern: "[z-a".to_owned(), dir: "/b".to_owned() });
}

#[test]
fn missing_tool_section_gives_default_tools() {
    let c = config_from_toml(toml(vec![], None)).unwrap();
    assert_eq!(c.bin_paths.ffmpeg_path().0, "ffmpeg");
    assert!(c.bin_paths.ffmpeg.is_none());
}

#[test]
fn readme_example_config() {
    // address = "0.0.0.0", port = 3000, one asset directory without patterns, no tool paths.
    let t = TomlConfig {
        asset_dirs: vec![TomlAssetDir {
            path: "/mnt/my-media-nas/".to_owned(),
            name: None,
            exclude_patterns: None,
            include_patterns: None,
        }],
        data_dir: TomlDataDir { path: "/path/to/data".to_owned(), name: None, db_path: None },
        bin_paths: Some(TomlBinPaths { ffmpeg: None, ffprobe: None, exiftool: None, gpac: None }),
        address: Some("0.0.0.0".to_owned()),
        port: Some(3000),
    };
    let c = config_from_toml(t).unwrap();
    assert_eq!(c.address.as_deref(), Some("0.0.0.0"));
    assert_eq!(c.port, Some(3000));
    assert_eq!(c.data_dir.path, "/path/to/data");
    assert_eq!(c.data_dir.name, None);
    assert_eq!(c.data_dir.db_path, None);
    assert_eq!(c.asset_dirs.len(), 1);
    assert_eq!(c.asset_dirs[0].path, "/mnt/my-media-nas/");
    assert_eq!(c.asset_dirs[0].name, None);
    assert!(c.asset_dirs[0].exclude_patterns.is_empty());
    assert!(c.asset_dirs[0].include_patterns.is_empty());
    assert!(c.asset_dirs[0].exclude_globs.is_empty());
    assert!(c.asset_dirs[0].include_globs.is_empty());
    assert!(c.bin_paths.ffmpeg.is_none() && c.bin_paths.gpac.is_none());
}

#[test]
fn glob_matching() {
    let d = asset_dir_from_toml(dir("/photos", Some(vec!["**/*.tmp"]), None)).unwrap();
    let f = PathFilter::new(Some(&d)).unwrap();
    assert!(f.is_skipped("/photos/a/b.tmp"));
    assert!(!f.is_skipped("/photos/a/b.jpg"));
    assert!(!f.is_skipped("/photos/x.tmp/y.jpg"));
    let none = PathFilter::new(None).unwrap();
    assert!(!none.is_skipped("/photos/a/b.tmp"));
}

#[test]
fn include_pattern_overrides_exclude() {
    // README: excluded paths that match an include pattern are not ignored.
    let d = asset_dir_from_toml(dir(
        "/media",
        Some(vec!["**/boring/videos*"]),
        Some(vec!["**/boring/videos/exceptions/*"]),
    ))
    .unwrap();
    let d = PathFilter::new(Some(&d)).unwrap();
    assert!(d.is_skipped("/media/boring/videos"));
    assert!(d.is_skipped("/media/boring/videos/a.mp4"));
    assert!(!d.is_skipped("/media/boring/videos/exceptions/b.mp4"));
    assert!(!d.is_skipped("/media/fun/c.mp4"));
    let open = asset_dir_from_toml(dir("/media", None, Some(vec!["*"]))).unwrap();
    assert!(!PathFilter::new(Some(&open)).unwrap().is_skipped("/media/anything"));
}

#[test]
fn pattern_too_large_to_compile_stops_the_filter() {
    // The glob parses, but its regex is beyond the size limit of a glob set.
    let huge = "[^a]".repeat(1_000_000);
    let d = asset_dir_from_toml(dir("/media", Some(vec![huge.as_str()]), None)).unwrap();
    assert!(PathFilter::new(Some(&d)).is_err());
}
