use flist::cli::{Bound, CliArgs, VersionBounds};
use flist::decimal::NumberError;
use flist::file_lister::FileInfo;
use flist::file_version::FileVersion;

fn args_with(min_version: Option<&str>, max_version: Option<&str>) -> CliArgs {
    CliArgs {
        pattern: "*".to_string(),
        include_file_version: false,
        sort_by_path: false,
        min_version: min_version.map(|s| s.to_string()),
        max_version: max_version.map(|s| s.to_string()),
        directory: None,
        output_file: None,
        quiet: false,
    }
}

#[test]
fn test_normalize_auto_enables_version() {
    let mut args = args_with(Some("1.0.0.0"), None);
    assert!(!args.include_file_version); // Not set initially
    args.normalize();
    assert!(args.include_file_version); // Auto-enabled
}

#[test]
fn normalize_changes_nothing_else() {
    let mut args = args_with(None, Some("2.0"));
    args.directory = Some("C:\\test".to_string());
    args.sort_by_path = true;
    let before = args.clone();
    args.normalize();
    assert!(args.include_file_version);
    args.include_file_version = false;
    assert_eq!(args, before);
}

#[test]
fn normalize_without_bounds_keeps_the_flag() {
    let mut args = args_with(None, None);
    args.normalize();
    assert!(!args.include_file_version);
    args.include_file_version = true;
    args.normalize();
    assert!(args.include_file_version);
}

#[test]
fn version_bounds_are_parsed() {
    let bounds = args_with(Some("1.0.0.0"), Some("2.5")).version_bounds().unwrap();
    assert_eq!(
        bounds,
        VersionBounds {
            min_version: Some(FileVersion::new(Some(1), Some(0), Some(0), Some(0))),
            max_version: Some(FileVersion::new(Some(2), Some(5), None, None)),
        }
    );
    let bounds = args_with(None, None).version_bounds().unwrap();
    assert_eq!(bounds, VersionBounds { min_version: None, max_version: None });
}

#[test]
fn invalid_filter_string_fails_with_a_message() {
    let error = args_with(Some("abc"), None).version_bounds().unwrap_err();
    assert_eq!(error.bound, Bound::Minimum);
    assert_eq!(error.error.input, "abc");
    assert_eq!(error.error.reason, NumberError::InvalidDigit);
    assert_eq!(
        error.message(),
        "Invalid minimum version 'abc': invalid digit found in string. Expected format: major.minor.build.private (e.g., 1.2.3.4)"
    );
    let error = args_with(Some("1.0"), Some("1.99999999999")).version_bounds().unwrap_err();
    assert_eq!(error.bound, Bound::Maximum);
    assert_eq!(
        error.message(),
        "Invalid maximum version '1.99999999999': number too large to fit in target type. Expected format: major.minor.build.private (e.g., 1.2.3.4)"
    );
    let error = args_with(Some("x"), Some("y")).version_bounds().unwrap_err();
    assert_eq!(error.bound, Bound::Minimum);
}

fn found_files() -> Vec<FileInfo> {
    vec![
        FileInfo { path: "c.dll".to_string(), version: Some("3.0.0.0".parse().unwrap()) },
        FileInfo { path: "d.txt".to_string(), version: None },
        FileInfo { path: "a.dll".to_string(), version: Some("2.0.0.0".parse().unwrap()) },
        FileInfo { path: "b.dll".to_string(), version: Some("1.0.0.0".parse().unwrap()) },
    ]
}

fn paths_of(files: &[FileInfo]) -> Vec<&str> {
    files.iter().map(|info| info.path.as_str()).collect()
}

#[test]
fn arrange_filters_only_where_a_bound_is_given() {
    let args = args_with(None, None);
    let bounds = args.version_bounds().unwrap();
    assert_eq!(paths_of(&args.arrange(found_files(), &bounds)), ["c.dll", "d.txt", "a.dll", "b.dll"]);

    let args = args_with(Some("2.0.0.0"), None);
    let bounds = args.version_bounds().unwrap();
    assert_eq!(paths_of(&args.arrange(found_files(), &bounds)), ["c.dll", "a.dll"]);

    let args = args_with(None, Some("2"));
    let bounds = args.version_bounds().unwrap();
    assert_eq!(paths_of(&args.arrange(found_files(), &bounds)), ["a.dll", "b.dll"]);
}

#[test]
fn arrange_sorts_where_asked() {
    let mut args = args_with(None, None);
    args.sort_by_path = true;
    let bounds = args.version_bounds().unwrap();
    assert_eq!(paths_of(&args.arrange(found_files(), &bounds)), ["a.dll", "b.dll", "c.dll", "d.txt"]);

    let mut args = args_with(Some("1.5"), Some("3.0.0.0"));
    args.sort_by_path = true;
    let bounds = args.version_bounds().unwrap();
    assert_eq!(paths_of(&args.arrange(found_files(), &bounds)), ["a.dll", "c.dll"]);
}

#[test]
fn errors_can_be_copied() {
    let error = args_with(Some("abc"), None).version_bounds().unwrap_err();
    assert_eq!(error.clone(), error);
}
