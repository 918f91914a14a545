use aokami::version_scan::{file_stem, find_latest_version, parse_version_stem, Version};
use aokami::PipelineError;

fn names(list: &[&str]) -> Vec<String> {
    list.iter().map(|s| s.to_string()).collect()
}

#[test]
fn picks_numeric_not_lexicographic_maximum() {
    let files = names(&["1.2.3.jar", "1.10.0.jar", "1.2.10.jar"]);
    assert_eq!(find_latest_version(&files).unwrap(), "1.10.0");
}

#[test]
fn scanning_twice_returns_the_same_tag() {
    let files = names(&["1.2.3.jar", "1.10.0.jar", "1.2.10.jar"]);
    let first = find_latest_version(&files).unwrap();
    let second = find_latest_version(&files).unwrap();
    assert_eq!(first, second);
}

#[test]
fn empty_directory_fails() {
    let files: Vec<String> = Vec::new();
    assert_eq!(find_latest_version(&files).err(), Some(PipelineError::EmptyDirectory));
}

#[test]
fn malformed_name_fails_the_whole_scan() {
    let files = names(&["1.2.3.jar", "notaversion.jar", "1.10.0.jar"]);
    assert_eq!(
        find_latest_version(&files).err(),
        Some(PipelineError::ParseError("notaversion.jar".to_string()))
    );
}

#[test]
fn two_component_stem_fails() {
    let files = names(&["1.2.jar"]);
    assert_eq!(
        find_latest_version(&files).err(),
        Some(PipelineError::ParseError("1.2.jar".to_string()))
    );
}

#[test]
fn four_component_stem_fails() {
    let files = names(&["1.2.3.4.jar"]);
    assert_eq!(
        find_latest_version(&files).err(),
        Some(PipelineError::ParseError("1.2.3.4.jar".to_string()))
    );
}

#[test]
fn component_too_large_for_u32_fails() {
    let files = names(&["4294967296.0.0.jar"]);
    assert!(matches!(find_latest_version(&files), Err(PipelineError::ParseError(_))));
}

#[test]
fn largest_u32_component_is_accepted() {
    let files = names(&["4294967295.0.0.jar", "1.0.0.jar"]);
    assert_eq!(find_latest_version(&files).unwrap(), "4294967295.0.0");
}

#[test]
fn leading_zeros_parse_numerically() {
    let files = names(&["01.02.03.jar", "1.2.4.jar"]);
    assert_eq!(find_latest_version(&files).unwrap(), "1.2.4");
}

#[test]
fn file_stem_strips_the_last_extension() {
    assert_eq!(file_stem("1.2.3.jar"), "1.2.3");
    assert_eq!(file_stem("archive"), "archive");
    assert_eq!(file_stem(".hidden"), ".hidden");
}

#[test]
fn parse_version_stem_reads_three_components() {
    assert_eq!(
        parse_version_stem("1.20.4"),
        Some(Version { major: 1, minor: 20, patch: 4 })
    );
    assert_eq!(parse_version_stem("1.20"), None);
    assert_eq!(parse_version_stem("1.20.4.5"), None);
    assert_eq!(parse_version_stem("1..4"), None);
    assert_eq!(parse_version_stem("a.b.c"), None);
    assert_eq!(parse_version_stem("-1.2.3"), None);
}
