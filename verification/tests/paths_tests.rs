use elements_build::paths::{extension, file_name, relative_path, str_ends_with, str_eq, with_extension};

#[test]
fn file_name_takes_last_segment() {
    assert_eq!(file_name("assets/scripts/main.script_bundle"), "main.script_bundle");
    assert_eq!(file_name("main.script_bundle"), "main.script_bundle");
    assert_eq!(file_name("a/b/"), "");
    assert_eq!(file_name(""), "");
}

#[test]
fn extension_after_last_dot_of_last_segment() {
    assert_eq!(extension("a/b/main.script_bundle"), Some("script_bundle".to_string()));
    assert_eq!(extension("a/b.dir/main"), None);
    assert_eq!(extension("archive.tar.gz"), Some("gz".to_string()));
    assert_eq!(extension("no_dot"), None);
    assert_eq!(extension("trailing."), Some("".to_string()));
}

#[test]
fn with_extension_replaces_or_appends() {
    assert_eq!(with_extension("a/b/main.txt", "script_bundle"), "a/b/main.script_bundle");
    assert_eq!(with_extension("a/b/main", "script_bundle"), "a/b/main.script_bundle");
    assert_eq!(with_extension("a.dir/main", "x"), "a.dir/main.x");
}

#[test]
fn relative_path_strips_the_roots_directory() {
    assert_eq!(relative_path("assets/pipeline.toml", "assets/a.script_bundle"), "a.script_bundle");
    assert_eq!(relative_path("assets/pipeline.toml", "assets/sub/b.txt"), "sub/b.txt");
    assert_eq!(relative_path("assets/pipeline.toml", "other/c.txt"), "other/c.txt");
    assert_eq!(relative_path("pipeline.toml", "c.txt"), "c.txt");
}

#[test]
fn string_helpers() {
    assert!(str_ends_with("dir/pipeline.toml", "pipeline.toml"));
    assert!(!str_ends_with("toml", "pipeline.toml"));
    assert!(!str_ends_with("dir/pipeline.json", "pipeline.toml"));
    assert!(str_eq("abc", "abc"));
    assert!(!str_eq("abc", "abd"));
    assert!(!str_eq("abc", "ab"));
}
