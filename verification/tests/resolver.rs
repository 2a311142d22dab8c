use std::mem;
use std::path::{Path, PathBuf};

use caseless_paths::resolver::{list_subdirectories, match_component, path_exists, resolve_path};
use tempfile::{Builder, TempDir};

/// Creates a directory with exactly the given name under `parent` and keeps
/// it for the life of the test process (the temporary root removes it).
fn make_dir(parent: &Path, name: &str) -> PathBuf {
    let dir = Builder::new()
        .prefix(name)
        .rand_bytes(0)
        .tempdir_in(parent)
        .expect("create test directory");
    let path = dir.path().to_path_buf();
    mem::forget(dir);
    path
}

/// Creates a plain file with exactly the given name under `parent`.
fn make_file(parent: &Path, name: &str) {
    let file = Builder::new()
        .prefix(name)
        .rand_bytes(0)
        .tempfile_in(parent)
        .expect("create test file");
    mem::forget(file);
}

fn base_str(dir: &TempDir) -> String {
    dir.path().to_str().expect("utf-8 temp path").to_string()
}

#[test]
fn empty_relative_path_returns_the_base_unchanged() {
    let temp = TempDir::new().unwrap();
    let base = base_str(&temp);
    assert_eq!(resolve_path(&base, "", true), base);
    assert_eq!(resolve_path(&base, "", false), base);
    let missing = "/no/such/base/anywhere";
    assert_eq!(resolve_path(missing, "", true), missing);
}

#[test]
fn caseless_resolution_returns_the_on_disk_name() {
    let temp = TempDir::new().unwrap();
    let base = base_str(&temp);
    make_dir(temp.path(), "foo");
    let expected = format!("{}/foo", base);
    assert_eq!(resolve_path(&base, "FOO", true), expected);
    assert_eq!(resolve_path(&base, "Foo", true), expected);
    assert_eq!(resolve_path(&base, "foo", true), expected);
}

#[test]
fn normalization_forms_match_caselessly_both_ways() {
    let temp = TempDir::new().unwrap();
    let base = base_str(&temp);
    // One entry stored composed, one stored decomposed.
    make_dir(temp.path(), "ged\u{00F6}ns");
    make_dir(temp.path(), "mo\u{0308}use");
    // A decomposed request finds the composed entry.
    assert_eq!(
        resolve_path(&base, "gedo\u{0308}ns", true),
        format!("{}/ged\u{00F6}ns", base)
    );
    // A composed request finds the decomposed entry.
    assert_eq!(
        resolve_path(&base, "m\u{00F6}use", true),
        format!("{}/mo\u{0308}use", base)
    );
    // Case differences combine with normalization differences.
    assert_eq!(
        resolve_path(&base, "GEDO\u{0308}NS", true),
        format!("{}/ged\u{00F6}ns", base)
    );
    assert!(path_exists(&base, "GED\u{00D6}NS", true));
    assert!(!path_exists(&base, "GED\u{00D6}NS", false));
}

#[test]
fn unmatched_components_are_appended_verbatim_without_existence() {
    let temp = TempDir::new().unwrap();
    let base = base_str(&temp);
    make_dir(temp.path(), "present");
    assert_eq!(
        resolve_path(&base, "missing/Deeper", true),
        format!("{}/missing/Deeper", base)
    );
    assert!(!path_exists(&base, "missing/Deeper", true));
    // A matched component still descends before the fallback starts.
    assert_eq!(
        resolve_path(&base, "PRESENT/gone", true),
        format!("{}/present/gone", base)
    );
    assert!(!path_exists(&base, "PRESENT/gone", true));
}

#[test]
fn a_non_caseless_walk_keeps_the_requested_text() {
    let temp = TempDir::new().unwrap();
    let base = base_str(&temp);
    make_dir(temp.path(), "foo");
    assert_eq!(resolve_path(&base, "FOO", false), format!("{}/FOO", base));
    assert_eq!(resolve_path(&base, "foo", false), format!("{}/foo", base));
}

#[test]
fn path_exists_agrees_with_resolving_then_checking() {
    let temp = TempDir::new().unwrap();
    let base = base_str(&temp);
    make_dir(temp.path(), "foo");
    for (rel, caseless) in [
        ("foo", true),
        ("FOO", true),
        ("FOO", false),
        ("missing", true),
    ] {
        let resolved = resolve_path(&base, rel, caseless);
        // Resolving an empty relative path returns its base unchanged, so
        // this checks presence of exactly the resolved path.
        assert_eq!(
            path_exists(&base, rel, caseless),
            path_exists(&resolved, "", caseless),
            "disagreement for {rel} caseless={caseless}"
        );
    }
}

#[test]
fn listing_an_unreadable_container_gives_the_valid_empty_list() {
    let list = list_subdirectories("/no/such/container/at/all");
    assert_eq!(list.length(), 0);
}

#[test]
fn listing_returns_subdirectories_but_not_files() {
    let temp = TempDir::new().unwrap();
    let base = base_str(&temp);
    make_dir(temp.path(), "mod-a");
    make_dir(temp.path(), "mod-b");
    make_file(temp.path(), "readme");
    let list = list_subdirectories(&base);
    assert_eq!(list.length(), 2);
    let mut names = vec![
        list.get(0).decode_string().to_string(),
        list.get(1).decode_string().to_string(),
    ];
    names.sort();
    assert_eq!(names, vec!["mod-a".to_string(), "mod-b".to_string()]);
}

#[test]
fn match_component_prefers_the_exact_name_over_a_caseless_one() {
    let entries = vec!["FOO".to_string(), "foo".to_string()];
    // Exact match wins even though a caseless one comes first.
    assert_eq!(match_component(&entries, "foo", true), Some(1));
    // Without an exact match the first caseless entry is taken.
    assert_eq!(match_component(&entries, "fOo", true), Some(0));
    // Without the caseless flag only exact names count.
    assert_eq!(match_component(&entries, "fOo", false), None);
    assert_eq!(match_component(&entries, "bar", true), None);
}

#[test]
fn end_to_end_nested_mixed_case() {
    let temp = TempDir::new().unwrap();
    let base = base_str(&temp);
    let foo = make_dir(temp.path(), "Foo");
    make_dir(&foo, "Bar");
    assert_eq!(
        resolve_path(&base, "foo/bar", true),
        format!("{}/Foo/Bar", base)
    );
    assert!(path_exists(&base, "foo/bar", true));
    assert_eq!(
        resolve_path(&base, "foo/bar", false),
        format!("{}/foo/bar", base)
    );
    assert!(!path_exists(&base, "foo/bar", false));
}

#[test]
fn end_to_end_name_with_space() {
    let temp = TempDir::new().unwrap();
    let base = base_str(&temp);
    let spaced = make_dir(temp.path(), "with space");
    make_dir(&spaced, "inner");
    assert!(path_exists(&base, "with SPACE/INNER", true));
    assert!(path_exists(&base, "with space/inner", true));
    assert!(path_exists(&base, "with space/inner", false));
    assert!(!path_exists(&base, "with SPACE/INNER", false));
    assert!(!path_exists(&base, "withspace", true));
    assert_eq!(
        resolve_path(&base, "with SPACE/INNER", true),
        format!("{}/with space/inner", base)
    );
}

#[test]
fn a_base_that_does_not_exist_acts_as_an_empty_directory() {
    let base = "/no/such/base/anywhere";
    assert_eq!(
        resolve_path(base, "a/B/c", true),
        format!("{}/a/B/c", base)
    );
    assert!(!path_exists(base, "a/B/c", true));
    assert!(!path_exists(base, "", true));
}

#[test]
fn separators_collapse_and_empty_pieces_are_dropped() {
    let temp = TempDir::new().unwrap();
    let base = base_str(&temp);
    let foo = make_dir(temp.path(), "foo");
    make_dir(&foo, "bar");
    assert_eq!(
        resolve_path(&base, "foo//bar/", true),
        format!("{}/foo/bar", base)
    );
    assert!(path_exists(&base, "foo//bar/", false));
}

#[test]
fn check_if_relative_path_exists() {
    // The case sensitivity of the filesystem is always unknown, so the
    // expected results must not depend on it. The umlaut directory exists in
    // its composed form on disk; requests use both encodings.
    let temp = TempDir::new().unwrap();
    let base = base_str(&temp);
    let foo = make_dir(temp.path(), "foo");
    make_dir(&foo, "bar");
    let spaced = make_dir(temp.path(), "with space");
    make_dir(&spaced, "inner");
    let umlaut = make_dir(temp.path(), "utf8-ged\u{00F6}ns");
    make_dir(&umlaut, "inner");

    assert_eq!(path_exists(&base, "baz", false), false);
    assert_eq!(path_exists(&base, "baz", true), false);

    assert_eq!(path_exists(&base, "foo", false), true);
    assert_eq!(path_exists(&base, "foo", true), true);
    assert_eq!(path_exists(&base, "FOO", true), true);

    assert_eq!(path_exists(&base, "foo/bar", false), true);
    assert_eq!(path_exists(&base, "foo/bar", true), true);
    assert_eq!(path_exists(&base, "foo/BAR", true), true);
    assert_eq!(path_exists(&base, "FOO/BAR", true), true);
    assert_eq!(path_exists(&base, "FOO/bar", true), true);

    assert_eq!(path_exists(&base, "withspace", false), false);
    assert_eq!(path_exists(&base, "withspace", true), false);
    assert_eq!(path_exists(&base, "with space", false), true);
    assert_eq!(path_exists(&base, "with space", true), true);
    assert_eq!(path_exists(&base, "with SPACE", true), true);

    assert_eq!(path_exists(&base, "with space/inner", false), true);
    assert_eq!(path_exists(&base, "with SPACE/inner", true), true);
    assert_eq!(path_exists(&base, "with SPACE/INNER", true), true);
    assert_eq!(path_exists(&base, "with space/INNER", true), true);

    assert_eq!(path_exists(&base, "utf8-ged\u{00F6}ns/inner", false), true);
    assert_eq!(path_exists(&base, "utf8-ged\u{00F6}ns/inner", true), true);
    assert_eq!(path_exists(&base, "utf8-ged\u{00F6}ns/other", false), false);
    assert_eq!(path_exists(&base, "utf8-gedo\u{0308}ns/inner", true), true);
    assert_eq!(path_exists(&base, "utf8-GED\u{00D6}NS/inner", true), true);
    assert_eq!(path_exists(&base, "utf8-GEDO\u{0308}NS/inner", true), true);
}

#[test]
fn component_sequences_resolve_like_path_text() {
    let temp = TempDir::new().unwrap();
    let base = base_str(&temp);
    let foo = make_dir(temp.path(), "Foo");
    make_dir(&foo, "Bar");
    let components = vec!["foo".to_string(), "bar".to_string()];
    assert_eq!(
        caseless_paths::resolver::resolve(&base, &components, true),
        format!("{}/Foo/Bar", base)
    );
    assert!(caseless_paths::resolver::exists_relative(&base, &components, true));
    assert!(!caseless_paths::resolver::exists_relative(&base, &components, false));
    let empty: Vec<String> = Vec::new();
    assert_eq!(caseless_paths::resolver::resolve(&base, &empty, true), base);
}

#[test]
fn choose_name_returns_the_on_disk_spelling() {
    let entries = vec!["Alpha".to_string(), "ged\u{00F6}ns".to_string()];
    // An exact match keeps the requested (identical) spelling.
    assert_eq!(
        caseless_paths::resolver::choose_name(&entries, "Alpha", true),
        Some("Alpha".to_string())
    );
    // A caseless match returns the name as stored, not as requested.
    assert_eq!(
        caseless_paths::resolver::choose_name(&entries, "ALPHA", true),
        Some("Alpha".to_string())
    );
    // So does a request in the other Unicode normalization form.
    assert_eq!(
        caseless_paths::resolver::choose_name(&entries, "GEDO\u{0308}NS", true),
        Some("ged\u{00F6}ns".to_string())
    );
    // Nothing fold-equal: no name.
    assert_eq!(caseless_paths::resolver::choose_name(&entries, "beta", true), None);
    // Without the caseless flag only the exact spelling counts.
    assert_eq!(caseless_paths::resolver::choose_name(&entries, "ALPHA", false), None);
}

#[test]
fn choose_name_takes_the_first_of_several_fold_equal_entries() {
    let entries = vec!["FOO".to_string(), "Foo".to_string(), "foo".to_string()];
    // No exact match for this request; the first fold-equal entry wins.
    assert_eq!(
        caseless_paths::resolver::choose_name(&entries, "fOo", true),
        Some("FOO".to_string())
    );
    // An exact match beats an earlier fold-equal entry.
    assert_eq!(
        caseless_paths::resolver::choose_name(&entries, "foo", true),
        Some("foo".to_string())
    );
}

#[test]
fn subdirectory_names_keeps_exactly_the_directory_entries_in_order() {
    let entries = vec![
        ("alpha".to_string(), true),
        ("a-file".to_string(), false),
        ("beta".to_string(), true),
        ("another-file".to_string(), false),
    ];
    assert_eq!(
        caseless_paths::resolver::subdirectory_names(&entries),
        vec!["alpha".to_string(), "beta".to_string()]
    );
    let no_dirs = vec![("only-file".to_string(), false)];
    assert_eq!(
        caseless_paths::resolver::subdirectory_names(&no_dirs),
        Vec::<String>::new()
    );
}
