use filewatch::canonicalize;
use filewatch::file_name;
use filewatch::folders;
use filewatch::join;
use filewatch::matching_by_canon;
use filewatch::matching_files;
use filewatch::parent;

fn s(text: &str) -> String {
    text.to_string()
}

#[test]
fn parent_of_nested_path() {
    assert_eq!(parent(&s("/tmp/dir/file.txt")), Some(s("/tmp/dir")));
}

#[test]
fn parent_of_root_child_is_root() {
    assert_eq!(parent(&s("/file")), Some(s("/")));
}

#[test]
fn parent_of_bare_name_is_none() {
    assert_eq!(parent(&s("file.txt")), None);
}

#[test]
fn file_name_is_last_component() {
    assert_eq!(file_name(&s("/tmp/dir/file.txt")), s("file.txt"));
    assert_eq!(file_name(&s("file.txt")), s("file.txt"));
}

#[test]
fn join_inserts_separator() {
    assert_eq!(join(&s("/tmp/dir"), &s("file")), s("/tmp/dir/file"));
}

#[test]
fn join_keeps_single_separator_after_root() {
    assert_eq!(join(&s("/"), &s("file")), s("/file"));
}

#[test]
fn folders_deduplicates_parents() {
    let files = vec![s("/tmp/a"), s("/tmp/b"), s("/var/c"), s("bare")];
    assert_eq!(folders(&files), vec![s("/tmp"), s("/var")]);
}

#[test]
fn folders_of_nothing_is_empty() {
    let files: Vec<String> = vec![];
    assert_eq!(folders(&files), Vec::<String>::new());
}

#[test]
fn canonicalize_missing_file_uses_its_directory() {
    // The file does not exist, so its directory is canonicalized and the
    // name joined back on; "/tmp/.." resolves to "/".
    let canon = canonicalize(&s("/tmp/../no-such-file-1f2e3d"));
    assert_eq!(canon, Some(s("/no-such-file-1f2e3d")));
}

#[test]
fn canonicalize_fails_only_for_a_dead_directory() {
    // Neither the file nor its directory exists: no canonical form.
    assert_eq!(canonicalize(&s("/no-such-directory-9c8b7a/file")), None);
}

#[test]
fn canonicalize_bare_name_returns_it() {
    assert_eq!(
        canonicalize(&s("no-slash-in-this-name")),
        Some(s("no-slash-in-this-name"))
    );
}

#[test]
fn matching_by_canon_picks_watched_paths_with_equal_forms() {
    let watched = vec![s("w1"), s("w2"), s("w3")];
    let canons = vec![Some(s("c1")), Some(s("c2")), None];
    let changed = vec![Some(s("c2")), Some(s("c9"))];
    assert_eq!(matching_by_canon(&watched, &canons, &changed), vec![s("w2")]);
}

#[test]
fn matching_by_canon_reports_every_alias() {
    // Two watched spellings with the same canonical form both match one
    // changed path.
    let watched = vec![s("w1"), s("w2")];
    let canons = vec![Some(s("c")), Some(s("c"))];
    let changed = vec![Some(s("c"))];
    assert_eq!(
        matching_by_canon(&watched, &canons, &changed),
        vec![s("w1"), s("w2")]
    );
}

#[test]
fn matching_files_matches_through_dot_dot() {
    let watched = vec![s("/tmp/watched-match-test")];
    let changed = vec![s("/tmp/../tmp/watched-match-test")];
    assert_eq!(matching_files(&watched, &changed), watched);
}

#[test]
fn matching_files_ignores_unwatched_changes() {
    let watched = vec![s("/tmp/watched-match-test")];
    let changed = vec![s("/tmp/some-other-file")];
    assert_eq!(matching_files(&watched, &changed), Vec::<String>::new());
}

#[test]
fn matching_files_with_no_changes_is_empty() {
    let watched = vec![s("/tmp/watched-match-test")];
    assert_eq!(matching_files(&watched, &vec![]), Vec::<String>::new());
}

#[test]
fn matching_files_with_nothing_watched_is_empty() {
    let changed = vec![s("/tmp/watched-match-test")];
    assert_eq!(matching_files(&vec![], &changed), Vec::<String>::new());
}
