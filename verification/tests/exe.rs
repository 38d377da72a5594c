use xodus::exe::{is_exe_name, matches_exe, normalize_internal_path};

#[test]
fn exe_matching_is_case_and_separator_insensitive() {
    let internal = "\\Content\\Game\\Binaries\\Win64\\Game.exe";
    assert!(matches_exe(internal, "game.exe"));
    assert!(matches_exe(internal, "Win64/Game.exe"));
    assert!(matches_exe(
        internal,
        "content\\game\\binaries\\win64\\game.exe"
    ));
    assert!(matches_exe(
        internal,
        "/Content/Game/Binaries/Win64/Game.exe"
    ));
    assert!(!matches_exe(internal, "othergame.exe"));
    // suffix must match at a path-component boundary
    assert!(!matches_exe(internal, "ame.exe"));
}

#[test]
fn normalized_paths_have_backslashes_and_lower_case() {
    assert_eq!(normalize_internal_path("//Content/Game.EXE"), "content\\game.exe");
    assert_eq!(normalize_internal_path("\\\\a/B\\c"), "a\\b\\c");
    assert_eq!(normalize_internal_path(""), "");
    assert_eq!(normalize_internal_path("///"), "");
    // only ASCII letters change their case
    assert_eq!(normalize_internal_path("\u{c4}B"), "\u{c4}b");
}

#[test]
fn leading_separators_do_not_matter() {
    assert!(matches_exe("\\a\\b.exe", "a\\b.exe"));
    assert!(matches_exe("a\\b.exe", "\\a/b.exe"));
    assert!(matches_exe("/a\\b.exe", "B.EXE"));
}

#[test]
fn an_empty_wish_matches_an_empty_name_or_component_only() {
    assert!(matches_exe("", ""));
    assert!(matches_exe("dir\\", ""));
    assert!(!matches_exe("dir\\a.exe", ""));
}

#[test]
fn executables_are_told_by_their_suffix() {
    assert!(is_exe_name("Game.exe"));
    assert!(is_exe_name("dir\\GAME.ExE"));
    assert!(is_exe_name(".exe"));
    assert!(!is_exe_name("Game.dll"));
    assert!(!is_exe_name("exe"));
    assert!(!is_exe_name(""));
}

#[test]
fn normalizing_twice_changes_nothing() {
    for path in ["//Content/Game.EXE", "\\\\a/B\\c", "", "x"] {
        let once = normalize_internal_path(path);
        assert_eq!(normalize_internal_path(&once), once);
        assert!(matches_exe(&once, path) && matches_exe(path, &once));
    }
}

#[test]
fn matching_is_transitive() {
    assert!(matches_exe("a\\b\\c.exe", "B/c.exe"));
    assert!(matches_exe("B/c.exe", "C.EXE"));
    assert!(matches_exe("a\\b\\c.exe", "C.EXE"));
}
