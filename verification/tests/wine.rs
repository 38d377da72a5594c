use xodus::wine::{
    fallback_warning, find_service_binary, has_directory, is_executable_file, resolve_wine,
    service_candidates, wine_candidates, FileStatus,
};

fn dirs() -> Vec<Vec<u8>> {
    vec![b"/usr/bin".to_vec(), b"/opt/bin/".to_vec()]
}

#[test]
fn explicit_wine_path_must_be_executable() {
    let explicit = Some("/nonexistent/xodus-wine");
    let candidates = wine_candidates(explicit, None, &dirs());
    assert_eq!(candidates, vec![b"/nonexistent/xodus-wine".to_vec()]);
    let executable: Vec<bool> = candidates.iter().map(|_| is_executable_file(None)).collect();
    let err = resolve_wine(explicit, None, &dirs(), &executable).err().unwrap();
    assert!(err.contains("/nonexistent/xodus-wine"), "{err}");
    assert_eq!(
        err,
        "wine argument `/nonexistent/xodus-wine` is not an executable file"
    );
}

#[test]
fn executable_files_are_regular_and_have_a_mode_bit() {
    let file = |is_file: bool, mode: u32| is_executable_file(Some(FileStatus { is_file, mode }));
    assert!(file(true, 0o755));
    assert!(file(true, 0o100));
    assert!(file(true, 0o010));
    assert!(file(true, 0o001));
    assert!(!file(true, 0o644));
    assert!(!file(true, 0));
    assert!(!file(false, 0o755));
    assert!(!is_executable_file(None));
}

#[test]
fn names_and_paths_are_told_apart_by_their_components() {
    for value in ["wine", "", ".", "..", "wine/", "wine//", "wine/.", "/"] {
        assert!(!has_directory(value), "{value}");
    }
    for value in ["./wine", "a/b", "/wine", "../wine", "//wine", "a/..", "a/./b"] {
        assert!(has_directory(value), "{value}");
    }
}

#[test]
fn the_argument_comes_first() {
    let r = resolve_wine(Some("./w"), Some("x"), &dirs(), &vec![true]).ok().unwrap();
    assert_eq!(r.path, b"./w");
    assert!(!r.fallback);
}

#[test]
fn a_given_name_is_looked_up_in_the_search_path() {
    assert_eq!(
        wine_candidates(Some("w"), None, &dirs()),
        vec![b"/usr/bin/w".to_vec(), b"/opt/bin/w".to_vec()]
    );
    let r = resolve_wine(Some("w"), None, &dirs(), &vec![false, true]).ok().unwrap();
    assert_eq!(r.path, b"/opt/bin/w");
    assert!(!r.fallback);
    assert_eq!(
        resolve_wine(Some("w"), Some("x"), &dirs(), &vec![false, false]).err().unwrap(),
        "wine argument `w` was not found in PATH"
    );
}

#[test]
fn the_environment_variable_comes_second() {
    assert_eq!(
        resolve_wine(None, Some("/x/y"), &dirs(), &vec![true]).ok().unwrap().path,
        b"/x/y"
    );
    assert_eq!(
        resolve_wine(None, Some("/x/y"), &dirs(), &vec![false]).err().unwrap(),
        "XODUS_WINE `/x/y` is not an executable file"
    );
    assert_eq!(
        resolve_wine(None, Some("y"), &vec![], &vec![]).err().unwrap(),
        "XODUS_WINE `y` was not found in PATH"
    );
}

#[test]
fn plain_wine_is_the_last_resort() {
    assert_eq!(
        wine_candidates(None, None, &dirs()),
        vec![
            b"/usr/bin/xodus-wine".to_vec(),
            b"/opt/bin/xodus-wine".to_vec(),
            b"/usr/bin/wine".to_vec(),
            b"/opt/bin/wine".to_vec(),
        ]
    );
    let own = resolve_wine(None, None, &dirs(), &vec![false, true, true, true]).ok().unwrap();
    assert_eq!(own.path, b"/opt/bin/xodus-wine");
    assert!(!own.fallback);
    let plain = resolve_wine(None, None, &dirs(), &vec![false, false, true, true]).ok().unwrap();
    assert_eq!(plain.path, b"/usr/bin/wine");
    assert!(plain.fallback);
    assert_eq!(
        resolve_wine(None, None, &dirs(), &vec![false; 4]).err().unwrap(),
        "no wine found: pass a path as the second argument, set XODUS_WINE, or put \
         `xodus-wine` (or `wine`) in PATH; see docs/xodus/wine.md for the required build"
    );
}

#[test]
fn the_fallback_is_warned_about() {
    assert_eq!(
        fallback_warning("/usr/bin/wine"),
        "warning: falling back to `/usr/bin/wine` from PATH; running games requires a wine build \
         with WINE_DLL_FILE_MAP support (see docs/xodus/wine.md) - stock wine will fail \
         to load the encrypted executables"
    );
}

#[test]
fn the_service_next_to_the_program_is_preferred() {
    let exe_dir = b"/app".to_vec();
    assert_eq!(
        service_candidates(Some(&exe_dir), &dirs()),
        vec![
            b"/app/xodus-service".to_vec(),
            b"/usr/bin/xodus-service".to_vec(),
            b"/opt/bin/xodus-service".to_vec(),
        ]
    );
    assert_eq!(
        find_service_binary(Some(&exe_dir), &dirs(), &vec![true, true, true]),
        Some(b"/app/xodus-service".to_vec())
    );
    assert_eq!(
        find_service_binary(Some(&exe_dir), &dirs(), &vec![false, false, true]),
        Some(b"/opt/bin/xodus-service".to_vec())
    );
    assert_eq!(
        find_service_binary(None, &dirs(), &vec![true, false]),
        Some(b"/usr/bin/xodus-service".to_vec())
    );
    assert_eq!(find_service_binary(None, &dirs(), &vec![false, false]), None);
}

#[test]
fn a_candidate_of_which_nothing_is_known_is_not_taken() {
    assert_eq!(
        resolve_wine(Some("w"), None, &dirs(), &vec![false]).err().unwrap(),
        "wine argument `w` was not found in PATH"
    );
    assert_eq!(
        resolve_wine(Some("./w"), None, &dirs(), &vec![false, true]).err().unwrap(),
        "wine argument `./w` is not an executable file"
    );
    assert_eq!(find_service_binary(None, &dirs(), &vec![]), None);
}
