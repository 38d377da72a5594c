use xodus::launch::{
    choose_entry, file_map_of, nt_path_of, plan_launch, sort_files, LaunchError, MappedFile,
};

fn files(list: &[(&str, i32)]) -> Vec<MappedFile> {
    list.iter()
        .map(|(name, fd)| MappedFile {
            name: name.to_string(),
            fd: *fd,
        })
        .collect()
}

fn names(list: &[MappedFile]) -> Vec<&str> {
    list.iter().map(|f| f.name.as_str()).collect()
}

#[test]
fn the_map_is_what_wine_expects() {
    let plan = plan_launch(
        files(&[("Content\\Tool.exe", 19), ("Content\\Game.exe", 17)]),
        "/home/user/games/Game",
        Some("game.exe"),
    )
    .ok()
    .unwrap();
    assert_eq!(
        plan.file_map,
        "17:\\??\\Z:\\home\\user\\games\\Game\\Content\\Game.exe|19:\\??\\Z:\\home\\user\\games\\Game\\Content\\Tool.exe"
    );
    assert_eq!(
        plan.entry,
        "\\??\\Z:\\home\\user\\games\\Game\\Content\\Game.exe"
    );
}

#[test]
fn nt_paths_have_one_backslash_between_directory_and_name() {
    assert_eq!(nt_path_of("/g/", "\\\\a\\b"), "\\??\\Z:\\g\\a\\b");
    assert_eq!(nt_path_of("/", "a"), "\\??\\Z:\\a");
    assert_eq!(nt_path_of("/g\\/", "a/b"), "\\??\\Z:\\g\\a/b");
}

#[test]
fn the_map_of_no_files_is_empty() {
    assert_eq!(file_map_of("/g", &files(&[])), "");
    assert_eq!(file_map_of("/g", &files(&[("a", 3)])), "3:\\??\\Z:\\g\\a");
    assert_eq!(file_map_of("/g", &files(&[("a", -1)])), "-1:\\??\\Z:\\g\\a");
}

#[test]
fn the_map_reads_back() {
    let list = files(&[("c.dll", 2147483647), ("a.exe", 0), ("b.exe", 10)]);
    let map = file_map_of("/g", &list);
    let read: Vec<(i32, &str)> = map
        .split('|')
        .map(|entry| entry.split_once(':').unwrap())
        .map(|(fd, path)| (fd.parse().unwrap(), path))
        .collect();
    assert_eq!(
        read,
        vec![
            (2147483647, "\\??\\Z:\\g\\c.dll"),
            (0, "\\??\\Z:\\g\\a.exe"),
            (10, "\\??\\Z:\\g\\b.exe"),
        ]
    );
}

#[test]
fn files_are_sorted_by_name() {
    let sorted = sort_files(files(&[("b", 1), ("a\\c", 2), ("B", 3), ("a", 4), ("\u{e9}", 5)]));
    assert_eq!(names(&sorted), vec!["B", "a", "a\\c", "b", "\u{e9}"]);
    let mut expected = vec!["b", "a\\c", "B", "a", "\u{e9}"];
    expected.sort();
    assert_eq!(names(&sorted), expected);
}

#[test]
fn the_plan_does_not_depend_on_the_order_of_the_files() {
    let one = plan_launch(files(&[("a.exe", 3), ("b.dll", 4), ("c.dll", 5)]), "/g", None)
        .ok()
        .unwrap();
    let other = plan_launch(files(&[("c.dll", 5), ("b.dll", 4), ("a.exe", 3)]), "/g", None)
        .ok()
        .unwrap();
    assert_eq!(one.file_map, other.file_map);
    assert_eq!(one.entry, other.entry);
    assert_eq!(one.entry, "\\??\\Z:\\g\\a.exe");
}

#[test]
fn the_first_match_in_the_order_of_names_is_launched() {
    let plan = plan_launch(
        files(&[("z\\Game.exe", 3), ("b\\game.exe", 4), ("b\\other.exe", 5)]),
        "/g",
        Some("GAME.exe"),
    )
    .ok()
    .unwrap();
    assert_eq!(plan.entry, "\\??\\Z:\\g\\b\\game.exe");
}

#[test]
fn a_wish_may_name_a_file_that_is_no_exe() {
    let plan = plan_launch(files(&[("a.dll", 3)]), "/g", Some("a.dll")).ok().unwrap();
    assert_eq!(plan.entry, "\\??\\Z:\\g\\a.dll");
}

#[test]
fn a_wish_that_matches_nothing_is_refused_with_the_names() {
    let err = plan_launch(files(&[("b.exe", 3), ("a.dll", 4)]), "/g", Some("x.exe"))
        .err()
        .unwrap();
    assert!(matches!(&err, LaunchError::NotInPackage { wanted, names }
        if wanted == "x.exe" && names == &["a.dll", "b.exe"]));
    assert_eq!(
        err.lines(),
        vec![
            "`x.exe` does not match any executable in this package:",
            "  a.dll",
            "  b.exe",
        ]
    );
}

#[test]
fn a_package_without_an_executable_is_refused() {
    let err = plan_launch(files(&[("a.dll", 4)]), "/g", None).err().unwrap();
    assert!(matches!(err, LaunchError::NoExecutable));
    assert_eq!(
        err.lines(),
        vec!["no .exe found among the package's encrypted files"]
    );
}

#[test]
fn a_package_with_several_executables_asks_for_one() {
    let err = plan_launch(files(&[("b.EXE", 3), ("a.dll", 4), ("a.exe", 5)]), "/g", None)
        .err()
        .unwrap();
    assert!(matches!(&err, LaunchError::SeveralExecutables { names }
        if names == &["a.exe", "b.EXE"]));
    assert_eq!(
        err.lines(),
        vec![
            "this package contains multiple executables; pick one with --exe:",
            "  --exe 'a.exe'",
            "  --exe 'b.EXE'",
        ]
    );
}

#[test]
fn the_entry_is_one_of_the_files() {
    let list = files(&[("a.dll", 3), ("b.exe", 4)]);
    assert_eq!(choose_entry(&list, None).ok(), Some(1));
    assert_eq!(choose_entry(&list, Some("A.dll")).ok(), Some(0));
}
