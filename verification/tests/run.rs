use xodus::package::{count_units, hash_notes, metadata_index, names_to_mount, PackageFile};
use xodus::ramdisk::{
    attach, detach, device, make_filesystem, mount, prepare, sectors, unmount, Command, Ramdisk,
    RamdiskEvent,
};
use xodus::run::{
    environment, exit_of, interrupt_target, run, GameEnd, Launch, LaunchEvent, LaunchOptions,
};
use xodus::wine::Wine;

fn file(name: &str, length: u64, data_hashes: usize, keep_encrypted: bool) -> PackageFile {
    PackageFile {
        name: name.to_string(),
        offset: 7,
        length,
        data_hashes,
        keep_encrypted,
    }
}

fn files() -> Vec<PackageFile> {
    vec![
        file("Content\\b.exe", 1, 1, true),
        file("Content\\data.bin", 1, 1, false),
        file("Content\\a.dll", 1, 1, true),
    ]
}

fn options(exe: Option<&str>, market: Option<&str>) -> LaunchOptions {
    LaunchOptions {
        source: "games/Game".to_string(),
        exe: exe.map(str::to_string),
        market: market.map(str::to_string),
    }
}

fn at_package(exe: Option<&str>, market: Option<&str>) -> Launch {
    run(options(exe, market))
        .advance(LaunchEvent::Wine(Ok(Wine {
            path: b"/usr/bin/xodus-wine".to_vec(),
            fallback: false,
        })))
        .advance(LaunchEvent::Directory(Ok("/home/u/games/Game".to_string())))
}

fn at_index() -> Launch {
    at_package(None, None).advance(LaunchEvent::Opened(Ok(())))
}

fn names(list: &[&str]) -> Vec<String> {
    list.iter().map(|s| s.to_string()).collect()
}

fn at_license(list: Vec<PackageFile>, exe: Option<&str>) -> Launch {
    at_package(exe, None)
        .advance(LaunchEvent::Opened(Ok(())))
        .advance(LaunchEvent::Index(names(&["SegmentMetadata.bin"])))
        .advance(LaunchEvent::Segments(list))
}

fn listing(files: Vec<PackageFile>) -> LaunchEvent {
    LaunchEvent::Listing {
        files,
        page_size: 4096,
    }
}

fn at_mount() -> Launch {
    at_license(files(), None)
        .advance(LaunchEvent::License(Ok(1)))
        .advance(LaunchEvent::Prepared)
}

fn at_service() -> Launch {
    at_mount()
        .advance(LaunchEvent::Mounted(Ok(17)))
        .advance(LaunchEvent::Mounted(Ok(19)))
}

fn end(launch: Launch) -> (Vec<String>, u8) {
    match launch {
        Launch::Finished { lines, exit } => (lines, exit),
        _ => panic!("the launch is not over"),
    }
}

#[test]
fn without_wine_there_is_no_launch() {
    let launch = run(options(None, None)).advance(LaunchEvent::Wine(Err("no wine".to_string())));
    assert_eq!(end(launch), (names(&["no wine"]), 1));
}

#[test]
fn without_the_directory_there_is_no_launch() {
    let launch = run(options(None, None))
        .advance(LaunchEvent::Wine(Ok(Wine { path: vec![], fallback: true })))
        .advance(LaunchEvent::Directory(Err("gone".to_string())));
    assert_eq!(
        end(launch),
        (names(&["cannot open game directory `games/Game`: gone"]), 1)
    );
}

#[test]
fn the_package_lies_in_the_directory() {
    match at_package(Some("x.exe"), Some("DE")) {
        Launch::OpenPackage { game, package } => {
            assert_eq!(package, "games/Game/.xodus-streaming.msixvc");
            assert_eq!(game.wine, b"/usr/bin/xodus-wine");
            assert_eq!(game.source, "games/Game");
            assert_eq!(game.directory, "/home/u/games/Game");
            assert_eq!(game.exe.as_deref(), Some("x.exe"));
            assert_eq!(game.market, "DE");
        }
        _ => panic!("the package is not opened"),
    }
    match at_package(None, None) {
        Launch::OpenPackage { game, .. } => assert_eq!(game.market, "neutral"),
        _ => panic!("the package is not opened"),
    }
}

#[test]
fn a_package_that_cannot_be_opened_is_no_install() {
    let launch = at_package(None, None).advance(LaunchEvent::Opened(Err("missing".to_string())));
    let (lines, exit) = end(launch);
    assert_eq!(exit, 1);
    assert_eq!(
        lines.join("\n"),
        "cannot open `games/Game/.xodus-streaming.msixvc`: missing\nthe game directory must be \
         an install produced by `xodus-cli streaming` (only streaming installs are runnable today)"
    );
}

#[test]
fn the_last_segment_metadata_is_read() {
    let launch = at_index().advance(LaunchEvent::Index(names(&[
        "SegmentMetadata.bin",
        "x",
        "SegmentMetadata.bin",
        "segmentmetadata.bin",
    ])));
    assert!(matches!(launch, Launch::ReadSegments { index: 2, .. }));
    assert_eq!(metadata_index(&names(&["x"])), None);
}

#[test]
fn the_file_system_is_read_where_there_is_no_segment_metadata() {
    let launch = at_index().advance(LaunchEvent::Index(names(&["x"])));
    assert!(matches!(launch, Launch::ReadNtfs { .. }));
    let launch = at_index()
        .advance(LaunchEvent::Index(names(&["SegmentMetadata.bin"])))
        .advance(LaunchEvent::Segments(vec![]));
    assert!(matches!(launch, Launch::ReadNtfs { .. }));
    let launch = launch.advance(listing(vec![]));
    assert!(matches!(&launch, Launch::Note { lines, .. } if lines.is_empty()));
    let launch = launch.advance(LaunchEvent::Done);
    assert!(matches!(launch, Launch::RequestLicense { .. }));
}

#[test]
fn exactly_one_content_key_is_needed() {
    let fail = |license: Result<usize, String>| {
        end(at_license(files(), None).advance(LaunchEvent::License(license)))
    };
    assert_eq!(fail(Err("refused".to_string())), (names(&["refused"]), 1));
    assert_eq!(fail(Ok(0)), (names(&["unexpected number of content keys 0"]), 1));
    assert_eq!(fail(Ok(12)), (names(&["unexpected number of content keys 12"]), 1));
    assert!(matches!(
        at_license(files(), None).advance(LaunchEvent::License(Ok(1))),
        Launch::Prepare { .. }
    ));
}

#[test]
fn every_encrypted_file_is_mapped() {
    let launch = at_mount();
    match &launch {
        Launch::Mount { name, encrypted, pending, mapped, .. } => {
            assert_eq!(name, "Content\\b.exe");
            assert_eq!(encrypted, "games/Game/Content/b.exe");
            assert_eq!(pending, &["Content\\a.dll"]);
            assert!(mapped.is_empty());
        }
        _ => panic!("no file is decrypted"),
    }
    match at_service() {
        Launch::EnsureService { wine, plan } => {
            assert_eq!(wine, b"/usr/bin/xodus-wine");
            assert_eq!(plan.entry, "\\??\\Z:\\home\\u\\games\\Game\\Content\\b.exe");
            assert_eq!(
                plan.file_map,
                "19:\\??\\Z:\\home\\u\\games\\Game\\Content\\a.dll|17:\\??\\Z:\\home\\u\\games\\Game\\Content\\b.exe"
            );
        }
        _ => panic!("the service is not looked for"),
    }
    assert_eq!(names_to_mount(&files()), vec!["Content\\b.exe", "Content\\a.dll"]);
}

#[test]
fn a_file_that_cannot_be_opened_ends_the_launch() {
    let (lines, exit) = end(at_mount().advance(LaunchEvent::Mounted(Err("missing".to_string()))));
    assert_eq!(exit, 1);
    assert_eq!(
        lines.join("\n"),
        "cannot open `games/Game/Content/b.exe` (listed in the package metadata): missing\nthe \
         install appears incomplete - re-run `xodus-cli streaming` for this game"
    );
}

#[test]
fn a_package_without_encrypted_files_has_no_executable() {
    let launch = at_license(vec![file("a.exe", 1, 1, false)], None)
        .advance(LaunchEvent::License(Ok(1)))
        .advance(LaunchEvent::Prepared);
    assert_eq!(
        end(launch),
        (names(&["no .exe found among the package's encrypted files"]), 1)
    );
    let launch = at_license(vec![], Some("a.exe"))
        .advance(listing(vec![]))
        .advance(LaunchEvent::Done)
        .advance(LaunchEvent::License(Ok(1)))
        .advance(LaunchEvent::Prepared);
    assert_eq!(
        end(launch),
        (names(&["`a.exe` does not match any executable in this package:"]), 1)
    );
}

#[test]
fn wine_is_started_with_or_without_a_service() {
    match at_service().advance(LaunchEvent::Service(Some(b"/run/xodus.sock".to_vec()))) {
        Launch::Start { plan, socket, .. } => {
            let variables = environment(&plan.file_map, socket.as_ref());
            assert_eq!(variables.len(), 2);
            assert_eq!(variables[0].0, "WINE_DLL_FILE_MAP");
            assert_eq!(variables[0].1, plan.file_map.as_bytes());
            assert_eq!(variables[1].0, "XODUS_SOCKET");
            assert_eq!(variables[1].1, b"/run/xodus.sock");
        }
        _ => panic!("wine is not started"),
    }
    match at_service().advance(LaunchEvent::Service(None)) {
        Launch::Start { plan, socket, .. } => {
            assert_eq!(socket, None);
            assert_eq!(environment(&plan.file_map, None).len(), 1);
        }
        _ => panic!("wine is not started"),
    }
}

#[test]
fn a_wine_that_does_not_start_is_told_before_the_service_is_stopped() {
    let launch = at_service()
        .advance(LaunchEvent::Service(None))
        .advance(LaunchEvent::NotStarted {
            wine: "/usr/bin/xodus-wine".to_string(),
            error: "denied".to_string(),
        });
    assert!(matches!(&launch, Launch::Tell { line, exit: 1 }
        if line == "failed to start `/usr/bin/xodus-wine`: denied"));
    let stopping = launch.advance(LaunchEvent::Done);
    assert!(matches!(stopping, Launch::StopService { .. }));
    assert_eq!(end(stopping.advance(LaunchEvent::Done)), (vec![], 1));
}

#[test]
fn a_launch_exits_as_wine_does() {
    let fate = |result: Result<GameEnd, String>| {
        let cleaning = at_service()
            .advance(LaunchEvent::Service(None))
            .advance(LaunchEvent::Started)
            .advance(LaunchEvent::Ended(result));
        assert!(matches!(cleaning, Launch::Cleanup { .. }));
        let stopping = cleaning.advance(LaunchEvent::Done);
        assert!(matches!(stopping, Launch::StopService { .. }));
        end(stopping.advance(LaunchEvent::Done))
    };
    assert_eq!(fate(Ok(GameEnd::Code(0))), (vec![], 0));
    assert_eq!(fate(Ok(GameEnd::Code(3))), (vec![], 3));
    assert_eq!(
        fate(Ok(GameEnd::Signal(Some(11)))),
        (names(&["wine terminated by signal 11"]), 139)
    );
    assert_eq!(
        fate(Ok(GameEnd::Signal(None))),
        (names(&["wine terminated by signal 0"]), 128)
    );
    assert_eq!(
        fate(Err("lost".to_string())),
        (names(&["failed to wait for wine: lost"]), 1)
    );
}

#[test]
fn exit_codes_have_eight_bits() {
    assert_eq!(exit_of(GameEnd::Code(255)), 255);
    assert_eq!(exit_of(GameEnd::Code(256)), 0);
    assert_eq!(exit_of(GameEnd::Code(-1)), 255);
    assert_eq!(exit_of(GameEnd::Code(i32::MIN)), 0);
    assert_eq!(exit_of(GameEnd::Signal(Some(127))), 255);
    assert_eq!(exit_of(GameEnd::Signal(Some(128))), 0);
    assert_eq!(exit_of(GameEnd::Signal(Some(-1))), 127);
}

#[test]
fn an_interrupt_goes_to_the_process_of_wine() {
    assert_eq!(interrupt_target(4711), Some(4711));
    assert_eq!(interrupt_target(0), None);
}

#[test]
fn an_event_out_of_turn_is_ignored() {
    assert!(matches!(
        run(options(None, None)).advance(LaunchEvent::Started),
        Launch::ResolveWine { .. }
    ));
    assert!(matches!(at_service().advance(LaunchEvent::Done), Launch::EnsureService { .. }));
}

#[test]
fn units_are_just_enough() {
    assert_eq!(count_units(0, 4096), 0);
    assert_eq!(count_units(1, 4096), 1);
    assert_eq!(count_units(4096, 4096), 1);
    assert_eq!(count_units(4097, 4096), 2);
    assert_eq!(count_units(u64::MAX, 1), u64::MAX);
    assert_eq!(count_units(u64::MAX, 2), 1 << 63);
}

#[test]
fn files_with_another_number_of_hashes_than_pages_are_noted() {
    let list = vec![
        file("ok", 8192, 2, true),
        file("short", 8193, 2, true),
        file("empty", 0, 0, false),
        file("long", 1, 2, false),
    ];
    assert_eq!(hash_notes(&list, 4096), vec!["short: 7 8193", "long: 7 1"]);
}

#[test]
fn the_ramdisk_holds_the_images_and_spare_pages() {
    // 1000 + 4 * 4096 and 24 + 4 * 4096 bytes, in units of 256
    let list = vec![
        file("a", 1000, 0, true),
        file("b", 1 << 40, 0, false),
        file("c", 24, 0, true),
    ];
    assert_eq!(sectors(&list, 4096), Some(132));
    assert_eq!(sectors(&vec![file("b", 5, 0, false)], 4096), None);
    assert_eq!(sectors(&vec![], 4096), None);
    assert_eq!(sectors(&vec![file("a", u64::MAX, 0, true)], 0), Some(1 << 56));
    assert_eq!(sectors(&vec![file("a", u64::MAX, 0, true)], 1), None);
}

fn line(command: Command) -> String {
    let mut all = vec![command.program];
    all.extend(command.arguments);
    all.join(" ")
}

#[test]
fn the_ramdisk_is_made_and_taken_away_by_these_commands() {
    assert_eq!(line(attach(132)), "/usr/bin/hdiutil attach -nomount ram://132");
    assert_eq!(line(make_filesystem("/dev/disk4", "vol")), "/sbin/newfs_hfs -v vol /dev/disk4");
    assert_eq!(
        line(mount("/dev/disk4", "/tmp/m")),
        "/sbin/mount -t hfs -o nobrowse -v /dev/disk4 /tmp/m"
    );
    assert_eq!(line(unmount("/tmp/m")), "/sbin/umount -f /tmp/m");
    assert_eq!(line(detach("/dev/disk4")), "/usr/bin/hdiutil detach -force /dev/disk4");
}

#[test]
fn the_device_is_the_trimmed_output() {
    assert_eq!(device(b" \t/dev/disk4  \r\n"), Some("/dev/disk4".to_string()));
    assert_eq!(device("\u{a0}d k\u{3000}\u{2028}".as_bytes()), Some("d k".to_string()));
    assert_eq!(device(b" \n"), Some(String::new()));
    assert_eq!(device(b"\xff"), None);
}

fn images() -> Vec<PackageFile> {
    vec![file("a", 1000, 0, true)]
}

fn formatting() -> Ramdisk {
    prepare(true, &images(), 4096).advance(RamdiskEvent::Attached {
        output: b"/dev/disk4\n".to_vec(),
        volume: "vol".to_string(),
    })
}

fn command_of(ramdisk: &Ramdisk) -> String {
    match ramdisk {
        Ramdisk::Attach { command }
        | Ramdisk::Format { command, .. }
        | Ramdisk::Mount { command, .. }
        | Ramdisk::Unmount { command, .. }
        | Ramdisk::Detach { command } => {
            format!("{} {}", command.program, command.arguments.join(" "))
        }
        _ => panic!("no command is to be run"),
    }
}

#[test]
fn the_ramdisk_is_taken_away_as_it_was_made() {
    let ramdisk = prepare(true, &images(), 4096);
    // 1000 + 4 * 4096 bytes, in units of 256
    assert_eq!(command_of(&ramdisk), "/usr/bin/hdiutil attach -nomount ram://68");
    let ramdisk = formatting();
    assert_eq!(command_of(&ramdisk), "/sbin/newfs_hfs -v vol /dev/disk4");
    let ramdisk = ramdisk.advance(RamdiskEvent::Exited(true));
    assert!(matches!(ramdisk, Ramdisk::MakeDirectory { .. }));
    let ramdisk = ramdisk.advance(RamdiskEvent::Directory("/tmp/m".to_string()));
    assert_eq!(
        command_of(&ramdisk),
        "/sbin/mount -t hfs -o nobrowse -v /dev/disk4 /tmp/m"
    );
    let ramdisk = ramdisk.advance(RamdiskEvent::Exited(true));
    assert!(matches!(&ramdisk, Ramdisk::Ready { .. }));
    assert_eq!(ramdisk.directory(), "/tmp/m");
    let ramdisk = ramdisk.advance(RamdiskEvent::LaunchOver);
    assert_eq!(command_of(&ramdisk), "/sbin/umount -f /tmp/m");
    let ramdisk = ramdisk.advance(RamdiskEvent::Exited(true));
    assert_eq!(command_of(&ramdisk), "/usr/bin/hdiutil detach -force /dev/disk4");
    assert!(matches!(ramdisk.advance(RamdiskEvent::Exited(true)), Ramdisk::Gone));
}

#[test]
fn a_ramdisk_that_cannot_be_made_has_failed() {
    assert!(matches!(prepare(true, &vec![], 4096), Ramdisk::Failed));
    assert!(matches!(
        prepare(true, &images(), 4096).advance(RamdiskEvent::Attached {
            output: vec![0xff],
            volume: "vol".to_string(),
        }),
        Ramdisk::Failed
    ));
    let failed = formatting().advance(RamdiskEvent::Exited(false));
    assert!(matches!(failed, Ramdisk::Failed));
    assert!(matches!(failed.advance(RamdiskEvent::Exited(true)), Ramdisk::Failed));
    assert!(matches!(formatting().advance(RamdiskEvent::LaunchOver), Ramdisk::Format { .. }));
}

#[test]
fn no_ramdisk_is_made_where_none_is_needed() {
    for files in [images(), vec![]] {
        let ramdisk = prepare(false, &files, 4096);
        assert!(matches!(ramdisk, Ramdisk::Unneeded));
        assert_eq!(ramdisk.directory(), "");
        let ramdisk = ramdisk.advance(RamdiskEvent::Exited(false));
        assert!(matches!(ramdisk, Ramdisk::Unneeded));
        assert!(matches!(ramdisk.advance(RamdiskEvent::LaunchOver), Ramdisk::Gone));
    }
}

#[test]
fn hashes_are_noted_for_the_file_system_only() {
    let odd = || vec![file("short", 8193, 2, true)];
    let launch = at_index()
        .advance(LaunchEvent::Index(names(&["x"])))
        .advance(listing(odd()));
    match &launch {
        Launch::Note { lines, files, .. } => {
            assert_eq!(lines, &["short: 7 8193"]);
            assert_eq!(files.len(), 1);
        }
        _ => panic!("nothing is noted"),
    }
    assert!(matches!(
        launch.advance(LaunchEvent::Done),
        Launch::RequestLicense { files, .. } if files.len() == 1
    ));
    assert!(matches!(at_license(odd(), None), Launch::RequestLicense { .. }));
}
