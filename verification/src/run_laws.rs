//! What holds of every launch.

use vstd::prelude::*;
use vstd::string::*;

use crate::launch;
use crate::launch::MappedFileView;
use crate::launch_laws;
use crate::package;
use crate::package::PackageFileView;
use crate::run;
use crate::run::{GameEnd, GameView, LaunchEventView, LaunchOptionsView, LaunchView};
use crate::text;
use crate::wine::WineView;

verus! {

broadcast use vstd::string::group_string_axioms;

/// How many phases a launch still has before it.
pub open spec fn phase(state: LaunchView) -> nat {
    match state {
        LaunchView::ResolveWine { .. } => 16,
        LaunchView::OpenDirectory { .. } => 15,
        LaunchView::OpenPackage { .. } => 14,
        LaunchView::ReadIndex { .. } => 13,
        LaunchView::ReadSegments { .. } => 12,
        LaunchView::ReadNtfs { .. } => 11,
        LaunchView::Note { .. } => 10,
        LaunchView::RequestLicense { .. } => 9,
        LaunchView::Prepare { .. } => 8,
        LaunchView::Mount { .. } => 7,
        LaunchView::EnsureService { .. } => 6,
        LaunchView::Start { .. } => 5,
        LaunchView::Tell { .. } => 4,
        LaunchView::Wait => 3,
        LaunchView::Cleanup { .. } => 2,
        LaunchView::StopService { .. } => 1,
        LaunchView::Finished { .. } => 0,
    }
}

/// Whether a launch waits for an event.
pub open spec fn awaits(state: LaunchView, event: LaunchEventView) -> bool {
    match state {
        LaunchView::ResolveWine { .. } => event is Wine,
        LaunchView::OpenDirectory { .. } => event is Directory,
        LaunchView::OpenPackage { .. } => event is Opened,
        LaunchView::ReadIndex { .. } => event is Index,
        LaunchView::ReadSegments { .. } => event is Segments,
        LaunchView::ReadNtfs { .. } => event is Listing,
        LaunchView::Note { .. } => event is Done,
        LaunchView::RequestLicense { .. } => event is License,
        LaunchView::Prepare { .. } => event is Prepared,
        LaunchView::Mount { .. } => event is Mounted,
        LaunchView::EnsureService { .. } => event is Service,
        LaunchView::Start { .. } => event is Started || event is NotStarted,
        LaunchView::Tell { .. } => event is Done,
        LaunchView::Wait => event is Ended,
        LaunchView::Cleanup { .. } => event is Done,
        LaunchView::StopService { .. } => event is Done,
        LaunchView::Finished { .. } => false,
    }
}

/// Every event that a launch waits for brings it closer to its end: into a later
/// phase, or one file further while files are decrypted. Any other event changes
/// nothing, and only a finished launch waits for nothing.
pub proof fn law_every_launch_ends(state: LaunchView, event: LaunchEventView)
    ensures
        awaits(state, event) ==> phase(run::next(state, event)) < phase(state) || (
        run::next(state, event) is Mount && state is Mount && run::next(state, event)->pending.len()
            < state->pending.len()),
        !awaits(state, event) ==> run::next(state, event) == state,
        phase(state) == 0 <==> state is Finished,
{
}

/// A launch that ends before the service is looked for has failed, and says why.
pub proof fn law_early_end_is_a_failure(state: LaunchView, event: LaunchEventView)
    requires
        phase(state) > 6,
        run::next(state, event) is Finished,
    ensures
        run::next(state, event)->Finished_exit == run::FAILURE,
        run::next(state, event)->Finished_lines.len() > 0,
{
}

/// The user is told of files whose hashes and pages differ in number exactly where
/// the files come from the file system inside of the package: about segment
/// metadata there are no such lines, and the files are the same ones afterwards.
pub proof fn law_hashes_are_noted_for_the_file_system(
    game: GameView,
    index: usize,
    files: Seq<PackageFileView>,
    page_size: u64,
)
    ensures
        ({
            let noting = run::next(
                LaunchView::ReadNtfs { game },
                LaunchEventView::Listing { files, page_size },
            );
            &&& noting == (LaunchView::Note {
                game,
                files,
                lines: package::notes_of(files, page_size),
            })
            &&& run::next(noting, LaunchEventView::Done) == (LaunchView::RequestLicense {
                game,
                files,
            })
        }),
        files.len() > 0 ==> run::next(
            LaunchView::ReadSegments { game, index },
            LaunchEventView::Segments(files),
        ) == (LaunchView::RequestLicense { game, files }),
        forall|state: LaunchView, event: LaunchEventView|
            (#[trigger] run::next(state, event)) is Note && !(state is Note)
                ==> state is ReadNtfs,
{
}

/// The images are made only with a licence that holds exactly one content key.
pub proof fn law_one_content_key(state: LaunchView, event: LaunchEventView)
    requires
        !(state is Prepare),
        run::next(state, event) is Prepare,
    ensures
        state is RequestLicense,
        event == LaunchEventView::License(Ok(1)),
{
}

/// From the moment that the service is looked for, a launch ends only after the
/// service was stopped, however wine fares.
pub proof fn law_service_is_stopped_in_the_end(state: LaunchView, event: LaunchEventView)
    requires
        0 < phase(state) <= 6,
    ensures
        run::next(state, event) is Finished ==> state is StopService,
        phase(run::next(state, event)) <= 6,
{
}

/// A wine that cannot be started fails the launch: the user is told at once, and
/// the service is stopped after that.
pub proof fn law_wine_that_does_not_start_is_told(
    state: LaunchView,
    wine: Seq<char>,
    error: Seq<char>,
)
    requires
        state is Start,
    ensures
        ({
            let telling = run::next(state, LaunchEventView::NotStarted { wine, error });
            let stopping = run::next(telling, LaunchEventView::Done);
            &&& telling == (LaunchView::Tell {
                line: "failed to start `"@ + wine + "`: "@ + error,
                exit: run::FAILURE,
            })
            &&& stopping == (LaunchView::StopService { lines: Seq::empty(), exit: run::FAILURE })
            &&& run::next(stopping, LaunchEventView::Done) == (LaunchView::Finished {
                lines: Seq::empty(),
                exit: run::FAILURE,
            })
        }),
{
}

/// Wine is started whether or not there is a service; the service's socket is
/// passed on where there is one.
pub proof fn law_service_is_optional(state: LaunchView, socket: Option<Seq<u8>>)
    requires
        state is EnsureService,
    ensures
        run::next(state, LaunchEventView::Service(socket)) == (LaunchView::Start {
            wine: state->EnsureService_wine,
            plan: state->EnsureService_plan,
            socket,
        }),
{
}

/// The launch after these descriptors, one after the other, were handed back for
/// the files to decrypt.
pub open spec fn after_mounts(state: LaunchView, fds: Seq<i32>) -> LaunchView
    decreases fds.len(),
{
    if fds.len() == 0 {
        state
    } else {
        after_mounts(
            run::next(state, LaunchEventView::Mounted(Ok(fds[0]))),
            fds.drop_first(),
        )
    }
}

/// Each name with the descriptor at the same place.
pub open spec fn with_fds(names: Seq<Seq<char>>, fds: Seq<i32>) -> Seq<MappedFileView> {
    Seq::new(names.len(), |i: int| MappedFileView { name: names[i], fd: fds[i] as int })
}

proof fn lemma_mounts(
    game: GameView,
    pending: Seq<Seq<char>>,
    mapped: Seq<MappedFileView>,
    fds: Seq<i32>,
)
    requires
        fds.len() == pending.len(),
    ensures
        after_mounts(run::mounting(game, pending, mapped), fds) == run::planned(
            game,
            mapped + with_fds(pending, fds),
        ),
    decreases fds.len(),
{
    if fds.len() == 0 {
        assert(mapped + with_fds(pending, fds) =~= mapped);
    } else {
        let file = MappedFileView { name: pending[0], fd: fds[0] as int };
        lemma_mounts(game, pending.drop_first(), mapped.push(file), fds.drop_first());
        assert(mapped.push(file) + with_fds(pending.drop_first(), fds.drop_first()) =~= mapped
            + with_fds(pending, fds));
    }
}

/// Wine gets an image of every file that is kept encrypted, each under the
/// descriptor of its own image, and of no other file: the plan is made from
/// exactly these.
pub proof fn law_every_encrypted_file_is_mapped(
    game: GameView,
    files: Seq<PackageFileView>,
    fds: Seq<i32>,
)
    requires
        fds.len() == package::encrypted_names(files).len(),
    ensures
        after_mounts(
            run::next(LaunchView::Prepare { game, files }, LaunchEventView::Prepared),
            fds,
        ) == run::planned(game, with_fds(package::encrypted_names(files), fds)),
{
    let names = package::encrypted_names(files);
    lemma_mounts(game, names, Seq::empty(), fds);
    assert(Seq::<MappedFileView>::empty() + with_fds(names, fds) =~= with_fds(names, fds));
}

/// A launch exits as wine did: with its exit code, where that fits into eight
/// bits, and after a signal with 128 and the signal, so that a crash is never
/// taken for success.
pub proof fn law_launch_exits_as_wine_does(end: GameEnd)
    ensures
        ({
            let cleaning = run::next(LaunchView::Wait, LaunchEventView::Ended(Ok(end)));
            let stopping = run::next(cleaning, LaunchEventView::Done);
            let finished = run::next(stopping, LaunchEventView::Done);
            &&& cleaning is Cleanup
            &&& stopping is StopService
            &&& finished is Finished
            &&& finished->Finished_exit == run::exit_code(end)
            &&& end matches GameEnd::Code(code) ==> 0 <= code <= 255 ==> finished->Finished_exit
                == code
            &&& end matches GameEnd::Signal(Some(signal)) ==> 0 <= signal <= 127
                ==> finished->Finished_exit == 128 + signal
        }),
{
}

/// A path is the place of a package file under a directory, character by
/// character: the directory, one slash unless the directory is empty or ends with
/// one, and the name with a slash for every backslash and all other characters as
/// they are. A name that begins with a separator is a place of its own.
pub open spec fn is_place_of(p: Seq<char>, directory: Seq<char>, name: Seq<char>) -> bool {
    let rooted = name.len() > 0 && (name[0] == '/' || name[0] == '\\');
    let start = if rooted {
        0
    } else if directory.len() == 0 || directory.last() == '/' {
        directory.len() as int
    } else {
        directory.len() as int + 1
    };
    &&& p.len() == start + name.len()
    &&& !rooted ==> forall|i: int| 0 <= i < directory.len() ==> p[i] == #[trigger] directory[i]
    &&& !rooted && start == directory.len() + 1 ==> p[directory.len() as int] == '/'
    &&& forall|i: int|
        0 <= i < name.len() ==> p[start + i] == (if #[trigger] name[i] == '\\' {
            '/'
        } else {
            name[i]
        })
}

/// Each file is opened at its own place in the game's directory, whichever step
/// the launch comes from: no backslash of its name is left in the path.
pub proof fn law_files_are_opened_in_their_place(state: LaunchView, event: LaunchEventView)
    requires
        awaits(state, event),
        run::next(state, event) is Mount,
    ensures
        is_place_of(
            run::next(state, event)->Mount_encrypted,
            run::next(state, event)->Mount_game.source,
            run::next(state, event)->Mount_name,
        ),
{
    let mount = run::next(state, event);
    let name = mount->Mount_name;
    let source = mount->Mount_game.source;
    let p = mount->Mount_encrypted;
    let file = text::replace_all(name, '\\', '/');
    text::law_replacing_is_place_by_place(name, '\\', '/');
    assert(p == run::encrypted_path(source, name));
    let rooted = name.len() > 0 && (name[0] == '/' || name[0] == '\\');
    if rooted {
        assert(p == file);
    } else {
        let start = if source.len() == 0 || source.last() == '/' {
            source.len() as int
        } else {
            source.len() as int + 1
        };
        assert forall|i: int| 0 <= i < name.len() implies p[start + i] == (if #[trigger] name[i]
            == '\\' {
            '/'
        } else {
            name[i]
        }) by {
            assert(p[start + i] == file[i]);
        }
    }
}

/// The components of the path behind the game's directory are the components of
/// the file's name.
pub proof fn law_opened_path_has_the_components_of_the_name(
    state: LaunchView,
    event: LaunchEventView,
)
    requires
        awaits(state, event),
        run::next(state, event) is Mount,
        !run::next(state, event)->Mount_name.contains('/'),
    ensures
        ({
            let p = run::next(state, event)->Mount_encrypted;
            let name = run::next(state, event)->Mount_name;
            text::split(p.skip(p.len() - name.len()), '/') == text::split(name, '\\')
        }),
{
    let p = run::next(state, event)->Mount_encrypted;
    let name = run::next(state, event)->Mount_name;
    law_files_are_opened_in_their_place(state, event);
    text::law_replacing_is_place_by_place(name, '\\', '/');
    let tail = p.skip(p.len() - name.len());
    assert(tail =~= text::replace_all(name, '\\', '/')) by {
        assert forall|i: int| 0 <= i < name.len() implies tail[i] == text::replace_all(
            name,
            '\\',
            '/',
        )[i] by {
            assert(tail[i] == p[p.len() - name.len() + i]);
            assert(name[i] == name[i]);
        }
    }
    text::lemma_split_replaced(name, '\\', '/');
}

/// The files are opened one after the other, in the order in which they are
/// listed: the next one is the first that is pending.
pub proof fn law_files_are_opened_one_by_one(
    game: GameView,
    name: Seq<char>,
    encrypted: Seq<char>,
    pending: Seq<Seq<char>>,
    mapped: Seq<MappedFileView>,
    fd: i32,
)
    requires
        pending.len() > 0,
    ensures
        ({
            let mount = LaunchView::Mount { game, name, encrypted, pending, mapped };
            let following = run::next(mount, LaunchEventView::Mounted(Ok(fd)));
            &&& following is Mount
            &&& following->Mount_name == pending[0]
            &&& following->Mount_game == game
            &&& following->pending == pending.skip(1)
            &&& following->mapped == mapped.push(MappedFileView { name, fd: fd as int })
        }),
{
    assert(pending.drop_first() =~= pending.skip(1));
}

/// What the user asked for goes into the launch unchanged: the wine that was
/// found, the directory as it was given and as it is found, the executable, and
/// the market, which is "neutral" where none was given. The package is opened in
/// the directory as it was given.
pub proof fn law_options_are_kept(
    options: LaunchOptionsView,
    wine: WineView,
    directory: Seq<char>,
)
    ensures
        ({
            let finding = run::next(
                LaunchView::ResolveWine { options },
                LaunchEventView::Wine(Ok(wine)),
            );
            let opening = run::next(finding, LaunchEventView::Directory(Ok(directory)));
            &&& finding == (LaunchView::OpenDirectory { options, wine: wine.path })
            &&& opening is OpenPackage
            &&& opening->OpenPackage_game.wine == wine.path
            &&& opening->OpenPackage_game.source == options.source
            &&& opening->OpenPackage_game.directory == directory
            &&& opening->OpenPackage_game.exe == options.exe
            &&& options.market matches Some(m) ==> opening->OpenPackage_game.market == m
            &&& options.market is None ==> opening->OpenPackage_game.market == "neutral"@
            &&& is_place_of(opening->package, options.source, ".xodus-streaming.msixvc"@)
            &&& run::next(opening, LaunchEventView::Opened(Ok(()))) == (LaunchView::ReadIndex {
                game: opening->OpenPackage_game,
            })
        }),
{
    reveal_strlit(".xodus-streaming.msixvc");
    let name = ".xodus-streaming.msixvc"@;
    assert forall|i: int| 0 <= i < name.len() implies name[i] != '\\' && name[i] != '/' by {}
}

/// The game of a launch, from the moment that it is known.
pub open spec fn game_of(state: LaunchView) -> Option<GameView> {
    match state {
        LaunchView::OpenPackage { game, .. } => Some(game),
        LaunchView::ReadIndex { game } => Some(game),
        LaunchView::ReadSegments { game, .. } => Some(game),
        LaunchView::ReadNtfs { game } => Some(game),
        LaunchView::Note { game, .. } => Some(game),
        LaunchView::RequestLicense { game, .. } => Some(game),
        LaunchView::Prepare { game, .. } => Some(game),
        LaunchView::Mount { game, .. } => Some(game),
        _ => None,
    }
}

/// The files of a launch, from the moment that they are listed until they are
/// decrypted.
pub open spec fn files_of(state: LaunchView) -> Option<Seq<PackageFileView>> {
    match state {
        LaunchView::Note { files, .. } => Some(files),
        LaunchView::RequestLicense { files, .. } => Some(files),
        LaunchView::Prepare { files, .. } => Some(files),
        _ => None,
    }
}

/// No step changes the game or the files, and what wine is started with, and which
/// wine it is, stays from the plan on.
pub proof fn law_no_step_changes_the_game(state: LaunchView, event: LaunchEventView)
    ensures
        game_of(state) is Some && game_of(run::next(state, event)) is Some ==> game_of(
            run::next(state, event),
        ) == game_of(state),
        files_of(state) is Some && files_of(run::next(state, event)) is Some ==> files_of(
            run::next(state, event),
        ) == files_of(state),
        game_of(state) is Some && run::next(state, event) is EnsureService ==> run::next(
            state,
            event,
        )->EnsureService_wine == game_of(state)->0.wine,
        state is EnsureService && run::next(state, event) is Start ==> run::next(
            state,
            event,
        )->Start_wine == state->EnsureService_wine && run::next(state, event)->Start_plan
            == state->EnsureService_plan,
{
}

/// Once the last file is decrypted, the plan for all of them is made in the game's
/// own directory and with its own wish; without a plan the user is told why.
pub proof fn law_plan_is_made_from_the_mapped_files(
    game: GameView,
    name: Seq<char>,
    encrypted: Seq<char>,
    mapped: Seq<MappedFileView>,
    fd: i32,
)
    ensures
        ({
            let mount = LaunchView::Mount { game, name, encrypted, pending: Seq::empty(), mapped };
            let done = run::next(mount, LaunchEventView::Mounted(Ok(fd)));
            let all = mapped.push(MappedFileView { name, fd: fd as int });
            let plan = launch::launch_plan(all, game.directory, game.exe);
            &&& plan matches Ok(plan) ==> done == (LaunchView::EnsureService {
                wine: game.wine,
                plan,
            })
            &&& plan matches Err(e) ==> done == (LaunchView::Finished {
                lines: e.lines(),
                exit: 1,
            })
        }),
{
}

/// A launch of a game with one executable starts wine with that executable, by an
/// NT path that leads to its place in the game's directory.
pub proof fn law_game_is_started_by_its_executable(
    game: GameView,
    files: Seq<PackageFileView>,
    fds: Seq<i32>,
    i: int,
)
    requires
        game.exe is None,
        game.directory.len() > 0 ==> game.directory.last() != '/' && game.directory.last()
            != '\\',
        fds.len() == package::encrypted_names(files).len(),
        0 <= i < fds.len(),
        crate::exe::spelled_exe(package::encrypted_names(files)[i]),
        forall|j: int|
            0 <= j < fds.len() && j != i ==> !crate::exe::spelled_exe(
                #[trigger] package::encrypted_names(files)[j],
            ),
    ensures
        ({
            let ready = after_mounts(
                run::next(LaunchView::Prepare { game, files }, LaunchEventView::Prepared),
                fds,
            );
            &&& ready is EnsureService
            &&& ready->EnsureService_wine == game.wine
            &&& launch_laws::leads_to(
                ready->EnsureService_plan.entry,
                game.directory,
                package::encrypted_names(files)[i],
            )
        }),
{
    law_every_encrypted_file_is_mapped(game, files, fds);
    let names = package::encrypted_names(files);
    let mapped = with_fds(names, fds);
    assert forall|j: int| 0 <= j < mapped.len() && j != i implies !crate::exe::spelled_exe(
        #[trigger] mapped[j].name,
    ) by {
        assert(mapped[j].name == names[j]);
    }
    launch_laws::law_the_only_executable_is_the_entry(mapped, game.directory, i);
}

/// The files to decrypt are picked one by one, by their flag alone, and keep their
/// order and their names.
pub proof fn law_encrypted_files_are_picked_one_by_one(
    files: Seq<PackageFileView>,
    file: PackageFileView,
)
    ensures
        package::encrypted_names(Seq::empty()).len() == 0,
        package::encrypted(Seq::empty()).len() == 0,
        package::encrypted(files.push(file)) == (if file.keep_encrypted {
            package::encrypted(files).push(file)
        } else {
            package::encrypted(files)
        }),
        package::encrypted_names(files.push(file)) == (if file.keep_encrypted {
            package::encrypted_names(files).push(file.name)
        } else {
            package::encrypted_names(files)
        }),
{
    reveal(Seq::filter);
    assert(files.push(file).drop_last() =~= files);
    let held = package::encrypted(files);
    assert(held.push(file).map_values(|f: PackageFileView| f.name) =~= package::encrypted_names(
        files,
    ).push(file.name));
}

/// The segment metadata that is read is the last file of that very name, and the
/// file system is read where there is no such file or it lists nothing.
pub proof fn law_last_segment_metadata_is_read(
    game: GameView,
    names: Seq<Seq<char>>,
    i: int,
)
    requires
        0 <= i < names.len() <= usize::MAX,
        names[i] == "SegmentMetadata.bin"@,
        forall|j: int|
            i < j < names.len() ==> #[trigger] names[j] != "SegmentMetadata.bin"@,
    ensures
        run::next(LaunchView::ReadIndex { game }, LaunchEventView::Index(names)) == (
        LaunchView::ReadSegments { game, index: i as usize }),
        run::next(
            LaunchView::ReadSegments { game, index: i as usize },
            LaunchEventView::Segments(Seq::empty()),
        ) == (LaunchView::ReadNtfs { game }),
{
    lemma_last_one(names, i);
}

proof fn lemma_last_one(names: Seq<Seq<char>>, i: int)
    requires
        0 <= i < names.len(),
        names[i] == "SegmentMetadata.bin"@,
        forall|j: int|
            i < j < names.len() ==> #[trigger] names[j] != "SegmentMetadata.bin"@,
    ensures
        run::last_metadata(names) == Some(i),
    decreases names.len(),
{
    if i < names.len() - 1 {
        assert(names[names.len() - 1] != "SegmentMetadata.bin"@);
        lemma_last_one(names.drop_last(), i);
    }
}

/// Without a file of that name the file system is read.
pub proof fn law_file_system_is_read_without_segment_metadata(
    game: GameView,
    names: Seq<Seq<char>>,
)
    requires
        forall|j: int| 0 <= j < names.len() ==> #[trigger] names[j] != "SegmentMetadata.bin"@,
    ensures
        run::next(LaunchView::ReadIndex { game }, LaunchEventView::Index(names)) == (
        LaunchView::ReadNtfs { game }),
    decreases names.len(),
{
    if names.len() > 0 {
        assert(names[names.len() - 1] != "SegmentMetadata.bin"@);
        law_file_system_is_read_without_segment_metadata(game, names.drop_last());
    }
}

/// What the user is told of each failure before wine is started, and that the exit
/// code is 1.
pub proof fn law_failures_are_told(
    options: LaunchOptionsView,
    wine: Seq<u8>,
    game: GameView,
    files: Seq<PackageFileView>,
    name: Seq<char>,
    shown: Seq<char>,
    pending: Seq<Seq<char>>,
    mapped: Seq<MappedFileView>,
    keys: usize,
    e: Seq<char>,
)
    ensures
        run::next(LaunchView::ResolveWine { options }, LaunchEventView::Wine(Err(e))) == (
        LaunchView::Finished { lines: seq![e], exit: 1 }),
        run::next(
            LaunchView::OpenDirectory { options, wine },
            LaunchEventView::Directory(Err(e)),
        ) == (LaunchView::Finished {
            lines: seq!["cannot open game directory `"@ + options.source + "`: "@ + e],
            exit: 1,
        }),
        run::next(
            LaunchView::OpenPackage { game, package: shown },
            LaunchEventView::Opened(Err(e)),
        ) == (LaunchView::Finished {
            lines: seq![
                "cannot open `"@ + shown + "`: "@ + e,
                "the game directory must be an install produced by `xodus-cli streaming` (only streaming installs are runnable today)"@,
            ],
            exit: 1,
        }),
        run::next(
            LaunchView::RequestLicense { game, files },
            LaunchEventView::License(Err(e)),
        ) == (LaunchView::Finished { lines: seq![e], exit: 1 }),
        keys != 1 ==> run::next(
            LaunchView::RequestLicense { game, files },
            LaunchEventView::License(Ok(keys)),
        ) == (LaunchView::Finished {
            lines: seq!["unexpected number of content keys "@ + text::decimal(keys as nat)],
            exit: 1,
        }),
        run::next(
            LaunchView::RequestLicense { game, files },
            LaunchEventView::License(Ok(1)),
        ) == (LaunchView::Prepare { game, files }),
        run::next(
            LaunchView::Mount { game, name, encrypted: shown, pending, mapped },
            LaunchEventView::Mounted(Err(e)),
        ) == (LaunchView::Finished {
            lines: seq![
                "cannot open `"@ + shown + "` (listed in the package metadata): "@ + e,
                "the install appears incomplete - re-run `xodus-cli streaming` for this game"@,
            ],
            exit: 1,
        }),
{
}

/// How the end of wine is told, and the exit code for every end: a code in its low
/// eight bits, a signal as 128 more.
pub proof fn law_every_end_of_wine_is_reported(code: i32, signal: i32, e: Seq<char>)
    ensures
        ({
            let ended = run::next(
                LaunchView::Wait,
                LaunchEventView::Ended(Ok(GameEnd::Code(code))),
            );
            &&& ended is Cleanup
            &&& ended->Cleanup_lines.len() == 0
            &&& (code - ended->Cleanup_exit) % 256 == 0
        }),
        ({
            let ended = run::next(
                LaunchView::Wait,
                LaunchEventView::Ended(Ok(GameEnd::Signal(Some(signal)))),
            );
            &&& ended is Cleanup
            &&& ended->Cleanup_lines == seq![
                "wine terminated by signal "@ + text::signed_decimal(signal as int),
            ]
            &&& (signal + 128 - ended->Cleanup_exit) % 256 == 0
        }),
        run::next(LaunchView::Wait, LaunchEventView::Ended(Ok(GameEnd::Signal(None)))) == (
        LaunchView::Cleanup {
            lines: seq!["wine terminated by signal "@ + text::decimal(0)],
            exit: 128,
        }),
        run::next(LaunchView::Wait, LaunchEventView::Ended(Err(e))) == (LaunchView::Cleanup {
            lines: seq!["failed to wait for wine: "@ + e],
            exit: 1,
        }),
{
}

/// From the end of wine on, what is told and the exit code stay as they are.
pub proof fn law_outcome_is_kept_to_the_end(lines: Seq<Seq<char>>, exit: u8)
    ensures
        run::next(LaunchView::Cleanup { lines, exit }, LaunchEventView::Done) == (
        LaunchView::StopService { lines, exit }),
        run::next(LaunchView::StopService { lines, exit }, LaunchEventView::Done) == (
        LaunchView::Finished { lines, exit }),
        forall|event: LaunchEventView|
            #[trigger] run::next(LaunchView::Finished { lines, exit }, event) == (
            LaunchView::Finished { lines, exit }),
{
}

/// Wine finds the file map, byte for byte, under its name in the environment, and
/// the socket of the service under its own, and that one only where there is one.
pub proof fn law_wine_gets_map_and_socket(file_map: Seq<char>, socket: Seq<u8>)
    ensures
        run::environment_of(file_map, None) == seq![
            ("WINE_DLL_FILE_MAP"@, vstd::utf8::encode_utf8(file_map)),
        ],
        run::environment_of(file_map, Some(socket)) == seq![
            ("WINE_DLL_FILE_MAP"@, vstd::utf8::encode_utf8(file_map)),
            ("XODUS_SOCKET"@, socket),
        ],
{
}

/// A file is noted exactly where its hashes are not just enough for its length,
/// and the note holds its name, its offset and its length.
pub proof fn law_hash_notes_are_about_pages(
    files: Seq<PackageFileView>,
    file: PackageFileView,
    page_size: u64,
)
    requires
        page_size > 0,
        file.length as int + page_size as int <= usize::MAX,
    ensures
        package::notes_of(Seq::empty(), page_size).len() == 0,
        package::notes_of(files.push(file), page_size) == (if file.data_hashes * page_size
            >= file.length && (file.data_hashes - 1) * page_size < file.length {
            package::notes_of(files, page_size)
        } else {
            package::notes_of(files, page_size).push(
                file.name + ": "@ + text::decimal(file.offset as nat) + " "@ + text::decimal(
                    file.length as nat,
                ),
            )
        }),
{
    reveal(Seq::filter);
    assert(files.push(file).drop_last() =~= files);
    let length = file.length as int;
    let page = page_size as int;
    let pages = package::units(length, page);
    let hashes = file.data_hashes as int;
    package::law_units_are_just_enough(length, page);
    assert(0 <= pages <= length) by (nonlinear_arith)
        requires
            page > 0,
            length >= 0,
            length == 0 ==> pages == 0,
            length > 0 ==> (pages - 1) * page < length,
            length <= pages * page,
    ;
    assert(hashes == pages <==> (hashes * page >= length && (hashes - 1) * page < length)) by {
        lemma_just_enough(length, page, pages, hashes);
    }
    let p = |f: PackageFileView| package::hashes_differ(f, page_size);
    let found = files.filter(p);
    assert(package::notes_of(files, page_size).push(package::hash_note(file)) =~= found.push(
        file,
    ).map_values(|f: PackageFileView| package::hash_note(f)));
}

proof fn lemma_just_enough(length: int, page: int, pages: int, hashes: int)
    by (nonlinear_arith)
    requires
        page > 0,
        length >= 0,
        hashes >= 0,
        pages >= 0,
        length == 0 ==> pages == 0,
        length > 0 ==> (pages - 1) * page < length,
        length <= pages * page,
    ensures
        hashes == pages <==> (hashes * page >= length && (hashes - 1) * page < length),
{
    if hashes < pages {
        assert(hashes * page <= (pages - 1) * page);
    }
    if hashes > pages {
        assert((hashes - 1) * page >= pages * page);
    }
}

/// The first file to decrypt is the first that is kept encrypted, and the others are
/// pending in their order. Where there is none, no executable can be found.
pub proof fn law_decrypting_begins_with_the_first_file(
    game: GameView,
    files: Seq<PackageFileView>,
)
    ensures
        ({
            let names = package::encrypted_names(files);
            let begun = run::next(
                LaunchView::Prepare { game, files },
                LaunchEventView::Prepared,
            );
            &&& names.len() > 0 ==> {
                &&& begun is Mount
                &&& begun->Mount_game == game
                &&& begun->Mount_name == names[0]
                &&& begun->pending == names.skip(1)
                &&& begun->mapped.len() == 0
            }
            &&& names.len() == 0 && game.exe is None ==> begun == (LaunchView::Finished {
                lines: seq!["no .exe found among the package's encrypted files"@],
                exit: 1,
            })
            &&& names.len() == 0 && game.exe is Some ==> {
                &&& begun is Finished
                &&& begun->Finished_exit == 1
                &&& begun->Finished_lines == seq![
                    "`"@ + game.exe->0 + "` does not match any executable in this package:"@,
                ]
            }
        }),
{
    let names = package::encrypted_names(files);
    let none = Seq::<MappedFileView>::empty();
    if names.len() > 0 {
        assert(names.drop_first() =~= names.skip(1));
    } else {
        assert(launch::by_name(none) =~= none);
        launch_laws::law_executables_are_picked_one_by_one(none, arbitrary());
        match game.exe {
            Some(wanted) => {
                launch_laws::law_matches_are_picked_one_by_one(none, arbitrary(), wanted);
                launch_laws::law_refusals_are_told(wanted, launch::names(none));
                let e = launch::LaunchErrorView::NotInPackage {
                    wanted,
                    names: launch::names(none),
                };
                assert(e.lines() =~= seq![
                    "`"@ + wanted + "` does not match any executable in this package:"@,
                ]);
            },
            None => {},
        }
    }
}

/// Games, files and options are what their fields hold.
pub proof fn law_fields_are_seen_as_they_are(
    options: run::LaunchOptions,
    game: run::Game,
    file: package::PackageFile,
    mapped: launch::MappedFile,
    plan: launch::LaunchPlan,
    files: Seq<package::PackageFile>,
    all: Seq<launch::MappedFile>,
    texts: Seq<String>,
)
    ensures
        options@.source == options.source@,
        options@.exe == crate::token::opt_text(options.exe),
        options@.market == crate::token::opt_text(options.market),
        game@.wine == game.wine@,
        game@.source == game.source@,
        game@.directory == game.directory@,
        game@.exe == crate::token::opt_text(game.exe),
        game@.market == game.market@,
        file@.name == file.name@,
        file@.offset == file.offset,
        file@.length == file.length,
        file@.data_hashes == file.data_hashes,
        file@.keep_encrypted == file.keep_encrypted,
        mapped@.name == mapped.name@,
        mapped@.fd == mapped.fd,
        plan@.entry == plan.entry@,
        plan@.file_map == plan.file_map@,
        package::package_views(files).len() == files.len(),
        forall|i: int|
            0 <= i < files.len() ==> #[trigger] package::package_views(files)[i] == files[i]@,
        launch::file_views(all).len() == all.len(),
        forall|i: int| 0 <= i < all.len() ==> #[trigger] launch::file_views(all)[i] == all[i]@,
        text::texts(texts).len() == texts.len(),
        forall|i: int| 0 <= i < texts.len() ==> #[trigger] text::texts(texts)[i] == texts[i]@,
{
}

} // verus!
