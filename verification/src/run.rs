//! One launch of a game, step by step.
//!
//! A [`Launch`] says what has to be done next outside of this library; the
//! [`LaunchEvent`] that comes of it takes the launch to its next step.

use vstd::prelude::*;
use vstd::string::*;

use crate::ipc;
use crate::launch;
use crate::launch::{LaunchPlan, LaunchPlanView, MappedFile, MappedFileView};
use crate::package;
use crate::package::{PackageFile, PackageFileView};
use crate::path;
use crate::text;
use crate::token;
use crate::wine;
use crate::wine::{Wine, WineView};

verus! {

broadcast use vstd::string::group_string_axioms;

/// The exit code of a launch that failed.
pub const FAILURE: u8 = 1;

/// What the user asks for.
pub struct LaunchOptions {
    /// The directory of the game.
    pub source: String,
    /// Which executable to start, where the package has several.
    pub exe: Option<String>,
    /// The market of the licence.
    pub market: Option<String>,
}

pub struct LaunchOptionsView {
    pub source: Seq<char>,
    pub exe: Option<Seq<char>>,
    pub market: Option<Seq<char>>,
}

impl View for LaunchOptions {
    type V = LaunchOptionsView;

    open spec fn view(&self) -> LaunchOptionsView {
        LaunchOptionsView {
            source: self.source@,
            exe: token::opt_text(self.exe),
            market: token::opt_text(self.market),
        }
    }
}

/// The game that is launched.
pub struct Game {
    /// The wine to start.
    pub wine: Vec<u8>,
    /// The directory as it was given.
    pub source: String,
    /// The absolute path of the directory.
    pub directory: String,
    pub exe: Option<String>,
    pub market: String,
}

pub struct GameView {
    pub wine: Seq<u8>,
    pub source: Seq<char>,
    pub directory: Seq<char>,
    pub exe: Option<Seq<char>>,
    pub market: Seq<char>,
}

impl View for Game {
    type V = GameView;

    open spec fn view(&self) -> GameView {
        GameView {
            wine: self.wine@,
            source: self.source@,
            directory: self.directory@,
            exe: token::opt_text(self.exe),
            market: self.market@,
        }
    }
}

/// How wine ended.
#[derive(Clone, Copy, Debug, PartialEq, Eq, Structural)]
pub enum GameEnd {
    /// With this exit code.
    Code(i32),
    /// By this signal, where it is known.
    Signal(Option<i32>),
}

/// How far a launch has come, and what has to be done next.
pub enum Launch {
    /// Find the wine to start.
    ResolveWine { options: LaunchOptions },
    /// Find the absolute path of the game's directory.
    OpenDirectory { options: LaunchOptions, wine: Vec<u8> },
    /// Open this package for reading.
    OpenPackage { game: Game, package: String },
    /// List the files of the user package.
    ReadIndex { game: Game },
    /// Read the segment metadata out of the user package's file at this index.
    ReadSegments { game: Game, index: usize },
    /// Read the metadata out of the file system inside of the package.
    ReadNtfs { game: Game },
    /// Tell the user these lines about the files that were listed.
    Note { game: Game, files: Vec<PackageFile>, lines: Vec<String> },
    /// Get the licence, for the market of the game.
    RequestLicense { game: Game, files: Vec<PackageFile> },
    /// Get the place for the decrypted images ready.
    Prepare { game: Game, files: Vec<PackageFile> },
    /// Decrypt this file into an image that wine inherits.
    Mount {
        game: Game,
        name: String,
        encrypted: String,
        pending: Vec<String>,
        mapped: Vec<MappedFile>,
    },
    /// Find or start the service.
    EnsureService { wine: Vec<u8>, plan: LaunchPlan },
    /// Start wine, with the environment of [`environment`].
    Start { wine: Vec<u8>, plan: LaunchPlan, socket: Option<Vec<u8>> },
    /// Tell the user this line at once.
    Tell { line: String, exit: u8 },
    /// Wait until wine ends.
    Wait,
    /// Take away what was got ready for the images.
    Cleanup { lines: Vec<String>, exit: u8 },
    /// Stop the service, where this launch started it.
    StopService { lines: Vec<String>, exit: u8 },
    /// Tell the user these lines and exit.
    Finished { lines: Vec<String>, exit: u8 },
}

pub enum LaunchView {
    ResolveWine { options: LaunchOptionsView },
    OpenDirectory { options: LaunchOptionsView, wine: Seq<u8> },
    OpenPackage { game: GameView, package: Seq<char> },
    ReadIndex { game: GameView },
    ReadSegments { game: GameView, index: usize },
    ReadNtfs { game: GameView },
    Note { game: GameView, files: Seq<PackageFileView>, lines: Seq<Seq<char>> },
    RequestLicense { game: GameView, files: Seq<PackageFileView> },
    Prepare { game: GameView, files: Seq<PackageFileView> },
    Mount {
        game: GameView,
        name: Seq<char>,
        encrypted: Seq<char>,
        pending: Seq<Seq<char>>,
        mapped: Seq<MappedFileView>,
    },
    EnsureService { wine: Seq<u8>, plan: LaunchPlanView },
    Start { wine: Seq<u8>, plan: LaunchPlanView, socket: Option<Seq<u8>> },
    Tell { line: Seq<char>, exit: u8 },
    Wait,
    Cleanup { lines: Seq<Seq<char>>, exit: u8 },
    StopService { lines: Seq<Seq<char>>, exit: u8 },
    Finished { lines: Seq<Seq<char>>, exit: u8 },
}

impl View for Launch {
    type V = LaunchView;

    open spec fn view(&self) -> LaunchView {
        match self {
            Launch::ResolveWine { options } => LaunchView::ResolveWine { options: options@ },
            Launch::OpenDirectory { options, wine } => LaunchView::OpenDirectory {
                options: options@,
                wine: wine@,
            },
            Launch::OpenPackage { game, package } => LaunchView::OpenPackage {
                game: game@,
                package: package@,
            },
            Launch::ReadIndex { game } => LaunchView::ReadIndex { game: game@ },
            Launch::ReadSegments { game, index } => LaunchView::ReadSegments {
                game: game@,
                index: *index,
            },
            Launch::ReadNtfs { game } => LaunchView::ReadNtfs { game: game@ },
            Launch::Note { game, files, lines } => LaunchView::Note {
                game: game@,
                files: package::package_views(files@),
                lines: text::texts(lines@),
            },
            Launch::RequestLicense { game, files } => LaunchView::RequestLicense {
                game: game@,
                files: package::package_views(files@),
            },
            Launch::Prepare { game, files } => LaunchView::Prepare {
                game: game@,
                files: package::package_views(files@),
            },
            Launch::Mount { game, name, encrypted, pending, mapped } => LaunchView::Mount {
                game: game@,
                name: name@,
                encrypted: encrypted@,
                pending: text::texts(pending@),
                mapped: launch::file_views(mapped@),
            },
            Launch::EnsureService { wine, plan } => LaunchView::EnsureService {
                wine: wine@,
                plan: plan@,
            },
            Launch::Start { wine, plan, socket } => LaunchView::Start {
                wine: wine@,
                plan: plan@,
                socket: ipc::path_view(*socket),
            },
            Launch::Tell { line, exit } => LaunchView::Tell { line: line@, exit: *exit },
            Launch::Wait => LaunchView::Wait,
            Launch::Cleanup { lines, exit } => LaunchView::Cleanup {
                lines: text::texts(lines@),
                exit: *exit,
            },
            Launch::StopService { lines, exit } => LaunchView::StopService {
                lines: text::texts(lines@),
                exit: *exit,
            },
            Launch::Finished { lines, exit } => LaunchView::Finished {
                lines: text::texts(lines@),
                exit: *exit,
            },
        }
    }
}

/// What came of the last step. Errors are given as they are displayed.
pub enum LaunchEvent {
    /// The wine to start, or why there is none.
    Wine(Result<Wine, String>),
    /// The absolute path of the directory.
    Directory(Result<String, String>),
    /// The package is open.
    Opened(Result<(), String>),
    /// The names of the user package's files.
    Index(Vec<String>),
    /// The files that the segment metadata lists.
    Segments(Vec<PackageFile>),
    /// The files that the file system lists, and the size of a page.
    Listing { files: Vec<PackageFile>, page_size: u64 },
    /// How many content keys the licence holds.
    License(Result<usize, String>),
    /// The place for the images is ready.
    Prepared,
    /// The descriptor of the image; the error is that of opening the file.
    Mounted(Result<i32, String>),
    /// The socket of the service, where one answers.
    Service(Option<Vec<u8>>),
    /// Wine runs.
    Started,
    /// Wine does not run; its path is given as it is displayed.
    NotStarted { wine: String, error: String },
    /// How wine ended.
    Ended(Result<GameEnd, String>),
    /// The step is done.
    Done,
}

pub enum LaunchEventView {
    Wine(Result<WineView, Seq<char>>),
    Directory(Result<Seq<char>, Seq<char>>),
    Opened(Result<(), Seq<char>>),
    Index(Seq<Seq<char>>),
    Segments(Seq<PackageFileView>),
    Listing { files: Seq<PackageFileView>, page_size: u64 },
    License(Result<usize, Seq<char>>),
    Prepared,
    Mounted(Result<i32, Seq<char>>),
    Service(Option<Seq<u8>>),
    Started,
    NotStarted { wine: Seq<char>, error: Seq<char> },
    Ended(Result<GameEnd, Seq<char>>),
    Done,
}

/// A value as it is, or the message of the error.
pub open spec fn plain_view<T>(r: Result<T, String>) -> Result<T, Seq<char>> {
    match r {
        Ok(t) => Ok(t),
        Err(e) => Err(e@),
    }
}

impl View for LaunchEvent {
    type V = LaunchEventView;

    open spec fn view(&self) -> LaunchEventView {
        match self {
            LaunchEvent::Wine(r) => LaunchEventView::Wine(wine::wine_view(*r)),
            LaunchEvent::Directory(r) => LaunchEventView::Directory(token::text_view(*r)),
            LaunchEvent::Opened(r) => LaunchEventView::Opened(plain_view(*r)),
            LaunchEvent::Index(names) => LaunchEventView::Index(text::texts(names@)),
            LaunchEvent::Segments(files) => LaunchEventView::Segments(
                package::package_views(files@),
            ),
            LaunchEvent::Listing { files, page_size } => LaunchEventView::Listing {
                files: package::package_views(files@),
                page_size: *page_size,
            },
            LaunchEvent::License(r) => LaunchEventView::License(plain_view(*r)),
            LaunchEvent::Prepared => LaunchEventView::Prepared,
            LaunchEvent::Mounted(r) => LaunchEventView::Mounted(plain_view(*r)),
            LaunchEvent::Service(socket) => LaunchEventView::Service(ipc::path_view(*socket)),
            LaunchEvent::Started => LaunchEventView::Started,
            LaunchEvent::NotStarted { wine, error } => LaunchEventView::NotStarted {
                wine: wine@,
                error: error@,
            },
            LaunchEvent::Ended(r) => LaunchEventView::Ended(plain_view(*r)),
            LaunchEvent::Done => LaunchEventView::Done,
        }
    }
}

/// A launch that has failed, with what the user is told.
pub open spec fn failed(lines: Seq<Seq<char>>) -> LaunchView {
    LaunchView::Finished { lines, exit: FAILURE }
}

fn one_line(line: String) -> (r: Vec<String>)
    ensures
        text::texts(r@) == seq![line@],
{
    let mut lines: Vec<String> = Vec::new();
    text::push_text(&mut lines, line);
    assert(text::texts(lines@) =~= seq![line@]);
    lines
}

fn two_lines(first: String, second: &str) -> (r: Vec<String>)
    ensures
        text::texts(r@) == seq![first@, second@],
{
    let mut lines = one_line(first);
    text::push_text(&mut lines, second.to_owned());
    assert(text::texts(lines@) =~= seq![first@, second@]);
    lines
}

fn fail(lines: Vec<String>) -> (r: Launch)
    ensures
        r@ == failed(text::texts(lines@)),
{
    Launch::Finished { lines, exit: FAILURE }
}

/// Four texts in a row.
fn message(head: &str, subject: &str, middle: &str, error: &str) -> (r: String)
    ensures
        r@ == head@ + subject@ + middle@ + error@,
{
    let mut r = text::concat(head, subject);
    r.append(middle);
    r.append(error);
    r
}

/// The package inside of the game's directory.
pub open spec fn package_path(source: Seq<char>) -> Seq<char> {
    path::joined_text(source, ".xodus-streaming.msixvc"@)
}

/// Where a file of the package lies, still encrypted, in the game's directory.
pub open spec fn encrypted_path(source: Seq<char>, name: Seq<char>) -> Seq<char> {
    path::joined_text(source, text::replace_all(name, '\\', '/'))
}

/// The step after the directory was found: the market is "neutral" where none
/// was given.
pub open spec fn after_directory(
    options: LaunchOptionsView,
    wine: Seq<u8>,
    directory: Result<Seq<char>, Seq<char>>,
) -> LaunchView {
    match directory {
        Ok(directory) => LaunchView::OpenPackage {
            game: GameView {
                wine,
                source: options.source,
                directory,
                exe: options.exe,
                market: match options.market {
                    Some(market) => market,
                    None => "neutral"@,
                },
            },
            package: package_path(options.source),
        },
        Err(e) => failed(
            seq!["cannot open game directory `"@ + options.source + "`: "@ + e],
        ),
    }
}

/// What the user is told where the package cannot be opened.
pub open spec fn no_package_lines(package: Seq<char>, e: Seq<char>) -> Seq<Seq<char>> {
    seq![
        "cannot open `"@ + package + "`: "@ + e,
        "the game directory must be an install produced by `xodus-cli streaming` (only streaming installs are runnable today)"@,
    ]
}

/// What the user is told where a file of the package cannot be opened.
pub open spec fn no_file_lines(encrypted: Seq<char>, e: Seq<char>) -> Seq<Seq<char>> {
    seq![
        "cannot open `"@ + encrypted + "` (listed in the package metadata): "@ + e,
        "the install appears incomplete - re-run `xodus-cli streaming` for this game"@,
    ]
}

/// The last position of the segment metadata among the names.
pub open spec fn last_metadata(names: Seq<Seq<char>>) -> Option<int>
    decreases names.len(),
{
    if names.len() == 0 {
        None
    } else if package::is_metadata_name(names.last()) {
        Some(names.len() - 1)
    } else {
        last_metadata(names.drop_last())
    }
}

/// The step after the index was read: the segment metadata where there is any,
/// else the file system.
pub open spec fn after_index(game: GameView, names: Seq<Seq<char>>) -> LaunchView {
    match last_metadata(names) {
        Some(i) => LaunchView::ReadSegments { game, index: i as usize },
        None => LaunchView::ReadNtfs { game },
    }
}

/// The step after the segment metadata was read: where it lists nothing, the
/// file system is read.
pub open spec fn after_segments(game: GameView, files: Seq<PackageFileView>) -> LaunchView {
    if files.len() == 0 {
        LaunchView::ReadNtfs { game }
    } else {
        LaunchView::RequestLicense { game, files }
    }
}

/// The step after the licence came: exactly one content key can be used.
pub open spec fn after_license(
    game: GameView,
    files: Seq<PackageFileView>,
    license: Result<usize, Seq<char>>,
) -> LaunchView {
    match license {
        Err(e) => failed(seq![e]),
        Ok(keys) => if keys == 1 {
            LaunchView::Prepare { game, files }
        } else {
            failed(seq!["unexpected number of content keys "@ + text::decimal(keys as nat)])
        },
    }
}

/// The step once all files are mapped: the service, where the plan works out.
pub open spec fn planned(game: GameView, mapped: Seq<MappedFileView>) -> LaunchView {
    match launch::launch_plan(mapped, game.directory, game.exe) {
        Ok(plan) => LaunchView::EnsureService { wine: game.wine, plan },
        Err(e) => failed(e.lines()),
    }
}

/// The next file is decrypted, or the plan is made where none is left.
pub open spec fn mounting(
    game: GameView,
    pending: Seq<Seq<char>>,
    mapped: Seq<MappedFileView>,
) -> LaunchView {
    if pending.len() == 0 {
        planned(game, mapped)
    } else {
        LaunchView::Mount {
            game,
            name: pending[0],
            encrypted: encrypted_path(game.source, pending[0]),
            pending: pending.drop_first(),
            mapped,
        }
    }
}

/// The step after a file was decrypted, or could not be opened.
pub open spec fn after_mount(
    game: GameView,
    name: Seq<char>,
    encrypted: Seq<char>,
    pending: Seq<Seq<char>>,
    mapped: Seq<MappedFileView>,
    result: Result<i32, Seq<char>>,
) -> LaunchView {
    match result {
        Ok(fd) => mounting(game, pending, mapped.push(MappedFileView { name, fd: fd as int })),
        Err(e) => failed(no_file_lines(encrypted, e)),
    }
}

/// The exit code for the end of wine: its own code, in eight bits, or, after a
/// signal, 128 and the signal, as shells have it.
pub open spec fn exit_code(end: GameEnd) -> int {
    match end {
        GameEnd::Code(code) => code as int % 256,
        GameEnd::Signal(Some(signal)) => (128 + signal) % 256,
        GameEnd::Signal(None) => 128,
    }
}

/// What the user is told about the end of wine.
pub open spec fn end_lines(end: GameEnd) -> Seq<Seq<char>> {
    match end {
        GameEnd::Code(_) => Seq::empty(),
        GameEnd::Signal(Some(signal)) => seq![
            "wine terminated by signal "@ + text::signed_decimal(signal as int),
        ],
        GameEnd::Signal(None) => seq!["wine terminated by signal "@ + text::signed_decimal(0)],
    }
}

/// The step after wine has ended.
pub open spec fn after_end(result: Result<GameEnd, Seq<char>>) -> LaunchView {
    match result {
        Ok(end) => LaunchView::Cleanup { lines: end_lines(end), exit: exit_code(end) as u8 },
        Err(e) => LaunchView::Cleanup {
            lines: seq!["failed to wait for wine: "@ + e],
            exit: FAILURE,
        },
    }
}

/// The step that an event leads to. An event that is not waited for changes
/// nothing.
pub open spec fn next(state: LaunchView, event: LaunchEventView) -> LaunchView {
    match (state, event) {
        (LaunchView::ResolveWine { options }, LaunchEventView::Wine(Ok(wine))) => {
            LaunchView::OpenDirectory { options, wine: wine.path }
        },
        (LaunchView::ResolveWine { .. }, LaunchEventView::Wine(Err(e))) => failed(seq![e]),
        (LaunchView::OpenDirectory { options, wine }, LaunchEventView::Directory(directory)) => {
            after_directory(options, wine, directory)
        },
        (LaunchView::OpenPackage { game, .. }, LaunchEventView::Opened(Ok(_))) => {
            LaunchView::ReadIndex { game }
        },
        (LaunchView::OpenPackage { package, .. }, LaunchEventView::Opened(Err(e))) => failed(
            no_package_lines(package, e),
        ),
        (LaunchView::ReadIndex { game }, LaunchEventView::Index(names)) => after_index(game, names),
        (LaunchView::ReadSegments { game, .. }, LaunchEventView::Segments(files)) => {
            after_segments(game, files)
        },
        (LaunchView::ReadNtfs { game }, LaunchEventView::Listing { files, page_size }) => {
            LaunchView::Note { game, files, lines: package::notes_of(files, page_size) }
        },
        (LaunchView::Note { game, files, .. }, LaunchEventView::Done) => {
            LaunchView::RequestLicense { game, files }
        },
        (LaunchView::RequestLicense { game, files }, LaunchEventView::License(license)) => {
            after_license(game, files, license)
        },
        (LaunchView::Prepare { game, files }, LaunchEventView::Prepared) => mounting(
            game,
            package::encrypted_names(files),
            Seq::empty(),
        ),
        (
            LaunchView::Mount { game, name, encrypted, pending, mapped },
            LaunchEventView::Mounted(result),
        ) => after_mount(game, name, encrypted, pending, mapped, result),
        (LaunchView::EnsureService { wine, plan }, LaunchEventView::Service(socket)) => {
            LaunchView::Start { wine, plan, socket }
        },
        (LaunchView::Start { .. }, LaunchEventView::Started) => LaunchView::Wait,
        (LaunchView::Start { .. }, LaunchEventView::NotStarted { wine, error }) => {
            LaunchView::Tell {
                line: "failed to start `"@ + wine + "`: "@ + error,
                exit: FAILURE,
            }
        },
        (LaunchView::Tell { exit, .. }, LaunchEventView::Done) => LaunchView::StopService {
            lines: Seq::empty(),
            exit,
        },
        (LaunchView::Wait, LaunchEventView::Ended(result)) => after_end(result),
        (LaunchView::Cleanup { lines, exit }, LaunchEventView::Done) => LaunchView::StopService {
            lines,
            exit,
        },
        (LaunchView::StopService { lines, exit }, LaunchEventView::Done) => LaunchView::Finished {
            lines,
            exit,
        },
        _ => state,
    }
}

/// Begins a launch.
pub fn run(options: LaunchOptions) -> (r: Launch)
    ensures
        r@ == (LaunchView::ResolveWine { options: options@ }),
{
    Launch::ResolveWine { options }
}

fn directory_opened(
    options: LaunchOptions,
    wine: Vec<u8>,
    directory: Result<String, String>,
) -> (r: Launch)
    ensures
        r@ == after_directory(options@, wine@, token::text_view(directory)),
{
    match directory {
        Ok(directory) => {
            let package = path::join_text(options.source.as_str(), ".xodus-streaming.msixvc");
            let market = match options.market {
                Some(market) => market,
                None => "neutral".to_owned(),
            };
            Launch::OpenPackage {
                game: Game { wine, source: options.source, directory, exe: options.exe, market },
                package,
            }
        },
        Err(e) => fail(
            one_line(
                message(
                    "cannot open game directory `",
                    options.source.as_str(),
                    "`: ",
                    e.as_str(),
                ),
            ),
        ),
    }
}

proof fn lemma_last_metadata(names: Seq<Seq<char>>, i: int)
    requires
        0 <= i < names.len(),
        package::is_metadata_name(names[i]),
        forall|j: int| i < j < names.len() ==> !package::is_metadata_name(#[trigger] names[j]),
    ensures
        last_metadata(names) == Some(i),
    decreases names.len(),
{
    if i < names.len() - 1 {
        assert(!package::is_metadata_name(names[names.len() - 1]));
        lemma_last_metadata(names.drop_last(), i);
    }
}

proof fn lemma_no_metadata(names: Seq<Seq<char>>)
    requires
        forall|j: int| 0 <= j < names.len() ==> !package::is_metadata_name(#[trigger] names[j]),
    ensures
        last_metadata(names) is None,
    decreases names.len(),
{
    if names.len() > 0 {
        assert(!package::is_metadata_name(names[names.len() - 1]));
        lemma_no_metadata(names.drop_last());
    }
}

fn index_read(game: Game, names: Vec<String>) -> (r: Launch)
    ensures
        r@ == after_index(game@, text::texts(names@)),
{
    let ghost views = text::texts(names@);
    assert forall|j: int| 0 <= j < views.len() implies #[trigger] views[j] == names@[j]@ by {}
    match package::metadata_index(&names) {
        Some(i) => {
            proof {
                lemma_last_metadata(views, i as int);
            }
            Launch::ReadSegments { game, index: i }
        },
        None => {
            proof {
                lemma_no_metadata(views);
            }
            Launch::ReadNtfs { game }
        },
    }
}

fn licensed(game: Game, files: Vec<PackageFile>, license: Result<usize, String>) -> (r: Launch)
    ensures
        r@ == after_license(game@, package::package_views(files@), plain_view(license)),
{
    match license {
        Err(e) => fail(one_line(e)),
        Ok(keys) => {
            if keys == 1 {
                Launch::Prepare { game, files }
            } else {
                fail(
                    one_line(
                        text::concat(
                            "unexpected number of content keys ",
                            text::decimal_text(keys as u64).as_str(),
                        ),
                    ),
                )
            }
        },
    }
}

fn mount_next(game: Game, pending: Vec<String>, mapped: Vec<MappedFile>) -> (r: Launch)
    ensures
        r@ == mounting(game@, text::texts(pending@), launch::file_views(mapped@)),
{
    if pending.len() == 0 {
        let wanted = match &game.exe {
            Some(exe) => Some(exe.as_str()),
            None => None,
        };
        return match launch::plan_launch(mapped, game.directory.as_str(), wanted) {
            Ok(plan) => Launch::EnsureService { wine: game.wine, plan },
            Err(e) => fail(e.lines()),
        };
    }
    let mut rest = pending;
    let name = rest.remove(0);
    assert(text::texts(rest@) =~= text::texts(pending@).drop_first());
    assert(text::texts(pending@)[0] == name@);
    let file = text::string_of(
        &text::replace_char(&text::chars_of(name.as_str()), '\\', '/'),
    );
    let encrypted = path::join_text(game.source.as_str(), file.as_str());
    Launch::Mount { game, name, encrypted, pending: rest, mapped }
}

fn mounted(
    game: Game,
    name: String,
    encrypted: String,
    pending: Vec<String>,
    mapped: Vec<MappedFile>,
    result: Result<i32, String>,
) -> (r: Launch)
    ensures
        r@ == after_mount(
            game@,
            name@,
            encrypted@,
            text::texts(pending@),
            launch::file_views(mapped@),
            plain_view(result),
        ),
{
    match result {
        Ok(fd) => {
            let mut longer = mapped;
            let file = MappedFile { name, fd };
            let ghost added = file@;
            longer.push(file);
            assert(launch::file_views(longer@) =~= launch::file_views(mapped@).push(added));
            mount_next(game, pending, longer)
        },
        Err(e) => fail(
            two_lines(
                message(
                    "cannot open `",
                    encrypted.as_str(),
                    "` (listed in the package metadata): ",
                    e.as_str(),
                ),
                "the install appears incomplete - re-run `xodus-cli streaming` for this game",
            ),
        ),
    }
}

/// The exit code for the end of wine.
pub fn exit_of(end: GameEnd) -> (r: u8)
    ensures
        r == exit_code(end),
{
    match end {
        GameEnd::Code(code) => {
            assert(code as u8 == code as int % 256) by (bit_vector);
            #[verifier::truncate]
            (code as u8)
        },
        GameEnd::Signal(signal) => {
            let signal: i32 = match signal {
                Some(signal) => signal,
                None => 0,
            };
            assert(signal as u8 == signal as int % 256) by (bit_vector);
            let low: u8 = #[verifier::truncate]
            (signal as u8);
            128u8.wrapping_add(low)
        },
    }
}

fn ended(result: Result<GameEnd, String>) -> (r: Launch)
    ensures
        r@ == after_end(plain_view(result)),
{
    match result {
        Ok(end) => {
            let lines = match end {
                GameEnd::Code(_) => {
                    let none: Vec<String> = Vec::new();
                    assert(text::texts(none@) =~= Seq::<Seq<char>>::empty());
                    none
                },
                GameEnd::Signal(signal) => {
                    let signal: i32 = match signal {
                        Some(signal) => signal,
                        None => 0,
                    };
                    one_line(
                        text::concat(
                            "wine terminated by signal ",
                            text::signed_decimal_text(signal).as_str(),
                        ),
                    )
                },
            };
            Launch::Cleanup { lines, exit: exit_of(end) }
        },
        Err(e) => Launch::Cleanup {
            lines: one_line(text::concat("failed to wait for wine: ", e.as_str())),
            exit: FAILURE,
        },
    }
}

impl Launch {
    /// Takes the launch one step on. A page has a size.
    pub fn advance(self, event: LaunchEvent) -> (r: Launch)
        requires
            event@ matches LaunchEventView::Listing { page_size, .. } ==> page_size > 0,
        ensures
            r@ == next(self@, event@),
    {
        match (self, event) {
            (Launch::ResolveWine { options }, LaunchEvent::Wine(Ok(wine))) => {
                Launch::OpenDirectory { options, wine: wine.path }
            },
            (Launch::ResolveWine { options: _ }, LaunchEvent::Wine(Err(e))) => fail(one_line(e)),
            (Launch::OpenDirectory { options, wine }, LaunchEvent::Directory(directory)) => {
                directory_opened(options, wine, directory)
            },
            (Launch::OpenPackage { game, package: _ }, LaunchEvent::Opened(Ok(_))) => {
                Launch::ReadIndex { game }
            },
            (Launch::OpenPackage { game: _, package }, LaunchEvent::Opened(Err(e))) => fail(
                two_lines(
                    message("cannot open `", package.as_str(), "`: ", e.as_str()),
                    "the game directory must be an install produced by `xodus-cli streaming` (only streaming installs are runnable today)",
                ),
            ),
            (Launch::ReadIndex { game }, LaunchEvent::Index(names)) => index_read(game, names),
            (Launch::ReadSegments { game, index: _ }, LaunchEvent::Segments(files)) => {
                if files.len() == 0 {
                    Launch::ReadNtfs { game }
                } else {
                    Launch::RequestLicense { game, files }
                }
            },
            (Launch::ReadNtfs { game }, LaunchEvent::Listing { files, page_size }) => {
                let lines = package::hash_notes(&files, page_size);
                Launch::Note { game, files, lines }
            },
            (Launch::Note { game, files, lines: _ }, LaunchEvent::Done) => {
                Launch::RequestLicense { game, files }
            },
            (Launch::RequestLicense { game, files }, LaunchEvent::License(license)) => licensed(
                game,
                files,
                license,
            ),
            (Launch::Prepare { game, files }, LaunchEvent::Prepared) => {
                let mapped: Vec<MappedFile> = Vec::new();
                assert(launch::file_views(mapped@) =~= Seq::<MappedFileView>::empty());
                mount_next(game, package::names_to_mount(&files), mapped)
            },
            (
                Launch::Mount { game, name, encrypted, pending, mapped },
                LaunchEvent::Mounted(result),
            ) => mounted(game, name, encrypted, pending, mapped, result),
            (Launch::EnsureService { wine, plan }, LaunchEvent::Service(socket)) => Launch::Start {
                wine,
                plan,
                socket,
            },
            (Launch::Start { wine: _, plan: _, socket: _ }, LaunchEvent::Started) => Launch::Wait,
            (
                Launch::Start { wine: _, plan: _, socket: _ },
                LaunchEvent::NotStarted { wine, error },
            ) => Launch::Tell {
                line: message("failed to start `", wine.as_str(), "`: ", error.as_str()),
                exit: FAILURE,
            },
            (Launch::Tell { line: _, exit }, LaunchEvent::Done) => {
                let lines: Vec<String> = Vec::new();
                assert(text::texts(lines@) =~= Seq::<Seq<char>>::empty());
                Launch::StopService { lines, exit }
            },
            (Launch::Wait, LaunchEvent::Ended(result)) => ended(result),
            (Launch::Cleanup { lines, exit }, LaunchEvent::Done) => Launch::StopService {
                lines,
                exit,
            },
            (Launch::StopService { lines, exit }, LaunchEvent::Done) => Launch::Finished {
                lines,
                exit,
            },
            (state, _) => state,
        }
    }
}

/// The name and the value of each environment variable of a list.
pub open spec fn variables(list: Seq<(String, Vec<u8>)>) -> Seq<(Seq<char>, Seq<u8>)> {
    list.map_values(|v: (String, Vec<u8>)| (v.0@, v.1@))
}

/// The environment variables that wine gets: the file map, and the socket of
/// the service where one answers.
pub open spec fn environment_of(file_map: Seq<char>, socket: Option<Seq<u8>>) -> Seq<
    (Seq<char>, Seq<u8>),
> {
    match socket {
        Some(socket) => seq![
            ("WINE_DLL_FILE_MAP"@, path::bytes_of(file_map)),
            ("XODUS_SOCKET"@, socket),
        ],
        None => seq![("WINE_DLL_FILE_MAP"@, path::bytes_of(file_map))],
    }
}

/// The environment variables that wine gets.
pub fn environment(file_map: &str, socket: Option<&Vec<u8>>) -> (r: Vec<(String, Vec<u8>)>)
    ensures
        variables(r@) == environment_of(file_map@, wine::opt_path_view(socket)),
{
    let mut r: Vec<(String, Vec<u8>)> = Vec::new();
    r.push(("WINE_DLL_FILE_MAP".to_owned(), path::copy_bytes(file_map.as_bytes())));
    match socket {
        Some(socket) => {
            r.push(("XODUS_SOCKET".to_owned(), path::copy_bytes(socket.as_slice())));
        },
        None => {},
    }
    assert(variables(r@) =~= environment_of(file_map@, wine::opt_path_view(socket)));
    r
}

/// The process that an interrupt from the user is passed on to: the one of wine,
/// and none where its id is 0, which stands for a whole group.
pub fn interrupt_target(pid: u32) -> (r: Option<i32>)
    ensures
        r == (if pid > 0 {
            Some(pid as i32)
        } else {
            None
        }),
{
    if pid > 0 {
        Some(pid as i32)
    } else {
        None
    }
}

} // verus!
