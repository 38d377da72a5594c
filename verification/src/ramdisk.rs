//! The transient ramdisk that holds the decrypted images on macOS: how large it
//! is, and how it is made and taken away again, one command at a time.

use vstd::prelude::*;
use vstd::string::*;

use crate::outside;
use crate::package;
use crate::package::{PackageFile, PackageFileView};
use crate::text;
use crate::token;

verus! {

broadcast use vstd::string::group_string_axioms;

/// One sector is asked for per this many bytes. A sector has 512 bytes, so the
/// ramdisk is twice as large as the images that it holds.
pub const SECTOR: u64 = 256;

/// How many pages are added to each image.
pub const SPARE_PAGES: u64 = 4;

/// The bytes that the images of these files need, with the spare pages.
pub open spec fn image_bytes(files: Seq<PackageFileView>, page_size: u64) -> int
    decreases files.len(),
{
    if files.len() == 0 {
        0
    } else {
        image_bytes(files.drop_last(), page_size) + files.last().length + SPARE_PAGES * page_size
    }
}

/// The sectors that are asked for, where there is anything to hold and its bytes
/// can be counted.
pub open spec fn sectors_of(files: Seq<PackageFileView>, page_size: u64) -> Option<int> {
    let held = package::encrypted(files);
    if held.len() == 0 || image_bytes(held, page_size) > u64::MAX {
        None
    } else {
        Some(package::units(image_bytes(held, page_size), SECTOR as int))
    }
}

proof fn lemma_image_bytes_grow(files: Seq<PackageFileView>, n: int, page_size: u64)
    requires
        0 <= n <= files.len(),
    ensures
        0 <= image_bytes(files.take(n), page_size) <= image_bytes(files, page_size),
    decreases files.len(),
{
    if files.len() == 0 {
        assert(files.take(n) =~= files);
    } else if n == files.len() {
        assert(files.take(n) =~= files);
        lemma_image_bytes_grow(files.drop_last(), n - 1, page_size);
    } else {
        lemma_image_bytes_grow(files.drop_last(), n, page_size);
        assert(files.drop_last().take(n) =~= files.take(n));
    }
}

/// The sectors that are asked for. There are none where no file has to be
/// held, and none where the bytes are too many to count.
pub fn sectors(files: &Vec<PackageFile>, page_size: u64) -> (r: Option<u64>)
    ensures
        match r {
            Some(n) => sectors_of(package::package_views(files@), page_size) == Some(n as int),
            None => sectors_of(package::package_views(files@), page_size) is None,
        },
{
    let ghost views = package::package_views(files@);
    let ghost held = package::encrypted(views);
    let ghost p = |f: PackageFileView| f.keep_encrypted;
    let mut total: u128 = 0;
    let mut any: bool = false;
    let mut i: usize = 0;
    proof {
        reveal(Seq::filter);
        assert(package::encrypted(views.take(0)) =~= Seq::<PackageFileView>::empty());
    }
    while i < files.len()
        invariant
            i <= files.len(),
            views == package::package_views(files@),
            p == (|f: PackageFileView| f.keep_encrypted),
            held == package::encrypted(views),
            any == (package::encrypted(views.take(i as int)).len() > 0),
            total == image_bytes(package::encrypted(views.take(i as int)), page_size),
            total <= u64::MAX,
        decreases files.len() - i,
    {
        proof {
            reveal(Seq::filter);
            assert(views.take(i + 1).drop_last() =~= views.take(i as int));
            assert(views.take(i + 1).last() == files@[i as int]@);
        }
        if files[i].keep_encrypted {
            let ghost so_far = package::encrypted(views.take(i as int));
            assert(so_far.push(files@[i as int]@).drop_last() =~= so_far);
            any = true;
            assert(SPARE_PAGES * page_size <= 4 * u64::MAX) by (nonlinear_arith)
                requires
                    SPARE_PAGES == 4,
                    0 <= page_size <= u64::MAX,
            ;
            total = total + files[i].length as u128 + SPARE_PAGES as u128 * page_size as u128;
            if total > u64::MAX as u128 {
                proof {
                    let upto = package::encrypted(views.take(i + 1));
                    Seq::filter_distributes_over_add(views.take(i + 1), views.skip(i + 1), p);
                    assert(views.take(i + 1) + views.skip(i + 1) =~= views);
                    assert(held.take(upto.len() as int) =~= upto);
                    lemma_image_bytes_grow(held, upto.len() as int, page_size);
                }
                return None;
            }
        }
        i = i + 1;
    }
    assert(views.take(i as int) =~= views);
    if any {
        Some(package::count_units(total as u64, SECTOR))
    } else {
        None
    }
}

/// A program and its arguments.
pub struct Command {
    pub program: String,
    pub arguments: Vec<String>,
}

pub struct CommandView {
    pub program: Seq<char>,
    pub arguments: Seq<Seq<char>>,
}

impl View for Command {
    type V = CommandView;

    open spec fn view(&self) -> CommandView {
        CommandView { program: self.program@, arguments: text::texts(self.arguments@) }
    }
}

/// Makes a ramdisk of this many sectors; the output names its device.
pub open spec fn attach_of(sectors: int) -> CommandView {
    CommandView {
        program: "/usr/bin/hdiutil"@,
        arguments: seq!["attach"@, "-nomount"@, "ram://"@ + text::decimal(sectors as nat)],
    }
}

/// Puts a file system of this name on the device.
pub open spec fn make_filesystem_of(device: Seq<char>, volume: Seq<char>) -> CommandView {
    CommandView { program: "/sbin/newfs_hfs"@, arguments: seq!["-v"@, volume, device] }
}

/// Mounts the device on a directory.
pub open spec fn mount_of(device: Seq<char>, directory: Seq<char>) -> CommandView {
    CommandView {
        program: "/sbin/mount"@,
        arguments: seq!["-t"@, "hfs"@, "-o"@, "nobrowse"@, "-v"@, device, directory],
    }
}

/// Takes the mount away again.
pub open spec fn unmount_of(directory: Seq<char>) -> CommandView {
    CommandView { program: "/sbin/umount"@, arguments: seq!["-f"@, directory] }
}

/// Takes the ramdisk away again.
pub open spec fn detach_of(device: Seq<char>) -> CommandView {
    CommandView { program: "/usr/bin/hdiutil"@, arguments: seq!["detach"@, "-force"@, device] }
}

/// Makes a ramdisk of this many sectors; the output names its device.
pub fn attach(sectors: u64) -> (r: Command)
    ensures
        r@ == attach_of(sectors as int),
{
    let mut arguments: Vec<String> = Vec::new();
    let size = text::concat("ram://", text::decimal_text(sectors).as_str());
    text::push_text(&mut arguments, "attach".to_owned());
    text::push_text(&mut arguments, "-nomount".to_owned());
    text::push_text(&mut arguments, size);
    assert(text::texts(arguments@) =~= seq![
        "attach"@,
        "-nomount"@,
        "ram://"@ + text::decimal(sectors as nat),
    ]);
    Command { program: "/usr/bin/hdiutil".to_owned(), arguments }
}

/// Puts a file system of this name on the device.
pub fn make_filesystem(device: &str, volume: &str) -> (r: Command)
    ensures
        r@ == make_filesystem_of(device@, volume@),
{
    let mut arguments: Vec<String> = Vec::new();
    text::push_text(&mut arguments, "-v".to_owned());
    text::push_text(&mut arguments, volume.to_owned());
    text::push_text(&mut arguments, device.to_owned());
    assert(text::texts(arguments@) =~= seq!["-v"@, volume@, device@]);
    Command { program: "/sbin/newfs_hfs".to_owned(), arguments }
}

/// Mounts the device on a directory.
pub fn mount(device: &str, directory: &str) -> (r: Command)
    ensures
        r@ == mount_of(device@, directory@),
{
    let mut arguments: Vec<String> = Vec::new();
    text::push_text(&mut arguments, "-t".to_owned());
    text::push_text(&mut arguments, "hfs".to_owned());
    text::push_text(&mut arguments, "-o".to_owned());
    text::push_text(&mut arguments, "nobrowse".to_owned());
    text::push_text(&mut arguments, "-v".to_owned());
    text::push_text(&mut arguments, device.to_owned());
    text::push_text(&mut arguments, directory.to_owned());
    assert(text::texts(arguments@) =~= seq![
        "-t"@,
        "hfs"@,
        "-o"@,
        "nobrowse"@,
        "-v"@,
        device@,
        directory@,
    ]);
    Command { program: "/sbin/mount".to_owned(), arguments }
}

/// Takes the mount away again.
pub fn unmount(directory: &str) -> (r: Command)
    ensures
        r@ == unmount_of(directory@),
{
    let mut arguments: Vec<String> = Vec::new();
    text::push_text(&mut arguments, "-f".to_owned());
    text::push_text(&mut arguments, directory.to_owned());
    assert(text::texts(arguments@) =~= seq!["-f"@, directory@]);
    Command { program: "/sbin/umount".to_owned(), arguments }
}

/// Takes the ramdisk away again.
pub fn detach(device: &str) -> (r: Command)
    ensures
        r@ == detach_of(device@),
{
    let mut arguments: Vec<String> = Vec::new();
    text::push_text(&mut arguments, "detach".to_owned());
    text::push_text(&mut arguments, "-force".to_owned());
    text::push_text(&mut arguments, device.to_owned());
    assert(text::texts(arguments@) =~= seq!["detach"@, "-force"@, device@]);
    Command { program: "/usr/bin/hdiutil".to_owned(), arguments }
}

/// The device that the output of [`attach`] names: the output without the white
/// space around it. Output that is no text names none.
pub open spec fn device_of(output: Seq<u8>) -> Option<Seq<char>> {
    if vstd::utf8::valid_utf8(output) {
        Some(text::trim(vstd::utf8::decode_utf8(output)))
    } else {
        None
    }
}

/// The device that the output of [`attach`] names.
pub fn device(output: &[u8]) -> (r: Option<String>)
    ensures
        token::opt_text(r) == device_of(output@),
{
    match outside::utf8_text(output) {
        Ok(s) => Some(text::trimmed(s.as_str())),
        Err(_) => None,
    }
}

/// How far the ramdisk has come, and what has to be done next.
pub enum Ramdisk {
    /// The images need no ramdisk: they lie in anonymous files.
    Unneeded,
    /// Run this command, and name the volume.
    Attach { command: Command },
    /// Run this command.
    Format { command: Command, device: String },
    /// Make a directory to mount the device on.
    MakeDirectory { device: String },
    /// Run this command.
    Mount { command: Command, device: String, directory: String },
    /// The images go into this directory, until the launch is over.
    Ready { device: String, directory: String },
    /// Run this command.
    Unmount { command: Command, device: String },
    /// Run this command.
    Detach { command: Command },
    /// Nothing is left of it.
    Gone,
    /// It cannot be made, or cannot be taken away: the launch cannot go on.
    Failed,
}

pub enum RamdiskView {
    Unneeded,
    Attach { command: CommandView },
    Format { command: CommandView, device: Seq<char> },
    MakeDirectory { device: Seq<char> },
    Mount { command: CommandView, device: Seq<char>, directory: Seq<char> },
    Ready { device: Seq<char>, directory: Seq<char> },
    Unmount { command: CommandView, device: Seq<char> },
    Detach { command: CommandView },
    Gone,
    Failed,
}

impl View for Ramdisk {
    type V = RamdiskView;

    open spec fn view(&self) -> RamdiskView {
        match self {
            Ramdisk::Unneeded => RamdiskView::Unneeded,
            Ramdisk::Attach { command } => RamdiskView::Attach { command: command@ },
            Ramdisk::Format { command, device } => RamdiskView::Format {
                command: command@,
                device: device@,
            },
            Ramdisk::MakeDirectory { device } => RamdiskView::MakeDirectory { device: device@ },
            Ramdisk::Mount { command, device, directory } => RamdiskView::Mount {
                command: command@,
                device: device@,
                directory: directory@,
            },
            Ramdisk::Ready { device, directory } => RamdiskView::Ready {
                device: device@,
                directory: directory@,
            },
            Ramdisk::Unmount { command, device } => RamdiskView::Unmount {
                command: command@,
                device: device@,
            },
            Ramdisk::Detach { command } => RamdiskView::Detach { command: command@ },
            Ramdisk::Gone => RamdiskView::Gone,
            Ramdisk::Failed => RamdiskView::Failed,
        }
    }
}

/// What came of the last step.
pub enum RamdiskEvent {
    /// The output of the command, and a name for the volume.
    Attached { output: Vec<u8>, volume: String },
    /// Whether the command succeeded.
    Exited(bool),
    /// The directory.
    Directory(String),
    /// The launch is over.
    LaunchOver,
}

pub enum RamdiskEventView {
    Attached { output: Seq<u8>, volume: Seq<char> },
    Exited(bool),
    Directory(Seq<char>),
    LaunchOver,
}

impl View for RamdiskEvent {
    type V = RamdiskEventView;

    open spec fn view(&self) -> RamdiskEventView {
        match self {
            RamdiskEvent::Attached { output, volume } => RamdiskEventView::Attached {
                output: output@,
                volume: volume@,
            },
            RamdiskEvent::Exited(success) => RamdiskEventView::Exited(*success),
            RamdiskEvent::Directory(directory) => RamdiskEventView::Directory(directory@),
            RamdiskEvent::LaunchOver => RamdiskEventView::LaunchOver,
        }
    }
}

/// How the ramdisk for the images of these files begins: on macOS with a command,
/// elsewhere there is none.
pub open spec fn prepared(
    macos: bool,
    files: Seq<PackageFileView>,
    page_size: u64,
) -> RamdiskView {
    if !macos {
        RamdiskView::Unneeded
    } else {
        match sectors_of(files, page_size) {
            Some(n) => RamdiskView::Attach { command: attach_of(n) },
            None => RamdiskView::Failed,
        }
    }
}

/// The directory for the images: the one of a ramdisk that is ready, else empty.
pub open spec fn directory_of(state: RamdiskView) -> Seq<char> {
    match state {
        RamdiskView::Ready { directory, .. } => directory,
        _ => Seq::empty(),
    }
}

/// The command that is to be run, where there is one.
pub open spec fn command_of(state: RamdiskView) -> Option<CommandView> {
    match state {
        RamdiskView::Attach { command } => Some(command),
        RamdiskView::Format { command, .. } => Some(command),
        RamdiskView::Mount { command, .. } => Some(command),
        RamdiskView::Unmount { command, .. } => Some(command),
        RamdiskView::Detach { command } => Some(command),
        _ => None,
    }
}

/// The step that an event leads to. An event that is not waited for changes
/// nothing, and a command that does not succeed ends it all.
pub open spec fn next(state: RamdiskView, event: RamdiskEventView) -> RamdiskView {
    match (state, event) {
        (RamdiskView::Unneeded, RamdiskEventView::LaunchOver) => RamdiskView::Gone,
        (RamdiskView::Attach { .. }, RamdiskEventView::Attached { output, volume }) => {
            match device_of(output) {
                Some(device) => RamdiskView::Format {
                    command: make_filesystem_of(device, volume),
                    device,
                },
                None => RamdiskView::Failed,
            }
        },
        (RamdiskView::Format { device, .. }, RamdiskEventView::Exited(true)) => {
            RamdiskView::MakeDirectory { device }
        },
        (RamdiskView::MakeDirectory { device }, RamdiskEventView::Directory(directory)) => {
            RamdiskView::Mount { command: mount_of(device, directory), device, directory }
        },
        (RamdiskView::Mount { device, directory, .. }, RamdiskEventView::Exited(true)) => {
            RamdiskView::Ready { device, directory }
        },
        (RamdiskView::Ready { device, directory }, RamdiskEventView::LaunchOver) => {
            RamdiskView::Unmount { command: unmount_of(directory), device }
        },
        (RamdiskView::Unmount { device, .. }, RamdiskEventView::Exited(true)) => {
            RamdiskView::Detach { command: detach_of(device) }
        },
        (RamdiskView::Detach { .. }, RamdiskEventView::Exited(true)) => RamdiskView::Gone,
        (RamdiskView::Format { .. }, RamdiskEventView::Exited(false)) => RamdiskView::Failed,
        (RamdiskView::Mount { .. }, RamdiskEventView::Exited(false)) => RamdiskView::Failed,
        (RamdiskView::Unmount { .. }, RamdiskEventView::Exited(false)) => RamdiskView::Failed,
        (RamdiskView::Detach { .. }, RamdiskEventView::Exited(false)) => RamdiskView::Failed,
        _ => state,
    }
}

/// Begins the ramdisk for the images of these files, which only macOS needs.
pub fn prepare(macos: bool, files: &Vec<PackageFile>, page_size: u64) -> (r: Ramdisk)
    ensures
        r@ == prepared(macos, package::package_views(files@), page_size),
{
    if !macos {
        return Ramdisk::Unneeded;
    }
    match sectors(files, page_size) {
        Some(n) => Ramdisk::Attach { command: attach(n) },
        None => Ramdisk::Failed,
    }
}

impl Ramdisk {
    /// The directory for the images; empty where there is no ramdisk for them.
    pub fn directory(&self) -> (r: &str)
        ensures
            r@ == directory_of(self@),
    {
        match self {
            Ramdisk::Ready { device: _, directory } => directory.as_str(),
            _ => {
                proof {
                    reveal_strlit("");
                }
                assert(""@ =~= Seq::<char>::empty());
                ""
            },
        }
    }

    /// Takes the ramdisk one step on.
    pub fn advance(self, event: RamdiskEvent) -> (r: Ramdisk)
        ensures
            r@ == next(self@, event@),
    {
        match (self, event) {
            (Ramdisk::Unneeded, RamdiskEvent::LaunchOver) => Ramdisk::Gone,
            (Ramdisk::Attach { command: _ }, RamdiskEvent::Attached { output, volume }) => {
                match device(output.as_slice()) {
                    Some(device) => Ramdisk::Format {
                        command: make_filesystem(device.as_str(), volume.as_str()),
                        device,
                    },
                    None => Ramdisk::Failed,
                }
            },
            (Ramdisk::Format { command: _, device }, RamdiskEvent::Exited(success)) => {
                if success {
                    Ramdisk::MakeDirectory { device }
                } else {
                    Ramdisk::Failed
                }
            },
            (Ramdisk::MakeDirectory { device }, RamdiskEvent::Directory(directory)) => {
                Ramdisk::Mount {
                    command: mount(device.as_str(), directory.as_str()),
                    device,
                    directory,
                }
            },
            (Ramdisk::Mount { command: _, device, directory }, RamdiskEvent::Exited(success)) => {
                if success {
                    Ramdisk::Ready { device, directory }
                } else {
                    Ramdisk::Failed
                }
            },
            (Ramdisk::Ready { device, directory }, RamdiskEvent::LaunchOver) => Ramdisk::Unmount {
                command: unmount(directory.as_str()),
                device,
            },
            (Ramdisk::Unmount { command: _, device }, RamdiskEvent::Exited(success)) => {
                if success {
                    Ramdisk::Detach { command: detach(device.as_str()) }
                } else {
                    Ramdisk::Failed
                }
            },
            (Ramdisk::Detach { command: _ }, RamdiskEvent::Exited(success)) => {
                if success {
                    Ramdisk::Gone
                } else {
                    Ramdisk::Failed
                }
            },
            (state, _) => state,
        }
    }
}

/// A ramdisk is large enough for the images and the spare pages of all files that
/// are kept encrypted: its sectors of 512 bytes hold twice as much.
pub proof fn law_ramdisk_is_large_enough(files: Seq<PackageFileView>, page_size: u64)
    ensures
        sectors_of(files, page_size) matches Some(n) ==> 2 * image_bytes(
            package::encrypted(files),
            page_size,
        ) <= 512 * n,
{
    let held = package::encrypted(files);
    lemma_image_bytes_grow(held, 0, page_size);
    package::law_units_are_just_enough(image_bytes(held, page_size), SECTOR as int);
}

/// Where the images need no ramdisk, no command is ever run for them and their
/// directory is empty, whatever happens until the launch is over.
pub proof fn law_no_ramdisk_where_none_is_needed(
    files: Seq<PackageFileView>,
    page_size: u64,
    state: RamdiskView,
    event: RamdiskEventView,
)
    requires
        state == prepared(false, files, page_size) || state == RamdiskView::Gone,
    ensures
        command_of(state) is None,
        directory_of(state) == Seq::<char>::empty(),
        next(state, event) == prepared(false, files, page_size) || next(state, event)
            == RamdiskView::Gone,
        next(prepared(false, files, page_size), RamdiskEventView::LaunchOver)
            == RamdiskView::Gone,
{
}

/// The device that was attached is the one that gets a file system, is mounted
/// and is detached in the end, and the directory that it is mounted on is the one
/// that holds the images and is unmounted, before the device goes.
pub proof fn law_ramdisk_is_taken_away_as_it_was_made(
    files: Seq<PackageFileView>,
    page_size: u64,
    output: Seq<u8>,
    volume: Seq<char>,
    directory: Seq<char>,
)
    requires
        sectors_of(files, page_size) is Some,
        vstd::utf8::valid_utf8(output),
    ensures
        ({
            let device = text::trim(vstd::utf8::decode_utf8(output));
            let attaching = prepared(true, files, page_size);
            let formatting = next(attaching, RamdiskEventView::Attached { output, volume });
            let naming = next(formatting, RamdiskEventView::Exited(true));
            let mounting = next(naming, RamdiskEventView::Directory(directory));
            let ready = next(mounting, RamdiskEventView::Exited(true));
            let unmounting = next(ready, RamdiskEventView::LaunchOver);
            let detaching = next(unmounting, RamdiskEventView::Exited(true));
            &&& attaching == (RamdiskView::Attach {
                command: attach_of(sectors_of(files, page_size)->0),
            })
            &&& formatting == (RamdiskView::Format {
                command: make_filesystem_of(device, volume),
                device,
            })
            &&& mounting == (RamdiskView::Mount {
                command: mount_of(device, directory),
                device,
                directory,
            })
            &&& ready == (RamdiskView::Ready { device, directory })
            &&& directory_of(ready) == directory
            &&& unmounting == (RamdiskView::Unmount { command: unmount_of(directory), device })
            &&& detaching == (RamdiskView::Detach { command: detach_of(device) })
            &&& next(detaching, RamdiskEventView::Exited(true)) == RamdiskView::Gone
        }),
{
}

/// No step follows a command that did not succeed, and a mounted device is
/// detached only after it was unmounted.
pub proof fn law_ramdisk_commands_must_succeed(state: RamdiskView, event: RamdiskEventView)
    ensures
        next(RamdiskView::Failed, event) == RamdiskView::Failed,
        event == RamdiskEventView::Exited(false) ==> next(state, event) == state || next(
            state,
            event,
        ) == RamdiskView::Failed,
        next(state, event) is Ready && !(state is Ready) ==> state is Mount && event
            == RamdiskEventView::Exited(true),
        next(state, event) is Detach && !(state is Detach) ==> state is Unmount && event
            == RamdiskEventView::Exited(true),
{
}

/// The bytes add up file by file: the length of each and four pages.
pub proof fn law_image_bytes_add_up(
    files: Seq<PackageFileView>,
    file: PackageFileView,
    page_size: u64,
)
    ensures
        image_bytes(Seq::empty(), page_size) == 0,
        image_bytes(files.push(file), page_size) == image_bytes(files, page_size) + file.length + 4
            * page_size,
{
    assert(files.push(file).drop_last() =~= files);
}

/// One sector is asked for per 256 bytes, the last one in part; none where no file
/// is kept encrypted or the bytes do not fit into 64 bits.
pub proof fn law_sectors_are_just_enough(files: Seq<PackageFileView>, page_size: u64)
    ensures
        sectors_of(files, page_size) is None <==> package::encrypted(files).len() == 0
            || image_bytes(package::encrypted(files), page_size) > 0xffff_ffff_ffff_ffff,
        sectors_of(files, page_size) matches Some(n) ==> {
            let bytes = image_bytes(package::encrypted(files), page_size);
            &&& bytes <= 256 * n
            &&& bytes > 256 * (n - 1)
        },
        prepared(true, files, page_size) == (match sectors_of(files, page_size) {
            Some(n) => RamdiskView::Attach { command: attach_of(n) },
            None => RamdiskView::Failed,
        }),
{
    let held = package::encrypted(files);
    lemma_image_bytes_grow(held, 0, page_size);
    package::law_units_are_just_enough(image_bytes(held, page_size), SECTOR as int);
}

/// The five commands, word by word.
pub proof fn law_commands_word_by_word(
    n: nat,
    device: Seq<char>,
    volume: Seq<char>,
    directory: Seq<char>,
)
    ensures
        attach_of(n as int).program == "/usr/bin/hdiutil"@,
        attach_of(n as int).arguments == seq![
            "attach"@,
            "-nomount"@,
            "ram://"@ + text::decimal(n),
        ],
        make_filesystem_of(device, volume).program == "/sbin/newfs_hfs"@,
        make_filesystem_of(device, volume).arguments == seq!["-v"@, volume, device],
        mount_of(device, directory).program == "/sbin/mount"@,
        mount_of(device, directory).arguments == seq![
            "-t"@,
            "hfs"@,
            "-o"@,
            "nobrowse"@,
            "-v"@,
            device,
            directory,
        ],
        unmount_of(directory).program == "/sbin/umount"@,
        unmount_of(directory).arguments == seq!["-f"@, directory],
        detach_of(device).program == "/usr/bin/hdiutil"@,
        detach_of(device).arguments == seq!["detach"@, "-force"@, device],
{
}

/// The device is what the output holds between the white space around it; output that
/// is no UTF-8 names none, and then there is no ramdisk.
pub proof fn law_device_is_the_output_without_white_space(
    lead: Seq<char>,
    device: Seq<char>,
    trail: Seq<char>,
    output: Seq<u8>,
    volume: Seq<char>,
    command: CommandView,
)
    requires
        forall|i: int| 0 <= i < lead.len() ==> text::blank(#[trigger] lead[i]),
        forall|i: int| 0 <= i < trail.len() ==> text::blank(#[trigger] trail[i]),
        device.len() > 0 ==> !text::blank(device[0]) && !text::blank(device.last()),
        device.len() == 0 ==> trail.len() == 0,
    ensures
        device_of(vstd::utf8::encode_utf8(lead + device + trail)) == Some(device),
        !vstd::utf8::valid_utf8(output) ==> device_of(output) is None,
        !vstd::utf8::valid_utf8(output) ==> next(
            RamdiskView::Attach { command },
            RamdiskEventView::Attached { output, volume },
        ) == RamdiskView::Failed,
{
    let shown = lead + device + trail;
    vstd::utf8::encode_utf8_valid_utf8(shown);
    vstd::utf8::encode_utf8_decode_utf8(shown);
    text::law_white_space_is_trimmed(lead, device, trail);
}

/// Whether the ramdisk waits for an event.
pub open spec fn awaits(state: RamdiskView, event: RamdiskEventView) -> bool {
    match state {
        RamdiskView::Unneeded => event is LaunchOver,
        RamdiskView::Attach { .. } => event is Attached,
        RamdiskView::MakeDirectory { .. } => event is Directory,
        RamdiskView::Ready { .. } => event is LaunchOver,
        RamdiskView::Gone | RamdiskView::Failed => false,
        _ => event is Exited,
    }
}

/// An event that is not waited for changes nothing.
pub proof fn law_only_awaited_events_lead_on(state: RamdiskView, event: RamdiskEventView)
    ensures
        !awaits(state, event) ==> next(state, event) == state,
{
}

} // verus!
