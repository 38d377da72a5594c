//! Which wine starts the game, and which binary is the service: candidates in
//! their order, of which the first that is an executable file is taken.

use vstd::prelude::*;
use vstd::string::*;

use crate::path;
use crate::text;

verus! {

broadcast use vstd::string::group_string_axioms;

/// What the file system says about a path: whether it is a regular file, and
/// its mode bits.
#[derive(Clone, Copy, Debug, PartialEq, Eq, Structural)]
pub struct FileStatus {
    pub is_file: bool,
    pub mode: u32,
}

/// Somebody may execute a file with these mode bits: its owner, its group or
/// the others.
pub open spec fn may_execute(mode: u32) -> bool {
    mode & 0o100 != 0 || mode & 0o010 != 0 || mode & 0o001 != 0
}

/// Whether a path is an executable file; one without a status is none.
pub fn is_executable_file(status: Option<FileStatus>) -> (r: bool)
    ensures
        r == (status is Some && status->0.is_file && may_execute(status->0.mode)),
{
    match status {
        Some(status) => {
            let mode = status.mode;
            assert((mode & 0o111 != 0) == (mode & 0o100 != 0 || mode & 0o010 != 0 || mode & 0o001
                != 0)) by (bit_vector);
            status.is_file && mode & 0o111 != 0
        },
        None => false,
    }
}

/// A component that counts: neither empty nor the current directory.
pub open spec fn counts(piece: Seq<char>) -> bool {
    piece.len() > 0 && piece != seq!['.']
}

/// How many of the pieces count.
pub open spec fn counted(pieces: Seq<Seq<char>>) -> nat
    decreases pieces.len(),
{
    if pieces.len() == 0 {
        0
    } else {
        counted(pieces.drop_last()) + (if counts(pieces.last()) {
            1nat
        } else {
            0nat
        })
    }
}

/// The number of components of a Unix path: the root, a leading `.`, and every
/// other piece that is neither empty nor `.`.
pub open spec fn component_count(value: Seq<char>) -> nat {
    let root = value.len() > 0 && value[0] == '/';
    let here = value.len() > 0 && value[0] == '.' && (value.len() == 1 || value[1] == '/');
    (if root || here {
        1nat
    } else {
        0nat
    }) + counted(text::split(value, '/'))
}

/// Whether a path has more than one component, so that it is no mere name.
pub fn has_directory(value: &str) -> (r: bool)
    ensures
        r == (component_count(value@) > 1),
{
    let v = text::chars_of(value);
    let mut done: usize = 0;
    let mut length: usize = 0;
    let mut dot: bool = false;
    let mut i: usize = 0;
    assert(v@.take(0) =~= Seq::<char>::empty());
    assert(text::split(v@.take(0), '/').drop_last() =~= Seq::<Seq<char>>::empty());
    while i < v.len()
        invariant
            i <= v.len(),
            v@ == value@,
            done <= i,
            length <= i,
            text::split(v@.take(i as int), '/').len() > 0,
            done == counted(text::split(v@.take(i as int), '/').drop_last()),
            length == text::split(v@.take(i as int), '/').last().len(),
            dot == (text::split(v@.take(i as int), '/').last() == seq!['.']),
            done + length <= i,
        decreases v.len() - i,
    {
        let ghost pieces = text::split(v@.take(i as int), '/');
        let ghost longer = text::split(v@.take(i + 1), '/');
        proof {
            assert(v@.take(i + 1).drop_last() =~= v@.take(i as int));
            assert(v@.take(i + 1).last() == v@[i as int]);
            assert(pieces.drop_last().push(pieces.last()) =~= pieces);
        }
        if v[i] == '/' {
            if length > 0 && !dot {
                done = done + 1;
            }
            length = 0;
            dot = false;
            assert(longer.drop_last() =~= pieces);
            assert(longer.last().len() == 0);
            assert(seq!['.'].len() == 1);
        } else {
            dot = length == 0 && v[i] == '.';
            assert(longer.drop_last() =~= pieces.drop_last());
            assert(longer.last() == pieces.last().push(v@[i as int]));
            proof {
                if pieces.last().len() == 0 {
                    assert(longer.last() =~= seq![v@[i as int]]);
                    assert(seq!['.'][0] == '.');
                    assert(longer.last()[0] == v@[i as int]);
                } else {
                    assert(longer.last().len() > 1);
                    assert(seq!['.'].len() == 1);
                }
            }
            length = length + 1;
        }
        i = i + 1;
    }
    assert(v@.take(i as int) =~= v@);
    let mut more: bool = false;
    if v.len() > 0 {
        if v[0] == '/' || (v[0] == '.' && (v.len() == 1 || v[1] == '/')) {
            more = true;
        }
    }
    let last: bool = length > 0 && !dot;
    if more {
        done > 0 || last
    } else {
        done > 1 || (done == 1 && last)
    }
}

/// Where a name for wine was given.
#[derive(Clone, Copy, Debug, PartialEq, Eq, Structural)]
pub enum Origin {
    /// As an argument.
    Argument,
    /// In the environment variable `XODUS_WINE`.
    Environment,
}

impl Origin {
    pub open spec fn label(self) -> Seq<char> {
        match self {
            Origin::Argument => "wine argument"@,
            Origin::Environment => "XODUS_WINE"@,
        }
    }
}

/// What the candidates are taken from.
pub enum WineChoiceView {
    /// This path and no other.
    File { value: Seq<char>, origin: Origin },
    /// This name, in the directories of the search path.
    Name { value: Seq<char>, origin: Origin },
    /// `xodus-wine`, then `wine`, in the directories of the search path.
    Default,
}

/// A value that was given: a path where it has a directory, else a name.
pub open spec fn named(value: Seq<char>, origin: Origin) -> WineChoiceView {
    if component_count(value) > 1 {
        WineChoiceView::File { value, origin }
    } else {
        WineChoiceView::Name { value, origin }
    }
}

/// The argument comes before the environment variable, that one before the
/// search path.
pub open spec fn wine_choice(
    explicit: Option<Seq<char>>,
    xodus_wine: Option<Seq<char>>,
) -> WineChoiceView {
    match (explicit, xodus_wine) {
        (Some(value), _) => named(value, Origin::Argument),
        (None, Some(value)) => named(value, Origin::Environment),
        (None, None) => WineChoiceView::Default,
    }
}

/// A name in each directory, in the order of the directories.
pub open spec fn in_dirs(dirs: Seq<Seq<u8>>, name: Seq<char>) -> Seq<Seq<u8>> {
    dirs.map_values(|dir: Seq<u8>| path::joined(dir, path::bytes_of(name)))
}

/// The paths that are tried, in their order.
pub open spec fn candidates_of(choice: WineChoiceView, dirs: Seq<Seq<u8>>) -> Seq<Seq<u8>> {
    match choice {
        WineChoiceView::File { value, .. } => seq![path::bytes_of(value)],
        WineChoiceView::Name { value, .. } => in_dirs(dirs, value),
        WineChoiceView::Default => in_dirs(dirs, "xodus-wine"@) + in_dirs(dirs, "wine"@),
    }
}

/// The position of the first `true`.
pub open spec fn first_true(flags: Seq<bool>) -> Option<int>
    decreases flags.len(),
{
    if flags.len() == 0 {
        None
    } else if flags[0] {
        Some(0)
    } else {
        match first_true(flags.drop_first()) {
            Some(i) => Some(i + 1),
            None => None,
        }
    }
}

/// The position of the first of these candidates that is an executable file; one
/// of which nothing is known is none.
pub open spec fn first_executable(candidates: Seq<Seq<u8>>, executable: Seq<bool>) -> Option<int> {
    first_true(
        Seq::new(candidates.len(), |i: int| i < executable.len() && executable[i]),
    )
}

/// Why no wine was found.
pub open spec fn no_wine_message(choice: WineChoiceView) -> Seq<char> {
    match choice {
        WineChoiceView::File { value, origin } => origin.label() + " `"@ + value
            + "` is not an executable file"@,
        WineChoiceView::Name { value, origin } => origin.label() + " `"@ + value
            + "` was not found in PATH"@,
        WineChoiceView::Default => no_wine_text(),
    }
}

pub open spec fn no_wine_text() -> Seq<char> {
    "no wine found: pass a path as the second argument, set XODUS_WINE, or put `xodus-wine` (or `wine`) in PATH; see docs/xodus/wine.md for the required build"@
}

/// The wine to start.
pub struct Wine {
    pub path: Vec<u8>,
    /// A plain `wine` was taken: a stock build fails to load the encrypted
    /// executables, so the user is warned.
    pub fallback: bool,
}

pub struct WineView {
    pub path: Seq<u8>,
    pub fallback: bool,
}

impl View for Wine {
    type V = WineView;

    open spec fn view(&self) -> WineView {
        WineView { path: self.path@, fallback: self.fallback }
    }
}

/// The first candidate that is an executable file, with a warning where it is
/// a plain `wine`.
pub open spec fn resolved(
    choice: WineChoiceView,
    dirs: Seq<Seq<u8>>,
    executable: Seq<bool>,
) -> Result<WineView, Seq<char>> {
    match first_executable(candidates_of(choice, dirs), executable) {
        Some(i) => Ok(
            WineView {
                path: candidates_of(choice, dirs)[i],
                fallback: choice is Default && i >= dirs.len(),
            },
        ),
        None => Err(no_wine_message(choice)),
    }
}

/// The view of what was found or of the reason why nothing was.
pub open spec fn wine_view(r: Result<Wine, String>) -> Result<WineView, Seq<char>> {
    match r {
        Ok(wine) => Ok(wine@),
        Err(e) => Err(e@),
    }
}

/// What the paths of a list hold.
pub open spec fn paths_view(paths: Seq<Vec<u8>>) -> Seq<Seq<u8>> {
    paths.map_values(|p: Vec<u8>| p@)
}

pub open spec fn opt_view(s: Option<&str>) -> Option<Seq<char>> {
    match s {
        Some(s) => Some(s@),
        None => None,
    }
}

/// The candidates for a name are added to the end of a list.
fn push_in_dirs(list: &mut Vec<Vec<u8>>, dirs: &Vec<Vec<u8>>, name: &str)
    ensures
        paths_view(final(list)@) == paths_view(old(list)@) + in_dirs(paths_view(dirs@), name@),
{
    let ghost all = in_dirs(paths_view(dirs@), name@);
    let mut i: usize = 0;
    assert(paths_view(list@) =~= paths_view(old(list)@) + all.take(0));
    while i < dirs.len()
        invariant
            i <= dirs.len(),
            all == in_dirs(paths_view(dirs@), name@),
            paths_view(list@) == paths_view(old(list)@) + all.take(i as int),
        decreases dirs.len() - i,
    {
        let ghost so_far = list@;
        let candidate = path::join(dirs[i].as_slice(), name.as_bytes());
        assert(paths_view(dirs@)[i as int] == dirs@[i as int]@);
        assert(candidate@ == all[i as int]);
        list.push(candidate);
        assert(paths_view(list@) =~= paths_view(so_far).push(all[i as int]));
        assert(paths_view(list@) =~= paths_view(old(list)@) + all.take(i + 1));
        i = i + 1;
    }
    assert(all.take(i as int) =~= all);
}

/// The paths that are tried for wine, in their order: of each it has to be
/// found out whether it is an executable file.
pub fn wine_candidates(
    explicit: Option<&str>,
    xodus_wine: Option<&str>,
    dirs: &Vec<Vec<u8>>,
) -> (r: Vec<Vec<u8>>)
    ensures
        paths_view(r@) == candidates_of(
            wine_choice(opt_view(explicit), opt_view(xodus_wine)),
            paths_view(dirs@),
        ),
{
    let mut r: Vec<Vec<u8>> = Vec::new();
    assert(paths_view(r@) =~= Seq::<Seq<u8>>::empty());
    let given = match explicit {
        Some(value) => Some(value),
        None => xodus_wine,
    };
    match given {
        Some(value) => {
            if has_directory(value) {
                r.push(path::copy_bytes(value.as_bytes()));
                assert(paths_view(r@) =~= seq![path::bytes_of(value@)]);
            } else {
                push_in_dirs(&mut r, dirs, value);
                assert(paths_view(r@) =~= in_dirs(paths_view(dirs@), value@));
            }
        },
        None => {
            push_in_dirs(&mut r, dirs, "xodus-wine");
            push_in_dirs(&mut r, dirs, "wine");
            assert(paths_view(r@) =~= in_dirs(paths_view(dirs@), "xodus-wine"@) + in_dirs(
                paths_view(dirs@),
                "wine"@,
            ));
        },
    }
    r
}

/// The position of the first candidate that is an executable file.
fn position_of_executable(candidates: &Vec<Vec<u8>>, executable: &Vec<bool>) -> (r: Option<usize>)
    ensures
        match r {
            Some(i) => i < candidates.len() && first_executable(
                paths_view(candidates@),
                executable@,
            ) == Some(i as int),
            None => first_executable(paths_view(candidates@), executable@) is None,
        },
{
    let ghost flags = Seq::new(
        paths_view(candidates@).len(),
        |i: int| i < executable@.len() && executable@[i],
    );
    let mut i: usize = 0;
    assert(flags.skip(0) =~= flags);
    while i < candidates.len()
        invariant
            i <= candidates.len(),
            flags == Seq::new(
                paths_view(candidates@).len(),
                |i: int| i < executable@.len() && executable@[i],
            ),
            first_true(flags) == (match first_true(flags.skip(i as int)) {
                Some(k) => Some(k + i),
                None => None,
            }),
        decreases candidates.len() - i,
    {
        assert(flags.skip(i as int).drop_first() =~= flags.skip(i + 1));
        if i < executable.len() && executable[i] {
            return Some(i);
        }
        i = i + 1;
    }
    None
}

fn named_message(origin: Origin, value: &str, tail: &str) -> (r: String)
    ensures
        r@ == origin.label() + " `"@ + value@ + tail@,
{
    let mut r = String::new();
    match origin {
        Origin::Argument => r.append("wine argument"),
        Origin::Environment => r.append("XODUS_WINE"),
    }
    r.append(" `");
    r.append(value);
    r.append(tail);
    assert(r@ =~= origin.label() + " `"@ + value@ + tail@);
    r
}

/// The wine to start, from what is known of its candidates. The order is: the
/// explicit argument, `XODUS_WINE`, `xodus-wine` in the search path, plain
/// `wine` in the search path. A candidate without a flag counts as none.
pub fn resolve_wine(
    explicit: Option<&str>,
    xodus_wine: Option<&str>,
    dirs: &Vec<Vec<u8>>,
    executable: &Vec<bool>,
) -> (r: Result<Wine, String>)
    ensures
        wine_view(r) == resolved(
            wine_choice(opt_view(explicit), opt_view(xodus_wine)),
            paths_view(dirs@),
            executable@,
        ),
{
    let candidates = wine_candidates(explicit, xodus_wine, dirs);
    match position_of_executable(&candidates, executable) {
        Some(i) => {
            let fallback = explicit.is_none() && xodus_wine.is_none() && i >= dirs.len();
            assert(paths_view(candidates@)[i as int] == candidates@[i as int]@);
            Ok(Wine { path: path::copy_bytes(candidates[i].as_slice()), fallback })
        },
        None => match (explicit, xodus_wine) {
            (Some(value), _) => if has_directory(value) {
                Err(named_message(Origin::Argument, value, "` is not an executable file"))
            } else {
                Err(named_message(Origin::Argument, value, "` was not found in PATH"))
            },
            (None, Some(value)) => if has_directory(value) {
                Err(named_message(Origin::Environment, value, "` is not an executable file"))
            } else {
                Err(named_message(Origin::Environment, value, "` was not found in PATH"))
            },
            (None, None) => Err(
                "no wine found: pass a path as the second argument, set XODUS_WINE, or put `xodus-wine` (or `wine`) in PATH; see docs/xodus/wine.md for the required build".to_owned(),
            ),
        },
    }
}

/// What the user is told where a plain `wine` was taken; `shown` is its path as
/// it is displayed.
pub fn fallback_warning(shown: &str) -> (r: String)
    ensures
        r@ == "warning: falling back to `"@ + shown@
            + "` from PATH; running games requires a wine build with WINE_DLL_FILE_MAP support (see docs/xodus/wine.md) - stock wine will fail to load the encrypted executables"@,
{
    let r = text::concat("warning: falling back to `", shown);
    text::concat(
        r.as_str(),
        "` from PATH; running games requires a wine build with WINE_DLL_FILE_MAP support (see docs/xodus/wine.md) - stock wine will fail to load the encrypted executables",
    )
}

/// The paths that are tried for the service: next to the running program, then
/// in the directories of the search path.
pub open spec fn service_candidates_of(exe_dir: Option<Seq<u8>>, dirs: Seq<Seq<u8>>) -> Seq<
    Seq<u8>,
> {
    match exe_dir {
        Some(dir) => in_dirs(seq![dir] + dirs, "xodus-service"@),
        None => in_dirs(dirs, "xodus-service"@),
    }
}

pub open spec fn opt_path_view(p: Option<&Vec<u8>>) -> Option<Seq<u8>> {
    match p {
        Some(p) => Some(p@),
        None => None,
    }
}

/// The paths that are tried for the service, in their order.
pub fn service_candidates(exe_dir: Option<&Vec<u8>>, dirs: &Vec<Vec<u8>>) -> (r: Vec<Vec<u8>>)
    ensures
        paths_view(r@) == service_candidates_of(opt_path_view(exe_dir), paths_view(dirs@)),
{
    let mut r: Vec<Vec<u8>> = Vec::new();
    assert(paths_view(r@) =~= Seq::<Seq<u8>>::empty());
    match exe_dir {
        Some(dir) => {
            r.push(path::join(dir.as_slice(), "xodus-service".as_bytes()));
            assert(paths_view(r@) =~= in_dirs(seq![dir@], "xodus-service"@));
        },
        None => {},
    }
    push_in_dirs(&mut r, dirs, "xodus-service");
    assert(paths_view(r@) =~= service_candidates_of(opt_path_view(exe_dir), paths_view(dirs@)));
    r
}

/// The binary of the service: the first candidate that is an executable file. A
/// candidate without a flag counts as none.
pub fn find_service_binary(
    exe_dir: Option<&Vec<u8>>,
    dirs: &Vec<Vec<u8>>,
    executable: &Vec<bool>,
) -> (r: Option<Vec<u8>>)
    ensures
        match first_executable(
            service_candidates_of(opt_path_view(exe_dir), paths_view(dirs@)),
            executable@,
        ) {
            Some(i) => r is Some && r->0@ == service_candidates_of(
                opt_path_view(exe_dir),
                paths_view(dirs@),
            )[i],
            None => r is None,
        },
{
    let candidates = service_candidates(exe_dir, dirs);
    match position_of_executable(&candidates, executable) {
        Some(i) => {
            assert(paths_view(candidates@)[i as int] == candidates@[i as int]@);
            Some(path::copy_bytes(candidates[i].as_slice()))
        },
        None => None,
    }
}

/// The first `true` is a `true` with none before it, and there is one wherever
/// any flag is set.
pub proof fn law_first_true(flags: Seq<bool>)
    ensures
        first_true(flags) matches Some(i) ==> 0 <= i < flags.len() && flags[i] && forall|j: int|
            0 <= j < i ==> !flags[j],
        first_true(flags) is None <==> forall|j: int| 0 <= j < flags.len() ==> !flags[j],
    decreases flags.len(),
{
    if flags.len() > 0 && !flags[0] {
        let rest = flags.drop_first();
        law_first_true(rest);
        match first_true(rest) {
            Some(i) => {
                assert(rest[i] == flags[i + 1]);
                assert forall|j: int| 0 <= j < i + 1 implies !flags[j] by {
                    if j > 0 {
                        assert(!rest[j - 1]);
                    }
                }
            },
            None => {
                assert forall|j: int| 0 <= j < flags.len() implies !flags[j] by {
                    if j > 0 {
                        assert(!rest[j - 1]);
                    }
                }
            },
        }
    }
}

/// An argument decides alone, and the environment variable does where there is
/// no argument: nothing that comes later in the order is tried.
pub proof fn law_given_wine_decides(
    value: Seq<char>,
    xodus_wine: Option<Seq<char>>,
    dirs: Seq<Seq<u8>>,
)
    ensures
        wine_choice(Some(value), xodus_wine) == named(value, Origin::Argument),
        wine_choice(None, Some(value)) == named(value, Origin::Environment),
        component_count(value) > 1 ==> candidates_of(
            wine_choice(Some(value), xodus_wine),
            dirs,
        ) == seq![path::bytes_of(value)],
        component_count(value) > 1 ==> candidates_of(wine_choice(None, Some(value)), dirs) == seq![
            path::bytes_of(value),
        ],
        component_count(value) <= 1 ==> candidates_of(wine_choice(Some(value), xodus_wine), dirs)
            == in_dirs(dirs, value),
        component_count(value) <= 1 ==> candidates_of(wine_choice(None, Some(value)), dirs)
            == in_dirs(dirs, value),
{
}

/// Wine is found exactly where one of its candidates is an executable file, and
/// it is the first of these.
pub proof fn law_wine_is_found(
    choice: WineChoiceView,
    dirs: Seq<Seq<u8>>,
    executable: Seq<bool>,
)
    requires
        executable.len() == candidates_of(choice, dirs).len(),
    ensures
        resolved(choice, dirs, executable) is Ok <==> exists|i: int|
            0 <= i < executable.len() && executable[i],
        forall|i: int|
            0 <= i < executable.len() && #[trigger] executable[i] && (forall|j: int|
                0 <= j < i ==> !executable[j]) ==> resolved(choice, dirs, executable)->Ok_0.path
                == candidates_of(choice, dirs)[i],
{
    let flags = Seq::new(
        candidates_of(choice, dirs).len(),
        |i: int| i < executable.len() && executable[i],
    );
    assert(flags =~= executable);
    law_first_true(executable);
}

/// Without a given wine, `xodus-wine` is taken from the search path where it is
/// there, and a plain `wine`, with a warning, only where it is not.
pub proof fn law_plain_wine_is_the_last_resort(dirs: Seq<Seq<u8>>, executable: Seq<bool>)
    requires
        executable.len() == candidates_of(WineChoiceView::Default, dirs).len(),
    ensures
        resolved(WineChoiceView::Default, dirs, executable) matches Ok(wine) ==> {
            &&& wine.fallback <==> forall|i: int| 0 <= i < dirs.len() ==> !executable[i]
            &&& !wine.fallback ==> in_dirs(dirs, "xodus-wine"@).contains(wine.path)
            &&& wine.fallback ==> in_dirs(dirs, "wine"@).contains(wine.path)
        },
{
    let flags = Seq::new(
        candidates_of(WineChoiceView::Default, dirs).len(),
        |i: int| i < executable.len() && executable[i],
    );
    assert(flags =~= executable);
    law_first_true(executable);
    let own = in_dirs(dirs, "xodus-wine"@);
    let plain = in_dirs(dirs, "wine"@);
    match first_true(executable) {
        Some(i) => {
            if i < dirs.len() {
                assert((own + plain)[i] == own[i]);
            } else {
                assert((own + plain)[i] == plain[i - dirs.len()]);
            }
        },
        None => {},
    }
}

/// A file may be executed by its owner, its group or the others: any one of the
/// three bits is enough, and no other bit counts.
pub proof fn law_any_execute_bit_is_enough(mode: u32)
    ensures
        may_execute(mode) <==> (mode / 64) % 2 == 1 || (mode / 8) % 2 == 1 || mode % 2 == 1,
{
    assert((mode & 0o100 != 0) == ((mode / 64) % 2 == 1)) by (bit_vector);
    assert((mode & 0o010 != 0) == ((mode / 8) % 2 == 1)) by (bit_vector);
    assert((mode & 0o001 != 0) == (mode % 2 == 1)) by (bit_vector);
}

proof fn lemma_counted_concat(a: Seq<Seq<char>>, b: Seq<Seq<char>>)
    ensures
        counted(a + b) == counted(a) + counted(b),
    decreases b.len(),
{
    if b.len() == 0 {
        assert(a + b =~= a);
    } else {
        assert((a + b).drop_last() =~= a + b.drop_last());
        lemma_counted_concat(a, b.drop_last());
    }
}

proof fn lemma_counted_single(piece: Seq<char>)
    ensures
        counted(seq![piece]) == (if counts(piece) {
            1nat
        } else {
            0nat
        }),
{
    assert(seq![piece].drop_last() =~= Seq::<Seq<char>>::empty());
    assert(counted(seq![piece].drop_last()) == 0);
}

proof fn lemma_counted_first(pieces: Seq<Seq<char>>)
    requires
        pieces.len() > 0,
        counts(pieces[0]),
    ensures
        counted(pieces) > 0,
{
    assert(pieces =~= seq![pieces[0]] + pieces.skip(1));
    lemma_counted_concat(seq![pieces[0]], pieces.skip(1));
    lemma_counted_single(pieces[0]);
}

proof fn lemma_first_piece(value: Seq<char>)
    requires
        value.len() > 0,
        value[0] != '/',
    ensures
        text::split(value, '/').len() > 0,
        text::split(value, '/')[0].len() > 0,
        text::split(value, '/')[0] == seq!['.'] ==> value[0] == '.' && (value.len() == 1
            || value[1] == '/'),
    decreases value.len(),
{
    let front = value.drop_last();
    let pieces = text::split(front, '/');
    text::lemma_split_nonempty(value, '/');
    if value.len() == 1 {
        assert(front =~= Seq::<char>::empty());
        assert(pieces == seq![Seq::<char>::empty()]);
        assert(text::split(value, '/')[0] =~= seq![value[0]]);
        assert(seq![value[0]][0] == value[0]);
        assert(seq!['.'][0] == '.');
    } else {
        lemma_first_piece(front);
        if value.last() != '/' && pieces.len() == 1 {
            assert(text::split(value, '/')[0] == pieces[0].push(value.last()));
            assert(text::split(value, '/')[0].len() >= 2);
            assert(seq!['.'].len() == 1);
        } else {
            assert(text::split(value, '/')[0] == pieces[0]);
            if value.last() != '/' && value.len() == 2 {
                text::lemma_split_single(front, '/');
            }
        }
    }
}

/// A text without a slash is a name and not a path.
pub proof fn law_text_without_a_slash_is_a_name(value: Seq<char>)
    requires
        !value.contains('/'),
    ensures
        component_count(value) <= 1,
{
    text::lemma_split_single(value, '/');
    lemma_counted_single(value);
    if value.len() > 0 {
        assert(value.contains(value[0]));
        if value.len() > 1 {
            assert(value.contains(value[1]));
        }
        if value.len() == 1 && value[0] == '.' {
            assert(value =~= seq!['.']);
        }
    }
}

/// Whatever stands in front of it, a slash with a name behind it makes a path.
pub proof fn law_slash_before_a_name_makes_a_path(front: Seq<char>, name: Seq<char>)
    requires
        name.len() > 0,
        !name.contains('/'),
        !(name.len() == 1 && name[0] == '.'),
    ensures
        component_count(front + seq!['/'] + name) > 1,
{
    let value = front + seq!['/'] + name;
    assert(name != seq!['.']) by {
        assert(seq!['.'].len() == 1 && seq!['.'][0] == '.');
    }
    text::lemma_split_single(name, '/');
    text::lemma_split_concat(front, name, '/');
    lemma_counted_concat(text::split(front, '/'), seq![name]);
    lemma_counted_single(name);
    if front.len() == 0 {
        assert(value[0] == '/');
    } else {
        assert(value[0] == front[0]);
        if front[0] != '/' {
            lemma_first_piece(front);
            let first = text::split(front, '/')[0];
            if first == seq!['.'] {
                assert(value[1] == '/');
            } else {
                lemma_counted_first(text::split(front, '/'));
            }
        }
    }
}

/// A slash at the end, and a `.` behind it, make no path of a name.
pub proof fn law_slash_at_the_end_does_not_count(value: Seq<char>)
    requires
        value.len() > 0,
    ensures
        component_count(value + seq!['/']) == component_count(value),
        component_count(value + seq!['/'] + seq!['.']) == component_count(value),
{
    let none = Seq::<char>::empty();
    let dot = seq!['.'];
    text::lemma_split_concat(value, none, '/');
    text::lemma_split_concat(value, dot, '/');
    assert(value + seq!['/'] + none =~= value + seq!['/']);
    assert(text::split(none, '/') == seq![none]);
    assert(!dot.contains('/'));
    text::lemma_split_single(dot, '/');
    lemma_counted_concat(text::split(value, '/'), seq![none]);
    lemma_counted_concat(text::split(value, '/'), seq![dot]);
    lemma_counted_single(none);
    lemma_counted_single(dot);
    assert((value + seq!['/'])[0] == value[0]);
    assert((value + seq!['/'] + dot)[0] == value[0]);
    if value.len() > 1 {
        assert((value + seq!['/'])[1] == value[1]);
        assert((value + seq!['/'] + dot)[1] == value[1]);
    } else {
        assert((value + seq!['/'])[1] == '/');
        assert((value + seq!['/'] + dot)[1] == '/');
    }
}

/// The path of a file in a directory: the directory, a slash unless it is empty or
/// ends with one, and the name.
pub open spec fn is_file_in(p: Seq<u8>, dir: Seq<u8>, name: Seq<u8>) -> bool {
    p == (if dir.len() == 0 || dir.last() == 47 {
        dir
    } else {
        dir.push(47)
    }) + name
}

proof fn lemma_in_dirs(dirs: Seq<Seq<u8>>, name: Seq<char>)
    requires
        path::bytes_of(name).len() > 0 ==> path::bytes_of(name)[0] != 47,
    ensures
        in_dirs(dirs, name).len() == dirs.len(),
        forall|i: int|
            0 <= i < dirs.len() ==> is_file_in(
                #[trigger] in_dirs(dirs, name)[i],
                dirs[i],
                vstd::utf8::encode_utf8(name),
            ),
{
}

proof fn lemma_name_has_no_slash(name: Seq<char>)
    requires
        !name.contains('/'),
    ensures
        path::bytes_of(name).len() > 0 ==> path::bytes_of(name)[0] != 47,
{
    if name.len() > 0 {
        assert(name.contains(name[0]));
        let c0: char = name[0];
        let c: u32 = c0 as u32;
        vstd::utf8::char_is_scalar(c0);
        vstd::utf8::char_u32_cast(c0, c);
        assert(vstd::utf8::encode_utf8(name) == vstd::utf8::encode_scalar(c)
            + vstd::utf8::encode_utf8(name.drop_first()));
        assert(c == 47 ==> c as char == '/');
        let first = vstd::utf8::encode_scalar(c)[0];
        assert(first != 47) by {
            lemma_first_byte(c);
        }
        assert(vstd::utf8::encode_scalar(c).len() > 0) by {
            lemma_first_byte(c);
        }
        assert(path::bytes_of(name)[0] == first);
    } else {
        assert(name =~= Seq::<char>::empty());
    }
}

proof fn lemma_first_byte(c: u32)
    requires
        vstd::utf8::is_scalar(c),
        c != 47,
    ensures
        vstd::utf8::encode_scalar(c).len() > 0,
        vstd::utf8::encode_scalar(c)[0] != 47,
{
    assert(c < 128 && c != 47 ==> (c & 0x7f) as u8 != 47) by (bit_vector);
    assert(0xc0 | ((c >> 6) & 0x1f) as u8 != 47) by (bit_vector);
    assert(0xe0 | ((c >> 12) & 0x0f) as u8 != 47) by (bit_vector);
    assert(0xf0 | ((c >> 18) & 0x7) as u8 != 47) by (bit_vector);
}

/// Which paths are tried for wine. A name, from the argument or else from the
/// environment variable, is tried in every directory of the search path, in its
/// order; a path is tried as it is; and without either, `xodus-wine` is tried in
/// every directory, and only then `wine` in every directory.
pub proof fn law_wine_is_tried_in_this_order(
    name: Seq<char>,
    path: Seq<char>,
    xodus_wine: Option<Seq<char>>,
    dirs: Seq<Seq<u8>>,
)
    requires
        !name.contains('/'),
        component_count(path) > 1,
    ensures
        ({
            let c = candidates_of(wine_choice(Some(name), xodus_wine), dirs);
            &&& c == candidates_of(wine_choice(None, Some(name)), dirs)
            &&& c.len() == dirs.len()
            &&& forall|i: int|
                0 <= i < dirs.len() ==> is_file_in(
                    #[trigger] c[i],
                    dirs[i],
                    vstd::utf8::encode_utf8(name),
                )
        }),
        ({
            let c = candidates_of(wine_choice(Some(path), xodus_wine), dirs);
            &&& c == candidates_of(wine_choice(None, Some(path)), dirs)
            &&& c == seq![vstd::utf8::encode_utf8(path)]
        }),
        ({
            let c = candidates_of(wine_choice(None, None), dirs);
            &&& c.len() == 2 * dirs.len()
            &&& forall|i: int|
                0 <= i < dirs.len() ==> is_file_in(
                    #[trigger] c[i],
                    dirs[i],
                    seq![120u8, 111, 100, 117, 115, 45, 119, 105, 110, 101],
                )
            &&& forall|i: int|
                dirs.len() <= i < 2 * dirs.len() ==> is_file_in(
                    #[trigger] c[i],
                    dirs[i - dirs.len()],
                    seq![119u8, 105, 110, 101],
                )
        }),
{
    law_text_without_a_slash_is_a_name(name);
    lemma_name_has_no_slash(name);
    lemma_in_dirs(dirs, name);
    reveal_strlit("xodus-wine");
    reveal_strlit("wine");
    path::lemma_ascii_bytes("xodus-wine"@);
    path::lemma_ascii_bytes("wine"@);
    let own = vstd::utf8::encode_utf8("xodus-wine"@);
    let plain = vstd::utf8::encode_utf8("wine"@);
    assert(own == path::bytes_of("xodus-wine"@) && plain == path::bytes_of("wine"@));
    assert(own =~= seq![120u8, 111, 100, 117, 115, 45, 119, 105, 110, 101]);
    assert(plain =~= seq![119u8, 105, 110, 101]);
    lemma_in_dirs(dirs, "xodus-wine"@);
    lemma_in_dirs(dirs, "wine"@);
    let c = candidates_of(wine_choice(None, None), dirs);
    assert forall|i: int| 0 <= i < dirs.len() implies is_file_in(
        #[trigger] c[i],
        dirs[i],
        seq![120u8, 111, 100, 117, 115, 45, 119, 105, 110, 101],
    ) by {
        assert(c[i] == in_dirs(dirs, "xodus-wine"@)[i]);
    }
    assert forall|i: int| dirs.len() <= i < 2 * dirs.len() implies is_file_in(
        #[trigger] c[i],
        dirs[i - dirs.len()],
        seq![119u8, 105, 110, 101],
    ) by {
        assert(c[i] == in_dirs(dirs, "wine"@)[i - dirs.len()]);
    }
}

/// What the user is told where no candidate is an executable file.
pub proof fn law_missing_wine_is_told(
    name: Seq<char>,
    path: Seq<char>,
    xodus_wine: Option<Seq<char>>,
    dirs: Seq<Seq<u8>>,
    executable: Seq<bool>,
)
    requires
        component_count(name) <= 1,
        component_count(path) > 1,
        forall|i: int| 0 <= i < executable.len() ==> !executable[i],
    ensures
        resolved(wine_choice(Some(name), xodus_wine), dirs, executable) == Err::<
            WineView,
            Seq<char>,
        >("wine argument `"@ + name + "` was not found in PATH"@),
        resolved(wine_choice(Some(path), xodus_wine), dirs, executable) == Err::<
            WineView,
            Seq<char>,
        >("wine argument `"@ + path + "` is not an executable file"@),
        resolved(wine_choice(None, Some(name)), dirs, executable) == Err::<WineView, Seq<char>>(
            "XODUS_WINE `"@ + name + "` was not found in PATH"@,
        ),
        resolved(wine_choice(None, Some(path)), dirs, executable) == Err::<WineView, Seq<char>>(
            "XODUS_WINE `"@ + path + "` is not an executable file"@,
        ),
        resolved(wine_choice(None, None), dirs, executable) == Err::<WineView, Seq<char>>(
            "no wine found: pass a path as the second argument, set XODUS_WINE, or put `xodus-wine` (or `wine`) in PATH; see docs/xodus/wine.md for the required build"@,
        ),
{
    reveal_strlit("wine argument");
    reveal_strlit("wine argument `");
    reveal_strlit("XODUS_WINE");
    reveal_strlit("XODUS_WINE `");
    reveal_strlit(" `");
    assert("wine argument"@ + " `"@ =~= "wine argument `"@);
    assert("XODUS_WINE"@ + " `"@ =~= "XODUS_WINE `"@);
    lemma_nothing_executable(
        candidates_of(wine_choice(Some(name), xodus_wine), dirs),
        executable,
    );
    lemma_nothing_executable(
        candidates_of(wine_choice(Some(path), xodus_wine), dirs),
        executable,
    );
    lemma_nothing_executable(candidates_of(wine_choice(None, Some(name)), dirs), executable);
    lemma_nothing_executable(candidates_of(wine_choice(None, Some(path)), dirs), executable);
    lemma_nothing_executable(candidates_of(wine_choice(None, None), dirs), executable);
}

proof fn lemma_nothing_executable(candidates: Seq<Seq<u8>>, executable: Seq<bool>)
    requires
        forall|i: int| 0 <= i < executable.len() ==> !executable[i],
    ensures
        first_executable(candidates, executable) is None,
{
    let flags = Seq::new(candidates.len(), |i: int| i < executable.len() && executable[i]);
    law_first_true(flags);
}

/// Which paths are tried for the service: next to the running program first, then
/// in every directory of the search path, in its order.
pub proof fn law_service_is_tried_next_to_the_program_first(
    exe_dir: Seq<u8>,
    dirs: Seq<Seq<u8>>,
)
    ensures
        ({
            let name = seq![120u8, 111, 100, 117, 115, 45, 115, 101, 114, 118, 105, 99, 101];
            let c = service_candidates_of(Some(exe_dir), dirs);
            let d = service_candidates_of(None, dirs);
            &&& c.len() == dirs.len() + 1
            &&& is_file_in(c[0], exe_dir, name)
            &&& d == c.skip(1)
            &&& forall|i: int| 0 <= i < dirs.len() ==> is_file_in(#[trigger] d[i], dirs[i], name)
        }),
{
    reveal_strlit("xodus-service");
    path::lemma_ascii_bytes("xodus-service"@);
    let bytes = vstd::utf8::encode_utf8("xodus-service"@);
    let name = seq![120u8, 111, 100, 117, 115, 45, 115, 101, 114, 118, 105, 99, 101];
    assert(bytes == path::bytes_of("xodus-service"@));
    assert(bytes =~= name);
    lemma_in_dirs(dirs, "xodus-service"@);
    lemma_in_dirs(seq![exe_dir] + dirs, "xodus-service"@);
    let c = service_candidates_of(Some(exe_dir), dirs);
    let d = service_candidates_of(None, dirs);
    assert(c[0] == in_dirs(seq![exe_dir] + dirs, "xodus-service"@)[0]);
    assert((seq![exe_dir] + dirs)[0] == exe_dir);
    assert(d =~= c.skip(1));
}

/// The first candidate that is known to be an executable file is taken, and there is
/// a warning only where neither an argument nor the environment variable gave it.
pub proof fn law_first_executable_candidate_is_taken(
    choice: WineChoiceView,
    dirs: Seq<Seq<u8>>,
    executable: Seq<bool>,
    i: int,
)
    requires
        0 <= i < executable.len(),
        i < candidates_of(choice, dirs).len(),
        executable[i],
        forall|j: int| 0 <= j < i ==> !executable[j],
    ensures
        resolved(choice, dirs, executable) is Ok,
        resolved(choice, dirs, executable)->Ok_0.path == candidates_of(choice, dirs)[i],
        !(choice is Default) ==> !resolved(choice, dirs, executable)->Ok_0.fallback,
        first_executable(candidates_of(choice, dirs), executable) == Some(i),
{
    let flags = Seq::new(
        candidates_of(choice, dirs).len(),
        |i: int| i < executable.len() && executable[i],
    );
    law_first_true(flags);
    assert(flags[i]);
    assert forall|j: int| 0 <= j < i implies !flags[j] by {}
    match first_true(flags) {
        Some(k) => {
            if k > i {
                assert(!flags[i]);
            }
        },
        None => {
            assert(!flags[i]);
        },
    }
}

/// A value that is given is not taken for one that is absent, even where it is empty,
/// and paths are what they hold, one by one.
pub proof fn law_given_values_are_seen_as_they_are(s: &str, p: Vec<u8>, paths: Seq<Vec<u8>>)
    ensures
        opt_view(Some(s)) == Some(s@),
        opt_view(None) is None,
        opt_path_view(Some(&p)) == Some(p@),
        opt_path_view(None) is None,
        paths_view(paths).len() == paths.len(),
        forall|i: int| 0 <= i < paths.len() ==> #[trigger] paths_view(paths)[i] == paths[i]@,
        (Wine { path: p, fallback: true })@.path == p@,
        (Wine { path: p, fallback: true })@.fallback,
        !(Wine { path: p, fallback: false })@.fallback,
{
}

} // verus!
