//! From the decrypted files of a package to what wine is started with: the
//! file map in the environment and the path of the entry executable.

use vstd::prelude::*;
use vstd::string::*;

use crate::exe;
use crate::text;

verus! {

broadcast use vstd::string::group_string_axioms;

/// A package file whose decrypted image wine inherits under a descriptor.
pub struct MappedFile {
    pub name: String,
    pub fd: i32,
}

pub struct MappedFileView {
    pub name: Seq<char>,
    pub fd: int,
}

impl View for MappedFile {
    type V = MappedFileView;

    open spec fn view(&self) -> MappedFileView {
        MappedFileView { name: self.name@, fd: self.fd as int }
    }
}

pub open spec fn file_views(files: Seq<MappedFile>) -> Seq<MappedFileView> {
    files.map_values(|f: MappedFile| f@)
}

/// What wine is started with.
pub struct LaunchPlan {
    /// The NT path of the executable to start.
    pub entry: String,
    /// The value of `WINE_DLL_FILE_MAP`.
    pub file_map: String,
}

pub struct LaunchPlanView {
    pub entry: Seq<char>,
    pub file_map: Seq<char>,
}

impl View for LaunchPlan {
    type V = LaunchPlanView;

    open spec fn view(&self) -> LaunchPlanView {
        LaunchPlanView { entry: self.entry@, file_map: self.file_map@ }
    }
}

/// Why no executable could be chosen.
pub enum LaunchError {
    /// The wanted executable is none of the package's files.
    NotInPackage { wanted: String, names: Vec<String> },
    /// None of the package's files is an executable.
    NoExecutable,
    /// The choice between these executables is the user's.
    SeveralExecutables { names: Vec<String> },
}

pub enum LaunchErrorView {
    NotInPackage { wanted: Seq<char>, names: Seq<Seq<char>> },
    NoExecutable,
    SeveralExecutables { names: Seq<Seq<char>> },
}

impl View for LaunchError {
    type V = LaunchErrorView;

    open spec fn view(&self) -> LaunchErrorView {
        match self {
            LaunchError::NotInPackage { wanted, names } => LaunchErrorView::NotInPackage {
                wanted: wanted@,
                names: text::texts(names@),
            },
            LaunchError::NoExecutable => LaunchErrorView::NoExecutable,
            LaunchError::SeveralExecutables { names } => LaunchErrorView::SeveralExecutables {
                names: text::texts(names@),
            },
        }
    }
}

/// The file put behind every file whose name does not come after its own.
pub open spec fn insert_by_name(files: Seq<MappedFileView>, file: MappedFileView) -> Seq<
    MappedFileView,
>
    decreases files.len(),
{
    if files.len() > 0 && text::before(file.name, files.last().name) {
        insert_by_name(files.drop_last(), file).push(files.last())
    } else {
        files.push(file)
    }
}

/// The files in the order of their names; files of one name keep their order.
pub open spec fn by_name(files: Seq<MappedFileView>) -> Seq<MappedFileView>
    decreases files.len(),
{
    if files.len() == 0 {
        files
    } else {
        insert_by_name(by_name(files.drop_last()), files.last())
    }
}

/// The install directory as it stands in an NT path, without a trailing
/// backslash.
pub open spec fn nt_prefix(install_dir: Seq<char>) -> Seq<char> {
    text::trim_end(text::replace_all(install_dir, '/', '\\'), '\\')
}

/// The NT path under which wine opens a package file.
pub open spec fn nt_path(install_dir: Seq<char>, name: Seq<char>) -> Seq<char> {
    "\\??\\Z:"@ + nt_prefix(install_dir) + seq!['\\'] + text::trim_start(name, '\\')
}

/// One entry of the file map: descriptor, colon, NT path.
pub open spec fn map_entry(install_dir: Seq<char>, file: MappedFileView) -> Seq<char> {
    text::signed_decimal(file.fd) + seq![':'] + nt_path(install_dir, file.name)
}

/// The entries of all files, with a bar between two of them.
pub open spec fn file_map(install_dir: Seq<char>, files: Seq<MappedFileView>) -> Seq<char> {
    text::join(files.map_values(|f: MappedFileView| map_entry(install_dir, f)), '|')
}

/// The files that the wanted path matches.
pub open spec fn matching(files: Seq<MappedFileView>, wanted: Seq<char>) -> Seq<MappedFileView> {
    files.filter(|f: MappedFileView| exe::exe_matches(f.name, wanted))
}

/// The files that are executables by their name.
pub open spec fn executables(files: Seq<MappedFileView>) -> Seq<MappedFileView> {
    files.filter(|f: MappedFileView| exe::has_exe_suffix(f.name))
}

pub open spec fn names(files: Seq<MappedFileView>) -> Seq<Seq<char>> {
    files.map_values(|f: MappedFileView| f.name)
}

/// The file to start, out of files in the order of their names: the first that
/// the wanted path matches, or the only executable where none is wanted.
pub open spec fn entry_file(files: Seq<MappedFileView>, wanted: Option<Seq<char>>) -> Result<
    MappedFileView,
    LaunchErrorView,
> {
    match wanted {
        Some(wanted) => {
            let found = matching(files, wanted);
            if found.len() == 0 {
                Err(LaunchErrorView::NotInPackage { wanted, names: names(files) })
            } else {
                Ok(found[0])
            }
        },
        None => {
            let found = executables(files);
            if found.len() == 0 {
                Err(LaunchErrorView::NoExecutable)
            } else if found.len() == 1 {
                Ok(found[0])
            } else {
                Err(LaunchErrorView::SeveralExecutables { names: names(found) })
            }
        },
    }
}

/// What wine is started with for these files, in whatever order they come.
pub open spec fn launch_plan(
    files: Seq<MappedFileView>,
    install_dir: Seq<char>,
    wanted: Option<Seq<char>>,
) -> Result<LaunchPlanView, LaunchErrorView> {
    match entry_file(by_name(files), wanted) {
        Ok(file) => Ok(
            LaunchPlanView {
                entry: nt_path(install_dir, file.name),
                file_map: file_map(install_dir, by_name(files)),
            },
        ),
        Err(e) => Err(e),
    }
}

/// The view of a plan or of the reason why there is none.
pub open spec fn plan_view(r: Result<LaunchPlan, LaunchError>) -> Result<
    LaunchPlanView,
    LaunchErrorView,
> {
    match r {
        Ok(plan) => Ok(plan@),
        Err(e) => Err(e@),
    }
}

pub open spec fn wanted_view(wanted: Option<&str>) -> Option<Seq<char>> {
    match wanted {
        Some(wanted) => Some(wanted@),
        None => None,
    }
}

/// The files in the order of their names.
pub fn sort_files(files: Vec<MappedFile>) -> (sorted: Vec<MappedFile>)
    ensures
        file_views(sorted@) == by_name(file_views(files@)),
{
    let mut rest = files;
    let mut sorted: Vec<MappedFile> = Vec::new();
    let ghost all = file_views(files@);
    let ghost mut done: int = 0;
    assert(file_views(sorted@) =~= by_name(all.take(0)));
    while rest.len() > 0
        invariant
            0 <= done <= all.len(),
            file_views(rest@) == all.skip(done),
            file_views(sorted@) == by_name(all.take(done)),
        decreases rest.len(),
    {
        let ghost before_views = file_views(sorted@);
        let ghost rest_views = file_views(rest@);
        assert(rest_views.len() == rest.len());
        assert(rest_views.len() == all.len() - done);
        let file = rest.remove(0);
        assert(file_views(rest@) =~= rest_views.drop_first());
        assert(file@ == rest_views[0]);
        assert(file@ == all[done]);
        let mut at: usize = sorted.len();
        assert(before_views.take(at as int) =~= before_views);
        assert(insert_by_name(before_views, file@) =~= insert_by_name(
            before_views.take(at as int),
            file@,
        ) + before_views.skip(at as int));
        while at > 0 && text::text_before(file.name.as_str(), sorted[at - 1].name.as_str())
            invariant
                at <= sorted.len(),
                before_views == file_views(sorted@),
                insert_by_name(before_views, file@) == insert_by_name(
                    before_views.take(at as int),
                    file@,
                ) + before_views.skip(at as int),
            decreases at,
        {
            let ghost front = before_views.take(at as int);
            assert(front.last() == sorted@[at - 1]@);
            assert(front.drop_last() =~= before_views.take(at - 1));
            assert(insert_by_name(before_views, file@) =~= insert_by_name(
                before_views.take(at - 1),
                file@,
            ) + before_views.skip(at - 1));
            at = at - 1;
        }
        proof {
            let front = before_views.take(at as int);
            if at > 0 {
                assert(front.last() == sorted@[at - 1]@);
            }
            assert(insert_by_name(front, file@) == front.push(file@));
            assert(all.take(done + 1).drop_last() =~= all.take(done));
            assert(all.take(done + 1).last() == all[done]);
        }
        let ghost added = file@;
        sorted.insert(at, file);
        assert(file_views(sorted@) =~= before_views.take(at as int).push(added)
            + before_views.skip(at as int));
        proof {
            done = done + 1;
            assert(all.skip(done - 1).drop_first() =~= all.skip(done));
        }
    }
    assert(all.take(done) =~= all);
    sorted
}

/// The NT path under which wine opens a package file: the `Z:` drive, the
/// absolute host path of the install directory, and the package path.
pub fn nt_path_of(install_dir: &str, name: &str) -> (r: String)
    ensures
        r@ == nt_path(install_dir@, name@),
{
    let prefix = text::replace_char(&text::chars_of(install_dir), '/', '\\');
    let prefix = text::trim_end_chars(&prefix, '\\');
    let suffix = text::trim_start_chars(&text::chars_of(name), '\\');
    let mut r = String::new();
    r.append("\\??\\Z:");
    r.append(text::string_of(&prefix).as_str());
    r.push('\\');
    r.append(text::string_of(&suffix).as_str());
    assert(r@ =~= nt_path(install_dir@, name@));
    r
}

/// The value of `WINE_DLL_FILE_MAP` for these files, in this order.
pub fn file_map_of(install_dir: &str, files: &Vec<MappedFile>) -> (r: String)
    ensures
        r@ == file_map(install_dir@, file_views(files@)),
{
    let mut r = String::new();
    let mut i: usize = 0;
    let ghost views = file_views(files@);
    let ghost entries = views.map_values(|f: MappedFileView| map_entry(install_dir@, f));
    assert(r@ =~= text::join(entries.take(0), '|'));
    while i < files.len()
        invariant
            i <= files.len(),
            views == file_views(files@),
            entries == views.map_values(|f: MappedFileView| map_entry(install_dir@, f)),
            r@ == text::join(entries.take(i as int), '|'),
        decreases files.len() - i,
    {
        let ghost so_far = r@;
        if i > 0 {
            r.push('|');
        }
        r.append(text::signed_decimal_text(files[i].fd).as_str());
        r.push(':');
        r.append(nt_path_of(install_dir, files[i].name.as_str()).as_str());
        proof {
            let entry = entries[i as int];
            assert(views[i as int] == files@[i as int]@);
            assert(entry == map_entry(install_dir@, files@[i as int]@));
            assert(entries.take(i + 1).drop_last() =~= entries.take(i as int));
            if i > 0 {
                assert(r@ =~= so_far + seq!['|'] + entry);
            } else {
                assert(r@ =~= entry);
            }
        }
        i = i + 1;
    }
    assert(entries.take(i as int) =~= entries);
    r
}

/// The names of the files, copied.
fn names_of(files: &Vec<MappedFile>) -> (r: Vec<String>)
    ensures
        text::texts(r@) == names(file_views(files@)),
{
    let mut r: Vec<String> = Vec::new();
    let mut i: usize = 0;
    while i < files.len()
        invariant
            i <= files.len(),
            text::texts(r@) == names(file_views(files@)).take(i as int),
        decreases files.len() - i,
    {
        text::push_text(&mut r, files[i].name.clone());
        assert(names(file_views(files@))[i as int] == files@[i as int].name@);
        assert(text::texts(r@) =~= names(file_views(files@)).take(i + 1));
        i = i + 1;
    }
    assert(names(file_views(files@)).take(i as int) =~= names(file_views(files@)));
    r
}

/// The position of the first file that the wanted path matches.
fn first_match(files: &Vec<MappedFile>, wanted: &str) -> (r: Option<usize>)
    ensures
        match r {
            Some(i) => i < files.len() && matching(file_views(files@), wanted@).len() > 0
                && matching(file_views(files@), wanted@)[0] == files@[i as int]@,
            None => matching(file_views(files@), wanted@).len() == 0,
        },
{
    let ghost views = file_views(files@);
    let ghost p = |f: MappedFileView| exe::exe_matches(f.name, wanted@);
    let mut i: usize = 0;
    assert(views.take(0).filter(p).len() == 0) by {
        reveal(Seq::filter);
    }
    while i < files.len()
        invariant
            i <= files.len(),
            views == file_views(files@),
            p == (|f: MappedFileView| exe::exe_matches(f.name, wanted@)),
            views.take(i as int).filter(p).len() == 0,
        decreases files.len() - i,
    {
        let found = exe::matches_exe(files[i].name.as_str(), wanted);
        proof {
            reveal(Seq::filter);
            assert(views.take(i + 1).drop_last() =~= views.take(i as int));
            assert(views.take(i + 1).last() == files@[i as int]@);
            if found {
                assert(views.take(i + 1).filter(p)[0] == files@[i as int]@);
                Seq::filter_distributes_over_add(views.take(i + 1), views.skip(i + 1), p);
                assert(views.take(i + 1) + views.skip(i + 1) =~= views);
            }
        }
        if found {
            return Some(i);
        }
        i = i + 1;
    }
    assert(views.take(i as int) =~= views);
    None
}

/// The positions of the executables.
fn executable_positions(files: &Vec<MappedFile>) -> (r: Vec<usize>)
    ensures
        forall|k: int| 0 <= k < r.len() ==> #[trigger] r[k] < files.len(),
        r.len() == executables(file_views(files@)).len(),
        forall|k: int|
            0 <= k < r.len() ==> executables(file_views(files@))[k] == files@[(#[trigger] r[k]) as int]@,
{
    let ghost views = file_views(files@);
    let ghost p = |f: MappedFileView| exe::has_exe_suffix(f.name);
    let mut r: Vec<usize> = Vec::new();
    let mut i: usize = 0;
    assert(views.take(0).filter(p).len() == 0) by {
        reveal(Seq::filter);
    }
    while i < files.len()
        invariant
            i <= files.len(),
            views == file_views(files@),
            p == (|f: MappedFileView| exe::has_exe_suffix(f.name)),
            forall|k: int| 0 <= k < r.len() ==> #[trigger] r[k] < files.len(),
            r.len() == views.take(i as int).filter(p).len(),
            forall|k: int|
                0 <= k < r.len() ==> views.take(i as int).filter(p)[k] == files@[(
                #[trigger] r[k]) as int]@,
        decreases files.len() - i,
    {
        proof {
            reveal(Seq::filter);
            assert(views.take(i + 1).drop_last() =~= views.take(i as int));
            assert(views.take(i + 1).last() == files@[i as int]@);
        }
        if exe::is_exe_name(files[i].name.as_str()) {
            r.push(i);
        }
        i = i + 1;
    }
    assert(views.take(i as int) =~= views);
    r
}

/// The position of the file to start, out of files in the order of their
/// names: the first one that matches the wanted path, or, where none is
/// wanted, the only executable.
pub fn choose_entry(files: &Vec<MappedFile>, wanted: Option<&str>) -> (r: Result<
    usize,
    LaunchError,
>)
    ensures
        match r {
            Ok(i) => i < files.len() && entry_file(file_views(files@), wanted_view(wanted)) == Ok::<
                MappedFileView,
                LaunchErrorView,
            >(files@[i as int]@),
            Err(e) => entry_file(file_views(files@), wanted_view(wanted)) == Err::<
                MappedFileView,
                LaunchErrorView,
            >(e@),
        },
{
    match wanted {
        Some(wanted) => match first_match(files, wanted) {
            Some(i) => Ok(i),
            None => Err(
                LaunchError::NotInPackage { wanted: wanted.to_owned(), names: names_of(files) },
            ),
        },
        None => {
            let found = executable_positions(files);
            if found.len() == 0 {
                Err(LaunchError::NoExecutable)
            } else if found.len() == 1 {
                Ok(found[0])
            } else {
                let ghost want = names(executables(file_views(files@)));
                let mut list: Vec<String> = Vec::new();
                let mut k: usize = 0;
                while k < found.len()
                    invariant
                        k <= found.len(),
                        want == names(executables(file_views(files@))),
                        want.len() == found.len(),
                        forall|j: int| 0 <= j < found.len() ==> #[trigger] found[j] < files.len(),
                        forall|j: int|
                            0 <= j < found.len() ==> executables(file_views(files@))[j] == files@[(
                            #[trigger] found[j]) as int]@,
                        text::texts(list@) == want.take(k as int),
                    decreases found.len() - k,
                {
                    text::push_text(&mut list, files[found[k]].name.clone());
                    assert(want[k as int] == files@[found[k as int] as int].name@);
                    assert(text::texts(list@) =~= want.take(k + 1));
                    k = k + 1;
                }
                assert(want.take(k as int) =~= want);
                Err(LaunchError::SeveralExecutables { names: list })
            }
        },
    }
}

/// What wine is started with: the files are put in the order of their names,
/// mapped under the install directory, and one of them is chosen.
pub fn plan_launch(files: Vec<MappedFile>, install_dir: &str, wanted: Option<&str>) -> (r: Result<
    LaunchPlan,
    LaunchError,
>)
    ensures
        plan_view(r) == launch_plan(file_views(files@), install_dir@, wanted_view(wanted)),
{
    let sorted = sort_files(files);
    match choose_entry(&sorted, wanted) {
        Ok(i) => Ok(
            LaunchPlan {
                entry: nt_path_of(install_dir, sorted[i].name.as_str()),
                file_map: file_map_of(install_dir, &sorted),
            },
        ),
        Err(e) => Err(e),
    }
}

impl LaunchErrorView {
    /// The lines that tell the user about it.
    pub open spec fn lines(self) -> Seq<Seq<char>> {
        match self {
            LaunchErrorView::NotInPackage { wanted, names } => seq![
                seq!['`'] + wanted + "` does not match any executable in this package:"@,
            ] + names.map_values(|n: Seq<char>| "  "@ + n),
            LaunchErrorView::NoExecutable => seq![
                "no .exe found among the package's encrypted files"@,
            ],
            LaunchErrorView::SeveralExecutables { names } => seq![
                "this package contains multiple executables; pick one with --exe:"@,
            ] + names.map_values(|n: Seq<char>| "  --exe '"@ + n + seq!['\'']),
        }
    }
}

impl LaunchError {
    /// The lines that tell the user about it, without line ends.
    pub fn lines(&self) -> (r: Vec<String>)
        ensures
            text::texts(r@) == self@.lines(),
    {
        let mut r: Vec<String> = Vec::new();
        match self {
            LaunchError::NotInPackage { wanted, names } => {
                let mut head = String::new();
                head.push('`');
                head.append(wanted.as_str());
                head.append("` does not match any executable in this package:");
                r.push(head);
                let ghost first = r@[0]@;
                assert(first =~= seq!['`'] + wanted@
                    + "` does not match any executable in this package:"@);
                let ghost all = seq![first] + text::texts(names@).map_values(
                    |n: Seq<char>| "  "@ + n,
                );
                let mut i: usize = 0;
                assert(text::texts(r@) =~= all.take(1));
                while i < names.len()
                    invariant
                        i <= names.len(),
                        all == seq![first] + text::texts(names@).map_values(
                            |n: Seq<char>| "  "@ + n,
                        ),
                        text::texts(r@) == all.take(i + 1),
                    decreases names.len() - i,
                {
                    let mut line = String::new();
                    line.append("  ");
                    line.append(names[i].as_str());
                    assert(line@ =~= "  "@ + names@[i as int]@);
                    assert(all[i + 1] == line@);
                    text::push_text(&mut r, line);
                    assert(text::texts(r@) =~= all.take(i + 2));
                    i = i + 1;
                }
                assert(all.take(i + 1) =~= all);
            },
            LaunchError::NoExecutable => {
                r.push("no .exe found among the package's encrypted files".to_owned());
                assert(text::texts(r@) =~= self@.lines());
            },
            LaunchError::SeveralExecutables { names } => {
                r.push(
                    "this package contains multiple executables; pick one with --exe:".to_owned(),
                );
                let ghost first = r@[0]@;
                let ghost all = seq![first] + text::texts(names@).map_values(
                    |n: Seq<char>| "  --exe '"@ + n + seq!['\''],
                );
                let mut i: usize = 0;
                assert(text::texts(r@) =~= all.take(1));
                while i < names.len()
                    invariant
                        i <= names.len(),
                        all == seq![first] + text::texts(names@).map_values(
                            |n: Seq<char>| "  --exe '"@ + n + seq!['\''],
                        ),
                        text::texts(r@) == all.take(i + 1),
                    decreases names.len() - i,
                {
                    let mut line = String::new();
                    line.append("  --exe '");
                    line.append(names[i].as_str());
                    line.push('\'');
                    assert(line@ =~= "  --exe '"@ + names@[i as int]@ + seq!['\'']);
                    assert(all[i + 1] == line@);
                    text::push_text(&mut r, line);
                    assert(text::texts(r@) =~= all.take(i + 2));
                    i = i + 1;
                }
                assert(all.take(i + 1) =~= all);
            },
        }
        r
    }
}

} // verus!
