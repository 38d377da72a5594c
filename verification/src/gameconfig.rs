//! `MicrosoftGame.config`, the manifest at the root of every package. Every
//! field is optional: a manifest of another version yields less, and never
//! fails a launch.

use vstd::prelude::*;
use vstd::string::*;

use crate::text;
use crate::token;

verus! {

broadcast use vstd::string::group_string_axioms;

#[derive(Debug)]
pub struct MicrosoftGameConfig {
    pub identity: Option<Identity>,
    pub executable_list: Option<ExecutableList>,
    pub title_id: Option<String>,
    pub msa_app_id: Option<String>,
    pub store_id: Option<String>,
}

#[derive(Debug)]
pub struct Identity {
    pub name: Option<String>,
    pub publisher: Option<String>,
    pub version: Option<String>,
}

#[derive(Debug)]
pub struct ExecutableList {
    pub executables: Vec<Executable>,
}

#[derive(Debug)]
pub struct Executable {
    pub name: Option<String>,
    pub target_device_family: Option<String>,
}

impl Default for MicrosoftGameConfig {
    fn default() -> (r: MicrosoftGameConfig)
        ensures
            r.identity is None,
            r.executable_list is None,
            r.title_id is None,
            r.msa_app_id is None,
            r.store_id is None,
    {
        MicrosoftGameConfig {
            identity: None,
            executable_list: None,
            title_id: None,
            msa_app_id: None,
            store_id: None,
        }
    }
}

pub struct ExecutableView {
    pub name: Option<Seq<char>>,
    pub target_device_family: Option<Seq<char>>,
}

impl View for Executable {
    type V = ExecutableView;

    open spec fn view(&self) -> ExecutableView {
        ExecutableView {
            name: token::opt_text(self.name),
            target_device_family: token::opt_text(self.target_device_family),
        }
    }
}

impl ExecutableView {
    /// The entry is meant for a PC: it says so, in whatever case, or it does not
    /// say what it is meant for.
    pub open spec fn for_pc(self) -> bool {
        match self.target_device_family {
            Some(family) => text::lower_all(family) == text::lower_all("PC"@),
            None => true,
        }
    }
}

impl MicrosoftGameConfig {
    /// The entries of the executable list, in declaration order.
    pub open spec fn entries(self) -> Seq<ExecutableView> {
        match self.executable_list {
            Some(list) => list.executables@.map_values(|e: Executable| e@),
            None => Seq::empty(),
        }
    }
}

/// The entries with a name that are meant for a PC, or those that are not.
pub open spec fn named_entries(entries: Seq<ExecutableView>, pc: bool) -> Seq<ExecutableView> {
    entries.filter(|e: ExecutableView| e.name is Some && e.for_pc() == pc)
}

/// The names of entries that have one.
pub open spec fn entry_names(entries: Seq<ExecutableView>) -> Seq<Seq<char>> {
    entries.map_values(|e: ExecutableView| e.name->0)
}

/// The names of all entries that have one: first of those for a PC, then of the
/// others, each in declaration order.
pub open spec fn declared(entries: Seq<ExecutableView>) -> Seq<Seq<char>> {
    entry_names(named_entries(entries, true)) + entry_names(named_entries(entries, false))
}

/// What the strings of a list hold.
pub open spec fn strs(list: Seq<&str>) -> Seq<Seq<char>> {
    list.map_values(|s: &str| s@)
}

fn is_for_pc(entry: &Executable) -> (r: bool)
    ensures
        r == entry@.for_pc(),
{
    match &entry.target_device_family {
        Some(family) => text::eq_ignore_case(family.as_str(), "PC"),
        None => true,
    }
}

/// The names of the entries that are meant for a PC, or of those that are not,
/// are added to the end of a list.
fn push_named<'a>(list: &mut Vec<&'a str>, executables: &'a Vec<Executable>, pc: bool)
    ensures
        strs(final(list)@) == strs(old(list)@) + entry_names(
            named_entries(executables@.map_values(|e: Executable| e@), pc),
        ),
{
    let ghost all = executables@.map_values(|e: Executable| e@);
    let ghost p = |e: ExecutableView| e.name is Some && e.for_pc() == pc;
    let mut i: usize = 0;
    proof {
        reveal(Seq::filter);
        assert(entry_names(all.take(0).filter(p)) =~= Seq::<Seq<char>>::empty());
        assert(strs(list@) =~= strs(old(list)@) + entry_names(all.take(0).filter(p)));
    }
    while i < executables.len()
        invariant
            i <= executables.len(),
            all == executables@.map_values(|e: Executable| e@),
            p == (|e: ExecutableView| e.name is Some && e.for_pc() == pc),
            strs(list@) == strs(old(list)@) + entry_names(all.take(i as int).filter(p)),
        decreases executables.len() - i,
    {
        let entry = &executables[i];
        let ghost so_far = list@;
        let ghost found = all.take(i as int).filter(p);
        proof {
            reveal(Seq::filter);
            assert(all.take(i + 1).drop_last() =~= all.take(i as int));
            assert(all.take(i + 1).last() == entry@);
        }
        let fits = is_for_pc(entry) == pc;
        match &entry.name {
            Some(name) => {
                if fits {
                    list.push(name.as_str());
                    assert(strs(list@) =~= strs(so_far).push(name@));
                    assert(entry_names(found.push(entry@)) =~= entry_names(found).push(name@));
                    assert(strs(list@) =~= strs(old(list)@) + entry_names(found.push(entry@)));
                }
            },
            None => {},
        }
        i = i + 1;
    }
    assert(all.take(i as int) =~= all);
}

impl MicrosoftGameConfig {
    /// The declared executable names in declaration order, those for a PC first:
    /// the first one that fits is the one that is launched.
    pub fn declared_executables(&self) -> (r: Vec<&str>)
        ensures
            strs(r@) == declared(self.entries()),
    {
        let mut r: Vec<&str> = Vec::new();
        assert(strs(r@) =~= Seq::<Seq<char>>::empty());
        match &self.executable_list {
            Some(list) => {
                push_named(&mut r, &list.executables, true);
                push_named(&mut r, &list.executables, false);
                assert(strs(r@) =~= declared(self.entries()));
            },
            None => {
                proof {
                    reveal(Seq::filter);
                }
                assert(strs(r@) =~= declared(self.entries()));
            },
        }
        r
    }
}

/// Whether a file name is that of the manifest; the extraction may have changed
/// its case. A name that is no text is not.
pub open spec fn is_config_name(name: Option<Seq<char>>) -> bool {
    name is Some && text::lower_all(name->0) == text::lower_all("MicrosoftGame.config"@)
}

/// The position of the manifest among the file names of the install root: the
/// first name that fits.
pub fn find_config_file(names: &Vec<Option<String>>) -> (r: Option<usize>)
    ensures
        match r {
            Some(i) => i < names.len() && is_config_name(token::opt_text(names[i as int]))
                && forall|j: int|
                0 <= j < i ==> !is_config_name(token::opt_text(#[trigger] names[j])),
            None => forall|j: int|
                0 <= j < names.len() ==> !is_config_name(token::opt_text(#[trigger] names[j])),
        },
{
    let mut i: usize = 0;
    while i < names.len()
        invariant
            i <= names.len(),
            forall|j: int|
                0 <= j < i ==> !is_config_name(token::opt_text(#[trigger] names[j])),
        decreases names.len() - i,
    {
        match &names[i] {
            Some(name) => {
                if text::eq_ignore_case(name.as_str(), "MicrosoftGame.config") {
                    return Some(i);
                }
            },
            None => {},
        }
        i = i + 1;
    }
    None
}

/// What came of the attempt to get the manifest of an install; errors and the
/// path are given as they are displayed.
pub enum ConfigFile {
    Missing,
    Unreadable { shown: String, error: String },
    Malformed { shown: String, error: String },
    Parsed(MicrosoftGameConfig),
}

/// What the user is told about a manifest that is there and cannot be used.
pub open spec fn config_warning(file: ConfigFile) -> Option<Seq<char>> {
    match file {
        ConfigFile::Unreadable { shown, error } => Some(
            "warning: cannot read `"@ + shown@ + "`: "@ + error@,
        ),
        ConfigFile::Malformed { shown, error } => Some(
            "warning: cannot parse `"@ + shown@ + "`: "@ + error@,
        ),
        _ => None,
    }
}

fn warning(head: &str, shown: &str, error: &str) -> (r: String)
    ensures
        r@ == head@ + shown@ + "`: "@ + error@,
{
    let mut r = text::concat(head, shown);
    r.append("`: ");
    r.append(error);
    r
}

/// The manifest of an install, where it can be used, and what the user is told
/// where it cannot.
pub fn load_from_dir(file: ConfigFile) -> (r: (Option<MicrosoftGameConfig>, Option<String>))
    ensures
        r.0 == (match file {
            ConfigFile::Parsed(config) => Some(config),
            _ => None,
        }),
        token::opt_text(r.1) == config_warning(file),
{
    match file {
        ConfigFile::Missing => (None, None),
        ConfigFile::Unreadable { shown, error } => (
            None,
            Some(warning("warning: cannot read `", shown.as_str(), error.as_str())),
        ),
        ConfigFile::Malformed { shown, error } => (
            None,
            Some(warning("warning: cannot parse `", shown.as_str(), error.as_str())),
        ),
        ConfigFile::Parsed(config) => (Some(config), None),
    }
}

/// Every name that an entry declares is declared, as often as it occurs, and no
/// other: the order is all that the target changes.
pub proof fn law_every_named_entry_is_declared(entries: Seq<ExecutableView>)
    ensures
        declared(entries).to_multiset() == entry_names(
            entries.filter(|e: ExecutableView| e.name is Some),
        ).to_multiset(),
    decreases entries.len(),
{
    broadcast use vstd::seq_lib::group_to_multiset_ensures;

    reveal(Seq::filter);
    let named = |e: ExecutableView| e.name is Some;
    let all = entry_names(entries.filter(named));
    let first = entry_names(named_entries(entries, true));
    let second = entry_names(named_entries(entries, false));
    vstd::seq_lib::lemma_multiset_commutative(first, second);
    if entries.len() == 0 {
        assert(declared(entries) =~= all);
    } else {
        let init = entries.drop_last();
        let last = entries.last();
        law_every_named_entry_is_declared(init);
        let first_init = entry_names(named_entries(init, true));
        let second_init = entry_names(named_entries(init, false));
        vstd::seq_lib::lemma_multiset_commutative(first_init, second_init);
        if last.name is Some {
            let name = last.name->0;
            assert(all =~= entry_names(init.filter(named)).push(name));
            if last.for_pc() {
                assert(first =~= first_init.push(name));
                assert(second =~= second_init);
            } else {
                assert(first =~= first_init);
                assert(second =~= second_init.push(name));
            }
            assert(declared(entries).to_multiset() =~= all.to_multiset());
        }
    }
}

/// No entry for another target is declared before one for a PC: the first names
/// are those for a PC, in declaration order, and only then come the others, in
/// declaration order.
pub proof fn law_pc_targets_come_first(entries: Seq<ExecutableView>)
    ensures
        ({
            let pc = named_entries(entries, true);
            let other = named_entries(entries, false);
            &&& declared(entries).take(pc.len() as int) == entry_names(pc)
            &&& declared(entries).skip(pc.len() as int) == entry_names(other)
            &&& forall|i: int| 0 <= i < pc.len() ==> (#[trigger] pc[i]).for_pc()
            &&& forall|i: int| 0 <= i < other.len() ==> !(#[trigger] other[i]).for_pc()
        }),
{
    let pc = named_entries(entries, true);
    let other = named_entries(entries, false);
    let p = |e: ExecutableView| e.name is Some && e.for_pc() == true;
    let q = |e: ExecutableView| e.name is Some && e.for_pc() == false;
    assert(declared(entries).take(pc.len() as int) =~= entry_names(pc));
    assert(declared(entries).skip(pc.len() as int) =~= entry_names(other));
    assert forall|i: int| 0 <= i < pc.len() implies (#[trigger] pc[i]).for_pc() by {
        entries.lemma_filter_pred(p, i);
    }
    assert forall|i: int| 0 <= i < other.len() implies !(#[trigger] other[i]).for_pc() by {
        entries.lemma_filter_pred(q, i);
    }
}

/// An entry is meant for a PC exactly where it does not say what it is meant for or
/// says two letters, `P` and `C`, each in whatever case.
pub proof fn law_two_letters_mean_a_pc(entry: ExecutableView)
    ensures
        entry.target_device_family is None ==> entry.for_pc(),
        entry.target_device_family matches Some(family) ==> (entry.for_pc() <==> {
            &&& family.len() == 2
            &&& family[0] == 'P' || family[0] == 'p'
            &&& family[1] == 'C' || family[1] == 'c'
        }),
{
    reveal_strlit("PC");
    match entry.target_device_family {
        Some(family) => {
            text::law_case_is_ignored_letter_by_letter(family, "PC"@);
            if family.len() == 2 {
                assert(text::same_letter(family[0], 'P') <==> family[0] == 'P' || family[0]
                    == 'p') by {
                    if family[0] as int == 112 {
                        assert(family[0] == 'p');
                    }
                }
                assert(text::same_letter(family[1], 'C') <==> family[1] == 'C' || family[1]
                    == 'c') by {
                    if family[1] as int == 99 {
                        assert(family[1] == 'c');
                    }
                }
            }
        },
        None => {},
    }
}

/// An entry that is added at the end of the list is declared at the end, or, where
/// it is meant for a PC, right behind the others that are; one without a name is
/// not declared. Nothing else changes.
pub proof fn law_entries_are_declared_one_by_one(
    entries: Seq<ExecutableView>,
    entry: ExecutableView,
)
    ensures
        declared(Seq::empty()).len() == 0,
        entry.name is None ==> declared(entries.push(entry)) == declared(entries),
        entry.name matches Some(name) ==> !entry.for_pc() ==> declared(entries.push(entry))
            == declared(entries).push(name),
        entry.name matches Some(name) ==> entry.for_pc() ==> declared(entries.push(entry))
            == declared(entries).insert(named_entries(entries, true).len() as int, name),
        named_entries(entries.push(entry), true).len() == named_entries(entries, true).len() + (
        if entry.name is Some && entry.for_pc() {
            1int
        } else {
            0int
        }),
{
    reveal(Seq::filter);
    assert(entries.push(entry).drop_last() =~= entries);
    let pc = named_entries(entries, true);
    let other = named_entries(entries, false);
    match entry.name {
        Some(name) => {
            if entry.for_pc() {
                assert(entry_names(pc.push(entry)) =~= entry_names(pc).push(name));
                assert(declared(entries.push(entry)) =~= declared(entries).insert(
                    pc.len() as int,
                    name,
                ));
            } else {
                assert(entry_names(other.push(entry)) =~= entry_names(other).push(name));
                assert(declared(entries.push(entry)) =~= declared(entries).push(name));
            }
        },
        None => {},
    }
}

/// The manifest is told by its name, letter by letter and in whatever case; a name
/// that is no text is not it.
pub proof fn law_manifest_is_told_letter_by_letter(name: Seq<char>)
    ensures
        is_config_name(Some(name)) <==> name.len() == 20 && forall|i: int|
            0 <= i < 20 ==> text::same_letter(#[trigger] name[i], "MicrosoftGame.config"@[i]),
        !is_config_name(None),
{
    reveal_strlit("MicrosoftGame.config");
    text::law_case_is_ignored_letter_by_letter(name, "MicrosoftGame.config"@);
}

/// What the user is told of a manifest that cannot be used: its path and the error.
pub proof fn law_unusable_manifest_is_told(shown: String, error: String)
    ensures
        config_warning(ConfigFile::Unreadable { shown, error }) == Some(
            "warning: cannot read `"@ + shown@ + "`: "@ + error@,
        ),
        config_warning(ConfigFile::Malformed { shown, error }) == Some(
            "warning: cannot parse `"@ + shown@ + "`: "@ + error@,
        ),
        config_warning(ConfigFile::Missing) is None,
{
}

} // verus!
