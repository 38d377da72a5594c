//! The files of a package, as its metadata lists them.

use vstd::prelude::*;
use vstd::string::*;

use crate::text;

verus! {

broadcast use vstd::string::group_string_axioms;

/// A file of the package.
pub struct PackageFile {
    pub name: String,
    pub offset: u64,
    pub length: u64,
    /// How many page hashes the metadata holds for it.
    pub data_hashes: usize,
    /// The file stays encrypted on disk: wine gets a decrypted image of it.
    pub keep_encrypted: bool,
}

pub struct PackageFileView {
    pub name: Seq<char>,
    pub offset: u64,
    pub length: u64,
    pub data_hashes: usize,
    pub keep_encrypted: bool,
}

impl View for PackageFile {
    type V = PackageFileView;

    open spec fn view(&self) -> PackageFileView {
        PackageFileView {
            name: self.name@,
            offset: self.offset,
            length: self.length,
            data_hashes: self.data_hashes,
            keep_encrypted: self.keep_encrypted,
        }
    }
}

pub open spec fn package_views(files: Seq<PackageFile>) -> Seq<PackageFileView> {
    files.map_values(|f: PackageFile| f@)
}

/// The file of a package that holds the metadata of its segments.
pub open spec fn is_metadata_name(name: Seq<char>) -> bool {
    name == "SegmentMetadata.bin"@
}

/// The position of the segment metadata among the files of the user package:
/// the last file of that name.
pub fn metadata_index(names: &Vec<String>) -> (r: Option<usize>)
    ensures
        match r {
            Some(i) => i < names.len() && is_metadata_name(names[i as int]@) && forall|j: int|
                i < j < names.len() ==> !is_metadata_name(#[trigger] names[j]@),
            None => forall|j: int|
                0 <= j < names.len() ==> !is_metadata_name(#[trigger] names[j]@),
        },
{
    let mut i: usize = names.len();
    while i > 0
        invariant
            i <= names.len(),
            forall|j: int| i <= j < names.len() ==> !is_metadata_name(#[trigger] names[j]@),
        decreases i,
    {
        i = i - 1;
        if text::same_text(names[i].as_str(), "SegmentMetadata.bin") {
            return Some(i);
        }
    }
    None
}

/// The number of units that hold a length, the last one in part where the
/// length is no multiple.
pub open spec fn units(length: int, unit: int) -> int {
    if length % unit == 0 {
        length / unit
    } else {
        length / unit + 1
    }
}

/// The number of units that hold a length.
pub fn count_units(length: u64, unit: u64) -> (r: u64)
    requires
        unit > 0,
    ensures
        r == units(length as int, unit as int),
{
    let whole: u64 = length / unit;
    if length % unit == 0 {
        whole
    } else {
        proof {
            let l = length as int;
            let u = unit as int;
            vstd::arithmetic::div_mod::lemma_fundamental_div_mod(l, u);
            assert(l / u < l + 1 && (l % u > 0 ==> l / u < u64::MAX)) by (nonlinear_arith)
                requires
                    l == u * (l / u) + l % u,
                    0 <= l % u < u,
                    0 <= l <= u64::MAX,
                    u > 0,
            ;
        }
        whole + 1
    }
}

/// The units hold the length, and one unit less would not.
pub proof fn law_units_are_just_enough(length: int, unit: int)
    requires
        length >= 0,
        unit > 0,
    ensures
        length <= units(length, unit) * unit,
        length > 0 ==> (units(length, unit) - 1) * unit < length,
        length == 0 ==> units(length, unit) == 0,
{
    vstd::arithmetic::div_mod::lemma_fundamental_div_mod(length, unit);
    let q = length / unit;
    let r = length % unit;
    assert(length == unit * q + r);
    assert((q + 1) * unit == unit * q + unit) by (nonlinear_arith);
    assert((q - 1) * unit == unit * q - unit) by (nonlinear_arith);
    assert(q * unit == unit * q) by (nonlinear_arith);
    if length == 0 {
        assert(q == 0) by (nonlinear_arith)
            requires
                0 == unit * q + r,
                0 <= r < unit,
                unit > 0,
        ;
    }
}

/// The metadata of the file holds another number of page hashes than the file
/// has pages.
pub open spec fn hashes_differ(file: PackageFileView, page_size: u64) -> bool {
    units(file.length as int, page_size as int) as usize != file.data_hashes
}

/// The line about a file whose hashes and pages differ in number: its name, its
/// offset and its length.
pub open spec fn hash_note(file: PackageFileView) -> Seq<char> {
    file.name + ": "@ + text::decimal(file.offset as nat) + " "@ + text::decimal(
        file.length as nat,
    )
}

/// The lines about all files whose hashes and pages differ in number.
pub open spec fn notes_of(files: Seq<PackageFileView>, page_size: u64) -> Seq<Seq<char>> {
    files.filter(|f: PackageFileView| hashes_differ(f, page_size)).map_values(
        |f: PackageFileView| hash_note(f),
    )
}

fn note(file: &PackageFile) -> (r: String)
    ensures
        r@ == hash_note(file@),
{
    let mut r = text::concat(file.name.as_str(), ": ");
    r.append(text::decimal_text(file.offset).as_str());
    r.append(" ");
    r.append(text::decimal_text(file.length).as_str());
    r
}

/// The lines about all files whose hashes and pages differ in number.
pub fn hash_notes(files: &Vec<PackageFile>, page_size: u64) -> (r: Vec<String>)
    requires
        page_size > 0,
    ensures
        text::texts(r@) == notes_of(package_views(files@), page_size),
{
    let ghost views = package_views(files@);
    let ghost p = |f: PackageFileView| hashes_differ(f, page_size);
    let mut r: Vec<String> = Vec::new();
    let mut i: usize = 0;
    proof {
        reveal(Seq::filter);
        assert(text::texts(r@) =~= notes_of(views.take(0), page_size));
    }
    while i < files.len()
        invariant
            i <= files.len(),
            page_size > 0,
            views == package_views(files@),
            p == (|f: PackageFileView| hashes_differ(f, page_size)),
            text::texts(r@) == notes_of(views.take(i as int), page_size),
        decreases files.len() - i,
    {
        let ghost found = views.take(i as int).filter(p);
        proof {
            reveal(Seq::filter);
            assert(views.take(i + 1).drop_last() =~= views.take(i as int));
            assert(views.take(i + 1).last() == files@[i as int]@);
        }
        let pages: u64 = count_units(files[i].length, page_size);
        if pages as usize != files[i].data_hashes {
            text::push_text(&mut r, note(&files[i]));
            assert(text::texts(r@) =~= notes_of(views.take(i + 1), page_size));
        }
        i = i + 1;
    }
    assert(views.take(i as int) =~= views);
    r
}

/// The files that wine gets a decrypted image of.
pub open spec fn encrypted(files: Seq<PackageFileView>) -> Seq<PackageFileView> {
    files.filter(|f: PackageFileView| f.keep_encrypted)
}

/// The names of the files that wine gets a decrypted image of.
pub open spec fn encrypted_names(files: Seq<PackageFileView>) -> Seq<Seq<char>> {
    encrypted(files).map_values(|f: PackageFileView| f.name)
}

/// The names of the files that wine gets a decrypted image of.
pub fn names_to_mount(files: &Vec<PackageFile>) -> (r: Vec<String>)
    ensures
        text::texts(r@) == encrypted_names(package_views(files@)),
{
    let ghost views = package_views(files@);
    let ghost p = |f: PackageFileView| f.keep_encrypted;
    let mut r: Vec<String> = Vec::new();
    let mut i: usize = 0;
    proof {
        reveal(Seq::filter);
        assert(text::texts(r@) =~= encrypted_names(views.take(0)));
    }
    while i < files.len()
        invariant
            i <= files.len(),
            views == package_views(files@),
            p == (|f: PackageFileView| f.keep_encrypted),
            text::texts(r@) == encrypted_names(views.take(i as int)),
        decreases files.len() - i,
    {
        proof {
            reveal(Seq::filter);
            assert(views.take(i + 1).drop_last() =~= views.take(i as int));
            assert(views.take(i + 1).last() == files@[i as int]@);
        }
        if files[i].keep_encrypted {
            text::push_text(&mut r, files[i].name.clone());
            assert(text::texts(r@) =~= encrypted_names(views.take(i + 1)));
        }
        i = i + 1;
    }
    assert(views.take(i as int) =~= views);
    r
}

} // verus!
