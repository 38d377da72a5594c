//! What holds of every launch plan: the order of the files, the file map that wine
//! reads back, and the choice of the entry executable.

use vstd::prelude::*;

use crate::exe;
use crate::launch;
use crate::launch::MappedFileView;
use crate::text;

verus! {

broadcast use vstd::string::group_string_axioms;

proof fn lemma_before_irreflexive(a: Seq<char>)
    ensures
        !text::before(a, a),
    decreases a.len(),
{
    if a.len() > 0 {
        lemma_before_irreflexive(a.drop_first());
    }
}

proof fn lemma_before_asymmetric(a: Seq<char>, b: Seq<char>)
    ensures
        !(text::before(a, b) && text::before(b, a)),
    decreases a.len(),
{
    if a.len() > 0 && b.len() > 0 {
        lemma_before_asymmetric(a.drop_first(), b.drop_first());
    }
}

proof fn lemma_before_transitive(a: Seq<char>, b: Seq<char>, c: Seq<char>)
    requires
        text::before(a, b),
        text::before(b, c),
    ensures
        text::before(a, c),
    decreases a.len(),
{
    if a.len() > 0 && b.len() > 0 && c.len() > 0 {
        if a[0] == b[0] && b[0] == c[0] {
            lemma_before_transitive(a.drop_first(), b.drop_first(), c.drop_first());
        }
    }
}

proof fn lemma_before_total(a: Seq<char>, b: Seq<char>)
    ensures
        text::before(a, b) || text::before(b, a) || a == b,
    decreases a.len(),
{
    if a.len() > 0 && b.len() > 0 {
        lemma_before_total(a.drop_first(), b.drop_first());
        if a[0] == b[0] && a.drop_first() == b.drop_first() {
            assert(a =~= seq![a[0]] + a.drop_first());
            assert(b =~= seq![b[0]] + b.drop_first());
        }
    } else if a.len() == 0 && b.len() == 0 {
        assert(a =~= b);
    }
}

/// No file stands behind one whose name comes after its own.
pub open spec fn in_order(files: Seq<MappedFileView>) -> bool {
    forall|i: int, j: int|
        0 <= i < j < files.len() ==> !text::before(#[trigger] files[j].name, #[trigger] files[i].name)
}

pub open spec fn distinct_names(files: Seq<MappedFileView>) -> bool {
    forall|i: int, j: int|
        0 <= i < j < files.len() ==> #[trigger] files[i].name != #[trigger] files[j].name
}

proof fn lemma_insert_permutes(files: Seq<MappedFileView>, file: MappedFileView)
    ensures
        launch::insert_by_name(files, file).to_multiset() == files.to_multiset().insert(file),
    decreases files.len(),
{
    broadcast use vstd::seq_lib::group_to_multiset_ensures;
    broadcast use vstd::multiset::group_multiset_axioms;

    if files.len() > 0 && text::before(file.name, files.last().name) {
        lemma_insert_permutes(files.drop_last(), file);
        assert(files =~= files.drop_last().push(files.last()));
        assert(launch::insert_by_name(files, file).to_multiset() =~= files.to_multiset().insert(
            file,
        ));
    }
}

/// Sorting neither loses a file nor adds one.
pub proof fn law_sorting_keeps_the_files(files: Seq<MappedFileView>)
    ensures
        launch::by_name(files).to_multiset() == files.to_multiset(),
    decreases files.len(),
{
    broadcast use vstd::seq_lib::group_to_multiset_ensures;

    if files.len() > 0 {
        law_sorting_keeps_the_files(files.drop_last());
        lemma_insert_permutes(launch::by_name(files.drop_last()), files.last());
        assert(files =~= files.drop_last().push(files.last()));
    }
}

proof fn lemma_insert_orders(files: Seq<MappedFileView>, file: MappedFileView)
    requires
        in_order(files),
    ensures
        in_order(launch::insert_by_name(files, file)),
        forall|bound: Seq<char>|
            (forall|i: int| 0 <= i < files.len() ==> !text::before(bound, #[trigger] files[i].name))
                && !text::before(bound, file.name) ==> forall|i: int|
                0 <= i < launch::insert_by_name(files, file).len() ==> !#[trigger] text::before(
                    bound,
                    launch::insert_by_name(files, file)[i].name,
                ),
    decreases files.len(),
{
    let r = launch::insert_by_name(files, file);
    if files.len() > 0 && text::before(file.name, files.last().name) {
        let front = files.drop_last();
        let last = files.last();
        assert(in_order(front)) by {
            assert forall|i: int, j: int| 0 <= i < j < front.len() implies !text::before(
                #[trigger] front[j].name,
                #[trigger] front[i].name,
            ) by {
                assert(front[j] == files[j]);
                assert(front[i] == files[i]);
            }
        }
        lemma_insert_orders(front, file);
        let inner = launch::insert_by_name(front, file);
        assert(r == inner.push(last));
        lemma_before_asymmetric(file.name, last.name);
        assert forall|i: int| 0 <= i < front.len() implies !text::before(
            last.name,
            #[trigger] front[i].name,
        ) by {
            assert(front[i] == files[i]);
            assert(files[files.len() - 1] == last);
        }
        assert forall|i: int, j: int| 0 <= i < j < r.len() implies !text::before(
            #[trigger] r[j].name,
            #[trigger] r[i].name,
        ) by {
            if j < inner.len() {
                assert(r[j] == inner[j]);
                assert(r[i] == inner[i]);
            } else {
                assert(r[j] == last);
                assert(r[i] == inner[i]);
                assert(!text::before(last.name, inner[i].name));
            }
        }
        assert forall|bound: Seq<char>|
            (forall|i: int| 0 <= i < files.len() ==> !text::before(bound, #[trigger] files[i].name))
                && !text::before(bound, file.name) implies forall|i: int|
            0 <= i < r.len() ==> !#[trigger] text::before(bound, r[i].name) by {
            assert forall|i: int| 0 <= i < front.len() implies !text::before(
                bound,
                #[trigger] front[i].name,
            ) by {
                assert(front[i] == files[i]);
            }
            assert forall|i: int| 0 <= i < r.len() implies !#[trigger] text::before(
                bound,
                r[i].name,
            ) by {
                if i < inner.len() {
                    assert(r[i] == inner[i]);
                    assert(!text::before(bound, inner[i].name));
                } else {
                    assert(r[i] == last);
                    assert(files[files.len() - 1] == last);
                }
            }
        }
    } else {
        assert(r == files.push(file));
        assert forall|i: int, j: int| 0 <= i < j < r.len() implies !text::before(
            #[trigger] r[j].name,
            #[trigger] r[i].name,
        ) by {
            if j < files.len() {
                assert(r[j] == files[j]);
                assert(r[i] == files[i]);
            } else {
                assert(r[i] == files[i]);
                let last = files.last();
                assert(!text::before(file.name, last.name));
                if text::before(file.name, files[i].name) {
                    lemma_before_total(last.name, file.name);
                    if i < files.len() - 1 {
                        assert(!text::before(files[files.len() - 1].name, files[i].name));
                        if last.name != file.name {
                            lemma_before_transitive(last.name, file.name, files[i].name);
                        }
                    }
                }
            }
        }
    }
}

/// After sorting, the files stand in the order of their names.
pub proof fn law_sorting_orders(files: Seq<MappedFileView>)
    ensures
        in_order(launch::by_name(files)),
    decreases files.len(),
{
    if files.len() > 0 {
        law_sorting_orders(files.drop_last());
        lemma_insert_orders(launch::by_name(files.drop_last()), files.last());
    }
}

/// By name, then by descriptor: a total order that agrees with `in_order`.
spec fn not_after(a: MappedFileView, b: MappedFileView) -> bool {
    text::before(a.name, b.name) || (a.name == b.name && a.fd <= b.fd)
}

proof fn lemma_not_after_total()
    ensures
        vstd::relations::total_ordering(|a: MappedFileView, b: MappedFileView| not_after(a, b)),
{
    let leq = |a: MappedFileView, b: MappedFileView| not_after(a, b);
    assert forall|x: MappedFileView, y: MappedFileView| #[trigger]
        leq(x, y) && #[trigger] leq(y, x) implies x == y by {
        lemma_before_asymmetric(x.name, y.name);
        lemma_before_irreflexive(x.name);
    }
    assert forall|x: MappedFileView, y: MappedFileView, z: MappedFileView| #[trigger]
        leq(x, y) && #[trigger] leq(y, z) implies leq(x, z) by {
        if text::before(x.name, y.name) && text::before(y.name, z.name) {
            lemma_before_transitive(x.name, y.name, z.name);
        }
    }
    assert forall|x: MappedFileView, y: MappedFileView| #[trigger]
        leq(x, y) || #[trigger] leq(y, x) by {
        lemma_before_total(x.name, y.name);
    }
}

/// Names that differ before sorting differ after it.
proof fn lemma_sorting_keeps_names_distinct(files: Seq<MappedFileView>)
    requires
        distinct_names(files),
    ensures
        distinct_names(launch::by_name(files)),
    decreases files.len(),
{
    if files.len() > 0 {
        let front = files.drop_last();
        assert(distinct_names(front)) by {
            assert forall|i: int, j: int| 0 <= i < j < front.len() implies #[trigger] front[i].name
                != #[trigger] front[j].name by {
                assert(front[i] == files[i]);
                assert(front[j] == files[j]);
            }
        }
        lemma_sorting_keeps_names_distinct(front);
        let sorted = launch::by_name(front);
        assert forall|i: int| 0 <= i < sorted.len() implies #[trigger] sorted[i].name
            != files.last().name by {
            broadcast use vstd::seq_lib::group_to_multiset_ensures;

            law_sorting_keeps_the_files(front);
            assert(sorted.contains(sorted[i]));
            assert(sorted.to_multiset().count(sorted[i]) > 0);
            assert(front.contains(sorted[i]));
            let k = choose|k: int| 0 <= k < front.len() && front[k] == sorted[i];
            assert(files[k] == front[k]);
            assert(files[files.len() - 1] == files.last());
        }
        lemma_insert_keeps_names_distinct(sorted, files.last());
    }
}

/// What stands in the list after an insertion stood there before, or is new.
proof fn lemma_insert_members(files: Seq<MappedFileView>, file: MappedFileView, i: int)
    requires
        0 <= i < launch::insert_by_name(files, file).len(),
    ensures
        launch::insert_by_name(files, file)[i] == file || files.contains(
            launch::insert_by_name(files, file)[i],
        ),
{
    broadcast use vstd::seq_lib::group_to_multiset_ensures;
    broadcast use vstd::multiset::group_multiset_axioms;

    let r = launch::insert_by_name(files, file);
    lemma_insert_permutes(files, file);
    assert(r.contains(r[i]));
    assert(r.to_multiset().count(r[i]) > 0);
}

proof fn lemma_insert_keeps_names_distinct(files: Seq<MappedFileView>, file: MappedFileView)
    requires
        distinct_names(files),
        forall|i: int| 0 <= i < files.len() ==> #[trigger] files[i].name != file.name,
    ensures
        distinct_names(launch::insert_by_name(files, file)),
    decreases files.len(),
{
    let r = launch::insert_by_name(files, file);
    if files.len() > 0 && text::before(file.name, files.last().name) {
        let front = files.drop_last();
        let last = files.last();
        assert(files[files.len() - 1] == last);
        assert forall|i: int| 0 <= i < front.len() implies #[trigger] front[i].name != file.name
            && front[i].name != last.name by {
            assert(front[i] == files[i]);
        }
        assert(distinct_names(front)) by {
            assert forall|i: int, j: int| 0 <= i < j < front.len() implies #[trigger] front[i].name
                != #[trigger] front[j].name by {
                assert(front[i] == files[i]);
                assert(front[j] == files[j]);
            }
        }
        lemma_insert_keeps_names_distinct(front, file);
        let inner = launch::insert_by_name(front, file);
        assert forall|i: int| 0 <= i < inner.len() implies #[trigger] inner[i].name
            != last.name by {
            lemma_insert_members(front, file, i);
        }
        assert forall|i: int, j: int| 0 <= i < j < r.len() implies #[trigger] r[i].name
            != #[trigger] r[j].name by {
            assert(r[i] == inner[i]);
            if j < inner.len() {
                assert(r[j] == inner[j]);
            }
        }
    }
}

proof fn lemma_order_is_total_order(files: Seq<MappedFileView>)
    requires
        in_order(files),
        distinct_names(files),
    ensures
        vstd::relations::sorted_by(files, |a: MappedFileView, b: MappedFileView| not_after(a, b)),
{
    let leq = |a: MappedFileView, b: MappedFileView| not_after(a, b);
    assert forall|i: int, j: int| 0 <= i < j < files.len() implies #[trigger] leq(
        files[i],
        files[j],
    ) by {
        lemma_before_total(files[i].name, files[j].name);
    }
}

/// A package whose files have distinct names is sorted the same way in
/// whatever order its files come.
pub proof fn law_sorting_ignores_arrival_order(
    files: Seq<MappedFileView>,
    other: Seq<MappedFileView>,
)
    requires
        files.to_multiset() == other.to_multiset(),
        distinct_names(files),
        distinct_names(other),
    ensures
        launch::by_name(files) == launch::by_name(other),
{
    law_sorting_keeps_the_files(files);
    law_sorting_keeps_the_files(other);
    law_sorting_orders(files);
    law_sorting_orders(other);
    lemma_sorting_keeps_names_distinct(files);
    lemma_sorting_keeps_names_distinct(other);
    lemma_order_is_total_order(launch::by_name(files));
    lemma_order_is_total_order(launch::by_name(other));
    lemma_not_after_total();
    vstd::seq_lib::lemma_sorted_unique(
        launch::by_name(files),
        launch::by_name(other),
        |a: MappedFileView, b: MappedFileView| not_after(a, b),
    );
}

/// The same package always maps and always selects the same way.
pub proof fn law_plan_ignores_arrival_order(
    files: Seq<MappedFileView>,
    other: Seq<MappedFileView>,
    install_dir: Seq<char>,
    wanted: Option<Seq<char>>,
)
    requires
        files.to_multiset() == other.to_multiset(),
        distinct_names(files),
        distinct_names(other),
    ensures
        launch::launch_plan(files, install_dir, wanted) == launch::launch_plan(
            other,
            install_dir,
            wanted,
        ),
{
    law_sorting_ignores_arrival_order(files, other);
}

/// The number that a row of decimal digits stands for.
pub open spec fn decimal_value(digits: Seq<char>) -> int
    decreases digits.len(),
{
    if digits.len() == 0 {
        0
    } else {
        decimal_value(digits.drop_last()) * 10 + (digits.last() as int - 48)
    }
}

/// A decimal number reads back, and no separator of the file map is in it.
pub proof fn law_decimal_reads_back(n: nat)
    ensures
        decimal_value(text::decimal(n)) == n,
        !text::decimal(n).contains(':'),
        !text::decimal(n).contains('|'),
    decreases n,
{
    let d = text::decimal(n);
    if n < 10 {
        assert(d.drop_last() =~= Seq::<char>::empty());
        assert(decimal_value(d.drop_last()) == 0);
        assert(d.last() as int == n + 48);
    } else {
        law_decimal_reads_back(n / 10);
        let front = text::decimal(n / 10);
        assert(d.drop_last() =~= front);
        assert(d.last() as int == n % 10 + 48);
        assert forall|i: int| 0 <= i < d.len() implies d[i] != ':' && d[i] != '|' by {
            if i < front.len() {
                assert(front.contains(front[i]));
            }
        }
    }
}

/// An entry of the file map as wine takes it apart: the descriptor before the
/// first colon, the NT path after it.
pub open spec fn read_entry(entry: Seq<char>) -> (int, Seq<char>) {
    let number = text::split(entry, ':')[0];
    (decimal_value(number), entry.skip(number.len() as int + 1))
}

/// Wine reads from an entry the descriptor and the NT path that went into it.
pub proof fn law_map_entry_reads_back(install_dir: Seq<char>, file: MappedFileView)
    requires
        file.fd >= 0,
    ensures
        read_entry(launch::map_entry(install_dir, file)) == (
            file.fd,
            launch::nt_path(install_dir, file.name),
        ),
{
    let number = text::signed_decimal(file.fd);
    let path = launch::nt_path(install_dir, file.name);
    let entry = launch::map_entry(install_dir, file);
    law_decimal_reads_back(file.fd as nat);
    text::lemma_split_single(number, ':');
    text::lemma_split_concat(number, path, ':');
    text::lemma_split_nonempty(path, ':');
    assert(text::split(entry, ':')[0] == number);
    assert(entry.skip(number.len() as int + 1) =~= path);
}

proof fn lemma_no_bar_in_entry(install_dir: Seq<char>, file: MappedFileView)
    requires
        file.fd >= 0,
        !install_dir.contains('|'),
        !file.name.contains('|'),
    ensures
        !launch::map_entry(install_dir, file).contains('|'),
{
    reveal_strlit("\\??\\Z:");
    law_decimal_reads_back(file.fd as nat);
    let number = text::signed_decimal(file.fd);
    let drive = "\\??\\Z:"@;
    let replaced = text::replace_all(install_dir, '/', '\\');
    assert(!replaced.contains('|')) by {
        assert forall|i: int| 0 <= i < replaced.len() implies replaced[i] != '|' by {
            assert(install_dir.contains(install_dir[i]));
        }
    }
    lemma_trim_end_contains(replaced, '\\', '|');
    lemma_trim_start_contains(file.name, '\\', '|');
    let prefix = launch::nt_prefix(install_dir);
    let suffix = text::trim_start(file.name, '\\');
    let entry = launch::map_entry(install_dir, file);
    assert(entry =~= number + seq![':'] + drive + prefix + seq!['\\'] + suffix);
    assert forall|i: int| 0 <= i < entry.len() implies entry[i] != '|' by {
        let a = number.len() as int;
        let b = a + 1 + drive.len();
        let c = b + prefix.len() + 1;
        if i < a {
            assert(number.contains(number[i]));
        } else if a < i < b {
            assert(entry[i] == drive[i - a - 1]);
        } else if b <= i < c - 1 {
            assert(entry[i] == prefix[i - b]);
            assert(prefix.contains(prefix[i - b]));
        } else if c <= i {
            assert(entry[i] == suffix[i - c]);
            assert(suffix.contains(suffix[i - c]));
        }
    }
}

proof fn lemma_trim_end_contains(s: Seq<char>, c: char, x: char)
    requires
        !s.contains(x),
    ensures
        !text::trim_end(s, c).contains(x),
    decreases s.len(),
{
    if s.len() > 0 && s.last() == c {
        assert forall|i: int| 0 <= i < s.drop_last().len() implies s.drop_last()[i] != x by {
            assert(s.contains(s[i]));
        }
        lemma_trim_end_contains(s.drop_last(), c, x);
    }
}

proof fn lemma_trim_start_contains(s: Seq<char>, c: char, x: char)
    requires
        !s.contains(x),
    ensures
        !text::trim_start(s, c).contains(x),
    decreases s.len(),
{
    if s.len() > 0 && s[0] == c {
        assert forall|i: int| 0 <= i < s.drop_first().len() implies s.drop_first()[i] != x by {
            assert(s.contains(s[i + 1]));
        }
        lemma_trim_start_contains(s.drop_first(), c, x);
    }
}

/// The bars of the file map separate exactly the entries of the files, so that
/// wine finds every descriptor and every NT path again. A bar in the install
/// directory or in a file name would read as a separator.
pub proof fn law_file_map_reads_back(install_dir: Seq<char>, files: Seq<MappedFileView>)
    requires
        files.len() > 0,
        !install_dir.contains('|'),
        forall|i: int| 0 <= i < files.len() ==> #[trigger] files[i].fd >= 0,
        forall|i: int| 0 <= i < files.len() ==> !(#[trigger] files[i].name).contains('|'),
    ensures
        text::split(launch::file_map(install_dir, files), '|').map_values(
            |entry: Seq<char>| read_entry(entry),
        ) == files.map_values(
            |f: MappedFileView| (f.fd, launch::nt_path(install_dir, f.name)),
        ),
{
    let entries = files.map_values(|f: MappedFileView| launch::map_entry(install_dir, f));
    assert forall|i: int| 0 <= i < entries.len() implies !(#[trigger] entries[i]).contains('|') by {
        lemma_no_bar_in_entry(install_dir, files[i]);
    }
    lemma_split_join(entries, '|');
    assert forall|i: int| 0 <= i < files.len() implies #[trigger] read_entry(entries[i]) == (
        files[i].fd,
        launch::nt_path(install_dir, files[i].name),
    ) by {
        law_map_entry_reads_back(install_dir, files[i]);
    }
    assert(text::split(launch::file_map(install_dir, files), '|').map_values(
        |entry: Seq<char>| read_entry(entry),
    ) =~= files.map_values(|f: MappedFileView| (f.fd, launch::nt_path(install_dir, f.name))));
}

/// Pieces without a separator in them are found again after joining.
proof fn lemma_split_join(pieces: Seq<Seq<char>>, sep: char)
    requires
        pieces.len() > 0,
        forall|i: int| 0 <= i < pieces.len() ==> !(#[trigger] pieces[i]).contains(sep),
    ensures
        text::split(text::join(pieces, sep), sep) == pieces,
    decreases pieces.len(),
{
    if pieces.len() == 1 {
        text::lemma_split_single(pieces[0], sep);
        assert(pieces =~= seq![pieces[0]]);
    } else {
        let front = pieces.drop_last();
        assert forall|i: int| 0 <= i < front.len() implies !(#[trigger] front[i]).contains(sep) by {
            assert(front[i] == pieces[i]);
        }
        lemma_split_join(front, sep);
        text::lemma_split_single(pieces.last(), sep);
        text::lemma_split_concat(text::join(front, sep), pieces.last(), sep);
        assert(front + seq![pieces.last()] =~= pieces);
    }
}

proof fn lemma_insert_filter_len(
    files: Seq<MappedFileView>,
    file: MappedFileView,
    p: spec_fn(MappedFileView) -> bool,
)
    ensures
        launch::insert_by_name(files, file).filter(p).len() == files.filter(p).len() + (if p(file) {
            1int
        } else {
            0int
        }),
    decreases files.len(),
{
    if files.len() > 0 && text::before(file.name, files.last().name) {
        let front = files.drop_last();
        lemma_insert_filter_len(front, file, p);
        assert(files =~= front.push(files.last()));
        front.lemma_filter_len_push(p, files.last());
        launch::insert_by_name(front, file).lemma_filter_len_push(p, files.last());
    } else {
        files.lemma_filter_len_push(p, file);
    }
}

/// As many files pass a test after sorting as before.
proof fn lemma_sorting_filter_len(
    files: Seq<MappedFileView>,
    p: spec_fn(MappedFileView) -> bool,
)
    ensures
        launch::by_name(files).filter(p).len() == files.filter(p).len(),
    decreases files.len(),
{
    if files.len() > 0 {
        let front = files.drop_last();
        lemma_sorting_filter_len(front, p);
        lemma_insert_filter_len(launch::by_name(front), files.last(), p);
        assert(files =~= front.push(files.last()));
        front.lemma_filter_len_push(p, files.last());
    }
}

/// Without a wanted executable, a package is launched exactly where one of its
/// files is an executable, and no more than one.
pub proof fn law_single_executable_is_launched(
    files: Seq<MappedFileView>,
    install_dir: Seq<char>,
)
    ensures
        launch::launch_plan(files, install_dir, None) is Ok <==> launch::executables(files).len()
            == 1,
        launch::launch_plan(files, install_dir, None) matches Err(
            launch::LaunchErrorView::NoExecutable,
        ) <==> launch::executables(files).len() == 0,
        launch::launch_plan(files, install_dir, None) matches Err(
            launch::LaunchErrorView::SeveralExecutables { .. },
        ) <==> launch::executables(files).len() > 1,
{
    lemma_sorting_filter_len(files, |f: MappedFileView| exe::has_exe_suffix(f.name));
}

/// A wanted executable is launched exactly where it matches a file of the
/// package.
pub proof fn law_wanted_executable_is_launched(
    files: Seq<MappedFileView>,
    install_dir: Seq<char>,
    wanted: Seq<char>,
)
    ensures
        launch::launch_plan(files, install_dir, Some(wanted)) is Ok <==> exists|i: int|
            0 <= i < files.len() && exe::exe_matches(#[trigger] files[i].name, wanted),
        launch::launch_plan(files, install_dir, Some(wanted)) matches Err(e) ==> e matches
            launch::LaunchErrorView::NotInPackage { .. },
{
    let p = |f: MappedFileView| exe::exe_matches(f.name, wanted);
    lemma_sorting_filter_len(files, p);
    let found = launch::matching(files, wanted);
    if found.len() > 0 {
        files.lemma_filter_pred(p, 0);
        assert(p(found[0]));
        assert(files.contains(found[0])) by {
            files.lemma_filter_contains_rev(p, found[0]);
        }
        let i = choose|i: int| 0 <= i < files.len() && files[i] == found[0];
        assert(exe::exe_matches(files[i].name, wanted));
    }
    assert forall|i: int|
        0 <= i < files.len() && exe::exe_matches(#[trigger] files[i].name, wanted) implies found.len()
        > 0 by {
        files.lemma_filter_contains(p, i);
    }
}

/// The executable that is launched is one of the package's files, it is the
/// one that was asked for, and the file map has an entry for it.
pub proof fn law_entry_is_mapped(
    files: Seq<MappedFileView>,
    install_dir: Seq<char>,
    wanted: Option<Seq<char>>,
)
    requires
        launch::launch_plan(files, install_dir, wanted) is Ok,
    ensures
        exists|f: MappedFileView| #[trigger]
            files.contains(f) && launch::by_name(files).contains(f) && launch::launch_plan(
                files,
                install_dir,
                wanted,
            )->Ok_0.entry == launch::nt_path(install_dir, f.name) && (match wanted {
                Some(w) => exe::exe_matches(f.name, w),
                None => exe::has_exe_suffix(f.name),
            }),
        launch::launch_plan(files, install_dir, wanted)->Ok_0.file_map == launch::file_map(
            install_dir,
            launch::by_name(files),
        ),
{
    broadcast use vstd::seq_lib::group_to_multiset_ensures;

    let sorted = launch::by_name(files);
    let p = match wanted {
        Some(w) => |f: MappedFileView| exe::exe_matches(f.name, w),
        None => |f: MappedFileView| exe::has_exe_suffix(f.name),
    };
    let f = sorted.filter(p)[0];
    sorted.lemma_filter_pred(p, 0);
    sorted.lemma_filter_contains_rev(p, f);
    law_sorting_keeps_the_files(files);
    assert(sorted.to_multiset().count(f) > 0);
    assert(files.contains(f));
}

/// The first `k` characters of a name are its leading backslashes.
pub open spec fn leading_backslashes(name: Seq<char>, k: int) -> bool {
    &&& 0 <= k <= name.len()
    &&& forall|i: int| 0 <= i < k ==> name[i] == '\\'
    &&& k < name.len() ==> name[k] != '\\'
}

/// An NT path, place by place: the drive, then the directory with a backslash for
/// every slash and all other characters as they are, then one backslash, then the
/// name without its first `k` characters.
pub open spec fn leads_past(p: Seq<char>, directory: Seq<char>, name: Seq<char>, k: int) -> bool {
    let n = directory.len() as int;
    &&& leading_backslashes(name, k)
    &&& p.len() == 7 + n + name.len() - k
    &&& p[0] == '\\' && p[1] == '?' && p[2] == '?' && p[3] == '\\' && p[4] == 'Z' && p[5] == ':'
    &&& forall|i: int|
        0 <= i < n ==> p[6 + i] == (if #[trigger] directory[i] == '/' {
            '\\'
        } else {
            directory[i]
        })
    &&& p[6 + n] == '\\'
    &&& forall|i: int| k <= i < name.len() ==> p[7 + n + i - k] == #[trigger] name[i]
}

/// An NT path leads to the file of this name in this directory.
pub open spec fn leads_to(p: Seq<char>, directory: Seq<char>, name: Seq<char>) -> bool {
    exists|k: int| #[trigger] leads_past(p, directory, name, k)
}

proof fn lemma_leading_backslashes(name: Seq<char>) -> (k: int)
    ensures
        leading_backslashes(name, k),
        text::trim_start(name, '\\') == name.skip(k),
    decreases name.len(),
{
    if name.len() > 0 && name[0] == '\\' {
        let rest = name.drop_first();
        let k = lemma_leading_backslashes(rest);
        assert forall|i: int| 0 <= i < k + 1 implies name[i] == '\\' by {
            if i > 0 {
                assert(rest[i - 1] == '\\');
            }
        }
        if k + 1 < name.len() {
            assert(rest[k] == name[k + 1]);
        }
        assert(rest.skip(k) =~= name.skip(k + 1));
        k + 1
    } else {
        assert(name.skip(0) =~= name);
        0
    }
}

/// The NT path of a file leads back to its place on the host: to the directory,
/// character by character, and to the name in it. Nothing but the slashes of the
/// directory and the leading backslashes of the name is changed.
pub proof fn law_nt_path_leads_to_the_file(directory: Seq<char>, name: Seq<char>)
    requires
        directory.len() > 0 ==> !exe::is_separator(directory.last()),
    ensures
        leads_to(launch::nt_path(directory, name), directory, name),
{
    reveal_strlit("\\??\\Z:");
    let p = launch::nt_path(directory, name);
    let k = lemma_leading_backslashes(name);
    let slashed = text::replace_all(directory, '/', '\\');
    text::law_replacing_is_place_by_place(directory, '/', '\\');
    text::law_trailing_ones_are_trimmed(slashed, Seq::empty(), '\\');
    assert(slashed + Seq::<char>::empty() =~= slashed);
    assert(p =~= "\\??\\Z:"@ + slashed + seq!['\\'] + name.skip(k));
    let n = directory.len() as int;
    assert forall|i: int| 0 <= i < n implies p[6 + i] == (if #[trigger] directory[i] == '/' {
        '\\'
    } else {
        directory[i]
    }) by {
        assert(p[6 + i] == slashed[i]);
    }
    assert forall|i: int| k <= i < name.len() implies p[7 + n + i - k] == #[trigger] name[i] by {
        assert(p[7 + n + i - k] == name.skip(k)[i - k]);
    }
    assert(leads_past(p, directory, name, k));
}

/// Separators at the end of the directory are of no consequence.
pub proof fn law_trailing_separators_do_not_matter(
    directory: Seq<char>,
    trail: Seq<char>,
    name: Seq<char>,
)
    requires
        directory.len() > 0 ==> !exe::is_separator(directory.last()),
        exe::separators(trail),
    ensures
        launch::nt_path(directory + trail, name) == launch::nt_path(directory, name),
{
    let slashed = text::replace_all(directory, '/', '\\');
    let tail = text::replace_all(trail, '/', '\\');
    text::law_replacing_is_place_by_place(directory, '/', '\\');
    assert forall|i: int| 0 <= i < tail.len() implies tail[i] == '\\' by {
        assert(exe::is_separator(trail[i]));
    }
    assert(text::replace_all(directory + trail, '/', '\\') =~= slashed + tail);
    text::law_trailing_ones_are_trimmed(slashed, tail, '\\');
    text::law_trailing_ones_are_trimmed(slashed, Seq::empty(), '\\');
    assert(slashed + Seq::<char>::empty() =~= slashed);
}

/// Two directories never give the same NT path for a name: wine cannot take the
/// files of one install for those of another.
pub proof fn law_nt_paths_tell_directories_apart(
    directory: Seq<char>,
    other: Seq<char>,
    name: Seq<char>,
)
    requires
        !directory.contains('\\'),
        !other.contains('\\'),
        directory.len() > 0 ==> directory.last() != '/',
        other.len() > 0 ==> other.last() != '/',
        launch::nt_path(directory, name) == launch::nt_path(other, name),
    ensures
        directory == other,
{
    let p = launch::nt_path(directory, name);
    if directory.len() > 0 {
        assert(directory.contains(directory.last()));
    }
    if other.len() > 0 {
        assert(other.contains(other.last()));
    }
    law_nt_path_leads_to_the_file(directory, name);
    law_nt_path_leads_to_the_file(other, name);
    let k = choose|k: int| #[trigger] leads_past(p, directory, name, k);
    let m = choose|m: int| #[trigger] leads_past(p, other, name, m);
    assert(k == m) by {
        if k < m {
            assert(name[k] == '\\');
        }
        if m < k {
            assert(name[m] == '\\');
        }
    }
    assert forall|i: int| 0 <= i < directory.len() implies directory[i] == other[i] by {
        assert(directory.contains(directory[i]));
        assert(other.contains(other[i]));
        assert(p[6 + i] == p[6 + i]);
    }
    assert(directory =~= other);
}

/// The executables are picked one by one, by the last four characters of their
/// names alone, and keep their order.
pub proof fn law_executables_are_picked_one_by_one(
    files: Seq<MappedFileView>,
    file: MappedFileView,
)
    ensures
        launch::executables(Seq::empty()).len() == 0,
        launch::executables(files.push(file)) == (if exe::spelled_exe(file.name) {
            launch::executables(files).push(file)
        } else {
            launch::executables(files)
        }),
{
    reveal(Seq::filter);
    exe::law_last_four_characters_make_an_executable(file.name);
    assert(files.push(file).drop_last() =~= files);
}

/// The matching files are picked one by one, and keep their order.
pub proof fn law_matches_are_picked_one_by_one(
    files: Seq<MappedFileView>,
    file: MappedFileView,
    wanted: Seq<char>,
)
    ensures
        launch::matching(Seq::empty(), wanted).len() == 0,
        launch::matching(files.push(file), wanted) == (if exe::exe_matches(file.name, wanted) {
            launch::matching(files, wanted).push(file)
        } else {
            launch::matching(files, wanted)
        }),
{
    reveal(Seq::filter);
    assert(files.push(file).drop_last() =~= files);
}

/// A package with exactly one file whose name ends in a spelling of `.exe` is
/// launched with that file, whatever its other files are called.
pub proof fn law_the_only_executable_is_the_entry(
    files: Seq<MappedFileView>,
    directory: Seq<char>,
    i: int,
)
    requires
        0 <= i < files.len(),
        exe::spelled_exe(files[i].name),
        forall|j: int|
            0 <= j < files.len() && j != i ==> !exe::spelled_exe(#[trigger] files[j].name),
        directory.len() > 0 ==> !exe::is_separator(directory.last()),
    ensures
        launch::launch_plan(files, directory, None) is Ok,
        launch::launch_plan(files, directory, None)->Ok_0.entry == launch::nt_path(
            directory,
            files[i].name,
        ),
        leads_to(
            launch::launch_plan(files, directory, None)->Ok_0.entry,
            directory,
            files[i].name,
        ),
{
    lemma_one_executable(files, i);
    law_single_executable_is_launched(files, directory);
    law_entry_is_mapped(files, directory, None);
    let entry = launch::launch_plan(files, directory, None)->Ok_0.entry;
    let f = choose|f: MappedFileView| #[trigger]
        files.contains(f) && launch::by_name(files).contains(f) && entry == launch::nt_path(
            directory,
            f.name,
        ) && exe::has_exe_suffix(f.name);
    exe::law_last_four_characters_make_an_executable(f.name);
    let j = choose|j: int| 0 <= j < files.len() && files[j] == f;
    assert(exe::spelled_exe(files[j].name));
    law_nt_path_leads_to_the_file(directory, files[i].name);
}

proof fn lemma_one_executable(files: Seq<MappedFileView>, i: int)
    requires
        0 <= i < files.len(),
        exe::spelled_exe(files[i].name),
        forall|j: int|
            0 <= j < files.len() && j != i ==> !exe::spelled_exe(#[trigger] files[j].name),
    ensures
        launch::executables(files).len() == 1,
    decreases files.len(),
{
    let front = files.drop_last();
    assert(files =~= front.push(files.last()));
    law_executables_are_picked_one_by_one(front, files.last());
    assert forall|j: int| 0 <= j < front.len() && j != i implies !exe::spelled_exe(
        #[trigger] front[j].name,
    ) by {
        assert(front[j] == files[j]);
    }
    if i == files.len() - 1 {
        lemma_no_executable(front);
    } else {
        assert(front[i] == files[i]);
        assert(files[files.len() - 1] == files.last());
        lemma_one_executable(front, i);
    }
}

proof fn lemma_no_executable(files: Seq<MappedFileView>)
    requires
        forall|j: int| 0 <= j < files.len() ==> !exe::spelled_exe(#[trigger] files[j].name),
    ensures
        launch::executables(files).len() == 0,
    decreases files.len(),
{
    if files.len() == 0 {
        law_executables_are_picked_one_by_one(files, arbitrary());
        assert(files =~= Seq::<MappedFileView>::empty());
    } else {
        let front = files.drop_last();
        assert(files =~= front.push(files.last()));
        assert forall|j: int| 0 <= j < front.len() implies !exe::spelled_exe(
            #[trigger] front[j].name,
        ) by {
            assert(front[j] == files[j]);
        }
        assert(files[files.len() - 1] == files.last());
        lemma_no_executable(front);
        law_executables_are_picked_one_by_one(front, files.last());
    }
}

/// The first file, in the order of names, that a wanted path matches is the entry.
pub proof fn law_the_first_match_is_the_entry(
    files: Seq<MappedFileView>,
    directory: Seq<char>,
    wanted: Seq<char>,
    i: int,
)
    requires
        0 <= i < launch::by_name(files).len(),
        exe::exe_matches(launch::by_name(files)[i].name, wanted),
        forall|j: int|
            0 <= j < i ==> !exe::exe_matches(#[trigger] launch::by_name(files)[j].name, wanted),
    ensures
        launch::launch_plan(files, directory, Some(wanted)) is Ok,
        launch::launch_plan(files, directory, Some(wanted))->Ok_0.entry == launch::nt_path(
            directory,
            launch::by_name(files)[i].name,
        ),
{
    lemma_first_match(launch::by_name(files), wanted, i);
}

proof fn lemma_first_match(files: Seq<MappedFileView>, wanted: Seq<char>, i: int)
    requires
        0 <= i < files.len(),
        exe::exe_matches(files[i].name, wanted),
        forall|j: int| 0 <= j < i ==> !exe::exe_matches(#[trigger] files[j].name, wanted),
    ensures
        launch::matching(files, wanted).len() > 0,
        launch::matching(files, wanted)[0] == files[i],
    decreases files.len(),
{
    let front = files.drop_last();
    assert(files =~= front.push(files.last()));
    law_matches_are_picked_one_by_one(front, files.last(), wanted);
    assert forall|j: int| 0 <= j < i && j < front.len() implies !exe::exe_matches(
        #[trigger] front[j].name,
        wanted,
    ) by {
        assert(front[j] == files[j]);
    }
    if i == files.len() - 1 {
        lemma_no_match(front, wanted);
    } else {
        assert(front[i] == files[i]);
        lemma_first_match(front, wanted, i);
    }
}

proof fn lemma_no_match(files: Seq<MappedFileView>, wanted: Seq<char>)
    requires
        forall|j: int| 0 <= j < files.len() ==> !exe::exe_matches(#[trigger] files[j].name, wanted),
    ensures
        launch::matching(files, wanted).len() == 0,
    decreases files.len(),
{
    if files.len() == 0 {
        law_matches_are_picked_one_by_one(files, arbitrary(), wanted);
        assert(files =~= Seq::<MappedFileView>::empty());
    } else {
        let front = files.drop_last();
        assert(files =~= front.push(files.last()));
        assert forall|j: int| 0 <= j < front.len() implies !exe::exe_matches(
            #[trigger] front[j].name,
            wanted,
        ) by {
            assert(front[j] == files[j]);
        }
        assert(files[files.len() - 1] == files.last());
        lemma_no_match(front, wanted);
        law_matches_are_picked_one_by_one(front, files.last(), wanted);
    }
}

/// The map grows by a bar and the entry of the next file: its descriptor in
/// decimal, a colon and its NT path. It is empty where there is no file.
pub proof fn law_map_grows_entry_by_entry(
    directory: Seq<char>,
    files: Seq<MappedFileView>,
    file: MappedFileView,
)
    ensures
        launch::file_map(directory, Seq::empty()).len() == 0,
        launch::file_map(directory, files.push(file)) == (if files.len() > 0 {
            launch::file_map(directory, files) + seq!['|']
        } else {
            Seq::empty()
        }) + text::signed_decimal(file.fd) + seq![':'] + launch::nt_path(directory, file.name),
{
    let f = |f: MappedFileView| launch::map_entry(directory, f);
    let entries = files.map_values(f);
    let more = files.push(file).map_values(f);
    assert(more =~= entries.push(launch::map_entry(directory, file)));
    assert(more.drop_last() =~= entries);
    assert(Seq::<MappedFileView>::empty().map_values(f).len() == 0);
    let entry = text::signed_decimal(file.fd) + seq![':'] + launch::nt_path(directory, file.name);
    if files.len() > 0 {
        assert(launch::file_map(directory, files.push(file)) =~= launch::file_map(directory, files)
            + seq!['|'] + text::signed_decimal(file.fd) + seq![':'] + launch::nt_path(
            directory,
            file.name,
        ));
    } else {
        assert(more.len() == 1);
        assert(Seq::<char>::empty() + text::signed_decimal(file.fd) + seq![':'] + launch::nt_path(
            directory,
            file.name,
        ) =~= entry);
    }
}

/// A wish that matches nothing is refused with the wish and the names of all files
/// in the order of names; several executables are refused with theirs.
pub proof fn law_refusals_name_the_files(
    files: Seq<MappedFileView>,
    directory: Seq<char>,
    wanted: Option<Seq<char>>,
)
    ensures
        launch::launch_plan(files, directory, wanted) matches Err(
            launch::LaunchErrorView::NotInPackage { wanted: wish, names },
        ) ==> wanted == Some(wish) && names.len() == files.len() && forall|i: int|
            0 <= i < names.len() ==> #[trigger] names[i] == launch::by_name(files)[i].name,
        launch::launch_plan(files, directory, wanted) matches Err(
            launch::LaunchErrorView::SeveralExecutables { names },
        ) ==> wanted is None && names.len() == launch::executables(files).len() && forall|i: int|
            0 <= i < names.len() ==> exe::spelled_exe(#[trigger] names[i]) && names[i]
                == launch::executables(launch::by_name(files))[i].name,
{
    let sorted = launch::by_name(files);
    let p = |f: MappedFileView| exe::has_exe_suffix(f.name);
    law_sorting_keeps_the_files(files);
    lemma_sorting_filter_len(files, p);
    assert(sorted.len() == files.len()) by {
        broadcast use vstd::seq_lib::group_to_multiset_ensures;

        assert(sorted.to_multiset().len() == sorted.len());
        assert(files.to_multiset().len() == files.len());
    }
    let found = launch::executables(sorted);
    assert forall|i: int| 0 <= i < found.len() implies exe::spelled_exe(
        #[trigger] launch::names(found)[i],
    ) by {
        sorted.lemma_filter_pred(p, i);
        exe::law_last_four_characters_make_an_executable(found[i].name);
    }
}

/// What the user is told of a refusal: a line that says what is wrong, and a line
/// for each name, with the option to pick it where there are several executables.
pub proof fn law_refusals_are_told(wanted: Seq<char>, names: Seq<Seq<char>>)
    ensures
        ({
            let lines = (launch::LaunchErrorView::NotInPackage { wanted, names }).lines();
            &&& lines.len() == names.len() + 1
            &&& lines[0] == "`"@ + wanted + "` does not match any executable in this package:"@
            &&& forall|i: int| 0 <= i < names.len() ==> lines[i + 1] == "  "@ + #[trigger] names[i]
        }),
        ({
            let lines = (launch::LaunchErrorView::SeveralExecutables { names }).lines();
            &&& lines.len() == names.len() + 1
            &&& lines[0] == "this package contains multiple executables; pick one with --exe:"@
            &&& forall|i: int|
                0 <= i < names.len() ==> lines[i + 1] == "  --exe '"@ + #[trigger] names[i] + "'"@
        }),
        launch::LaunchErrorView::NoExecutable.lines() == seq![
            "no .exe found among the package's encrypted files"@,
        ],
{
    reveal_strlit("`");
    reveal_strlit("'");
    assert("`"@ =~= seq!['`']);
    assert("'"@ =~= seq!['\'']);
}

/// The files of one name.
pub open spec fn of_name(files: Seq<MappedFileView>, name: Seq<char>) -> Seq<MappedFileView> {
    files.filter(|f: MappedFileView| f.name == name)
}

proof fn lemma_of_name_push(files: Seq<MappedFileView>, file: MappedFileView, name: Seq<char>)
    ensures
        of_name(files.push(file), name) == (if file.name == name {
            of_name(files, name).push(file)
        } else {
            of_name(files, name)
        }),
{
    reveal(Seq::filter);
    assert(files.push(file).drop_last() =~= files);
}

proof fn lemma_insert_of_name(files: Seq<MappedFileView>, file: MappedFileView, name: Seq<char>)
    ensures
        of_name(launch::insert_by_name(files, file), name) == of_name(files.push(file), name),
    decreases files.len(),
{
    lemma_of_name_push(files, file, name);
    if files.len() > 0 && text::before(file.name, files.last().name) {
        let front = files.drop_last();
        let last = files.last();
        lemma_before_irreflexive(file.name);
        assert(files =~= front.push(last));
        lemma_insert_of_name(front, file, name);
        lemma_of_name_push(front, last, name);
        lemma_of_name_push(front, file, name);
        lemma_of_name_push(launch::insert_by_name(front, file), last, name);
    }
}

/// Files of one name keep the order in which they came.
pub proof fn law_files_of_one_name_keep_their_order(
    files: Seq<MappedFileView>,
    name: Seq<char>,
)
    ensures
        of_name(launch::by_name(files), name) == of_name(files, name),
    decreases files.len(),
{
    if files.len() > 0 {
        let front = files.drop_last();
        assert(files =~= front.push(files.last()));
        law_files_of_one_name_keep_their_order(front, name);
        lemma_insert_of_name(launch::by_name(front), files.last(), name);
        lemma_of_name_push(launch::by_name(front), files.last(), name);
        lemma_of_name_push(front, files.last(), name);
    }
}

} // verus!
