//! Which executable of a package is meant, and how package paths compare.

use vstd::prelude::*;
use vstd::string::*;

use crate::text;

verus! {

broadcast use vstd::string::group_string_axioms;

/// A package-internal path in the form in which two of them are held against
/// each other: backslashes, no leading one, ASCII lower case.
pub open spec fn normalized(path: Seq<char>) -> Seq<char> {
    text::lower_all(text::trim_start(text::replace_all(path, '/', '\\'), '\\'))
}

/// The wanted path is the whole internal path, or its tail from a backslash on.
pub open spec fn exe_matches(internal: Seq<char>, wanted: Seq<char>) -> bool {
    let name = normalized(internal);
    let tail = normalized(wanted);
    name == tail || (seq!['\\'] + tail).is_suffix_of(name)
}

/// The name of a Windows executable.
pub open spec fn has_exe_suffix(name: Seq<char>) -> bool {
    ".exe"@.is_suffix_of(text::lower_all(name))
}

/// Package-internal paths are backslash-separated and case-insensitive; user
/// input may use either separator and any case. This is their common form.
pub fn normalize_internal_path(path: &str) -> (r: String)
    ensures
        r@ == normalized(path@),
{
    let v = text::replace_char(&text::chars_of(path), '/', '\\');
    let v = text::trim_start_chars(&v, '\\');
    text::string_of(&text::lower_chars(&v))
}

/// Whether `wanted` names the package file `internal_name`: case does not
/// matter, either separator does, and the tail starts at a path component.
pub fn matches_exe(internal_name: &str, wanted: &str) -> (r: bool)
    ensures
        r == exe_matches(internal_name@, wanted@),
{
    let name = text::chars_of(normalize_internal_path(internal_name).as_str());
    let wanted = normalize_internal_path(wanted);
    let whole = text::chars_of(wanted.as_str());
    if text::same_chars(&name, &whole) {
        return true;
    }
    let mut tail = String::new();
    tail.push('\\');
    tail.append(wanted.as_str());
    assert(tail@ =~= seq!['\\'] + wanted@);
    text::ends_with_chars(&name, &text::chars_of(tail.as_str()))
}

/// Whether a package file counts as an executable by its name.
pub fn is_exe_name(name: &str) -> (r: bool)
    ensures
        r == has_exe_suffix(name@),
{
    let lower = text::lower_chars(&text::chars_of(name));
    text::ends_with_chars(&lower, &text::chars_of(".exe"))
}

/// Lower case and the removal of leading backslashes do not disturb each other.
proof fn lemma_trim_lower(s: Seq<char>)
    ensures
        text::lower_all(text::trim_start(s, '\\')) == text::trim_start(text::lower_all(s), '\\'),
    decreases s.len(),
{
    let low = text::lower_all(s);
    if s.len() > 0 {
        assert(low[0] == text::ascii_lower(s[0]));
        if s[0] == '\\' {
            lemma_trim_lower(s.drop_first());
            assert(low.drop_first() =~= text::lower_all(s.drop_first()));
        }
    }
}

/// Two spellings that differ in case and in the choice of separator only.
pub open spec fn same_spelling(a: Seq<char>, b: Seq<char>) -> bool {
    text::lower_all(text::replace_all(a, '/', '\\')) == text::lower_all(
        text::replace_all(b, '/', '\\'),
    )
}

/// Matching sees neither case nor which of the two separators was written, in
/// the package path and in the wanted path.
pub proof fn law_matching_ignores_case_and_separator(
    internal: Seq<char>,
    other_internal: Seq<char>,
    wanted: Seq<char>,
    other_wanted: Seq<char>,
)
    requires
        same_spelling(internal, other_internal),
        same_spelling(wanted, other_wanted),
    ensures
        exe_matches(internal, wanted) == exe_matches(other_internal, other_wanted),
{
    lemma_trim_lower(text::replace_all(internal, '/', '\\'));
    lemma_trim_lower(text::replace_all(other_internal, '/', '\\'));
    lemma_trim_lower(text::replace_all(wanted, '/', '\\'));
    lemma_trim_lower(text::replace_all(other_wanted, '/', '\\'));
}

/// A separator in front of the wanted path, or of the package path, is of no
/// consequence.
pub proof fn law_matching_ignores_leading_separator(internal: Seq<char>, wanted: Seq<char>)
    ensures
        exe_matches(internal, seq!['/'] + wanted) == exe_matches(internal, wanted),
        exe_matches(internal, seq!['\\'] + wanted) == exe_matches(internal, wanted),
        exe_matches(seq!['/'] + internal, wanted) == exe_matches(internal, wanted),
        exe_matches(seq!['\\'] + internal, wanted) == exe_matches(internal, wanted),
{
    lemma_leading_separator(internal, '/');
    lemma_leading_separator(internal, '\\');
    lemma_leading_separator(wanted, '/');
    lemma_leading_separator(wanted, '\\');
}

proof fn lemma_leading_separator(path: Seq<char>, sep: char)
    requires
        sep == '/' || sep == '\\',
    ensures
        normalized(seq![sep] + path) == normalized(path),
{
    let longer = text::replace_all(seq![sep] + path, '/', '\\');
    assert(longer.drop_first() =~= text::replace_all(path, '/', '\\'));
}

proof fn lemma_trim_twice(s: Seq<char>, c: char)
    ensures
        text::trim_start(s, c).len() == 0 || text::trim_start(s, c)[0] != c,
        text::trim_start(text::trim_start(s, c), c) == text::trim_start(s, c),
    decreases s.len(),
{
    if s.len() > 0 && s[0] == c {
        lemma_trim_twice(s.drop_first(), c);
    }
}

proof fn lemma_no_slash_after_trim(s: Seq<char>)
    requires
        !s.contains('/'),
    ensures
        !text::trim_start(s, '\\').contains('/'),
    decreases s.len(),
{
    if s.len() > 0 && s[0] == '\\' {
        assert forall|i: int| 0 <= i < s.drop_first().len() implies s.drop_first()[i] != '/' by {
            assert(s.contains(s[i + 1]));
        }
        lemma_no_slash_after_trim(s.drop_first());
    }
}

/// The common form of a path is its own common form.
pub proof fn law_normalizing_twice_changes_nothing(path: Seq<char>)
    ensures
        normalized(normalized(path)) == normalized(path),
{
    let replaced = text::replace_all(path, '/', '\\');
    let trimmed = text::trim_start(replaced, '\\');
    let once = normalized(path);
    assert forall|i: int| 0 <= i < replaced.len() implies replaced[i] != '/' by {}
    lemma_no_slash_after_trim(replaced);
    lemma_trim_twice(replaced, '\\');
    assert forall|i: int| 0 <= i < once.len() implies once[i] != '/' by {
        assert(trimmed.contains(trimmed[i]));
        assert(once[i] == text::ascii_lower(trimmed[i]));
    }
    assert(text::replace_all(once, '/', '\\') =~= once);
    if once.len() > 0 {
        assert(once[0] == text::ascii_lower(trimmed[0]));
    }
    assert(text::trim_start(once, '\\') == once);
    assert(text::lower_all(once) =~= once);
}

/// Matching gives the same on the common forms of the two paths.
pub proof fn law_matching_is_on_common_forms(internal: Seq<char>, wanted: Seq<char>)
    ensures
        exe_matches(normalized(internal), normalized(wanted)) == exe_matches(internal, wanted),
{
    law_normalizing_twice_changes_nothing(internal);
    law_normalizing_twice_changes_nothing(wanted);
}

/// A path matches itself.
pub proof fn law_whole_path_matches(path: Seq<char>)
    ensures
        exe_matches(path, path),
{
}

/// The components of a package path.
pub open spec fn components(path: Seq<char>) -> Seq<Seq<char>> {
    text::split(normalized(path), '\\')
}

/// A wanted path matches exactly where its components are the last components
/// of the package path: a match never starts inside of a component.
pub proof fn law_match_is_component_suffix(internal: Seq<char>, wanted: Seq<char>)
    ensures
        exe_matches(internal, wanted) == components(wanted).is_suffix_of(components(internal)),
{
    let name = normalized(internal);
    let tail = normalized(wanted);
    let n = components(internal);
    let t = components(wanted);
    text::lemma_split_nonempty(tail, '\\');
    text::lemma_join_split(name, '\\');
    text::lemma_join_split(tail, '\\');
    if exe_matches(internal, wanted) {
        if name != tail {
            let head = name.take(name.len() - tail.len() - 1);
            assert(name =~= head + seq!['\\'] + tail) by {
                let end = seq!['\\'] + tail;
                assert(name.subrange(name.len() - end.len(), name.len() as int) =~= end);
                assert(name =~= head + name.subrange(name.len() - end.len(), name.len() as int));
                assert(head + end =~= head + seq!['\\'] + tail);
            }
            text::lemma_split_concat(head, tail, '\\');
            assert(n.subrange(n.len() - t.len(), n.len() as int) =~= t);
        } else {
            assert(n.subrange(n.len() - t.len(), n.len() as int) =~= t);
        }
    }
    if t.is_suffix_of(n) {
        let head = n.take(n.len() - t.len());
        assert(n =~= head + t) by {
            assert(n.subrange(n.len() - t.len(), n.len() as int) =~= t);
            assert forall|i: int| 0 <= i < t.len() implies n[n.len() - t.len() + i] == t[i] by {
                assert(n.subrange(n.len() - t.len(), n.len() as int)[i] == t[i]);
            }
        }
        if head.len() == 0 {
            assert(n =~= t);
        } else {
            text::lemma_join_concat(head, t, '\\');
            let end = seq!['\\'] + tail;
            assert(name.subrange(name.len() - end.len(), name.len() as int) =~= end);
        }
    }
}

/// What matches a path that matches a third one matches the third one.
pub proof fn law_matching_is_transitive(a: Seq<char>, b: Seq<char>, c: Seq<char>)
    requires
        exe_matches(a, b),
        exe_matches(b, c),
    ensures
        exe_matches(a, c),
{
    law_match_is_component_suffix(a, b);
    law_match_is_component_suffix(b, c);
    law_match_is_component_suffix(a, c);
    let x = components(a);
    let y = components(b);
    let z = components(c);
    assert(x.subrange(x.len() - y.len(), x.len() as int) =~= y);
    assert(y.subrange(y.len() - z.len(), y.len() as int) =~= z);
    assert forall|i: int| 0 <= i < z.len() implies x[x.len() - z.len() + i] == z[i] by {
        assert(y[y.len() - z.len() + i] == z[i]);
        assert(x.subrange(x.len() - y.len(), x.len() as int)[y.len() - z.len() + i] == y[y.len()
            - z.len() + i]);
    }
    assert(x.subrange(x.len() - z.len(), x.len() as int) =~= z);
}

/// The last four characters are a spelling of `.exe`.
pub open spec fn spelled_exe(name: Seq<char>) -> bool {
    let n = name.len() as int;
    &&& n >= 4
    &&& name[n - 4] == '.'
    &&& name[n - 3] == 'e' || name[n - 3] == 'E'
    &&& name[n - 2] == 'x' || name[n - 2] == 'X'
    &&& name[n - 1] == 'e' || name[n - 1] == 'E'
}

/// A name is that of an executable exactly where its last four characters are a
/// spelling of `.exe`: what stands in front of them is of no consequence.
pub proof fn law_last_four_characters_make_an_executable(name: Seq<char>)
    ensures
        has_exe_suffix(name) <==> spelled_exe(name),
{
    reveal_strlit(".exe");
    text::law_only_capitals_are_lowered(name);
    let low = text::lower_all(name);
    let n = name.len() as int;
    if n >= 4 {
        let tail = low.subrange(n - 4, n);
        assert(tail.len() == 4 && ".exe"@.len() == 4);
        assert(tail[0] == low[n - 4] && tail[1] == low[n - 3]);
        assert(tail[2] == low[n - 2] && tail[3] == low[n - 1]);
        if spelled_exe(name) {
            assert(low[n - 4] as int == 46);
            assert(low[n - 3] as int == 101);
            assert(low[n - 2] as int == 120);
            assert(low[n - 1] as int == 101);
            assert(tail =~= ".exe"@);
        }
        if has_exe_suffix(name) {
            assert(tail == ".exe"@);
            assert(low[n - 4] == '.' && low[n - 3] == 'e' && low[n - 2] == 'x' && low[n - 1]
                == 'e');
        }
    }
}

/// Whatever text stands in front of a spelling of `.exe`, the two together are
/// the name of an executable.
pub proof fn law_any_stem_makes_an_executable(stem: Seq<char>, spelling: Seq<char>)
    requires
        spelling.len() == 4,
        spelled_exe(spelling),
    ensures
        has_exe_suffix(stem + spelling),
{
    let name = stem + spelling;
    let n = name.len() as int;
    assert(name[n - 4] == spelling[0] && name[n - 3] == spelling[1]);
    assert(name[n - 2] == spelling[2] && name[n - 1] == spelling[3]);
    law_last_four_characters_make_an_executable(name);
}

pub open spec fn is_separator(c: char) -> bool {
    c == '/' || c == '\\'
}

/// The same letter in whatever case, or a separator for a separator.
pub open spec fn same_place(c: char, d: char) -> bool {
    text::same_letter(c, d) || (is_separator(c) && is_separator(d))
}

/// A path without separators in front of it.
pub open spec fn bare(path: Seq<char>) -> bool {
    path.len() > 0 ==> !is_separator(path[0])
}

pub open spec fn separators(s: Seq<char>) -> bool {
    forall|i: int| 0 <= i < s.len() ==> is_separator(#[trigger] s[i])
}

/// The common form of a path is what follows its leading separators, place by
/// place: a backslash for either separator, and letters in lower case.
pub proof fn law_common_form_is_place_by_place(lead: Seq<char>, core: Seq<char>)
    requires
        separators(lead),
        bare(core),
    ensures
        normalized(lead + core).len() == core.len(),
        forall|i: int|
            0 <= i < core.len() ==> #[trigger] normalized(lead + core)[i] == (if is_separator(
                core[i],
            ) {
                '\\'
            } else {
                text::lower_all(core)[i]
            }),
{
    let whole = text::replace_all(lead + core, '/', '\\');
    let front = text::replace_all(lead, '/', '\\');
    let rest = text::replace_all(core, '/', '\\');
    assert(whole =~= front + rest);
    assert forall|i: int| 0 <= i < front.len() implies front[i] == '\\' by {
        assert(is_separator(lead[i]));
    }
    text::law_leading_ones_are_trimmed(front, rest, '\\');
    text::law_only_capitals_are_lowered(core);
    text::law_only_capitals_are_lowered(rest);
    assert(normalized(lead + core) == text::lower_all(rest));
    assert forall|i: int| 0 <= i < core.len() implies #[trigger] normalized(lead + core)[i] == (
    if is_separator(core[i]) {
        '\\'
    } else {
        text::lower_all(core)[i]
    }) by {
        assert(rest[i] == if core[i] == '/' { '\\' } else { core[i] });
        assert(text::lower_all(rest)[i] as int == if is_separator(core[i]) {
            92
        } else {
            text::lower_all(core)[i] as int
        });
    }
}

/// When a wanted path matches, place by place: leading separators aside, it is as
/// long as the package path or a separator stands right before its place at the
/// end, and from there on both have the same letters, in whatever case, and
/// separators at the same places, whichever they are.
pub proof fn law_match_is_place_by_place(
    internal_lead: Seq<char>,
    internal: Seq<char>,
    wanted_lead: Seq<char>,
    wanted: Seq<char>,
)
    requires
        separators(internal_lead),
        separators(wanted_lead),
        bare(internal),
        bare(wanted),
    ensures
        exe_matches(internal_lead + internal, wanted_lead + wanted) <==> {
            let at = internal.len() - wanted.len();
            &&& at >= 0
            &&& at > 0 ==> is_separator(internal[at - 1])
            &&& forall|i: int|
                0 <= i < wanted.len() ==> same_place(internal[at + i], #[trigger] wanted[i])
        },
{
    let name = normalized(internal_lead + internal);
    let tail = normalized(wanted_lead + wanted);
    law_common_form_is_place_by_place(internal_lead, internal);
    law_common_form_is_place_by_place(wanted_lead, wanted);
    text::law_only_capitals_are_lowered(internal);
    text::law_only_capitals_are_lowered(wanted);
    let at = internal.len() - wanted.len();
    assert forall|i: int, j: int|
        0 <= i < internal.len() && 0 <= j < wanted.len() implies (#[trigger] name[i]
        == #[trigger] tail[j] <==> same_place(internal[i], wanted[j])) by {
        lemma_same_place(internal[i], wanted[j], text::lower_all(internal)[i], text::lower_all(
            wanted,
        )[j]);
    }
    assert forall|i: int| 0 <= i < internal.len() implies (#[trigger] name[i] == '\\'
        <==> is_separator(internal[i])) by {
        assert(text::lower_all(internal)[i] == '\\' ==> is_separator(internal[i]));
    }
    let end = seq!['\\'] + tail;
    if at >= 0 && (at > 0 ==> is_separator(internal[at - 1])) && (forall|i: int|
        0 <= i < wanted.len() ==> same_place(internal[at + i], #[trigger] wanted[i])) {
        assert forall|i: int| 0 <= i < tail.len() implies name[at + i] == tail[i] by {
            assert(same_place(internal[at + i], wanted[i]));
        }
        if at == 0 {
            assert(name =~= tail);
        } else {
            assert(name.subrange(name.len() - end.len(), name.len() as int) =~= end);
        }
    }
    if exe_matches(internal_lead + internal, wanted_lead + wanted) {
        if name == tail {
            assert(at == 0);
            assert forall|i: int| 0 <= i < wanted.len() implies same_place(
                internal[at + i],
                #[trigger] wanted[i],
            ) by {
                assert(name[i] == tail[i]);
            }
        } else {
            let found = name.subrange(name.len() - end.len(), name.len() as int);
            assert(found == end);
            assert(found[0] == name[at - 1]);
            assert forall|i: int| 0 <= i < wanted.len() implies same_place(
                internal[at + i],
                #[trigger] wanted[i],
            ) by {
                assert(found[i + 1] == name[at + i]);
                assert(end[i + 1] == tail[i]);
            }
        }
    }
}

/// Two characters have the same common form exactly where they are the same
/// letter or both separators.
proof fn lemma_same_place(c: char, d: char, lower_c: char, lower_d: char)
    requires
        lower_c as int == (if 65 <= c as int <= 90 {
            c as int + 32
        } else {
            c as int
        }),
        lower_d as int == (if 65 <= d as int <= 90 {
            d as int + 32
        } else {
            d as int
        }),
    ensures
        (if is_separator(c) {
            '\\'
        } else {
            lower_c
        }) == (if is_separator(d) {
            '\\'
        } else {
            lower_d
        }) <==> same_place(c, d),
{
    if lower_c as int == lower_d as int {
        assert(lower_c == lower_d);
    }
}

} // verus!
