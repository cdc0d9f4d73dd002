//! Parsers for the text that package tools print when searching or listing.
use vstd::prelude::*;
use crate::records::{package_views, PackageInfo, PackageSource, PackageView};
use crate::text::{
    contains, is_blank, is_ws, lemma_find, occurs_at, trim_end, trim_start, chars_of, find, find_char, find_chars, lines, slice, split_lines, string_of, trim, trim_chars,
    views,
};

verus! {

// ---------------------------------------------------------------------------
// System package search: `name - description` or `name/version - description`.
/// The record that one line of system search output describes, if any.
pub open spec fn system_line_record(line: Seq<char>) -> Option<PackageView> {
    let t = trim(line);
    match find(t, " - "@) {
        None => None,
        Some(p) => {
            let name_part = trim(t.subrange(0, p));
            let description = trim(t.subrange(p + " - "@.len(), t.len() as int));
            let name = match find(name_part, seq!['/']) {
                Some(k) => name_part.subrange(0, k),
                None => name_part,
            };
            let version = match find(name_part, seq!['/']) {
                Some(k) => name_part.subrange(k + 1, name_part.len() as int),
                None => seq![],
            };
            if name.len() == 0 {
                None
            } else {
                Some(
                    PackageView {
                        name,
                        description,
                        version,
                        size: seq![],
                        source: PackageSource::Default,
                    },
                )
            }
        },
    }
}

pub open spec fn has_name(acc: Seq<PackageView>, name: Seq<char>) -> bool {
    exists|i: int| 0 <= i < acc.len() && (#[trigger] acc[i]).name == name
}

/// The records of the first `ls.len()` lines, keeping the first of equal names.
pub open spec fn system_search_lines(ls: Seq<Seq<char>>) -> Seq<PackageView>
    decreases ls.len(),
{
    if ls.len() == 0 {
        seq![]
    } else {
        let acc = system_search_lines(ls.drop_last());
        match system_line_record(ls.last()) {
            Some(r) => if has_name(acc, r.name) {
                acc
            } else {
                acc.push(r)
            },
            None => acc,
        }
    }
}

/// What the system search parser returns for `output`.
pub open spec fn system_search(output: Seq<char>) -> Seq<PackageView> {
    system_search_lines(lines(output))
}


/// The names of the well-formed lines of system search output, in order.
pub open spec fn system_candidate_names(ls: Seq<Seq<char>>) -> Seq<Seq<char>>
    decreases ls.len(),
{
    if ls.len() == 0 {
        seq![]
    } else {
        let c = system_candidate_names(ls.drop_last());
        match system_line_record(ls.last()) {
            Some(r) => c.push(r.name),
            None => c,
        }
    }
}

/// `s` with every element after its first occurrence removed.
pub open spec fn dedup(s: Seq<Seq<char>>) -> Seq<Seq<char>>
    decreases s.len(),
{
    if s.len() == 0 {
        seq![]
    } else {
        let d = dedup(s.drop_last());
        if d.contains(s.last()) {
            d
        } else {
            d.push(s.last())
        }
    }
}

pub open spec fn record_names(v: Seq<PackageView>) -> Seq<Seq<char>> {
    v.map_values(|p: PackageView| p.name)
}

proof fn lemma_dedup(s: Seq<Seq<char>>)
    ensures
        forall|i: int, j: int|
            0 <= i < j < dedup(s).len() ==> dedup(s)[i] != dedup(s)[j],
        forall|x: Seq<char>| dedup(s).contains(x) <==> s.contains(x),
    decreases s.len(),
{
    if s.len() > 0 {
        let p = s.drop_last();
        lemma_dedup(p);
        assert forall|x: Seq<char>| s.contains(x) <==> (p.contains(x) || x == s.last()) by {
            if s.contains(x) {
                let k = choose|k: int| 0 <= k < s.len() && s[k] == x;
                if k < s.len() - 1 {
                    assert(p[k] == x);
                }
            }
            if p.contains(x) {
                let k = choose|k: int| 0 <= k < p.len() && p[k] == x;
                assert(s[k] == x);
            }
            if x == s.last() {
                assert(s[s.len() - 1] == x);
            }
        }
        let d = dedup(p);
        if !d.contains(s.last()) {
            let e = d.push(s.last());
            assert forall|x: Seq<char>| e.contains(x) <==> (d.contains(x) || x == s.last()) by {
                if e.contains(x) {
                    let k = choose|k: int| 0 <= k < e.len() && e[k] == x;
                    if k < d.len() {
                        assert(d[k] == x);
                    }
                }
                if d.contains(x) {
                    let k = choose|k: int| 0 <= k < d.len() && d[k] == x;
                    assert(e[k] == x);
                }
                if x == s.last() {
                    assert(e[d.len() as int] == x);
                }
            }
            assert forall|i: int, j: int| 0 <= i < j < e.len() implies e[i] != e[j] by {
                if j == d.len() {
                    assert(d[i] == e[i]);
                }
            }
        }
    }
}

proof fn lemma_system_search_lines_names(ls: Seq<Seq<char>>)
    ensures
        record_names(system_search_lines(ls)) == dedup(system_candidate_names(ls)),
    decreases ls.len(),
{
    if ls.len() > 0 {
        let p = ls.drop_last();
        lemma_system_search_lines_names(p);
        let acc = system_search_lines(p);
        match system_line_record(ls.last()) {
            Some(r) => {
                assert(has_name(acc, r.name) <==> record_names(acc).contains(r.name)) by {
                    if has_name(acc, r.name) {
                        let i = choose|i: int| 0 <= i < acc.len() && (#[trigger] acc[i]).name
                            == r.name;
                        assert(record_names(acc)[i] == r.name);
                    }
                    if record_names(acc).contains(r.name) {
                        let i = choose|i: int|
                            0 <= i < record_names(acc).len() && record_names(acc)[i] == r.name;
                        assert(acc[i].name == r.name);
                    }
                }
                assert(system_candidate_names(ls).drop_last() =~= system_candidate_names(p));
                if !has_name(acc, r.name) {
                    assert(record_names(acc.push(r)) =~= record_names(acc).push(r.name));
                }
            },
            None => {},
        }
    }
}

/// System search keeps the first record of each name: the names it returns
/// are the names of the well-formed lines with repeats removed, in the order
/// in which they were first seen. So input with N distinct names yields
/// exactly N records, and no name twice.
pub proof fn lemma_system_search_first_seen(output: Seq<char>)
    ensures
        record_names(system_search(output)) == dedup(system_candidate_names(lines(output))),
        forall|i: int, j: int|
            0 <= i < j < system_search(output).len() ==> system_search(output)[i].name
                != system_search(output)[j].name,
        forall|x: Seq<char>|
            record_names(system_search(output)).contains(x) <==> system_candidate_names(
                lines(output),
            ).contains(x),
{
    let ls = lines(output);
    lemma_system_search_lines_names(ls);
    lemma_dedup(system_candidate_names(ls));
    let r = system_search(output);
    assert forall|i: int, j: int| 0 <= i < j < r.len() implies r[i].name != r[j].name by {
        assert(record_names(r)[i] == r[i].name);
        assert(record_names(r)[j] == r[j].name);
    }
}

/// `n` is a well-formed package name: not empty, with no white space and no `/`.
pub open spec fn plain_name(n: Seq<char>) -> bool {
    n.len() > 0 && forall|i: int| 0 <= i < n.len() ==> !is_ws(n[i]) && n[i] != '/'
}

/// A line whose trimmed text is `n - d`, for a plain name `n`, is the record
/// of `n` with description `d` trimmed.
pub proof fn lemma_well_formed_line(line: Seq<char>, n: Seq<char>, d: Seq<char>)
    requires
        trim(line) == n + " - "@ + d,
        plain_name(n),
    ensures
        system_line_record(line) matches Some(r) && r.name == n && r.description == trim(d),
{
    reveal_strlit(" - ");
    let t = trim(line);
    let p = " - "@;
    assert(t.subrange(n.len() as int, n.len() + 3 as int) =~= p);
    assert(occurs_at(t, p, n.len() as int));
    lemma_find(t, p);
    let k = find(t, p)->0;
    if k < n.len() {
        assert(t.subrange(k, k + 3)[0] == p[0]);
        assert(t[k] == n[k]);
    }
    assert(k == n.len());
    assert(t.subrange(0, k) =~= n);
    assert(trim_start(n) == n);
    assert(trim_end(n) == n);
    assert(t.subrange(k + p.len(), t.len() as int) =~= d);
    lemma_find(n, seq!['/']);
    assert(!contains(n, seq!['/'])) by {
        if contains(n, seq!['/']) {
            let i = choose|i: int| occurs_at(n, seq!['/'], i);
            assert(n.subrange(i, i + 1)[0] == n[i]);
        }
    }
}

/// The names of the non-empty entries of `ns`, in order.
pub open spec fn given_names(ns: Seq<Seq<char>>) -> Seq<Seq<char>>
    decreases ns.len(),
{
    if ns.len() == 0 {
        seq![]
    } else if ns.last().len() > 0 {
        given_names(ns.drop_last()).push(ns.last())
    } else {
        given_names(ns.drop_last())
    }
}

/// Each line is blank (its entry in `ns` empty) or reads `n - d` with the
/// plain name `n` given in `ns`.
pub open spec fn well_formed_search(ls: Seq<Seq<char>>, ns: Seq<Seq<char>>) -> bool {
    &&& ns.len() == ls.len()
    &&& forall|k: int|
        0 <= k < ls.len() ==> (is_blank(ls[k]) && ns[k].len() == 0) || (plain_name(ns[k]) && exists|
            d: Seq<char>,
        | trim(ls[k]) == ns[k] + " - "@ + d)
}

proof fn lemma_candidates_of_well_formed(ls: Seq<Seq<char>>, ns: Seq<Seq<char>>)
    requires
        well_formed_search(ls, ns),
    ensures
        system_candidate_names(ls) == given_names(ns),
    decreases ls.len(),
{
    if ls.len() > 0 {
        let k = ls.len() - 1;
        assert(well_formed_search(ls.drop_last(), ns.drop_last())) by {
            assert forall|j: int| 0 <= j < ls.drop_last().len() implies (is_blank(
                ls.drop_last()[j],
            ) && ns.drop_last()[j].len() == 0) || (plain_name(ns.drop_last()[j]) && exists|
                d: Seq<char>,
            | trim(ls.drop_last()[j]) == ns.drop_last()[j] + " - "@ + d) by {
                assert(ls.drop_last()[j] == ls[j] && ns.drop_last()[j] == ns[j]);
            }
        }
        lemma_candidates_of_well_formed(ls.drop_last(), ns.drop_last());
        if is_blank(ls[k]) && ns[k].len() == 0 {
            lemma_find(trim(ls[k]), " - "@);
        } else {
            let d = choose|d: Seq<char>| trim(ls[k]) == ns[k] + " - "@ + d;
            lemma_well_formed_line(ls[k], ns[k], d);
        }
    }
}

/// For system search output whose every line is blank or reads `n - d`
/// with a plain name `n`: the records are one per distinct name, in the
/// order in which the names first appear, and no name comes twice.
pub proof fn lemma_system_search_well_formed(output: Seq<char>, ns: Seq<Seq<char>>)
    requires
        well_formed_search(lines(output), ns),
    ensures
        record_names(system_search(output)) == dedup(given_names(ns)),
        forall|i: int, j: int|
            0 <= i < j < system_search(output).len() ==> system_search(output)[i].name
                != system_search(output)[j].name,
{
    lemma_candidates_of_well_formed(lines(output), ns);
    lemma_system_search_first_seen(output);
}

fn name_seen(acc: &Vec<PackageInfo>, name: &String) -> (r: bool)
    ensures
        r == has_name(package_views(acc@), name@),
{
    let mut i: usize = 0;
    while i < acc.len()
        invariant
            i <= acc.len(),
            forall|j: int| 0 <= j < i ==> acc@[j].name@ != name@,
        decreases acc.len() - i,
    {
        if acc[i].name == *name {
            assert(package_views(acc@)[i as int].name == name@);
            return true;
        }
        i += 1;
    }
    assert forall|j: int| 0 <= j < package_views(acc@).len() implies (#[trigger] package_views(
        acc@,
    )[j]).name != name@ by {
        assert(package_views(acc@)[j] == acc@[j]@);
    }
    false
}

fn system_line(line: &Vec<char>, sep: &Vec<char>) -> (r: Option<PackageInfo>)
    requires
        sep@ == " - "@,
    ensures
        match r {
            Some(p) => system_line_record(line@) == Some(p@),
            None => system_line_record(line@) is None,
        },
{
    let t = trim_chars(line);
    match find_chars(&t, sep) {
        None => None,
        Some(p) => {
            let head = slice(&t, 0, p);
            let name_part = trim_chars(&head);
            let tail = slice(&t, p + sep.len(), t.len());
            let description = trim_chars(&tail);
            let (name, version) = match find_char(&name_part, '/') {
                Some(k) => {
                    assert(k < name_part.len());
                    (slice(&name_part, 0, k), slice(&name_part, k + 1, name_part.len()))
                },
                None => (name_part, Vec::new()),
            };
            if name.len() == 0 {
                None
            } else {
                Some(
                    PackageInfo {
                        name: string_of(&name),
                        description: string_of(&description),
                        version: string_of(&version),
                        size: String::new(),
                        source: PackageSource::Default,
                    },
                )
            }
        },
    }
}

/// Parses system package search output (`name - description` per line).
/// Blank and malformed lines are skipped; of several lines with one name
/// only the first counts.
pub fn parse_apt_cache_search_output(output: &str) -> (r: Vec<PackageInfo>)
    ensures
        package_views(r@) == system_search(output@),
{
    let text = chars_of(output);
    let ls = split_lines(&text);
    let sep = chars_of(" - ");
    let mut acc: Vec<PackageInfo> = Vec::new();
    let mut i: usize = 0;
    while i < ls.len()
        invariant
            i <= ls.len(),
            sep@ == " - "@,
            views(ls@) == lines(text@),
            package_views(acc@) == system_search_lines(views(ls@).subrange(0, i as int)),
        decreases ls.len() - i,
    {
        let ghost pre = views(ls@).subrange(0, i as int);
        let ghost post = views(ls@).subrange(0, i + 1);
        assert(post.drop_last() =~= pre);
        assert(post.last() == ls@[i as int]@);
        match system_line(&ls[i], &sep) {
            Some(p) => {
                if !name_seen(&acc, &p.name) {
                    acc.push(p);
                    assert(package_views(acc@) =~= system_search_lines(post));
                }
            },
            None => {},
        }
        i += 1;
    }
    assert(views(ls@).subrange(0, i as int) =~= views(ls@));
    acc
}

} // verus!
