//! Parsers for the search output of the meta-manager, one per dialect, and
//! for the `name/version description` listing of the system tool.
use vstd::prelude::*;
use crate::process::{is_auth_failure, is_auth_failure_code, Invocation, InvocationView};
use crate::records::{package_views, PackageInfo, PackageSource, PackageView};
use crate::text::{
    lit, tail_of, append_chars, chars_of, contains, contains_chars, find, find_char, has_digit, has_digit_chars,
    is_blank, join, join_chars, lines, rfind_char, rfind_char_chars, slice, split_char,
    split_lines, split_on, split_words, starts_with, starts_with_chars, string_of, trim,
    trim_chars, views, words,
};

verus! {

/// The distribution whose packages the meta-manager is asked for.
#[derive(Debug, Clone, Copy, PartialEq, Eq, Structural)]
pub enum DistroType {
    Default,
    Aur,
    Fedora,
    Alpine,
}

pub open spec fn distro_label(d: DistroType) -> Seq<char> {
    match d {
        DistroType::Default => "Default (System)"@,
        DistroType::Aur => "AUR (Arch)"@,
        DistroType::Fedora => "Fedora"@,
        DistroType::Alpine => "Alpine"@,
    }
}

pub open spec fn distro_flag(d: DistroType) -> Option<Seq<char>> {
    match d {
        DistroType::Default => None,
        DistroType::Aur => Some("--aur"@),
        DistroType::Fedora => Some("--fedora"@),
        DistroType::Alpine => Some("--alpine"@),
    }
}

/// The dialect that a filter selects: `"aur"`, `"fedora"`, `"alpine"`, or
/// anything else (or none) for the default.
pub open spec fn filter_kind(filter: Option<Seq<char>>) -> DistroType {
    match filter {
        Some(f) => if f == "aur"@ {
            DistroType::Aur
        } else if f == "fedora"@ {
            DistroType::Fedora
        } else if f == "alpine"@ {
            DistroType::Alpine
        } else {
            DistroType::Default
        },
        None => DistroType::Default,
    }
}

pub open spec fn kind_source(d: DistroType) -> PackageSource {
    match d {
        DistroType::Default => PackageSource::Default,
        DistroType::Aur => PackageSource::Aur,
        DistroType::Fedora => PackageSource::Fedora,
        DistroType::Alpine => PackageSource::Alpine,
    }
}

fn same_chars(a: &Vec<char>, b: &Vec<char>) -> (r: bool)
    ensures
        r == (a@ == b@),
{
    if a.len() != b.len() {
        return false;
    }
    assert(a@ =~= a@.subrange(0, b@.len() as int));
    starts_with_chars(a, b)
}

impl DistroType {
    pub fn all() -> (r: Vec<DistroType>)
        ensures
            r@ == seq![
                DistroType::Default,
                DistroType::Aur,
                DistroType::Fedora,
                DistroType::Alpine,
            ],
    {
        let r = vec![DistroType::Default, DistroType::Aur, DistroType::Fedora, DistroType::Alpine];
        assert(r@ =~= seq![
            DistroType::Default,
            DistroType::Aur,
            DistroType::Fedora,
            DistroType::Alpine,
        ]);
        r
    }

    pub fn as_str(&self) -> (r: &'static str)
        ensures
            r@ == distro_label(*self),
    {
        match self {
            DistroType::Default => "Default (System)",
            DistroType::Aur => "AUR (Arch)",
            DistroType::Fedora => "Fedora",
            DistroType::Alpine => "Alpine",
        }
    }

    /// The global flag that selects this distribution, if any.
    pub fn to_pikman_flag(&self) -> (r: Option<&'static str>)
        ensures
            match r {
                Some(f) => distro_flag(*self) == Some(f@),
                None => distro_flag(*self) is None,
            },
    {
        match self {
            DistroType::Default => None,
            DistroType::Aur => Some("--aur"),
            DistroType::Fedora => Some("--fedora"),
            DistroType::Alpine => Some("--alpine"),
        }
    }

    /// The distribution that a name selects: `"aur"`, `"fedora"`,
    /// `"alpine"`, or anything else for the default.
    pub fn from_name(name: &str) -> (r: DistroType)
        ensures
            r == filter_kind(Some(name@)),
    {
        let v = chars_of(name);
        if same_chars(&v, &chars_of("aur")) {
            DistroType::Aur
        } else if same_chars(&v, &chars_of("fedora")) {
            DistroType::Fedora
        } else if same_chars(&v, &chars_of("alpine")) {
            DistroType::Alpine
        } else {
            DistroType::Default
        }
    }

    /// The dialect that a search filter selects.
    pub fn from_filter(filter: &Option<String>) -> (r: DistroType)
        ensures
            r == filter_kind(
                match filter {
                    Some(f) => Some(f@),
                    None => None,
                },
            ),
    {
        match filter {
            Some(f) => DistroType::from_name(f.as_str()),
            None => DistroType::Default,
        }
    }
}

// ---------------------------------------------------------------------------
// Shared pieces.
/// Banner and metadata lines that the meta-manager prints between results.
pub open spec fn is_meta_line(t: Seq<char>) -> bool {
    starts_with(t, "Matched fields:"@) || starts_with(t, "!!!"@) || starts_with(t, "Warning:"@)
}

pub open spec fn is_indented(line: Seq<char>) -> bool {
    starts_with(line, seq![' ']) || starts_with(line, seq!['\t'])
}

/// `s` split at its first space (`splitn(2, ' ')`).
pub open spec fn split_first_space(s: Seq<char>) -> (Seq<char>, Option<Seq<char>>) {
    match find(s, seq![' ']) {
        Some(k) => (s.subrange(0, k), Some(s.subrange(k + 1, s.len() as int))),
        None => (s, None),
    }
}

pub open spec fn flush_package(acc: Seq<PackageView>, cur: Option<PackageView>) -> Seq<
    PackageView,
> {
    match cur {
        Some(r) => if r.name.len() > 0 {
            acc.push(r)
        } else {
            acc
        },
        None => acc,
    }
}

/// `r` with `text` appended to its description, after one space unless the
/// description is empty.
pub open spec fn append_description(r: PackageView, text: Seq<char>) -> PackageView {
    PackageView {
        name: r.name,
        description: if r.description.len() == 0 {
            text
        } else {
            r.description + seq![' '] + text
        },
        version: r.version,
        size: r.size,
        source: r.source,
    }
}

/// The record that a `name/version description` header line starts.
pub open spec fn slash_header(t: Seq<char>) -> PackageView {
    let (first, rest) = split_first_space(t);
    let np = split_char(first, '/');
    PackageView {
        name: np[0],
        description: match rest {
            Some(d) => d,
            None => seq![],
        },
        version: if np.len() > 1 {
            np[1]
        } else {
            seq![]
        },
        size: seq![],
        source: PackageSource::Default,
    }
}

pub struct PackageDraft {
    pub name: Vec<char>,
    pub description: Vec<char>,
    pub version: Vec<char>,
    pub size: Vec<char>,
    pub source: PackageSource,
}

impl View for PackageDraft {
    type V = PackageView;

    open spec fn view(&self) -> PackageView {
        PackageView {
            name: self.name@,
            description: self.description@,
            version: self.version@,
            size: self.size@,
            source: self.source,
        }
    }
}

pub open spec fn draft_view(d: Option<PackageDraft>) -> Option<PackageView> {
    match d {
        Some(x) => Some(x@),
        None => None,
    }
}

fn to_info(d: &PackageDraft) -> (r: PackageInfo)
    ensures
        r@ == d@,
{
    PackageInfo {
        name: string_of(&d.name),
        description: string_of(&d.description),
        version: string_of(&d.version),
        size: string_of(&d.size),
        source: d.source,
    }
}

fn flush_draft(acc: &mut Vec<PackageInfo>, cur: Option<PackageDraft>)
    ensures
        package_views(final(acc)@) == flush_package(package_views(old(acc)@), draft_view(cur)),
{
    match cur {
        Some(d) => {
            if d.name.len() > 0 {
                let info = to_info(&d);
                acc.push(info);
                assert(package_views(acc@) =~= package_views(old(acc)@).push(info@));
            }
        },
        None => {},
    }
}

fn push_record(acc: &mut Vec<PackageInfo>, d: &PackageDraft)
    ensures
        package_views(final(acc)@) == package_views(old(acc)@).push(d@),
{
    let info = to_info(d);
    acc.push(info);
    assert(package_views(acc@) =~= package_views(old(acc)@).push(info@));
}

fn append_draft_description(d: &mut PackageDraft, text: &Vec<char>)
    ensures
        final(d)@ == append_description(old(d)@, text@),
{
    if d.description.len() > 0 {
        d.description.push(' ');
    }
    append_chars(&mut d.description, text);
    assert(d@.description =~= append_description(old(d)@, text@).description);
}

fn copy(s: &Vec<char>) -> (r: Vec<char>)
    ensures
        r@ == s@,
{
    let mut r: Vec<char> = Vec::new();
    append_chars(&mut r, s);
    r
}

fn split_first_space_exec(s: &Vec<char>) -> (r: (Vec<char>, Option<Vec<char>>))
    ensures
        split_first_space(s@) == (r.0@, match r.1 {
            Some(v) => Some(v@),
            None => None,
        }),
{
    match find_char(s, ' ') {
        Some(k) => {
            assert(k < s.len());
            (slice(s, 0, k), Some(slice(s, k + 1, s.len())))
        },
        None => (copy(s), None),
    }
}

fn slash_header_exec(t: &Vec<char>) -> (r: PackageDraft)
    ensures
        r@ == slash_header(t@),
{
    let (first, rest) = split_first_space_exec(t);
    let np = split_on(&first, '/');
    proof {
        lemma_split_char_nonempty(first@, '/');
    }
    assert(views(np@).len() == np.len());
    assert(views(np@)[0] == np@[0]@);
    let version = if np.len() > 1 {
        assert(views(np@)[1] == np@[1]@);
        copy(&np[1])
    } else {
        Vec::new()
    };
    let description = match rest {
        Some(d) => d,
        None => Vec::new(),
    };
    PackageDraft {
        name: copy(&np[0]),
        description,
        version,
        size: Vec::new(),
        source: PackageSource::Default,
    }
}

pub proof fn lemma_split_char_nonempty(s: Seq<char>, c: char)
    ensures
        split_char(s, c).len() >= 1,
    decreases s.len(),
{
    if s.len() > 0 {
        lemma_split_char_nonempty(s.drop_last(), c);
    }
}

fn is_meta_line_exec(t: &Vec<char>) -> (r: bool)
    ensures
        r == is_meta_line(t@),
{
    starts_with_chars(t, &chars_of("Matched fields:")) || starts_with_chars(t, &chars_of("!!!"))
        || starts_with_chars(t, &chars_of("Warning:"))
}

fn is_indented_exec(line: &Vec<char>) -> (r: bool)
    ensures
        r == is_indented(line@),
{
    let space: Vec<char> = vec![' '];
    let tab: Vec<char> = vec!['\t'];
    assert(space@ =~= seq![' ']);
    assert(tab@ =~= seq!['\t']);
    starts_with_chars(line, &space) || starts_with_chars(line, &tab)
}

fn has_slash(t: &Vec<char>) -> (r: bool)
    ensures
        r == contains(t@, seq!['/']),
{
    let p: Vec<char> = vec!['/'];
    assert(p@ =~= seq!['/']);
    contains_chars(t, &p)
}

// ---------------------------------------------------------------------------
// Default dialect: `name/version description`, continuation lines appended.
pub open spec fn default_step(st: (Seq<PackageView>, Option<PackageView>), line: Seq<char>) -> (
    Seq<PackageView>,
    Option<PackageView>,
) {
    let t = trim(line);
    if t.len() == 0 {
        (flush_package(st.0, st.1), None)
    } else if is_meta_line(t) {
        st
    } else if contains(t, seq!['/']) && !is_indented(line) {
        (flush_package(st.0, st.1), Some(slash_header(t)))
    } else {
        match st.1 {
            Some(r) => (st.0, Some(append_description(r, t))),
            None => st,
        }
    }
}

pub open spec fn default_lines(ls: Seq<Seq<char>>) -> (Seq<PackageView>, Option<PackageView>)
    decreases ls.len(),
{
    if ls.len() == 0 {
        (seq![], None)
    } else {
        default_step(default_lines(ls.drop_last()), ls.last())
    }
}

// ---------------------------------------------------------------------------
// AUR dialect: `repo/name version (download installed) [status]` headers
// followed by indented description lines.
/// The size text of the parenthesised part of an AUR header.
pub open spec fn aur_size(inner: Seq<char>) -> Seq<char> {
    let w = words(inner);
    if w.len() >= 2 {
        w[0] + " / "@ + w[1]
    } else if w.len() == 1 {
        w[0]
    } else {
        seq![]
    }
}

/// Version and size from the part of an AUR header after the name.
pub open spec fn aur_version_size(rest: Seq<char>) -> (Seq<char>, Seq<char>) {
    match find(rest, seq!['(']) {
        Some(p) => (
            trim(rest.subrange(0, p)),
            match find(rest.subrange(p, rest.len() as int), seq![')']) {
                Some(q) => aur_size(rest.subrange(p + 1, p + q)),
                None => seq![],
            },
        ),
        None => (trim(rest), seq![]),
    }
}

pub open spec fn aur_header(t: Seq<char>) -> Option<PackageView> {
    let (first, rest) = split_first_space(t);
    let np = split_char(first, '/');
    if np.len() >= 2 {
        let vs = match rest {
            Some(r) => aur_version_size(r),
            None => (seq![], seq![]),
        };
        Some(
            PackageView {
                name: np[1],
                description: seq![],
                version: vs.0,
                size: vs.1,
                source: PackageSource::Aur,
            },
        )
    } else {
        None
    }
}

pub open spec fn aur_step(st: (Seq<PackageView>, Option<PackageView>), line: Seq<char>) -> (
    Seq<PackageView>,
    Option<PackageView>,
) {
    let t = trim(line);
    if t.len() == 0 {
        (flush_package(st.0, st.1), None)
    } else if is_meta_line(t) {
        st
    } else if contains(t, seq!['/']) && !is_indented(line) {
        (flush_package(st.0, st.1), aur_header(t))
    } else if starts_with(line, "    "@) || starts_with(line, seq!['\t']) {
        match st.1 {
            Some(r) => (st.0, Some(append_description(r, t))),
            None => st,
        }
    } else {
        st
    }
}

pub open spec fn aur_lines(ls: Seq<Seq<char>>) -> (Seq<PackageView>, Option<PackageView>)
    decreases ls.len(),
{
    if ls.len() == 0 {
        (seq![], None)
    } else {
        aur_step(aur_lines(ls.drop_last()), ls.last())
    }
}

// ---------------------------------------------------------------------------
// Distro-package dialect: `name.arch<TAB or spaces>description`.
/// `x` without its last `.` and what follows it.
pub open spec fn strip_arch(x: Seq<char>) -> Seq<char> {
    match rfind_char(x, '.') {
        Some(k) => x.subrange(0, k),
        None => x,
    }
}

pub open spec fn fedora_record(line: Seq<char>) -> Option<PackageView> {
    let t = trim(line);
    let parts = if contains(t, seq!['\t']) {
        split_char(t, '\t')
    } else {
        words(t)
    };
    if t.len() == 0 || is_meta_line(t) || starts_with(t, "Updating"@) || parts.len() == 0
        || strip_arch(parts[0]).len() == 0 {
        None
    } else {
        Some(
            PackageView {
                name: strip_arch(parts[0]),
                description: if parts.len() >= 2 {
                    join(parts.subrange(1, parts.len() as int), seq![' '])
                } else {
                    seq![]
                },
                version: seq![],
                size: seq![],
                source: PackageSource::Fedora,
            },
        )
    }
}

// ---------------------------------------------------------------------------
// Minimal dialect: bare `name-version` tokens. Best effort: the segment after
// the last dash is taken for a version only if it holds a digit.
pub open spec fn alpine_record(line: Seq<char>) -> Option<PackageView> {
    let t = trim(line);
    let nv = match rfind_char(t, '-') {
        Some(k) => if has_digit(t.subrange(k + 1, t.len() as int)) {
            (t.subrange(0, k), t.subrange(k + 1, t.len() as int))
        } else {
            (t, seq![])
        },
        None => (t, seq![]),
    };
    if t.len() == 0 || starts_with(t, "!!!"@) || starts_with(t, "Warning:"@) || nv.0.len() == 0 {
        None
    } else {
        Some(
            PackageView {
                name: nv.0,
                description: seq![],
                version: nv.1,
                size: seq![],
                source: PackageSource::Alpine,
            },
        )
    }
}

/// The records of a dialect whose lines stand alone.
pub open spec fn record_lines(ls: Seq<Seq<char>>, kind: DistroType) -> Seq<PackageView>
    decreases ls.len(),
{
    if ls.len() == 0 {
        seq![]
    } else {
        let acc = record_lines(ls.drop_last(), kind);
        let r = if kind == DistroType::Fedora {
            fedora_record(ls.last())
        } else {
            alpine_record(ls.last())
        };
        match r {
            Some(p) => acc.push(p),
            None => acc,
        }
    }
}

/// What the meta-manager search parser returns for `output` in a dialect.
pub open spec fn meta_search(output: Seq<char>, kind: DistroType) -> Seq<PackageView> {
    let ls = lines(output);
    match kind {
        DistroType::Default => {
            let st = default_lines(ls);
            flush_package(st.0, st.1)
        },
        DistroType::Aur => {
            let st = aur_lines(ls);
            flush_package(st.0, st.1)
        },
        _ => record_lines(ls, kind),
    }
}

// ---------------------------------------------------------------------------
// The older `name/version description` listing of the system tool.
/// `r` with one space and `text` appended to its description.
pub open spec fn extend_package_description(r: PackageView, text: Seq<char>) -> PackageView {
    PackageView {
        name: r.name,
        description: r.description + seq![' '] + text,
        version: r.version,
        size: r.size,
        source: r.source,
    }
}

pub open spec fn listing_step(st: (Seq<PackageView>, Option<PackageView>), line: Seq<char>) -> (
    Seq<PackageView>,
    Option<PackageView>,
) {
    if is_blank(line) {
        (flush_package(st.0, st.1), None)
    } else if contains(line, seq!['/']) && !starts_with(line, seq![' ']) {
        (flush_package(st.0, st.1), Some(slash_header(line)))
    } else {
        match st.1 {
            Some(r) => (st.0, Some(extend_package_description(r, trim(line)))),
            None => st,
        }
    }
}

pub open spec fn listing_lines(ls: Seq<Seq<char>>) -> (Seq<PackageView>, Option<PackageView>)
    decreases ls.len(),
{
    if ls.len() == 0 {
        (seq![], None)
    } else {
        listing_step(listing_lines(ls.drop_last()), ls.last())
    }
}

/// What the `name/version description` parser returns for `output`.
pub open spec fn listing(output: Seq<char>) -> Seq<PackageView> {
    let st = listing_lines(lines(output));
    flush_package(st.0, st.1)
}

// ---------------------------------------------------------------------------
// Executable steps.
fn default_step_exec(acc: &mut Vec<PackageInfo>, cur: Option<PackageDraft>, line: &Vec<char>) -> (r:
    Option<PackageDraft>)
    ensures
        (package_views(final(acc)@), draft_view(r)) == default_step(
            (package_views(old(acc)@), draft_view(cur)),
            line@,
        ),
{
    let t = trim_chars(line);
    if t.len() == 0 {
        flush_draft(acc, cur);
        None
    } else if is_meta_line_exec(&t) {
        cur
    } else if has_slash(&t) && !is_indented_exec(line) {
        flush_draft(acc, cur);
        Some(slash_header_exec(&t))
    } else {
        match cur {
            Some(mut d) => {
                append_draft_description(&mut d, &t);
                Some(d)
            },
            None => None,
        }
    }
}

fn listing_step_exec(acc: &mut Vec<PackageInfo>, cur: Option<PackageDraft>, line: &Vec<char>) -> (r:
    Option<PackageDraft>)
    ensures
        (package_views(final(acc)@), draft_view(r)) == listing_step(
            (package_views(old(acc)@), draft_view(cur)),
            line@,
        ),
{
    let t = trim_chars(line);
    let space: Vec<char> = vec![' '];
    assert(space@ =~= seq![' ']);
    if t.len() == 0 {
        flush_draft(acc, cur);
        None
    } else if has_slash(line) && !starts_with_chars(line, &space) {
        flush_draft(acc, cur);
        Some(slash_header_exec(line))
    } else {
        match cur {
            Some(mut d) => {
                let ghost before = d@;
                d.description.push(' ');
                append_chars(&mut d.description, &t);
                assert(d@.description =~= before.description + seq![' '] + t@);
                assert(d@ == extend_package_description(before, t@));
                Some(d)
            },
            None => None,
        }
    }
}

fn aur_size_exec(inner: &Vec<char>) -> (r: Vec<char>)
    ensures
        r@ == aur_size(inner@),
{
    let w = split_words(inner);
    assert(views(w@).len() == w.len());
    if w.len() >= 2 {
        assert(views(w@)[0] == w@[0]@);
        assert(views(w@)[1] == w@[1]@);
        let mut r = copy(&w[0]);
        append_chars(&mut r, &chars_of(" / "));
        append_chars(&mut r, &w[1]);
        r
    } else if w.len() == 1 {
        assert(views(w@)[0] == w@[0]@);
        copy(&w[0])
    } else {
        Vec::new()
    }
}

fn aur_version_size_exec(rest: &Vec<char>) -> (r: (Vec<char>, Vec<char>))
    ensures
        (r.0@, r.1@) == aur_version_size(rest@),
{
    match find_char(rest, '(') {
        Some(p) => {
            assert(p < rest.len());
            let version = trim_chars(&slice(rest, 0, p));
            let tail = slice(rest, p, rest.len());
            let size = match find_char(&tail, ')') {
                Some(q) => {
                    assert(tail@[0] == '(');
                    assert(q >= 1);
                    aur_size_exec(&slice(rest, p + 1, p + q))
                },
                None => Vec::new(),
            };
            (version, size)
        },
        None => (trim_chars(rest), Vec::new()),
    }
}

fn aur_header_exec(t: &Vec<char>) -> (r: Option<PackageDraft>)
    ensures
        draft_view(r) == aur_header(t@),
{
    let (first, rest) = split_first_space_exec(t);
    let np = split_on(&first, '/');
    assert(views(np@).len() == np.len());
    if np.len() >= 2 {
        assert(views(np@)[1] == np@[1]@);
        let (version, size) = match rest {
            Some(r) => aur_version_size_exec(&r),
            None => (Vec::new(), Vec::new()),
        };
        Some(
            PackageDraft {
                name: copy(&np[1]),
                description: Vec::new(),
                version,
                size,
                source: PackageSource::Aur,
            },
        )
    } else {
        None
    }
}

fn aur_step_exec(acc: &mut Vec<PackageInfo>, cur: Option<PackageDraft>, line: &Vec<char>) -> (r:
    Option<PackageDraft>)
    ensures
        (package_views(final(acc)@), draft_view(r)) == aur_step(
            (package_views(old(acc)@), draft_view(cur)),
            line@,
        ),
{
    let t = trim_chars(line);
    let tab: Vec<char> = vec!['\t'];
    assert(tab@ =~= seq!['\t']);
    if t.len() == 0 {
        flush_draft(acc, cur);
        None
    } else if is_meta_line_exec(&t) {
        cur
    } else if has_slash(&t) && !is_indented_exec(line) {
        flush_draft(acc, cur);
        aur_header_exec(&t)
    } else if starts_with_chars(line, &chars_of("    ")) || starts_with_chars(line, &tab) {
        match cur {
            Some(mut d) => {
                append_draft_description(&mut d, &t);
                Some(d)
            },
            None => None,
        }
    } else {
        cur
    }
}

fn strip_arch_exec(x: &Vec<char>) -> (r: Vec<char>)
    ensures
        r@ == strip_arch(x@),
{
    match rfind_char_chars(x, '.') {
        Some(k) => slice(x, 0, k),
        None => copy(x),
    }
}

fn fedora_record_exec(line: &Vec<char>) -> (r: Option<PackageDraft>)
    ensures
        draft_view(r) == fedora_record(line@),
{
    let t = trim_chars(line);
    let tab: Vec<char> = vec!['\t'];
    assert(tab@ =~= seq!['\t']);
    let parts = if contains_chars(&t, &tab) {
        split_on(&t, '\t')
    } else {
        split_words(&t)
    };
    assert(views(parts@).len() == parts.len());
    if t.len() == 0 || is_meta_line_exec(&t) || starts_with_chars(&t, &chars_of("Updating"))
        || parts.len() == 0 {
        return None;
    }
    assert(views(parts@)[0] == parts@[0]@);
    let name = strip_arch_exec(&parts[0]);
    if name.len() == 0 {
        return None;
    }
    let description = if parts.len() >= 2 {
        let rest = tail_of(&parts, 1);
        let space: Vec<char> = vec![' '];
        assert(space@ =~= seq![' ']);
        join_chars(&rest, &space)
    } else {
        Vec::new()
    };
    Some(
        PackageDraft {
            name,
            description,
            version: Vec::new(),
            size: Vec::new(),
            source: PackageSource::Fedora,
        },
    )
}

fn alpine_record_exec(line: &Vec<char>) -> (r: Option<PackageDraft>)
    ensures
        draft_view(r) == alpine_record(line@),
{
    let t = trim_chars(line);
    if t.len() == 0 || starts_with_chars(&t, &chars_of("!!!")) || starts_with_chars(
        &t,
        &chars_of("Warning:"),
    ) {
        return None;
    }
    let (name, version) = match rfind_char_chars(&t, '-') {
        Some(k) => {
            let after = slice(&t, k + 1, t.len());
            if has_digit_chars(&after) {
                (slice(&t, 0, k), after)
            } else {
                (copy(&t), Vec::new())
            }
        },
        None => (copy(&t), Vec::new()),
    };
    if name.len() == 0 {
        None
    } else {
        Some(
            PackageDraft {
                name,
                description: Vec::new(),
                version,
                size: Vec::new(),
                source: PackageSource::Alpine,
            },
        )
    }
}

/// Parses meta-manager search output in the dialect that `filter` selects:
/// `"aur"`, `"fedora"` or `"alpine"`, otherwise the default
/// `name/version description` form.
pub fn parse_pikman_search_output(output: &str, filter: Option<String>) -> (r: Vec<PackageInfo>)
    ensures
        package_views(r@) == meta_search(
            output@,
            filter_kind(
                match filter {
                    Some(f) => Some(f@),
                    None => None,
                },
            ),
        ),
{
    let kind = DistroType::from_filter(&filter);
    let text = chars_of(output);
    let ls = split_lines(&text);
    let mut acc: Vec<PackageInfo> = Vec::new();
    let mut cur: Option<PackageDraft> = None;
    let mut i: usize = 0;
    while i < ls.len()
        invariant
            i <= ls.len(),
            views(ls@) == lines(text@),
            kind == DistroType::Default ==> (package_views(acc@), draft_view(cur)) == default_lines(
                views(ls@).subrange(0, i as int),
            ),
            kind == DistroType::Aur ==> (package_views(acc@), draft_view(cur)) == aur_lines(
                views(ls@).subrange(0, i as int),
            ),
            (kind == DistroType::Fedora || kind == DistroType::Alpine) ==> package_views(acc@)
                == record_lines(views(ls@).subrange(0, i as int), kind),
            (kind == DistroType::Fedora || kind == DistroType::Alpine) ==> cur is None,
        decreases ls.len() - i,
    {
        let ghost pre = views(ls@).subrange(0, i as int);
        let ghost post = views(ls@).subrange(0, i + 1);
        assert(post.drop_last() =~= pre);
        assert(post.last() == ls@[i as int]@);
        match kind {
            DistroType::Default => {
                cur = default_step_exec(&mut acc, cur, &ls[i]);
            },
            DistroType::Aur => {
                cur = aur_step_exec(&mut acc, cur, &ls[i]);
            },
            DistroType::Fedora => {
                if let Some(d) = fedora_record_exec(&ls[i]) {
                    push_record(&mut acc, &d);
                }
            },
            DistroType::Alpine => {
                if let Some(d) = alpine_record_exec(&ls[i]) {
                    push_record(&mut acc, &d);
                }
            },
        }
        i += 1;
    }
    assert(views(ls@).subrange(0, i as int) =~= views(ls@));
    flush_draft(&mut acc, cur);
    acc
}

/// Parses the `name/version description` listing of the system tool; a
/// line that starts with a space continues the description before it.
pub fn parse_search_output(output: &str) -> (r: Vec<PackageInfo>)
    ensures
        package_views(r@) == listing(output@),
{
    let text = chars_of(output);
    let ls = split_lines(&text);
    let mut acc: Vec<PackageInfo> = Vec::new();
    let mut cur: Option<PackageDraft> = None;
    let mut i: usize = 0;
    while i < ls.len()
        invariant
            i <= ls.len(),
            views(ls@) == lines(text@),
            (package_views(acc@), draft_view(cur)) == listing_lines(
                views(ls@).subrange(0, i as int),
            ),
        decreases ls.len() - i,
    {
        let ghost pre = views(ls@).subrange(0, i as int);
        let ghost post = views(ls@).subrange(0, i + 1);
        assert(post.drop_last() =~= pre);
        assert(post.last() == ls@[i as int]@);
        cur = listing_step_exec(&mut acc, cur, &ls[i]);
        i += 1;
    }
    assert(views(ls@).subrange(0, i as int) =~= views(ls@));
    flush_draft(&mut acc, cur);
    acc
}

// ---------------------------------------------------------------------------
// Running a search.
/// The command that searches the meta-manager. The distribution flag is a
/// global option and comes before the subcommand.
pub open spec fn search_command_spec(query: Seq<char>, kind: DistroType) -> InvocationView {
    InvocationView {
        program: "pikman"@,
        args: match distro_flag(kind) {
            Some(f) => seq![f],
            None => seq![],
        } + seq!["search"@, query],
        elevate: false,
    }
}

pub fn search_command(query: &str, filter: &Option<String>) -> (r: Invocation)
    ensures
        r@ == search_command_spec(
            query@,
            filter_kind(
                match filter {
                    Some(f) => Some(f@),
                    None => None,
                },
            ),
        ),
{
    let mut args: Vec<String> = Vec::new();
    match DistroType::from_filter(filter).to_pikman_flag() {
        Some(f) => {
            args.push(lit(f));
        },
        None => {},
    }
    args.push(lit("search"));
    args.push(lit(query));
    let r = Invocation { program: lit("pikman"), args, elevate: false };
    assert(r@.args =~= search_command_spec(
        query@,
        filter_kind(
            match filter {
                Some(f) => Some(f@),
                None => None,
            },
        ),
    ).args);
    r
}

/// A failed search is retried with elevated privileges when its error
/// output speaks of permissions, or when it exited with 1 asking for sudo.
pub open spec fn needs_elevation(code: Option<i32>, stderr: Seq<char>) -> bool {
    contains(stderr, "permission"@) || contains(stderr, "Permission"@) || contains(
        stderr,
        "denied"@,
    ) || (code == Some(1i32) && contains(stderr, "sudo"@))
}

pub fn search_needs_elevation(code: Option<i32>, stderr: &str) -> (r: bool)
    ensures
        r == needs_elevation(code, stderr@),
{
    let e = chars_of(stderr);
    contains_chars(&e, &chars_of("permission")) || contains_chars(&e, &chars_of("Permission"))
        || contains_chars(&e, &chars_of("denied")) || (code == Some(1i32) && contains_chars(
        &e,
        &chars_of("sudo"),
    ))
}

/// The retry of a search with elevated privileges: the same command.
pub fn elevated_search_command(query: &str, filter: &Option<String>) -> (r: Invocation)
    ensures
        r@.program == search_command_spec(query@, filter_kind(match filter {
            Some(f) => Some(f@),
            None => None,
        })).program,
        r@.args == search_command_spec(query@, filter_kind(match filter {
            Some(f) => Some(f@),
            None => None,
        })).args,
        r@.elevate,
{
    let mut r = search_command(query, filter);
    r.elevate = true;
    r
}

/// What a search that ended with `code` gives: on success the parsed
/// results; after an elevated attempt, 126 and 127 mean authentication was
/// cancelled or failed; any other failure reports the error output.
pub open spec fn search_result(
    code: Option<i32>,
    stdout: Seq<char>,
    stderr: Seq<char>,
    elevated: bool,
    kind: DistroType,
) -> Result<Seq<PackageView>, Seq<char>> {
    if code == Some(0i32) {
        Ok(meta_search(stdout, kind))
    } else if elevated && is_auth_failure_code(code) {
        Err("Authentication cancelled or failed. Please try again."@)
    } else {
        Err("Search failed: "@ + stderr)
    }
}

pub fn search_outcome(
    code: Option<i32>,
    stdout: &str,
    stderr: &str,
    elevated: bool,
    filter: Option<String>,
) -> (r: Result<Vec<PackageInfo>, String>)
    ensures
        match r {
            Ok(v) => search_result(code, stdout@, stderr@, elevated, filter_kind(match filter {
                Some(f) => Some(f@),
                None => None,
            })) == Ok::<Seq<PackageView>, Seq<char>>(package_views(v@)),
            Err(e) => search_result(code, stdout@, stderr@, elevated, filter_kind(match filter {
                Some(f) => Some(f@),
                None => None,
            })) == Err::<Seq<PackageView>, Seq<char>>(e@),
        },
{
    if code == Some(0i32) {
        Ok(parse_pikman_search_output(stdout, filter))
    } else if elevated && is_auth_failure(code) {
        Err(lit("Authentication cancelled or failed. Please try again."))
    } else {
        let mut m = chars_of("Search failed: ");
        append_chars(&mut m, &chars_of(stderr));
        Err(string_of(&m))
    }
}

} // verus!
