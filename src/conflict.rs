//! Classifies the output of a failed install or removal into a conflict
//! report: a category, a title, and a short excerpt of the output.
use vstd::prelude::*;
use vstd::utf8::encode_utf8;
use crate::text::{
    slice as slice_chars, starts_with, starts_with_chars, occurs_at, append_chars, chars_of, contains, contains_chars, is_blank, join, join_chars, lines,
    lower_of, lower_chars, split_lines, string_of, trim, trim_chars, views,
};

verus! {

#[derive(Debug, Clone, Copy, PartialEq, Eq, Structural)]
pub enum ConflictCategory {
    UnmetDependencies,
    PackageConflict,
    HeldPackage,
    RemovalBlocked,
    BrokenDependencies,
    Generic,
}

/// A classified failure: its category, a human-readable title, and the
/// lines of the output that support it.
#[derive(Debug, Clone)]
pub struct ConflictReport {
    pub category: ConflictCategory,
    pub summary: String,
    pub details: String,
}

pub struct ReportView {
    pub category: ConflictCategory,
    pub summary: Seq<char>,
    pub details: Seq<char>,
}

impl View for ConflictReport {
    type V = ReportView;

    open spec fn view(&self) -> ReportView {
        ReportView { category: self.category, summary: self.summary@, details: self.details@ }
    }
}

/// The lower-case equivalents of the lines `ls`.
pub open spec fn lowered(ls: Seq<Seq<char>>) -> Seq<Seq<char>> {
    ls.map_values(|x: Seq<char>| lower_of(x))
}

/// The category of the first signature, in order of precedence, that the
/// lower-cased output contains.
pub open spec fn conflict_category(output: Seq<char>) -> Option<ConflictCategory> {
    category_from(lower_of(output))
}

/// The category for the lower-cased output `l`.
pub open spec fn category_from(l: Seq<char>) -> Option<ConflictCategory> {
    if contains(l, "unmet dependencies"@) || contains(l, "depends:"@) {
        Some(ConflictCategory::UnmetDependencies)
    } else if contains(l, "conflicts with"@) {
        Some(ConflictCategory::PackageConflict)
    } else if contains(l, "is held"@) || contains(l, "held"@) {
        Some(ConflictCategory::HeldPackage)
    } else if contains(l, "could not be removed"@) || contains(l, "cannot remove"@) {
        Some(ConflictCategory::RemovalBlocked)
    } else if contains(l, "broken packages"@) || contains(l, "dependency problems"@) {
        Some(ConflictCategory::BrokenDependencies)
    } else if contains(l, "error"@) && (contains(l, "dependency"@) || contains(l, "conflict"@)) {
        Some(ConflictCategory::Generic)
    } else {
        None
    }
}

pub open spec fn category_title(c: ConflictCategory) -> Seq<char> {
    match c {
        ConflictCategory::UnmetDependencies => "The following packages have unmet dependencies or dependency conflicts:"@,
        ConflictCategory::PackageConflict => "Package conflicts detected"@,
        ConflictCategory::HeldPackage => "Package is held and cannot be removed"@,
        ConflictCategory::RemovalBlocked => "Some packages could not be removed"@,
        ConflictCategory::BrokenDependencies => "Broken packages or dependency problems detected"@,
        ConflictCategory::Generic => "Dependency or conflict error detected"@,
    }
}

// ---------------------------------------------------------------------------
// The dependency block: from the first line that names dependencies up to a
// suggested fix, or a blank line once more than fifteen lines are taken.
/// Scan state: the lines taken, whether the block has begun, whether it ended.
pub type DependencyScan = (Seq<Seq<char>>, bool, bool);

pub open spec fn opens_dependency_block(ll: Seq<char>) -> bool {
    contains(ll, "unmet dependencies"@) || contains(ll, "the following packages"@) || contains(
        ll,
        "depends:"@,
    ) || contains(ll, "predepends:"@)
}

/// One line, and its lower-case equivalent `ll`, applied to the scan.
pub open spec fn dependency_step(st: DependencyScan, line: Seq<char>, ll: Seq<char>) -> DependencyScan {
    if st.2 {
        st
    } else if st.1 || opens_dependency_block(ll) {
        let taken = st.0.push(line);
        (
            taken,
            true,
            contains(ll, "you can run"@) || contains(ll, "apt --fix-broken install"@) || (
            taken.len() > 15 && trim(line).len() == 0),
        )
    } else {
        st
    }
}

/// The scan of the lines `ls`, whose lower-case equivalents are `lls`.
pub open spec fn dependency_scan_with(ls: Seq<Seq<char>>, lls: Seq<Seq<char>>) -> DependencyScan
    decreases ls.len(),
{
    if ls.len() == 0 {
        (seq![], false, false)
    } else {
        dependency_step(
            dependency_scan_with(ls.drop_last(), lls.drop_last()),
            ls.last(),
            lls[ls.len() - 1],
        )
    }
}

pub open spec fn dependency_scan(ls: Seq<Seq<char>>) -> DependencyScan {
    dependency_scan_with(ls, lowered(ls))
}

// ---------------------------------------------------------------------------
// The keyword excerpt: one line before the first line with a keyword, up to
// eight lines after it, blank lines left out.
/// Whether the lower-cased line `ll` holds a conflict keyword.
pub open spec fn is_keyword_line(ll: Seq<char>) -> bool {
    contains(ll, "conflict"@) || contains(ll, "held"@) || contains(ll, "cannot"@) || contains(
        ll,
        "error"@,
    )
}

pub open spec fn first_keyword_line_from(ls: Seq<Seq<char>>, i: int) -> Option<int>
    decreases ls.len() - i,
{
    if i < 0 || i >= ls.len() {
        None
    } else if is_keyword_line(ls[i]) {
        Some(i)
    } else {
        first_keyword_line_from(ls, i + 1)
    }
}

pub open spec fn nonblank(ls: Seq<Seq<char>>) -> Seq<Seq<char>>
    decreases ls.len(),
{
    if ls.len() == 0 {
        seq![]
    } else if is_blank(ls.last()) {
        nonblank(ls.drop_last())
    } else {
        nonblank(ls.drop_last()).push(ls.last())
    }
}

/// The excerpt of the lines `ls`, whose lower-case equivalents are `lls`.
pub open spec fn keyword_excerpt_with(ls: Seq<Seq<char>>, lls: Seq<Seq<char>>) -> Seq<Seq<char>> {
    match first_keyword_line_from(lls, 0) {
        Some(i) => nonblank(
            ls.subrange(
                if i >= 1 {
                    i - 1
                } else {
                    0
                },
                if i + 9 <= ls.len() {
                    i + 9
                } else {
                    ls.len() as int
                },
            ),
        ),
        None => seq![],
    }
}

pub open spec fn keyword_excerpt(ls: Seq<Seq<char>>) -> Seq<Seq<char>> {
    keyword_excerpt_with(ls, lowered(ls))
}

/// The report for a failed operation's output, if it shows a known conflict.
pub open spec fn classify_spec(output: Seq<char>) -> Option<ReportView> {
    match conflict_category(output) {
        Some(c) => Some(
            ReportView {
                category: c,
                summary: category_title(c),
                details: if c == ConflictCategory::UnmetDependencies {
                    join(dependency_scan(lines(output)).0, seq!['\n'])
                } else {
                    join(keyword_excerpt(lines(output)), seq!['\n'])
                },
            },
        ),
        None => None,
    }
}

/// The message of a report, as one text: the title, then the excerpt.
pub open spec fn report_message(r: ReportView) -> Seq<char> {
    if r.category == ConflictCategory::UnmetDependencies {
        if r.details.len() == 0 {
            "Dependency conflict detected. Other packages depend on the package(s) you're trying to remove."@
        } else {
            r.summary + "\n\n"@ + r.details
                + "\n\nThis usually means other packages depend on the package you're trying to remove, or removing it would break the system."@
        }
    } else if r.details.len() == 0 {
        r.summary
    } else {
        r.summary + "\n\nDetails:\n"@ + r.details
    }
}

// ---------------------------------------------------------------------------
// Executable classifier.
fn has(s: &Vec<char>, needle: &str) -> (r: bool)
    ensures
        r == contains(s@, needle@),
{
    contains_chars(s, &chars_of(needle))
}

/// The category for the lower-cased output `l`.
pub fn category_from_lowered(l: &Vec<char>) -> (r: Option<ConflictCategory>)
    ensures
        r == category_from(l@),
{
    if has(l, "unmet dependencies") || has(l, "depends:") {
        Some(ConflictCategory::UnmetDependencies)
    } else if has(l, "conflicts with") {
        Some(ConflictCategory::PackageConflict)
    } else if has(l, "is held") || has(l, "held") {
        Some(ConflictCategory::HeldPackage)
    } else if has(l, "could not be removed") || has(l, "cannot remove") {
        Some(ConflictCategory::RemovalBlocked)
    } else if has(l, "broken packages") || has(l, "dependency problems") {
        Some(ConflictCategory::BrokenDependencies)
    } else if has(l, "error") && (has(l, "dependency") || has(l, "conflict")) {
        Some(ConflictCategory::Generic)
    } else {
        None
    }
}

fn title_of(c: ConflictCategory) -> (r: String)
    ensures
        r@ == category_title(c),
{
    let t = match c {
        ConflictCategory::UnmetDependencies => "The following packages have unmet dependencies or dependency conflicts:",
        ConflictCategory::PackageConflict => "Package conflicts detected",
        ConflictCategory::HeldPackage => "Package is held and cannot be removed",
        ConflictCategory::RemovalBlocked => "Some packages could not be removed",
        ConflictCategory::BrokenDependencies => "Broken packages or dependency problems detected",
        ConflictCategory::Generic => "Dependency or conflict error detected",
    };
    string_of(&chars_of(t))
}

fn copy_line(s: &Vec<char>) -> (r: Vec<char>)
    ensures
        r@ == s@,
{
    let mut r: Vec<char> = Vec::new();
    append_chars(&mut r, s);
    r
}

/// The lower-case equivalents of the lines `ls`.
fn lower_lines(ls: &Vec<Vec<char>>) -> (r: Vec<Vec<char>>)
    ensures
        views(r@) == lowered(views(ls@)),
{
    let mut r: Vec<Vec<char>> = Vec::new();
    let mut i: usize = 0;
    while i < ls.len()
        invariant
            i <= ls.len(),
            views(r@) == lowered(views(ls@).subrange(0, i as int)),
        decreases ls.len() - i,
    {
        let ghost before = views(r@);
        r.push(lower_chars(&ls[i]));
        assert(views(r@) =~= before.push(lower_of(ls@[i as int]@)));
        i += 1;
        assert(views(r@) =~= lowered(views(ls@).subrange(0, i as int)));
    }
    assert(views(ls@).subrange(0, i as int) =~= views(ls@));
    r
}

/// The dependency block of the output lines `ls`, whose lower-case
/// equivalents are `lls`.
pub fn extract_dependency_conflict(ls: &Vec<Vec<char>>, lls: &Vec<Vec<char>>) -> (r: Vec<Vec<char>>)
    requires
        lls.len() == ls.len(),
    ensures
        views(r@) == dependency_scan_with(views(ls@), views(lls@)).0,
{
    let mut taken: Vec<Vec<char>> = Vec::new();
    let mut in_block = false;
    let mut stopped = false;
    let mut i: usize = 0;
    while i < ls.len()
        invariant
            i <= ls.len(),
            lls.len() == ls.len(),
            (views(taken@), in_block, stopped) == dependency_scan_with(
                views(ls@).subrange(0, i as int),
                views(lls@).subrange(0, i as int),
            ),
        decreases ls.len() - i,
    {
        let ghost pre = views(ls@).subrange(0, i as int);
        let ghost post = views(ls@).subrange(0, i + 1);
        assert(post.drop_last() =~= pre);
        assert(post.last() == ls@[i as int]@);
        assert(views(lls@).subrange(0, i + 1).drop_last() =~= views(lls@).subrange(0, i as int));
        assert(views(lls@).subrange(0, i + 1)[i as int] == lls@[i as int]@);
        if !stopped {
            let ll = &lls[i];
            if in_block || has(ll, "unmet dependencies") || has(ll, "the following packages")
                || has(ll, "depends:") || has(ll, "predepends:") {
                let ghost old_taken = views(taken@);
                taken.push(copy_line(&ls[i]));
                assert(views(taken@) =~= old_taken.push(ls@[i as int]@));
                in_block = true;
                stopped = has(ll, "you can run") || has(ll, "apt --fix-broken install") || (
                taken.len() > 15 && trim_chars(&ls[i]).len() == 0);
            }
        }
        i += 1;
    }
    assert(views(ls@).subrange(0, i as int) =~= views(ls@));
    assert(views(lls@).subrange(0, i as int) =~= views(lls@));
    taken
}

fn is_keyword_line_exec(ll: &Vec<char>) -> (r: bool)
    ensures
        r == is_keyword_line(ll@),
{
    has(ll, "conflict") || has(ll, "held") || has(ll, "cannot") || has(ll, "error")
}

fn first_keyword_line(ls: &Vec<Vec<char>>) -> (r: Option<usize>)
    ensures
        match r {
            Some(i) => first_keyword_line_from(views(ls@), 0) == Some(i as int) && i < ls.len(),
            None => first_keyword_line_from(views(ls@), 0) is None,
        },
{
    let ghost vs = views(ls@);
    let mut i: usize = 0;
    while i < ls.len()
        invariant
            i <= ls.len(),
            vs == views(ls@),
            first_keyword_line_from(vs, 0) == first_keyword_line_from(vs, i as int),
        decreases ls.len() - i,
    {
        if is_keyword_line_exec(&ls[i]) {
            return Some(i);
        }
        i += 1;
    }
    None
}

/// The keyword excerpt of the output lines `ls`, whose lower-case
/// equivalents are `lls`.
pub fn extract_conflict_message(ls: &Vec<Vec<char>>, lls: &Vec<Vec<char>>) -> (r: Vec<Vec<char>>)
    requires
        lls.len() == ls.len(),
    ensures
        views(r@) == keyword_excerpt_with(views(ls@), views(lls@)),
{
    let ghost vs = views(ls@);
    let i = match first_keyword_line(lls) {
        Some(i) => i,
        None => {
            return Vec::new();
        },
    };
    let start: usize = if i >= 1 {
        i - 1
    } else {
        0
    };
    let end: usize = if ls.len() - i >= 9 {
        i + 9
    } else {
        ls.len()
    };
    let ghost window = vs.subrange(start as int, end as int);
    let mut out: Vec<Vec<char>> = Vec::new();
    let mut j = start;
    while j < end
        invariant
            start <= j <= end <= ls.len(),
            vs == views(ls@),
            window == vs.subrange(start as int, end as int),
            views(out@) == nonblank(vs.subrange(start as int, j as int)),
        decreases end - j,
    {
        let ghost pre = vs.subrange(start as int, j as int);
        let ghost post = vs.subrange(start as int, j + 1);
        assert(post.drop_last() =~= pre);
        assert(post.last() == ls@[j as int]@);
        if trim_chars(&ls[j]).len() > 0 {
            let ghost old_out = views(out@);
            out.push(copy_line(&ls[j]));
            assert(views(out@) =~= old_out.push(ls@[j as int]@));
        }
        j += 1;
    }
    out
}

/// Classifies the combined output of a failed operation. The first
/// signature that matches, in order of precedence, decides the category;
/// no match gives `None`, and the failure is then an ordinary error.
pub fn classify(output: &str) -> (r: Option<ConflictReport>)
    ensures
        match r {
            Some(x) => classify_spec(output@) == Some(x@),
            None => classify_spec(output@) is None,
        },
{
    let text = chars_of(output);
    match category_from_lowered(&lower_chars(&text)) {
        None => None,
        Some(c) => {
            let ls = split_lines(&text);
            let lls = lower_lines(&ls);
            let excerpt = match c {
                ConflictCategory::UnmetDependencies => extract_dependency_conflict(&ls, &lls),
                _ => extract_conflict_message(&ls, &lls),
            };
            let newline: Vec<char> = vec!['\n'];
            assert(newline@ =~= seq!['\n']);
            let details = join_chars(&excerpt, &newline);
            Some(ConflictReport { category: c, summary: title_of(c), details: string_of(&details) })
        },
    }
}

impl ConflictReport {
    /// The report as one text: the title, then the excerpt.
    pub fn message(&self) -> (r: String)
        ensures
            r@ == report_message(self@),
    {
        let details = chars_of(self.details.as_str());
        let mut out = chars_of(self.summary.as_str());
        if self.category == ConflictCategory::UnmetDependencies {
            if details.len() == 0 {
                return string_of(
                    &chars_of(
                        "Dependency conflict detected. Other packages depend on the package(s) you're trying to remove.",
                    ),
                );
            }
            append_chars(&mut out, &chars_of("\n\n"));
            append_chars(&mut out, &details);
            append_chars(
                &mut out,
                &chars_of(
                    "\n\nThis usually means other packages depend on the package you're trying to remove, or removing it would break the system.",
                ),
            );
        } else if details.len() > 0 {
            append_chars(&mut out, &chars_of("\n\nDetails:\n"));
            append_chars(&mut out, &details);
        }
        string_of(&out)
    }
}

/// The conflict message for a failed operation's output, if it shows a
/// known conflict.
pub fn detect_conflicts(output: &str) -> (r: Option<String>)
    ensures
        match r {
            Some(m) => classify_spec(output@) matches Some(x) && m@ == report_message(x),
            None => classify_spec(output@) is None,
        },
{
    match classify(output) {
        Some(report) => Some(report.message()),
        None => None,
    }
}

// ---------------------------------------------------------------------------
// Unmet dependencies are reported with their `Depends:` lines.
proof fn lemma_join_contains(ps: Seq<Seq<char>>, sep: Seq<char>, k: int)
    requires
        0 <= k < ps.len(),
    ensures
        contains(join(ps, sep), ps[k]),
    decreases ps.len(),
{
    if ps.len() == 1 {
        assert(join(ps, sep).subrange(0, ps[0].len() as int) =~= ps[0]);
        assert(occurs_at(join(ps, sep), ps[k], 0));
    } else {
        let front = join(ps.drop_last(), sep);
        let whole = join(ps, sep);
        assert(whole == front + sep + ps.last());
        if k == ps.len() - 1 {
            let at = (front.len() + sep.len()) as int;
            assert(whole.subrange(at, at + ps[k].len()) =~= ps[k]);
            assert(occurs_at(whole, ps[k], at));
        } else {
            lemma_join_contains(ps.drop_last(), sep, k);
            assert(ps.drop_last()[k] == ps[k]);
            let i = choose|i: int| occurs_at(front, ps[k], i);
            assert(whole.subrange(i, i + ps[k].len()) =~= front.subrange(i, i + ps[k].len()));
            assert(occurs_at(whole, ps[k], i));
        }
    }
}

proof fn lemma_scan_keeps(ls: Seq<Seq<char>>, lls: Seq<Seq<char>>, a: int, b: int)
    requires
        0 <= a <= b <= ls.len(),
        lls.len() == ls.len(),
    ensures
        dependency_scan_with(ls.subrange(0, a), lls.subrange(0, a)).0.len()
            <= dependency_scan_with(ls.subrange(0, b), lls.subrange(0, b)).0.len(),
        forall|k: int|
            0 <= k < dependency_scan_with(ls.subrange(0, a), lls.subrange(0, a)).0.len()
                ==> dependency_scan_with(ls.subrange(0, b), lls.subrange(0, b)).0[k]
                == dependency_scan_with(ls.subrange(0, a), lls.subrange(0, a)).0[k],
    decreases b - a,
{
    if a < b {
        lemma_scan_keeps(ls, lls, a, b - 1);
        assert(ls.subrange(0, b).drop_last() =~= ls.subrange(0, b - 1));
        assert(lls.subrange(0, b).drop_last() =~= lls.subrange(0, b - 1));
    }
}

/// Output whose lower-case equivalent holds "unmet dependencies", with a line
/// whose lower-case equivalent holds "depends:", is reported as unmet
/// dependencies, with that line in the details. The line must be one that
/// the dependency block reaches: the block ends at a suggested fix, or at a
/// blank line once more than fifteen lines are taken, and a line after that
/// end is not part of the excerpt.
pub proof fn lemma_unmet_dependencies_detail(output: Seq<char>, d: int)
    requires
        contains(lower_of(output), "unmet dependencies"@),
        0 <= d < lines(output).len(),
        contains(lower_of(lines(output)[d]), "depends:"@),
        !dependency_scan(lines(output).subrange(0, d)).2,
    ensures
        classify_spec(output) matches Some(r) && r.category
            == ConflictCategory::UnmetDependencies && contains(r.details, lines(output)[d]),
        lines(output)[d].len() > 0 ==> (classify_spec(output) matches Some(r) && starts_with(
            report_message(r),
            category_title(ConflictCategory::UnmetDependencies),
        )),
{
    assert(conflict_category(output) == Some(ConflictCategory::UnmetDependencies));
    let ls = lines(output);
    let lls = lowered(ls);
    let line = ls[d];
    assert(lls[d] == lower_of(line));
    assert(opens_dependency_block(lls[d]));
    assert(lowered(ls.subrange(0, d)) =~= lls.subrange(0, d));
    let before = dependency_scan_with(ls.subrange(0, d), lls.subrange(0, d));
    assert(ls.subrange(0, d + 1).drop_last() =~= ls.subrange(0, d));
    assert(lls.subrange(0, d + 1).drop_last() =~= lls.subrange(0, d));
    assert(ls.subrange(0, d + 1).last() == line);
    assert(lls.subrange(0, d + 1)[d] == lls[d]);
    let k = before.0.len() as int;
    assert(dependency_scan_with(ls.subrange(0, d + 1), lls.subrange(0, d + 1)).0[k] == line);
    lemma_scan_keeps(ls, lls, d + 1, ls.len() as int);
    assert(ls.subrange(0, ls.len() as int) =~= ls);
    assert(lls.subrange(0, ls.len() as int) =~= lls);
    let taken = dependency_scan(ls).0;
    assert(taken[k] == line);
    lemma_join_contains(taken, seq!['\n'], k);
    let details = join(taken, seq!['\n']);
    if line.len() > 0 {
        let at = choose|at: int| occurs_at(details, line, at);
        assert(details.len() > 0);
        let title = category_title(ConflictCategory::UnmetDependencies);
        let m = report_message(classify_spec(output)->0);
        assert(m.subrange(0, title.len() as int) =~= title);
    }
}

// ---------------------------------------------------------------------------
// Presentation: a message split into its main reason and its details.
/// Whether a line whose trimmed, lower-cased form is `lt` marks the details.
pub open spec fn is_details_marker(lt: Seq<char>) -> bool {
    starts_with(lt, "details:"@)
}

/// The trimmed, lower-cased forms of the lines `ls`.
pub open spec fn lowered_trimmed(ls: Seq<Seq<char>>) -> Seq<Seq<char>> {
    ls.map_values(|x: Seq<char>| lower_of(trim(x)))
}

/// Lines before the first details marker, lines after it, and whether a
/// marker was seen; marker lines themselves are dropped.
pub open spec fn split_at_details(ls: Seq<Seq<char>>, lts: Seq<Seq<char>>) -> (
    Seq<Seq<char>>,
    Seq<Seq<char>>,
    bool,
)
    decreases ls.len(),
{
    if ls.len() == 0 {
        (seq![], seq![], false)
    } else {
        let st = split_at_details(ls.drop_last(), lts.drop_last());
        let l = ls.last();
        if is_details_marker(lts[ls.len() - 1]) {
            (st.0, st.1, true)
        } else if st.2 {
            (st.0, st.1.push(l), true)
        } else {
            (st.0.push(l), st.1, false)
        }
    }
}

/// The trimmed lines of `ls` that are not empty.
pub open spec fn trimmed_lines(ls: Seq<Seq<char>>) -> Seq<Seq<char>>
    decreases ls.len(),
{
    if ls.len() == 0 {
        seq![]
    } else if trim(ls.last()).len() == 0 {
        trimmed_lines(ls.drop_last())
    } else {
        trimmed_lines(ls.drop_last()).push(trim(ls.last()))
    }
}

pub open spec fn main_reason(ls: Seq<Seq<char>>, lts: Seq<Seq<char>>) -> Seq<char> {
    let parts = split_at_details(ls, lts);
    if parts.0.len() == 0 {
        join(trimmed_lines(ls.subrange(0, if ls.len() >= 3 { 3 } else { ls.len() as int })), seq!['\n'])
    } else {
        join(trimmed_lines(parts.0), seq!['\n'])
    }
}

pub open spec fn conflict_parts(msg: Seq<char>) -> (Seq<char>, Seq<char>) {
    conflict_parts_with(lines(msg), lowered_trimmed(lines(msg)))
}

/// The parts for the lines `ls`, whose trimmed, lower-cased forms are `lts`.
pub open spec fn conflict_parts_with(ls: Seq<Seq<char>>, lts: Seq<Seq<char>>) -> (Seq<char>, Seq<char>) {
    let main = main_reason(ls, lts);
    let details = join(trimmed_lines(split_at_details(ls, lts).1), seq!['\n']);
    if ls.len() == 0 {
        ("Unknown conflict"@, seq![])
    } else if encode_utf8(main).len() > 200 {
        let cut = if main.len() >= 200 {
            200
        } else {
            main.len() as int
        };
        (main.subrange(0, cut) + "..."@, main.subrange(cut, main.len() as int) + seq!['\n'] + details)
    } else {
        (main, details)
    }
}

fn trimmed_lines_exec(ls: &Vec<Vec<char>>) -> (r: Vec<Vec<char>>)
    ensures
        views(r@) == trimmed_lines(views(ls@)),
{
    let mut out: Vec<Vec<char>> = Vec::new();
    let mut i: usize = 0;
    while i < ls.len()
        invariant
            i <= ls.len(),
            views(out@) == trimmed_lines(views(ls@).subrange(0, i as int)),
        decreases ls.len() - i,
    {
        let ghost pre = views(ls@).subrange(0, i as int);
        let ghost post = views(ls@).subrange(0, i + 1);
        assert(post.drop_last() =~= pre);
        assert(post.last() == ls@[i as int]@);
        let t = trim_chars(&ls[i]);
        if t.len() > 0 {
            let ghost old_out = views(out@);
            out.push(t);
            assert(views(out@) =~= old_out.push(trim(ls@[i as int]@)));
        }
        i += 1;
    }
    assert(views(ls@).subrange(0, i as int) =~= views(ls@));
    out
}

/// Splits a conflict message into its main reason and its details, at the
/// first line that starts with "Details:". A main reason longer than 200
/// bytes is cut at its 200th character, and the rest moves to the details.
pub fn parse_conflict_message(conflict_msg: &str) -> (r: (String, String))
    ensures
        (r.0@, r.1@) == conflict_parts(conflict_msg@),
{
    let text = chars_of(conflict_msg);
    let ls = split_lines(&text);
    let mut lts: Vec<Vec<char>> = Vec::new();
    let mut i: usize = 0;
    while i < ls.len()
        invariant
            i <= ls.len(),
            views(lts@) == lowered_trimmed(views(ls@).subrange(0, i as int)),
        decreases ls.len() - i,
    {
        let ghost before = views(lts@);
        lts.push(lower_chars(&trim_chars(&ls[i])));
        assert(views(lts@) =~= before.push(lower_of(trim(ls@[i as int]@))));
        i += 1;
        assert(views(lts@) =~= lowered_trimmed(views(ls@).subrange(0, i as int)));
    }
    assert(views(ls@).subrange(0, i as int) =~= views(ls@));
    conflict_parts_from(&ls, &lts)
}

/// The main reason and the details of the message lines `ls`, whose trimmed,
/// lower-cased forms are `lts`.
pub fn conflict_parts_from(ls: &Vec<Vec<char>>, lts: &Vec<Vec<char>>) -> (r: (String, String))
    requires
        lts.len() == ls.len(),
    ensures
        (r.0@, r.1@) == conflict_parts_with(views(ls@), views(lts@)),
{
    if ls.len() == 0 {
        return (string_of(&chars_of("Unknown conflict")), String::new());
    }
    let marker = chars_of("details:");
    let mut main: Vec<Vec<char>> = Vec::new();
    let mut rest: Vec<Vec<char>> = Vec::new();
    let mut found = false;
    let mut i: usize = 0;
    while i < ls.len()
        invariant
            i <= ls.len(),
            marker@ == "details:"@,
            lts.len() == ls.len(),
            (views(main@), views(rest@), found) == split_at_details(
                views(ls@).subrange(0, i as int),
                views(lts@).subrange(0, i as int),
            ),
        decreases ls.len() - i,
    {
        let ghost pre = views(ls@).subrange(0, i as int);
        let ghost post = views(ls@).subrange(0, i + 1);
        assert(post.drop_last() =~= pre);
        assert(post.last() == ls@[i as int]@);
        assert(views(lts@).subrange(0, i + 1).drop_last() =~= views(lts@).subrange(0, i as int));
        assert(views(lts@).subrange(0, i + 1)[i as int] == lts@[i as int]@);
        if starts_with_chars(&lts[i], &marker) {
            found = true;
        } else if found {
            let ghost old_rest = views(rest@);
            rest.push(copy_line(&ls[i]));
            assert(views(rest@) =~= old_rest.push(ls@[i as int]@));
        } else {
            let ghost old_main = views(main@);
            main.push(copy_line(&ls[i]));
            assert(views(main@) =~= old_main.push(ls@[i as int]@));
        }
        i += 1;
    }
    assert(views(ls@).subrange(0, i as int) =~= views(ls@));
    assert(views(lts@).subrange(0, i as int) =~= views(lts@));
    let newline: Vec<char> = vec!['\n'];
    assert(newline@ =~= seq!['\n']);
    let reason = if main.len() == 0 {
        let n: usize = if ls.len() >= 3 {
            3
        } else {
            ls.len()
        };
        let mut head: Vec<Vec<char>> = Vec::new();
        let mut k: usize = 0;
        while k < n
            invariant
                k <= n <= ls.len(),
                views(head@) == views(ls@).subrange(0, k as int),
            decreases n - k,
        {
            let ghost old_head = views(head@);
            head.push(copy_line(&ls[k]));
            assert(views(head@) =~= old_head.push(ls@[k as int]@));
            k += 1;
            assert(views(head@) =~= views(ls@).subrange(0, k as int));
        }
        join_chars(&trimmed_lines_exec(&head), &newline)
    } else {
        join_chars(&trimmed_lines_exec(&main), &newline)
    };
    let details = join_chars(&trimmed_lines_exec(&rest), &newline);
    assert(reason@ == main_reason(views(ls@), views(lts@)));
    let reason_text = string_of(&reason);
    if reason_text.as_str().as_bytes().len() > 200 {
        let cut: usize = if reason.len() >= 200 {
            200
        } else {
            reason.len()
        };
        let mut head = slice_chars(&reason, 0, cut);
        append_chars(&mut head, &chars_of("..."));
        let mut tail = slice_chars(&reason, cut, reason.len());
        tail.push('\n');
        append_chars(&mut tail, &details);
        assert(tail@ =~= reason@.subrange(cut as int, reason@.len() as int) + seq!['\n'] + details@);
        (string_of(&head), string_of(&tail))
    } else {
        (reason_text, string_of(&details))
    }
}

} // verus!
