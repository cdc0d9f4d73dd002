//! Parsers for the tab-separated output of the Flatpak tool.
use vstd::prelude::*;
use crate::records::{flatpak_views, FlatpakInfo, FlatpakView};
use crate::text::{
    is_ws, lemma_not_blank, lemma_trim_push_ws, lemma_trim_witness, strip_cr, single_line,
    lemma_two_lines, append_chars, chars_of, is_blank, lines, split_char, split_lines, split_on, string_of, trim,
    trim_chars, views,
};

verus! {

/// A search result whose description may still grow.
pub struct FlatpakDraft {
    pub name: Vec<char>,
    pub description: Vec<char>,
    pub version: Vec<char>,
    pub application: Vec<char>,
}

impl View for FlatpakDraft {
    type V = FlatpakView;

    open spec fn view(&self) -> FlatpakView {
        FlatpakView {
            name: self.name@,
            description: self.description@,
            version: self.version@,
            application: self.application@,
        }
    }
}

/// The record that a line of three or more tab-separated fields starts.
pub open spec fn flatpak_header(parts: Seq<Seq<char>>) -> FlatpakView {
    let d = trim(parts[1]);
    FlatpakView {
        name: trim(parts[0]),
        description: if d.len() == 0 {
            "No description"@
        } else {
            d
        },
        version: if parts.len() > 3 {
            trim(parts[3])
        } else {
            seq![]
        },
        application: trim(parts[2]),
    }
}

/// `acc` with the record under construction appended, unless it has no name.
pub open spec fn flush_flatpak(acc: Seq<FlatpakView>, cur: Option<FlatpakView>) -> Seq<
    FlatpakView,
> {
    match cur {
        Some(r) => if r.name.len() > 0 {
            acc.push(r)
        } else {
            acc
        },
        None => acc,
    }
}

/// `r` with `text` appended to its description after one space.
pub open spec fn extend_description(r: FlatpakView, text: Seq<char>) -> FlatpakView {
    FlatpakView {
        name: r.name,
        description: r.description + seq![' '] + text,
        version: r.version,
        application: r.application,
    }
}

/// One line of search output applied to the records found so far and the
/// record under construction.
pub open spec fn flatpak_search_step(
    st: (Seq<FlatpakView>, Option<FlatpakView>),
    line: Seq<char>,
) -> (Seq<FlatpakView>, Option<FlatpakView>) {
    if is_blank(line) {
        (flush_flatpak(st.0, st.1), None)
    } else if split_char(line, '\t').len() >= 3 {
        (flush_flatpak(st.0, st.1), Some(flatpak_header(split_char(line, '\t'))))
    } else {
        match st.1 {
            Some(r) => (st.0, Some(extend_description(r, trim(line)))),
            None => st,
        }
    }
}

pub open spec fn flatpak_search_lines(ls: Seq<Seq<char>>) -> (
    Seq<FlatpakView>,
    Option<FlatpakView>,
)
    decreases ls.len(),
{
    if ls.len() == 0 {
        (seq![], None)
    } else {
        flatpak_search_step(flatpak_search_lines(ls.drop_last()), ls.last())
    }
}

/// What the Flatpak search parser returns for `output`.
pub open spec fn flatpak_search(output: Seq<char>) -> Seq<FlatpakView> {
    let st = flatpak_search_lines(lines(output));
    flush_flatpak(st.0, st.1)
}

/// A line with fewer than three tab-separated fields that is not blank and
/// follows a record extends that record's description by exactly one space
/// and the line's trimmed text; nothing else changes.
pub proof fn lemma_flatpak_continuation(before: Seq<Seq<char>>, line: Seq<char>)
    requires
        flatpak_search_lines(before).1 is Some,
        !is_blank(line),
        split_char(line, '\t').len() < 3,
    ensures
        flatpak_search_lines(before.push(line)).0 == flatpak_search_lines(before).0,
        flatpak_search_lines(before.push(line)).1 == Some(
            extend_description(flatpak_search_lines(before).1->0, trim(line)),
        ),
{
    assert(before.push(line).drop_last() =~= before);
}

proof fn lemma_split_first_prefix(s: Seq<char>, c: char)
    ensures
        split_char(s, c).len() >= 1,
        split_char(s, c)[0].len() <= s.len(),
        forall|i: int| 0 <= i < split_char(s, c)[0].len() ==> split_char(s, c)[0][i] == s[i],
        split_char(s, c).len() == 1 ==> split_char(s, c)[0] == s,
    decreases s.len(),
{
    if s.len() > 0 {
        let p = s.drop_last();
        lemma_split_first_prefix(p, c);
        let r = split_char(p, c);
        assert forall|i: int| 0 <= i < p.len() implies p[i] == s[i] by {}
        if s.last() != c {
            if r.len() == 1 {
                assert(r[0] == p);
                assert(split_char(s, c)[0] == p.push(s.last()));
                assert(p.push(s.last()) =~= s);
            } else {
                assert(split_char(s, c)[0] == r[0]);
            }
        } else {
            assert(split_char(s, c)[0] == r[0]);
        }
    }
}

proof fn lemma_header_ignores_cr(b: Seq<char>)
    requires
        split_char(b, '\t').len() >= 3,
    ensures
        split_char(b.push('\r'), '\t').len() == split_char(b, '\t').len(),
        flatpak_header(split_char(b.push('\r'), '\t')) == flatpak_header(split_char(b, '\t')),
{
    let a = b.push('\r');
    assert(a.drop_last() =~= b);
    assert(a.last() == '\r');
    let pb = split_char(b, '\t');
    let pa = split_char(a, '\t');
    assert(pa == pb.update(pb.len() - 1, pb.last().push('\r')));
    assert(is_ws('\r'));
    lemma_trim_push_ws(pb.last(), '\r');
    assert forall|k: int| 0 <= k < pb.len() implies trim(#[trigger] pa[k]) == trim(pb[k]) by {
        if k == pb.len() - 1 {
            assert(pa[k] == pb.last().push('\r'));
        }
    }
    assert(trim(pa[0]) == trim(pb[0]));
    assert(trim(pa[1]) == trim(pb[1]));
    assert(trim(pa[2]) == trim(pb[2]));
    if pb.len() > 3 {
        assert(trim(pa[3]) == trim(pb[3]));
    }
}

/// A record line `a` followed by a continuation line `c` (fewer than three
/// tab-separated fields, not blank) yields one record, whose description is
/// that of `a` alone, one space, and `c` trimmed. Stated for one line each
/// without newlines, and for a record line with a named first field: without
/// a name, `a` alone yields no record.
pub proof fn lemma_flatpak_record_then_continuation(a: Seq<char>, c: Seq<char>)
    requires
        single_line(a),
        single_line(c),
        !is_blank(c),
        split_char(a, '\t').len() >= 3,
        split_char(c, '\t').len() < 3,
        trim(split_char(a, '\t')[0]).len() > 0,
    ensures
        flatpak_search(a) == seq![flatpak_header(split_char(a, '\t'))],
        flatpak_search(a + seq!['\n'] + c) == seq![
            extend_description(flatpak_header(split_char(a, '\t')), trim(c)),
        ],
{
    assert(trim(c).len() > 0);
    assert(c.len() > 0);
    lemma_split_first_prefix(a, '\t');
    let w = lemma_trim_witness(split_char(a, '\t')[0]);
    assert(a[w] == split_char(a, '\t')[0][w]);
    lemma_not_blank(a, w);
    assert(a.len() > 0);
    let b = strip_cr(a);
    if a.last() == '\r' {
        assert(b.push('\r') =~= a);
        lemma_trim_push_ws(b, '\r');
        lemma_split_first_prefix(b, '\t');
        assert(a.drop_last() =~= b);
        assert(split_char(a, '\t') == split_char(b, '\t').update(
            split_char(b, '\t').len() - 1,
            split_char(b, '\t').last().push('\r'),
        ));
        lemma_header_ignores_cr(b);
    }
    assert(!is_blank(b));
    assert(split_char(b, '\t').len() >= 3);
    assert(flatpak_header(split_char(b, '\t')) == flatpak_header(split_char(a, '\t')));
    lemma_two_lines(a, c);
    let one = seq![a];
    let two = seq![b, c];
    let first = seq![b];
    assert(one.drop_last() =~= Seq::<Seq<char>>::empty());
    assert(first.drop_last() =~= Seq::<Seq<char>>::empty());
    assert(two.drop_last() =~= first);
    let h = flatpak_header(split_char(a, '\t'));
    let empty: Seq<FlatpakView> = seq![];
    assert(flatpak_search_lines(Seq::<Seq<char>>::empty()) == (empty, None::<FlatpakView>));
    assert(flush_flatpak(empty, None) == empty);
    assert(flatpak_search_step((empty, None), a) == (empty, Some(h)));
    assert(flatpak_search_step((empty, None), b) == (empty, Some(h)));
    assert(flatpak_search_lines(one) == flatpak_search_step(
        flatpak_search_lines(one.drop_last()),
        one.last(),
    ));
    assert(flatpak_search_lines(first) == flatpak_search_step(
        flatpak_search_lines(first.drop_last()),
        first.last(),
    ));
    assert(flatpak_search_lines(one) == (empty, Some(h)));
    assert(flatpak_search_lines(first) == (empty, Some(h)));
    assert(flatpak_search_lines(two) == flatpak_search_step(
        flatpak_search_lines(two.drop_last()),
        two.last(),
    ));
    assert(flatpak_search_lines(two) == (empty, Some(extend_description(h, trim(c)))));
    assert(h.name.len() > 0);
    assert(extend_description(h, trim(c)).name.len() > 0);
    assert(Seq::<FlatpakView>::empty().push(h) =~= seq![h]);
    assert(Seq::<FlatpakView>::empty().push(extend_description(h, trim(c))) =~= seq![
        extend_description(h, trim(c)),
    ]);
}

fn flush_draft(acc: &mut Vec<FlatpakInfo>, cur: Option<FlatpakDraft>)
    ensures
        flatpak_views(final(acc)@) == flush_flatpak(
            flatpak_views(old(acc)@),
            match cur {
                Some(d) => Some(d@),
                None => None,
            },
        ),
{
    match cur {
        Some(d) => {
            if d.name.len() > 0 {
                let info = FlatpakInfo {
                    name: string_of(&d.name),
                    description: string_of(&d.description),
                    version: string_of(&d.version),
                    application: string_of(&d.application),
                };
                acc.push(info);
                assert(flatpak_views(acc@) =~= flatpak_views(old(acc)@).push(info@));
            }
        },
        None => {},
    }
}

/// Parses Flatpak search output: `name, description, application id,
/// version, ...` separated by tabs. A line of fewer than three fields
/// continues the description of the record before it.
pub fn parse_flatpak_search_output(output: &str) -> (r: Vec<FlatpakInfo>)
    ensures
        flatpak_views(r@) == flatpak_search(output@),
{
    let text = chars_of(output);
    let ls = split_lines(&text);
    let no_description = chars_of("No description");
    let mut acc: Vec<FlatpakInfo> = Vec::new();
    let mut cur: Option<FlatpakDraft> = None;
    let mut i: usize = 0;
    while i < ls.len()
        invariant
            i <= ls.len(),
            no_description@ == "No description"@,
            views(ls@) == lines(text@),
            (flatpak_views(acc@), match cur {
                Some(d) => Some(d@),
                None => None,
            }) == flatpak_search_lines(views(ls@).subrange(0, i as int)),
        decreases ls.len() - i,
    {
        let ghost pre = views(ls@).subrange(0, i as int);
        let ghost post = views(ls@).subrange(0, i + 1);
        assert(post.drop_last() =~= pre);
        assert(post.last() == ls@[i as int]@);
        let line = &ls[i];
        let t = trim_chars(line);
        if t.len() == 0 {
            flush_draft(&mut acc, cur);
            cur = None;
        } else {
            let parts = split_on(line, '\t');
            assert(views(parts@).len() == parts.len());
            if parts.len() >= 3 {
                assert(views(parts@)[0] == parts@[0]@);
                assert(views(parts@)[1] == parts@[1]@);
                assert(views(parts@)[2] == parts@[2]@);
                flush_draft(&mut acc, cur);
                let d = trim_chars(&parts[1]);
                let description = if d.len() == 0 {
                    slice_all(&no_description)
                } else {
                    d
                };
                let version = if parts.len() > 3 {
                    assert(views(parts@)[3] == parts@[3]@);
                    trim_chars(&parts[3])
                } else {
                    Vec::new()
                };
                cur = Some(
                    FlatpakDraft {
                        name: trim_chars(&parts[0]),
                        description,
                        version,
                        application: trim_chars(&parts[2]),
                    },
                );
                assert(split_char(line@, '\t') == views(parts@));
                assert(cur.unwrap()@ == flatpak_header(views(parts@)));
            } else {
                match cur {
                    Some(mut d) => {
                        let ghost old_view = d@;
                        d.description.push(' ');
                        append_chars(&mut d.description, &t);
                        assert(d@.description =~= old_view.description + seq![' '] + t@);
                        assert(d@ == extend_description(old_view, trim(line@)));
                        cur = Some(d);
                    },
                    None => {
                        cur = None;
                    },
                }
            }
        }
        i += 1;
    }
    assert(views(ls@).subrange(0, i as int) =~= views(ls@));
    flush_draft(&mut acc, cur);
    acc
}

fn slice_all(s: &Vec<char>) -> (r: Vec<char>)
    ensures
        r@ == s@,
{
    let mut r: Vec<char> = Vec::new();
    append_chars(&mut r, s);
    r
}

/// The application that one line of `flatpak list` output names, if any.
pub open spec fn flatpak_list_record(line: Seq<char>) -> Option<FlatpakView> {
    let t = trim(line);
    let parts = split_char(t, '\t');
    if t.len() > 0 && parts.len() >= 2 && trim(parts[0]).len() > 0 {
        Some(
            FlatpakView {
                name: trim(parts[0]),
                description: seq![],
                version: seq![],
                application: trim(parts[1]),
            },
        )
    } else {
        None
    }
}

pub open spec fn flatpak_list_lines(ls: Seq<Seq<char>>) -> Seq<FlatpakView>
    decreases ls.len(),
{
    if ls.len() == 0 {
        seq![]
    } else {
        let acc = flatpak_list_lines(ls.drop_last());
        match flatpak_list_record(ls.last()) {
            Some(r) => acc.push(r),
            None => acc,
        }
    }
}

/// What the Flatpak list parser returns for `output`.
pub open spec fn flatpak_list(output: Seq<char>) -> Seq<FlatpakView> {
    flatpak_list_lines(lines(output))
}

/// Parses `flatpak list --columns=name,application` output: a display name
/// and an application id per line, separated by a tab.
pub fn parse_flatpak_list_output(output: &str) -> (r: Vec<FlatpakInfo>)
    ensures
        flatpak_views(r@) == flatpak_list(output@),
{
    let text = chars_of(output);
    let ls = split_lines(&text);
    let mut acc: Vec<FlatpakInfo> = Vec::new();
    let mut i: usize = 0;
    while i < ls.len()
        invariant
            i <= ls.len(),
            views(ls@) == lines(text@),
            flatpak_views(acc@) == flatpak_list_lines(views(ls@).subrange(0, i as int)),
        decreases ls.len() - i,
    {
        let ghost pre = views(ls@).subrange(0, i as int);
        let ghost post = views(ls@).subrange(0, i + 1);
        assert(post.drop_last() =~= pre);
        assert(post.last() == ls@[i as int]@);
        let t = trim_chars(&ls[i]);
        if t.len() > 0 {
            let parts = split_on(&t, '\t');
            assert(views(parts@).len() == parts.len());
            if parts.len() >= 2 {
                assert(views(parts@)[0] == parts@[0]@);
                assert(views(parts@)[1] == parts@[1]@);
                let name = trim_chars(&parts[0]);
                if name.len() > 0 {
                    let info = FlatpakInfo {
                        name: string_of(&name),
                        description: String::new(),
                        version: String::new(),
                        application: string_of(&trim_chars(&parts[1])),
                    };
                    acc.push(info);
                    assert(flatpak_views(acc@) =~= flatpak_list_lines(post));
                }
            }
        }
        i += 1;
    }
    assert(views(ls@).subrange(0, i as int) =~= views(ls@));
    acc
}

} // verus!
