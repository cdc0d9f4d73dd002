//! The order in which system search results are shown: names that start
//! with the query first, then names that contain it, then the rest; by name
//! within each group.
use vstd::prelude::*;
use crate::records::{package_views, PackageInfo, PackageView};
use crate::text::{chars_of, contains, contains_chars, lower_chars, lower_of, starts_with, starts_with_chars};

verus! {

broadcast use vstd::seq_lib::group_to_multiset_ensures;

/// Lexicographic order on characters, the order of `str::cmp`.
pub open spec fn lex_le(a: Seq<char>, b: Seq<char>) -> bool
    decreases a.len(),
{
    if a.len() == 0 {
        true
    } else if b.len() == 0 {
        false
    } else if (a[0] as u32) < (b[0] as u32) {
        true
    } else if (a[0] as u32) > (b[0] as u32) {
        false
    } else {
        lex_le(a.drop_first(), b.drop_first())
    }
}

/// 0 when the lower-cased name starts with the lower-cased query, 1 when it
/// contains it, 2 otherwise.
pub open spec fn match_rank(name: Seq<char>, query: Seq<char>) -> int {
    rank_from(lower_of(name), lower_of(query))
}

/// The rank for a lower-cased name `ln` and a lower-cased query `lq`.
pub open spec fn rank_from(ln: Seq<char>, lq: Seq<char>) -> int {
    if starts_with(ln, lq) {
        0
    } else if contains(ln, lq) {
        1
    } else {
        2
    }
}

/// The rank for a lower-cased name and a lower-cased query.
pub fn rank_from_lowered(ln: &Vec<char>, lq: &Vec<char>) -> (r: u8)
    ensures
        r as int == rank_from(ln@, lq@),
{
    if starts_with_chars(ln, lq) {
        0
    } else if contains_chars(ln, lq) {
        1
    } else {
        2
    }
}

/// `a` may be shown before `b`.
pub open spec fn shown_before(a: PackageView, b: PackageView, query: Seq<char>) -> bool {
    match_rank(a.name, query) < match_rank(b.name, query) || (match_rank(a.name, query)
        == match_rank(b.name, query) && lex_le(a.name, b.name))
}

pub open spec fn in_display_order(v: Seq<PackageView>, query: Seq<char>) -> bool {
    forall|i: int, j: int| 0 <= i < j < v.len() ==> shown_before(v[i], v[j], query)
}

proof fn lemma_lex_total(a: Seq<char>, b: Seq<char>)
    ensures
        lex_le(a, b) || lex_le(b, a),
    decreases a.len(),
{
    if a.len() > 0 && b.len() > 0 && a[0] as u32 == b[0] as u32 {
        lemma_lex_total(a.drop_first(), b.drop_first());
    }
}

proof fn lemma_lex_trans(a: Seq<char>, b: Seq<char>, c: Seq<char>)
    requires
        lex_le(a, b),
        lex_le(b, c),
    ensures
        lex_le(a, c),
    decreases a.len(),
{
    if a.len() > 0 && b.len() > 0 && c.len() > 0 && a[0] as u32 == b[0] as u32 && b[0] as u32
        == c[0] as u32 {
        lemma_lex_trans(a.drop_first(), b.drop_first(), c.drop_first());
    }
}

proof fn lemma_shown_before_total(a: PackageView, b: PackageView, q: Seq<char>)
    ensures
        shown_before(a, b, q) || shown_before(b, a, q),
{
    lemma_lex_total(a.name, b.name);
}

proof fn lemma_shown_before_trans(a: PackageView, b: PackageView, c: PackageView, q: Seq<char>)
    requires
        shown_before(a, b, q),
        shown_before(b, c, q),
    ensures
        shown_before(a, c, q),
{
    if match_rank(a.name, q) == match_rank(b.name, q) && match_rank(b.name, q) == match_rank(
        c.name,
        q,
    ) {
        lemma_lex_trans(a.name, b.name, c.name);
    }
}

fn lex_le_exec(a: &Vec<char>, b: &Vec<char>) -> (r: bool)
    ensures
        r == lex_le(a@, b@),
{
    let mut i: usize = 0;
    assert(a@.subrange(0, a.len() as int) =~= a@);
    assert(b@.subrange(0, b.len() as int) =~= b@);
    while i < a.len() && i < b.len() && (a[i] as u32) == (b[i] as u32)
        invariant
            i <= a.len(),
            i <= b.len(),
            lex_le(a@, b@) == lex_le(a@.subrange(i as int, a.len() as int), b@.subrange(i as int, b.len() as int)),
        decreases a.len() - i,
    {
        let ghost sa = a@.subrange(i as int, a.len() as int);
        let ghost sb = b@.subrange(i as int, b.len() as int);
        assert(sa.drop_first() =~= a@.subrange(i + 1, a.len() as int));
        assert(sb.drop_first() =~= b@.subrange(i + 1, b.len() as int));
        assert(sa[0] == a@[i as int] && sb[0] == b@[i as int]);
        i += 1;
    }
    let ghost sa = a@.subrange(i as int, a.len() as int);
    let ghost sb = b@.subrange(i as int, b.len() as int);
    if i == a.len() {
        true
    } else if i == b.len() {
        false
    } else {
        assert(sa[0] == a@[i as int] && sb[0] == b@[i as int]);
        (a[i] as u32) < (b[i] as u32)
    }
}

struct Keyed {
    rank: u8,
    name: Vec<char>,
}

fn key_of(p: &PackageInfo, lq: &Vec<char>) -> (k: Keyed)
    ensures
        k.rank as int == rank_from(lower_of(p.name@), lq@),
        k.name@ == p.name@,
{
    let name = chars_of(p.name.as_str());
    let rank = rank_from_lowered(&lower_chars(&name), lq);
    Keyed { rank, name }
}

fn before_exec(a: &Keyed, b: &Keyed) -> (r: bool)
    ensures
        r == (a.rank < b.rank || (a.rank == b.rank && lex_le(a.name@, b.name@))),
{
    a.rank < b.rank || (a.rank == b.rank && lex_le_exec(&a.name, &b.name))
}

/// Orders search results for `query`: a permutation of `packages` in which
/// every result may be shown before each one after it.
pub fn rank_search_results(packages: Vec<PackageInfo>, query: &str) -> (r: Vec<PackageInfo>)
    ensures
        package_views(r@).to_multiset() == package_views(packages@).to_multiset(),
        in_display_order(package_views(r@), query@),
{
    let lq = lower_chars(&chars_of(query));
    let ghost q = query@;
    let ghost orig = package_views(packages@);
    let mut rest = packages;
    let mut out: Vec<PackageInfo> = Vec::new();
    let mut keys: Vec<Keyed> = Vec::new();
    while rest.len() > 0
        invariant
            lq@ == lower_of(q),
            keys.len() == out.len(),
            forall|i: int| 0 <= i < out.len() ==> (#[trigger] keys@[i]).rank as int == match_rank(
                out@[i].name@,
                q,
            ) && keys@[i].name@ == out@[i].name@,
            package_views(out@).to_multiset().add(package_views(rest@).to_multiset()) == orig.to_multiset(),
            in_display_order(package_views(out@), q),
        decreases rest.len(),
    {
        let ghost before_rest = rest@;
        let x = rest.pop().unwrap();
        assert(package_views(before_rest) =~= package_views(rest@).push(x@));
        let kx = key_of(&x, &lq);
        let mut k: usize = 0;
        while k < out.len() && before_exec(&keys[k], &kx)
            invariant
                k <= out.len(),
                keys.len() == out.len(),
                forall|i: int| 0 <= i < out.len() ==> (#[trigger] keys@[i]).rank as int == match_rank(
                    out@[i].name@,
                    q,
                ) && keys@[i].name@ == out@[i].name@,
                kx.rank as int == match_rank(x.name@, q),
                kx.name@ == x.name@,
                forall|i: int| 0 <= i < k ==> shown_before(#[trigger] package_views(out@)[i], x@, q),
            decreases out.len() - k,
        {
            assert(package_views(out@)[k as int] == out@[k as int]@);
            k += 1;
        }
        let ghost s = package_views(out@);
        proof {
            if k < out.len() {
                assert(s[k as int] == out@[k as int]@);
                assert(!shown_before(s[k as int], x@, q));
                lemma_shown_before_total(s[k as int], x@, q);
            }
        }
        out.insert(k, x);
        keys.insert(k, kx);
        let ghost t = package_views(out@);
        assert(t =~= s.insert(k as int, x@));
        proof {
            assert forall|i: int, j: int| 0 <= i < j < t.len() implies shown_before(t[i], t[j], q) by {
                if j < k {
                    assert(t[i] == s[i] && t[j] == s[j]);
                } else if j == k {
                    assert(t[i] == s[i]);
                } else if i == k {
                    assert(t[j] == s[j - 1]);
                    if j - 1 > k {
                        assert(shown_before(s[k as int], s[j - 1], q));
                        lemma_shown_before_trans(x@, s[k as int], s[j - 1], q);
                    }
                } else if i < k {
                    assert(t[i] == s[i] && t[j] == s[j - 1]);
                } else {
                    assert(t[i] == s[i - 1] && t[j] == s[j - 1]);
                }
            }
            assert(t.remove(k as int) =~= s);
            assert(t[k as int] == x@);
            assert(t.to_multiset() =~= s.to_multiset().insert(x@));
            assert forall|i: int| 0 <= i < out.len() implies (#[trigger] keys@[i]).rank as int
                == match_rank(out@[i].name@, q) && keys@[i].name@ == out@[i].name@ by {
            }
            assert(package_views(out@).to_multiset().add(package_views(rest@).to_multiset())
                =~= orig.to_multiset());
        }
    }
    assert(package_views(rest@) =~= Seq::<PackageView>::empty());
    assert(package_views(out@).to_multiset().add(Seq::<PackageView>::empty().to_multiset()) =~= package_views(out@).to_multiset());
    out
}

} // verus!
