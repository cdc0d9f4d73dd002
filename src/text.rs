//! Character-sequence primitives shared by the output parsers.
//!
//! Every executable helper works on `Vec<char>` and is specified by a spec
//! function over `Seq<char>` that states what the corresponding `str` method
//! of the standard library returns.
use vstd::prelude::*;

verus! {

/// Unicode `White_Space`, the property that `char::is_whitespace` tests.
pub open spec fn is_ws(c: char) -> bool {
    let u = c as u32;
    (0x9 <= u <= 0xd) || u == 0x20 || u == 0x85 || u == 0xa0 || u == 0x1680 || (0x2000 <= u
        <= 0x200a) || u == 0x2028 || u == 0x2029 || u == 0x202f || u == 0x205f || u == 0x3000
}

/// `s` with its leading white space removed (`str::trim_start`).
pub open spec fn trim_start(s: Seq<char>) -> Seq<char>
    decreases s.len(),
{
    if s.len() > 0 && is_ws(s[0]) {
        trim_start(s.drop_first())
    } else {
        s
    }
}

/// `s` with its trailing white space removed (`str::trim_end`).
pub open spec fn trim_end(s: Seq<char>) -> Seq<char>
    decreases s.len(),
{
    if s.len() > 0 && is_ws(s.last()) {
        trim_end(s.drop_last())
    } else {
        s
    }
}

/// `str::trim`.
pub open spec fn trim(s: Seq<char>) -> Seq<char> {
    trim_end(trim_start(s))
}

/// Whether `s` is empty or white space only.
pub open spec fn is_blank(s: Seq<char>) -> bool {
    trim(s).len() == 0
}

pub open spec fn starts_with(s: Seq<char>, p: Seq<char>) -> bool {
    p.len() <= s.len() && s.subrange(0, p.len() as int) == p
}

/// `p` occurs in `s` starting at index `i`.
pub open spec fn occurs_at(s: Seq<char>, p: Seq<char>, i: int) -> bool {
    0 <= i && i + p.len() <= s.len() && s.subrange(i, i + p.len()) == p
}

pub open spec fn contains(s: Seq<char>, p: Seq<char>) -> bool {
    exists|i: int| occurs_at(s, p, i)
}

/// The first index at or after `i` where `p` occurs in `s`.
pub open spec fn find_from(s: Seq<char>, p: Seq<char>, i: int) -> Option<int>
    decreases s.len() + 1 - i,
{
    if i < 0 || i + p.len() > s.len() {
        None
    } else if occurs_at(s, p, i) {
        Some(i)
    } else {
        find_from(s, p, i + 1)
    }
}

/// `str::find`: the first index where `p` occurs in `s`.
pub open spec fn find(s: Seq<char>, p: Seq<char>) -> Option<int> {
    find_from(s, p, 0)
}

pub proof fn lemma_find_from(s: Seq<char>, p: Seq<char>, i: int)
    requires
        0 <= i,
    ensures
        find_from(s, p, i) matches Some(k) ==> i <= k && occurs_at(s, p, k) && forall|j: int|
            i <= j < k ==> !occurs_at(s, p, j),
        find_from(s, p, i) is None ==> forall|j: int| i <= j ==> !occurs_at(s, p, j),
    decreases s.len() + 1 - i,
{
    if i + p.len() > s.len() {
    } else if occurs_at(s, p, i) {
    } else {
        lemma_find_from(s, p, i + 1);
        assert forall|j: int| i <= j && !(i + 1 <= j) implies !occurs_at(s, p, j) by {
            assert(j == i);
        }
    }
}

/// What `find` returns, stated without recursion.
pub proof fn lemma_find(s: Seq<char>, p: Seq<char>)
    ensures
        find(s, p) matches Some(k) ==> occurs_at(s, p, k) && forall|j: int|
            0 <= j < k ==> !occurs_at(s, p, j),
        find(s, p) is None <==> !contains(s, p),
{
    lemma_find_from(s, p, 0);
    if find(s, p) is None {
        assert forall|j: int| !occurs_at(s, p, j) by {
            if 0 <= j {
            }
        }
    }
}

/// The last index of `c` in `s` (`str::rfind` for one character).
pub open spec fn rfind_char(s: Seq<char>, c: char) -> Option<int>
    decreases s.len(),
{
    if s.len() == 0 {
        None
    } else if s.last() == c {
        Some(s.len() - 1)
    } else {
        rfind_char(s.drop_last(), c)
    }
}

pub proof fn lemma_rfind_char(s: Seq<char>, c: char)
    ensures
        rfind_char(s, c) matches Some(k) ==> 0 <= k < s.len() && s[k] == c,
    decreases s.len(),
{
    if s.len() > 0 && s.last() != c {
        lemma_rfind_char(s.drop_last(), c);
    }
}

/// What `str::to_lowercase` returns for `s`: Unicode lower-case mapping,
/// which depends on the characters of `s` alone.
pub uninterp spec fn lower_of(s: Seq<char>) -> Seq<char>;

pub open spec fn is_ascii_digit(c: char) -> bool {
    '0' <= c <= '9'
}

pub open spec fn has_digit(s: Seq<char>) -> bool {
    exists|i: int| 0 <= i < s.len() && is_ascii_digit(#[trigger] s[i])
}


/// The views of a sequence of character vectors.
pub open spec fn views(v: Seq<Vec<char>>) -> Seq<Seq<char>> {
    v.map_values(|x: Vec<char>| x@)
}

/// `s` without one trailing carriage return.
pub open spec fn strip_cr(s: Seq<char>) -> Seq<char> {
    if s.len() > 0 && s.last() == '\r' {
        s.drop_last()
    } else {
        s
    }
}

/// The lines of `s` that a newline has ended, and the text after the last newline.
pub open spec fn line_pieces(s: Seq<char>) -> (Seq<Seq<char>>, Seq<char>)
    decreases s.len(),
{
    if s.len() == 0 {
        (seq![], seq![])
    } else {
        let (done, cur) = line_pieces(s.drop_last());
        if s.last() == '\n' {
            (done.push(strip_cr(cur)), seq![])
        } else {
            (done, cur.push(s.last()))
        }
    }
}

/// `str::lines`: lines end at `\n` or `\r\n`; a final line ending is optional.
pub open spec fn lines(s: Seq<char>) -> Seq<Seq<char>> {
    let (done, cur) = line_pieces(s);
    if cur.len() == 0 {
        done
    } else {
        done.push(cur)
    }
}

/// `s` holds no newline.
pub open spec fn single_line(s: Seq<char>) -> bool {
    forall|i: int| 0 <= i < s.len() ==> s[i] != '\n'
}

proof fn lemma_pieces_append(p: Seq<char>, c: Seq<char>)
    requires
        single_line(c),
    ensures
        line_pieces(p + c) == (line_pieces(p).0, line_pieces(p).1 + c),
    decreases c.len(),
{
    if c.len() == 0 {
        assert(p + c =~= p);
        assert(line_pieces(p).1 + c =~= line_pieces(p).1);
    } else {
        lemma_pieces_append(p, c.drop_last());
        assert((p + c).drop_last() =~= p + c.drop_last());
        assert((p + c).last() == c.last());
        assert(line_pieces(p).1 + c.drop_last() + seq![c.last()] =~= line_pieces(p).1 + c);
        assert(c[c.len() - 1] != '\n');
    }
}

/// The lines of `a`, a newline and `c`, where neither holds a newline and
/// `c` is not empty, are `a` (without a final carriage return) and `c`; and
/// the lines of a non-empty `a` alone are `a`.
pub proof fn lemma_two_lines(a: Seq<char>, c: Seq<char>)
    requires
        single_line(a),
        single_line(c),
        c.len() > 0,
    ensures
        lines(a + seq!['\n'] + c) == seq![strip_cr(a), c],
        a.len() > 0 ==> lines(a) == seq![a],
{
    lemma_pieces_append(seq![], a);
    assert(seq![] + a =~= a);
    let an = a + seq!['\n'];
    assert(an.drop_last() =~= a);
    assert(line_pieces(an) == (seq![strip_cr(a)], Seq::<char>::empty()));
    lemma_pieces_append(an, c);
    assert(Seq::<char>::empty() + c =~= c);
    assert(seq![Seq::<char>::empty().len() as int] =~= seq![0int]);
    assert(seq![strip_cr(a)].push(c) =~= seq![strip_cr(a), c]);
    if a.len() > 0 {
        assert(Seq::<Seq<char>>::empty().push(a) =~= seq![a]);
    }
}

proof fn lemma_trim_start_push_ws(x: Seq<char>, w: char)
    requires
        is_ws(w),
    ensures
        trim_start(x.push(w)) == if trim_start(x).len() == 0 {
            Seq::<char>::empty()
        } else {
            trim_start(x).push(w)
        },
    decreases x.len(),
{
    if x.len() == 0 {
        assert(seq![w].drop_first() =~= Seq::<char>::empty());
        assert(x.push(w) =~= seq![w]);
        assert(trim_start(Seq::<char>::empty()) == Seq::<char>::empty());
        assert(seq![w][0] == w);
        assert(trim_start(seq![w]) == trim_start(seq![w].drop_first()));
    } else if is_ws(x[0]) {
        assert(x.push(w)[0] == x[0]);
        assert(x.push(w).drop_first() =~= x.drop_first().push(w));
        lemma_trim_start_push_ws(x.drop_first(), w);
    } else {
        assert(x.push(w)[0] == x[0]);
    }
}

/// Trimming ignores one more white-space character at the end.
pub proof fn lemma_trim_push_ws(x: Seq<char>, w: char)
    requires
        is_ws(w),
    ensures
        trim(x.push(w)) == trim(x),
{
    lemma_trim_start_push_ws(x, w);
    let t = trim_start(x);
    if t.len() > 0 {
        assert(t.push(w).drop_last() =~= t);
    }
}

proof fn lemma_trim_start_keeps(x: Seq<char>, i: int)
    requires
        0 <= i < x.len(),
        !is_ws(x[i]),
    ensures
        trim_start(x).len() > 0 && !is_ws(trim_start(x)[0]),
    decreases x.len(),
{
    if is_ws(x[0]) {
        lemma_trim_start_keeps(x.drop_first(), i - 1);
    }
}

proof fn lemma_trim_end_keeps(y: Seq<char>)
    requires
        y.len() > 0,
        !is_ws(y[0]),
    ensures
        trim_end(y).len() > 0,
    decreases y.len(),
{
    if is_ws(y.last()) {
        assert(y.drop_last()[0] == y[0]);
        lemma_trim_end_keeps(y.drop_last());
    }
}

/// A text with a character that is not white space is not blank.
pub proof fn lemma_not_blank(x: Seq<char>, i: int)
    requires
        0 <= i < x.len(),
        !is_ws(x[i]),
    ensures
        !is_blank(x),
{
    lemma_trim_start_keeps(x, i);
    lemma_trim_end_keeps(trim_start(x));
}

/// A text whose trimmed form is not empty has a character that is not
/// white space.
pub proof fn lemma_trim_witness(x: Seq<char>) -> (i: int)
    requires
        trim(x).len() > 0,
    ensures
        0 <= i < x.len() && !is_ws(x[i]),
    decreases x.len(),
{
    if !is_ws(x[0]) {
        0
    } else {
        assert(trim(x) == trim(x.drop_first()));
        let j = lemma_trim_witness(x.drop_first());
        j + 1
    }
}

/// `str::split` on one character: the pieces between its occurrences.
pub open spec fn split_char(s: Seq<char>, c: char) -> Seq<Seq<char>>
    decreases s.len(),
{
    if s.len() == 0 {
        seq![seq![]]
    } else {
        let r = split_char(s.drop_last(), c);
        if s.last() == c {
            r.push(seq![])
        } else {
            r.update(r.len() - 1, r.last().push(s.last()))
        }
    }
}

/// `str::split_whitespace`: the maximal runs of non-white-space characters.
pub open spec fn words(s: Seq<char>) -> Seq<Seq<char>>
    decreases s.len(),
{
    if s.len() == 0 {
        seq![]
    } else {
        let r = words(s.drop_last());
        let c = s.last();
        if is_ws(c) {
            r
        } else if s.len() >= 2 && !is_ws(s[s.len() - 2]) {
            r.update(r.len() - 1, r.last().push(c))
        } else {
            r.push(seq![c])
        }
    }
}

/// `[T]::join`: the pieces with `sep` between each two of them.
pub open spec fn join(ps: Seq<Seq<char>>, sep: Seq<char>) -> Seq<char>
    decreases ps.len(),
{
    if ps.len() == 0 {
        seq![]
    } else if ps.len() == 1 {
        ps[0]
    } else {
        join(ps.drop_last(), sep) + sep + ps.last()
    }
}

// ---------------------------------------------------------------------------
// Executable helpers.
/// Copies the characters of a string slice into a vector.
pub fn chars_of(s: &str) -> (r: Vec<char>)
    ensures
        r@ == s@,
{
    let mut r: Vec<char> = Vec::new();
    for c in it: s.chars()
        invariant
            r@ == it.seq().subrange(0, it.index() as int),
            it.seq() == s@,
    {
        r.push(c);
    }
    r
}

/// Relies on `FromIterator<char> for String`: collecting characters yields a
/// string made of exactly those characters, in order.
#[verifier::external_body]
pub(crate) fn string_of(v: &Vec<char>) -> (r: String)
    ensures
        r@ == v@,
{
    v.iter().collect()
}

/// An owned copy of a string slice.
pub fn lit(s: &str) -> (r: String)
    ensures
        r@ == s@,
{
    s.to_owned()
}

/// The views of a sequence of strings.
pub open spec fn string_views(v: Seq<String>) -> Seq<Seq<char>> {
    v.map_values(|x: String| x@)
}

/// A copy of a string.
pub fn copy_string(s: &String) -> (r: String)
    ensures
        r@ == s@,
{
    lit(s.as_str())
}

pub fn is_whitespace(c: char) -> (r: bool)
    ensures
        r == is_ws(c),
{
    let u = c as u32;
    (0x9 <= u && u <= 0xd) || u == 0x20 || u == 0x85 || u == 0xa0 || u == 0x1680 || (0x2000 <= u
        && u <= 0x200a) || u == 0x2028 || u == 0x2029 || u == 0x202f || u == 0x205f || u == 0x3000
}

/// A copy of `s[a..b]`.
pub fn slice(s: &Vec<char>, a: usize, b: usize) -> (r: Vec<char>)
    requires
        a <= b <= s.len(),
    ensures
        r@ == s@.subrange(a as int, b as int),
{
    let mut r: Vec<char> = Vec::new();
    let mut i = a;
    while i < b
        invariant
            a <= i <= b <= s.len(),
            r@ == s@.subrange(a as int, i as int),
        decreases b - i,
    {
        r.push(s[i]);
        i += 1;
    }
    r
}

proof fn lemma_trim_start_step(s: Seq<char>, a: int)
    requires
        0 <= a < s.len(),
        is_ws(s[a]),
    ensures
        trim_start(s.subrange(a, s.len() as int)) == trim_start(s.subrange(a + 1, s.len() as int)),
{
    assert(s.subrange(a, s.len() as int).drop_first() =~= s.subrange(a + 1, s.len() as int));
}

proof fn lemma_trim_end_step(s: Seq<char>, b: int)
    requires
        0 < b <= s.len(),
        is_ws(s[b - 1]),
    ensures
        trim_end(s.subrange(0, b)) == trim_end(s.subrange(0, b - 1)),
{
    assert(s.subrange(0, b).drop_last() =~= s.subrange(0, b - 1));
}

/// `str::trim`.
pub fn trim_chars(s: &Vec<char>) -> (r: Vec<char>)
    ensures
        r@ == trim(s@),
{
    let n = s.len();
    let mut a: usize = 0;
    assert(s@.subrange(0, n as int) =~= s@);
    while a < n && is_whitespace(s[a])
        invariant
            a <= n == s.len(),
            trim_start(s@) == trim_start(s@.subrange(a as int, n as int)),
        decreases n - a,
    {
        proof {
            lemma_trim_start_step(s@, a as int);
        }
        a += 1;
    }
    let ghost t = s@.subrange(a as int, n as int);
    assert(trim_start(s@) == t);
    let mut b: usize = n;
    assert(t.subrange(0, (n - a) as int) =~= t);
    while b > a && is_whitespace(s[b - 1])
        invariant
            a <= b <= n == s.len(),
            t == s@.subrange(a as int, n as int),
            trim_end(t) == trim_end(t.subrange(0, (b - a) as int)),
        decreases b,
    {
        proof {
            lemma_trim_end_step(t, (b - a) as int);
        }
        b -= 1;
    }
    assert(t.subrange(0, (b - a) as int) =~= s@.subrange(a as int, b as int));
    slice(s, a, b)
}

/// Whether `p` occurs in `s` at index `i`.
pub fn matches_at(s: &Vec<char>, p: &Vec<char>, i: usize) -> (r: bool)
    ensures
        r == occurs_at(s@, p@, i as int),
{
    if i > s.len() || p.len() > s.len() - i {
        return false;
    }
    let mut k: usize = 0;
    while k < p.len()
        invariant
            i + p.len() <= s.len(),
            k <= p.len(),
            forall|j: int| 0 <= j < k ==> s@[i + j] == p@[j],
        decreases p.len() - k,
    {
        if s[i + k] != p[k] {
            assert(s@.subrange(i as int, i + p.len())[k as int] != p@[k as int]);
            return false;
        }
        k += 1;
    }
    assert(s@.subrange(i as int, i + p.len()) =~= p@);
    true
}

pub fn starts_with_chars(s: &Vec<char>, p: &Vec<char>) -> (r: bool)
    ensures
        r == starts_with(s@, p@),
{
    matches_at(s, p, 0)
}

/// `str::find`.
pub fn find_chars(s: &Vec<char>, p: &Vec<char>) -> (r: Option<usize>)
    ensures
        match r {
            Some(i) => find(s@, p@) == Some(i as int),
            None => find(s@, p@) is None,
        },
        r matches Some(i) ==> i + p@.len() <= s@.len() && occurs_at(s@, p@, i as int),
{
    proof {
        lemma_find(s@, p@);
    }
    if p.len() > s.len() {
        return None;
    }
    let last = s.len() - p.len();
    let mut i: usize = 0;
    while i <= last
        invariant
            last + p.len() == s.len(),
            i <= last + 1,
            find(s@, p@) == find_from(s@, p@, i as int),
        decreases last + 1 - i,
    {
        if matches_at(s, p, i) {
            return Some(i);
        }
        if i == last {
            assert(find_from(s@, p@, i + 1) is None);
            return None;
        }
        i += 1;
    }
    None
}

pub fn contains_chars(s: &Vec<char>, p: &Vec<char>) -> (r: bool)
    ensures
        r == contains(s@, p@),
{
    proof {
        lemma_find(s@, p@);
    }
    find_chars(s, p).is_some()
}

/// `str::find` for one character.
pub fn find_char(s: &Vec<char>, c: char) -> (r: Option<usize>)
    ensures
        match r {
            Some(i) => find(s@, seq![c]) == Some(i as int),
            None => find(s@, seq![c]) is None,
        },
        r matches Some(i) ==> i < s@.len() && s@[i as int] == c,
{
    let p: Vec<char> = vec![c];
    assert(p@ =~= seq![c]);
    let r = find_chars(s, &p);
    if let Some(i) = r {
        assert(s@.subrange(i as int, i + 1)[0] == s@[i as int]);
    }
    r
}

/// `str::rfind` for one character.
pub fn rfind_char_chars(s: &Vec<char>, c: char) -> (r: Option<usize>)
    ensures
        match r {
            Some(i) => rfind_char(s@, c) == Some(i as int),
            None => rfind_char(s@, c) is None,
        },
        r matches Some(i) ==> i < s@.len() && s@[i as int] == c,
{
    proof {
        lemma_rfind_char(s@, c);
    }
    let mut b: usize = s.len();
    assert(s@.subrange(0, b as int) =~= s@);
    while b > 0
        invariant
            b <= s.len(),
            rfind_char(s@, c) == rfind_char(s@.subrange(0, b as int), c),
        decreases b,
    {
        if s[b - 1] == c {
            return Some(b - 1);
        }
        assert(s@.subrange(0, b as int).drop_last() =~= s@.subrange(0, b - 1));
        b -= 1;
    }
    None
}

/// Relies on `str::to_lowercase`: the lower-case equivalent of `s`
/// (Unicode `Lowercase`), a function of the characters alone.
#[verifier::external_body]
fn lowercase(s: &str) -> (r: String)
    ensures
        r@ == lower_of(s@),
{
    s.to_lowercase()
}

/// The lower-case equivalent of `s`, as `str::to_lowercase` gives it.
pub fn lower_chars(s: &Vec<char>) -> (r: Vec<char>)
    ensures
        r@ == lower_of(s@),
{
    let text = string_of(s);
    let low = lowercase(text.as_str());
    chars_of(low.as_str())
}

pub fn has_digit_chars(s: &Vec<char>) -> (r: bool)
    ensures
        r == has_digit(s@),
{
    let mut i: usize = 0;
    while i < s.len()
        invariant
            i <= s.len(),
            forall|j: int| 0 <= j < i ==> !is_ascii_digit(#[trigger] s@[j]),
        decreases s.len() - i,
    {
        if '0' <= s[i] && s[i] <= '9' {
            return true;
        }
        i += 1;
    }
    false
}

/// `str::lines`.
pub fn split_lines(s: &Vec<char>) -> (r: Vec<Vec<char>>)
    ensures
        views(r@) == lines(s@),
{
    let mut done: Vec<Vec<char>> = Vec::new();
    let mut cur: Vec<char> = Vec::new();
    let mut i: usize = 0;
    while i < s.len()
        invariant
            i <= s.len(),
            line_pieces(s@.subrange(0, i as int)) == (views(done@), cur@),
        decreases s.len() - i,
    {
        let c = s[i];
        let ghost before = s@.subrange(0, i as int);
        assert(s@.subrange(0, i + 1).drop_last() =~= before);
        if c == '\n' {
            let n = cur.len();
            if n > 0 && cur[n - 1] == '\r' {
                cur.pop();
            }
            done.push(cur);
            cur = Vec::new();
            assert(views(done@) =~= line_pieces(s@.subrange(0, i + 1)).0);
        } else {
            cur.push(c);
        }
        i += 1;
    }
    assert(s@.subrange(0, i as int) =~= s@);
    if cur.len() > 0 {
        done.push(cur);
        assert(views(done@) =~= lines(s@));
    }
    done
}

/// `str::split` on one character.
pub fn split_on(s: &Vec<char>, c: char) -> (r: Vec<Vec<char>>)
    ensures
        views(r@) == split_char(s@, c),
{
    let mut done: Vec<Vec<char>> = Vec::new();
    let mut cur: Vec<char> = Vec::new();
    let mut i: usize = 0;
    while i < s.len()
        invariant
            i <= s.len(),
            split_char(s@.subrange(0, i as int), c) == views(done@).push(cur@),
        decreases s.len() - i,
    {
        let d = s[i];
        assert(s@.subrange(0, i + 1).drop_last() =~= s@.subrange(0, i as int));
        if d == c {
            done.push(cur);
            cur = Vec::new();
            assert(views(done@).push(cur@) =~= split_char(s@.subrange(0, i + 1), c));
        } else {
            cur.push(d);
            assert(views(done@).push(cur@) =~= split_char(s@.subrange(0, i + 1), c));
        }
        i += 1;
    }
    assert(s@.subrange(0, i as int) =~= s@);
    done.push(cur);
    assert(views(done@) =~= split_char(s@, c));
    done
}

/// `str::split_whitespace`.
pub fn split_words(s: &Vec<char>) -> (r: Vec<Vec<char>>)
    ensures
        views(r@) == words(s@),
{
    let mut done: Vec<Vec<char>> = Vec::new();
    let mut cur: Vec<char> = Vec::new();
    let mut in_word = false;
    let mut i: usize = 0;
    while i < s.len()
        invariant
            i <= s.len(),
            in_word <==> (i > 0 && !is_ws(s@[i - 1])),
            in_word ==> words(s@.subrange(0, i as int)) == views(done@).push(cur@),
            !in_word ==> words(s@.subrange(0, i as int)) == views(done@),
        decreases s.len() - i,
    {
        let d = s[i];
        let ghost pre = s@.subrange(0, i as int);
        let ghost post = s@.subrange(0, i + 1);
        assert(post.drop_last() =~= pre);
        if is_whitespace(d) {
            if in_word {
                done.push(cur);
                cur = Vec::new();
            }
            in_word = false;
        } else {
            if in_word {
                assert(post[post.len() - 2] == s@[i - 1]);
                cur.push(d);
                assert(views(done@).push(cur@) =~= words(post));
            } else {
                cur = Vec::new();
                cur.push(d);
                assert(views(done@).push(cur@) =~= words(post));
            }
            in_word = true;
        }
        i += 1;
    }
    assert(s@.subrange(0, i as int) =~= s@);
    if in_word {
        done.push(cur);
    }
    done
}

/// Appends `t` to `r`.
pub fn append_chars(r: &mut Vec<char>, t: &Vec<char>)
    ensures
        final(r)@ == old(r)@ + t@,
{
    let mut i: usize = 0;
    while i < t.len()
        invariant
            i <= t.len(),
            r@ == old(r)@ + t@.subrange(0, i as int),
        decreases t.len() - i,
    {
        r.push(t[i]);
        i += 1;
    }
    assert(t@.subrange(0, i as int) =~= t@);
}

/// Copies of `ps[from..]`.
pub fn tail_of(ps: &Vec<Vec<char>>, from: usize) -> (r: Vec<Vec<char>>)
    requires
        from <= ps.len(),
    ensures
        views(r@) == views(ps@).subrange(from as int, ps.len() as int),
{
    let mut r: Vec<Vec<char>> = Vec::new();
    let mut i = from;
    while i < ps.len()
        invariant
            from <= i <= ps.len(),
            views(r@) == views(ps@).subrange(from as int, i as int),
        decreases ps.len() - i,
    {
        let mut c: Vec<char> = Vec::new();
        append_chars(&mut c, &ps[i]);
        assert(c@ =~= ps@[i as int]@);
        let ghost old_r = r@;
        r.push(c);
        assert(views(r@) =~= views(old_r).push(ps@[i as int]@));
        i += 1;
        assert(views(r@) =~= views(ps@).subrange(from as int, i as int));
    }
    r
}

/// `[T]::join` with a separator.
pub fn join_chars(ps: &Vec<Vec<char>>, sep: &Vec<char>) -> (r: Vec<char>)
    ensures
        r@ == join(views(ps@), sep@),
{
    let mut r: Vec<char> = Vec::new();
    let mut i: usize = 0;
    while i < ps.len()
        invariant
            i <= ps.len(),
            r@ == join(views(ps@).subrange(0, i as int), sep@),
        decreases ps.len() - i,
    {
        let ghost pre = views(ps@).subrange(0, i as int);
        let ghost post = views(ps@).subrange(0, i + 1);
        assert(post.drop_last() =~= pre);
        if i > 0 {
            append_chars(&mut r, sep);
        }
        append_chars(&mut r, &ps[i]);
        i += 1;
        assert(r@ =~= join(post, sep@));
    }
    assert(views(ps@).subrange(0, i as int) =~= views(ps@));
    r
}

} // verus!
