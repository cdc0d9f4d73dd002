//! The installed-package index: derived from the system state file, and kept
//! in a binary cache whose validity follows the state file's modification
//! time.
//!
//! Cache layout: eight bytes holding the record count (little endian), then
//! for each record its name and its version, each followed by a zero byte.
use vstd::prelude::*;
use vstd::bytes::{
    lemma_auto_spec_u64_to_from_le_bytes, spec_u64_from_le_bytes, spec_u64_to_le_bytes,
    u64_from_le_bytes, u64_to_le_bytes,
};
use vstd::utf8::{
    decode_utf8, encode_scalar, encode_utf8, encode_utf8_decode_utf8, encode_utf8_valid_utf8,
    is_scalar, valid_utf8,
};
use crate::records::{package_views, PackageInfo, PackageSource, PackageView};
use crate::text::{
    find, find_char, is_blank, chars_of, contains, contains_chars, lines, slice, split_lines, starts_with, starts_with_chars,
    string_of, trim, trim_chars, views,
};

verus! {

/// The (name, version) pairs of a sequence of records.
pub open spec fn index_of(v: Seq<PackageView>) -> Seq<(Seq<char>, Seq<char>)> {
    v.map_values(|p: PackageView| (p.name, p.version))
}

/// Every record carries only a name and a version, from the system source.
pub open spec fn bare_records(v: Seq<PackageView>) -> bool {
    forall|i: int|
        0 <= i < v.len() ==> (#[trigger] v[i]).description.len() == 0 && v[i].size.len() == 0
            && v[i].source == PackageSource::Default
}

// ---------------------------------------------------------------------------
// The state file: paragraphs of `Package:`, `Version:` and `Status:` fields.
/// Scan state: the pairs found so far, and the name, version and installed
/// flag of the paragraph being read.
pub type StatusScan = (Seq<(Seq<char>, Seq<char>)>, Seq<char>, Seq<char>, bool);

pub open spec fn paragraph_done(st: StatusScan) -> bool {
    st.3 && st.1.len() > 0
}

pub open spec fn flush_paragraph(st: StatusScan) -> Seq<(Seq<char>, Seq<char>)> {
    if paragraph_done(st) {
        st.0.push((st.1, st.2))
    } else {
        st.0
    }
}

pub open spec fn is_installed_status(rest: Seq<char>) -> bool {
    contains(rest, "install ok installed"@) || contains(rest, "install ok config-files"@)
}

pub open spec fn status_step(st: StatusScan, line: Seq<char>) -> StatusScan {
    if starts_with(line, "Package: "@) {
        (
            flush_paragraph(st),
            trim(line.subrange("Package: "@.len() as int, line.len() as int)),
            seq![],
            false,
        )
    } else if starts_with(line, "Version: "@) {
        (st.0, st.1, trim(line.subrange("Version: "@.len() as int, line.len() as int)), st.3)
    } else if starts_with(line, "Status: "@) {
        (
            st.0,
            st.1,
            st.2,
            is_installed_status(line.subrange("Status: "@.len() as int, line.len() as int)),
        )
    } else if line.len() == 0 {
        if paragraph_done(st) {
            (flush_paragraph(st), seq![], seq![], false)
        } else {
            (st.0, st.1, st.2, false)
        }
    } else {
        st
    }
}

pub open spec fn status_lines(ls: Seq<Seq<char>>) -> StatusScan
    decreases ls.len(),
{
    if ls.len() == 0 {
        (seq![], seq![], seq![], false)
    } else {
        status_step(status_lines(ls.drop_last()), ls.last())
    }
}

/// The installed packages that the state file `content` lists.
pub open spec fn installed_from_status(content: Seq<char>) -> Seq<(Seq<char>, Seq<char>)> {
    flush_paragraph(status_lines(lines(content)))
}

fn bare_record(name: &Vec<char>, version: &Vec<char>) -> (r: PackageInfo)
    ensures
        r@.name == name@,
        r@.version == version@,
        r@.description.len() == 0,
        r@.size.len() == 0,
        r@.source == PackageSource::Default,
{
    PackageInfo {
        name: string_of(name),
        description: String::new(),
        version: string_of(version),
        size: String::new(),
        source: PackageSource::Default,
    }
}

/// Derives the installed packages from the system state file: a paragraph
/// counts when its `Status:` field says `install ok installed` or
/// `install ok config-files` and it has a name.
pub fn parse_status_file(content: &str) -> (r: Vec<PackageInfo>)
    ensures
        index_of(package_views(r@)) == installed_from_status(content@),
        bare_records(package_views(r@)),
{
    let text = chars_of(content);
    let ls = split_lines(&text);
    let package = chars_of("Package: ");
    let version_tag = chars_of("Version: ");
    let status = chars_of("Status: ");
    let installed_tag = chars_of("install ok installed");
    let config_tag = chars_of("install ok config-files");
    let mut acc: Vec<PackageInfo> = Vec::new();
    let mut name: Vec<char> = Vec::new();
    let mut version: Vec<char> = Vec::new();
    let mut installed = false;
    let mut i: usize = 0;
    while i < ls.len()
        invariant
            i <= ls.len(),
            views(ls@) == lines(text@),
            package@ == "Package: "@,
            version_tag@ == "Version: "@,
            status@ == "Status: "@,
            installed_tag@ == "install ok installed"@,
            config_tag@ == "install ok config-files"@,
            (index_of(package_views(acc@)), name@, version@, installed) == status_lines(
                views(ls@).subrange(0, i as int),
            ),
            bare_records(package_views(acc@)),
        decreases ls.len() - i,
    {
        let ghost pre = views(ls@).subrange(0, i as int);
        let ghost post = views(ls@).subrange(0, i + 1);
        assert(post.drop_last() =~= pre);
        assert(post.last() == ls@[i as int]@);
        let line = &ls[i];
        let ghost old_acc = package_views(acc@);
        if starts_with_chars(line, &package) {
            if installed && name.len() > 0 {
                let rec = bare_record(&name, &version);
                acc.push(rec);
                assert(package_views(acc@) =~= old_acc.push(rec@));
                assert(index_of(package_views(acc@)) =~= index_of(old_acc).push((name@, version@)));
            }
            name = trim_chars(&slice(line, package.len(), line.len()));
            version = Vec::new();
            installed = false;
        } else if starts_with_chars(line, &version_tag) {
            version = trim_chars(&slice(line, version_tag.len(), line.len()));
        } else if starts_with_chars(line, &status) {
            let rest = slice(line, status.len(), line.len());
            installed = contains_chars(&rest, &installed_tag) || contains_chars(&rest, &config_tag);
        } else if line.len() == 0 {
            if installed && name.len() > 0 {
                let rec = bare_record(&name, &version);
                acc.push(rec);
                assert(package_views(acc@) =~= old_acc.push(rec@));
                assert(index_of(package_views(acc@)) =~= index_of(old_acc).push((name@, version@)));
                name = Vec::new();
                version = Vec::new();
            }
            installed = false;
        }
        i += 1;
    }
    assert(views(ls@).subrange(0, i as int) =~= views(ls@));
    if installed && name.len() > 0 {
        let ghost old_acc = package_views(acc@);
        let rec = bare_record(&name, &version);
        acc.push(rec);
        assert(package_views(acc@) =~= old_acc.push(rec@));
        assert(index_of(package_views(acc@)) =~= index_of(old_acc).push((name@, version@)));
    }
    acc
}

// ---------------------------------------------------------------------------
// `dpkg-query -W -f='${Package}\t${Version}\n'` output, used when the state
// file cannot be read.
pub open spec fn query_line_record(line: Seq<char>) -> Option<(Seq<char>, Seq<char>)> {
    match find(line, seq!['\t']) {
        Some(k) => if trim(line.subrange(0, k)).len() > 0 && !is_blank(line) {
            Some((trim(line.subrange(0, k)), trim(line.subrange(k + 1, line.len() as int))))
        } else {
            None
        },
        None => None,
    }
}

pub open spec fn query_lines(ls: Seq<Seq<char>>) -> Seq<(Seq<char>, Seq<char>)>
    decreases ls.len(),
{
    if ls.len() == 0 {
        seq![]
    } else {
        match query_line_record(ls.last()) {
            Some(r) => query_lines(ls.drop_last()).push(r),
            None => query_lines(ls.drop_last()),
        }
    }
}

/// Parses `name<TAB>version` lines; a line without a tab or without a name
/// is skipped.
pub fn parse_dpkg_query_output(output: &str) -> (r: Vec<PackageInfo>)
    ensures
        index_of(package_views(r@)) == query_lines(lines(output@)),
        bare_records(package_views(r@)),
{
    let text = chars_of(output);
    let ls = split_lines(&text);
    let mut acc: Vec<PackageInfo> = Vec::new();
    let mut i: usize = 0;
    while i < ls.len()
        invariant
            i <= ls.len(),
            views(ls@) == lines(text@),
            index_of(package_views(acc@)) == query_lines(views(ls@).subrange(0, i as int)),
            bare_records(package_views(acc@)),
        decreases ls.len() - i,
    {
        let ghost pre = views(ls@).subrange(0, i as int);
        let ghost post = views(ls@).subrange(0, i + 1);
        assert(post.drop_last() =~= pre);
        assert(post.last() == ls@[i as int]@);
        let line = &ls[i];
        if trim_chars(line).len() > 0 {
            match find_char(line, '\t') {
                Some(k) => {
                    let name = trim_chars(&slice(line, 0, k));
                    if name.len() > 0 {
                        let version = trim_chars(&slice(line, k + 1, line.len()));
                        let ghost old_acc = package_views(acc@);
                        let rec = bare_record(&name, &version);
                        acc.push(rec);
                        assert(package_views(acc@) =~= old_acc.push(rec@));
                        assert(index_of(package_views(acc@)) =~= index_of(old_acc).push(
                            (name@, version@),
                        ));
                    }
                },
                None => {},
            }
        }
        i += 1;
    }
    assert(views(ls@).subrange(0, i as int) =~= views(ls@));
    acc
}

// ---------------------------------------------------------------------------
// The binary cache.
/// The text of a cache field as `String::from_utf8_lossy` gives it: for
/// bytes that are not valid UTF-8 it also depends on the bytes alone.
pub uninterp spec fn lossy_text(b: Seq<u8>) -> Seq<char>;

/// Relies on `String::from_utf8_lossy`: valid UTF-8 decodes to exactly its
/// characters; invalid sequences become replacement characters.
#[verifier::external_body]
fn text_of_bytes(b: &Vec<u8>) -> (r: String)
    ensures
        r@ == lossy_text(b@),
        valid_utf8(b@) ==> r@ == decode_utf8(b@),
{
    String::from_utf8_lossy(b).into_owned()
}

/// The text of a field of the cache.
pub open spec fn field_text(b: Seq<u8>) -> Seq<char> {
    if valid_utf8(b) {
        decode_utf8(b)
    } else {
        lossy_text(b)
    }
}

/// The bytes of one record: name and version, each ended by a zero byte.
pub open spec fn encode_record(r: (Seq<char>, Seq<char>)) -> Seq<u8> {
    encode_utf8(r.0) + seq![0u8] + encode_utf8(r.1) + seq![0u8]
}

pub open spec fn encode_records(ix: Seq<(Seq<char>, Seq<char>)>) -> Seq<u8>
    decreases ix.len(),
{
    if ix.len() == 0 {
        seq![]
    } else {
        encode_record(ix[0]) + encode_records(ix.drop_first())
    }
}

/// The cache file for the index `ix`.
pub open spec fn cache_bytes(ix: Seq<(Seq<char>, Seq<char>)>) -> Seq<u8> {
    spec_u64_to_le_bytes(ix.len() as u64) + encode_records(ix)
}

/// The first zero byte at or after `i`.
pub open spec fn nul_from(b: Seq<u8>, i: int) -> Option<int>
    decreases b.len() - i,
{
    if i < 0 || i >= b.len() {
        None
    } else if b[i] == 0 {
        Some(i)
    } else {
        nul_from(b, i + 1)
    }
}

/// The raw fields of `count` records that start at `pos`, if all are there.
pub open spec fn decode_fields(b: Seq<u8>, pos: int, count: nat) -> Option<
    Seq<(Seq<u8>, Seq<u8>)>,
>
    decreases count,
{
    if count == 0 {
        Some(seq![])
    } else {
        match nul_from(b, pos) {
            None => None,
            Some(e1) => match nul_from(b, e1 + 1) {
                None => None,
                Some(e2) => match decode_fields(b, e2 + 1, (count - 1) as nat) {
                    None => None,
                    Some(rest) => Some(
                        seq![(b.subrange(pos, e1), b.subrange(e1 + 1, e2))] + rest,
                    ),
                },
            },
        }
    }
}

pub open spec fn prepend_fields(
    done: Seq<(Seq<u8>, Seq<u8>)>,
    rest: Option<Seq<(Seq<u8>, Seq<u8>)>>,
) -> Option<Seq<(Seq<u8>, Seq<u8>)>> {
    match rest {
        Some(r) => Some(done + r),
        None => None,
    }
}

/// What a cache file holds: `None` when it is shorter than its header, or
/// when a field of one of the counted records is missing or unterminated.
pub open spec fn cache_index(b: Seq<u8>) -> Option<Seq<(Seq<char>, Seq<char>)>> {
    if b.len() < 8 {
        None
    } else {
        match decode_fields(b, 8, spec_u64_from_le_bytes(b.subrange(0, 8)) as nat) {
            Some(fs) => Some(
                fs.map_values(|f: (Seq<u8>, Seq<u8>)| (field_text(f.0), field_text(f.1))),
            ),
            None => None,
        }
    }
}

proof fn lemma_encode_records_push(ix: Seq<(Seq<char>, Seq<char>)>, r: (Seq<char>, Seq<char>))
    ensures
        encode_records(ix.push(r)) == encode_records(ix) + encode_record(r),
    decreases ix.len(),
{
    if ix.len() == 0 {
        assert(ix.push(r).drop_first() =~= ix);
        assert(encode_records(ix.push(r)) =~= encode_records(ix) + encode_record(r));
    } else {
        assert(ix.push(r).drop_first() =~= ix.drop_first().push(r));
        lemma_encode_records_push(ix.drop_first(), r);
        assert(encode_records(ix.push(r)) =~= encode_records(ix) + encode_record(r));
    }
}

fn append_bytes(out: &mut Vec<u8>, b: &[u8])
    ensures
        final(out)@ == old(out)@ + b@,
{
    let mut i: usize = 0;
    while i < b.len()
        invariant
            i <= b.len(),
            out@ == old(out)@ + b@.subrange(0, i as int),
        decreases b.len() - i,
    {
        out.push(b[i]);
        i += 1;
    }
    assert(b@.subrange(0, i as int) =~= b@);
}

/// Encodes the (name, version) pairs of `packages` in the cache layout.
pub fn encode_packages_cache(packages: &Vec<PackageInfo>) -> (r: Vec<u8>)
    ensures
        r@ == cache_bytes(index_of(package_views(packages@))),
{
    let ghost ix = index_of(package_views(packages@));
    let mut out = u64_to_le_bytes(packages.len() as u64);
    let mut i: usize = 0;
    assert(ix.subrange(0, 0) =~= seq![]);
    while i < packages.len()
        invariant
            i <= packages.len(),
            ix == index_of(package_views(packages@)),
            out@ == spec_u64_to_le_bytes(packages.len() as u64) + encode_records(
                ix.subrange(0, i as int),
            ),
        decreases packages.len() - i,
    {
        let p = &packages[i];
        let ghost before = out@;
        append_bytes(&mut out, p.name.as_str().as_bytes());
        out.push(0u8);
        append_bytes(&mut out, p.version.as_str().as_bytes());
        out.push(0u8);
        proof {
            assert(ix[i as int] == (p.name@, p.version@));
            assert(ix.subrange(0, i + 1) =~= ix.subrange(0, i as int).push(ix[i as int]));
            lemma_encode_records_push(ix.subrange(0, i as int), ix[i as int]);
            assert(out@ =~= before + encode_record(ix[i as int]));
        }
        i += 1;
    }
    assert(ix.subrange(0, i as int) =~= ix);
    assert(ix.len() == packages.len());
    out
}

fn find_nul(b: &Vec<u8>, from: usize) -> (r: Option<usize>)
    ensures
        match r {
            Some(i) => nul_from(b@, from as int) == Some(i as int) && from <= i < b.len(),
            None => nul_from(b@, from as int) is None,
        },
{
    let mut i = from;
    while i < b.len()
        invariant
            from <= i,
            nul_from(b@, from as int) == nul_from(b@, i as int),
        decreases b.len() - i,
    {
        if b[i] == 0 {
            return Some(i);
        }
        i += 1;
    }
    None
}

/// Decodes a cache file. Truncation, or a missing terminator before the
/// declared number of records is reached, gives `None`, never a partial list.
pub fn decode_packages_cache(data: &Vec<u8>) -> (r: Option<Vec<PackageInfo>>)
    ensures
        match r {
            Some(v) => cache_index(data@) == Some(index_of(package_views(v@))) && bare_records(
                package_views(v@),
            ),
            None => cache_index(data@) is None,
        },
{
    if data.len() < 8 {
        return None;
    }
    let header = slice_bytes(data, 0, 8);
    let count = u64_from_le_bytes(header.as_slice());
    assert(data@.subrange(0, 8) == header@);
    let ghost total = decode_fields(data@, 8, count as nat);
    let ghost mut done: Seq<(Seq<u8>, Seq<u8>)> = seq![];
    let mut out: Vec<PackageInfo> = Vec::new();
    let mut pos: usize = 8;
    let mut left: u64 = count;
    while left > 0
        invariant
            data.len() >= 8,
            count == spec_u64_from_le_bytes(data@.subrange(0, 8)),
            total == decode_fields(data@, 8, count as nat),
            total == prepend_fields(done, decode_fields(data@, pos as int, left as nat)),
            index_of(package_views(out@)) == done.map_values(
                |f: (Seq<u8>, Seq<u8>)| (field_text(f.0), field_text(f.1)),
            ),
            bare_records(package_views(out@)),
            pos <= data.len(),
        decreases left,
    {
        let e1 = match find_nul(data, pos) {
            Some(e) => e,
            None => {
                assert(decode_fields(data@, pos as int, left as nat) is None);
                assert(total is None);
                return None;
            },
        };
        let e2 = match find_nul(data, e1 + 1) {
            Some(e) => e,
            None => {
                assert(decode_fields(data@, pos as int, left as nat) is None);
                assert(total is None);
                return None;
            },
        };
        let name_bytes = slice_bytes(data, pos, e1);
        let version_bytes = slice_bytes(data, e1 + 1, e2);
        let name = text_of_bytes(&name_bytes);
        let version = text_of_bytes(&version_bytes);
        let rec = PackageInfo {
            name,
            description: String::new(),
            version,
            size: String::new(),
            source: PackageSource::Default,
        };
        let ghost entry = (name_bytes@, version_bytes@);
        proof {
            let rest = decode_fields(data@, e2 + 1, (left - 1) as nat);
            match rest {
                Some(rs) => {
                    assert(done + (seq![entry] + rs) =~= done.push(entry) + rs);
                },
                None => {},
            }
        }
        let ghost old_out = package_views(out@);
        let ghost old_done = done;
        assert(rec@.name == field_text(entry.0));
        assert(rec@.version == field_text(entry.1));
        out.push(rec);
        proof {
            done = done.push(entry);
            assert(package_views(out@) =~= old_out.push(rec@));
            assert(index_of(package_views(out@)) =~= index_of(old_out).push(
                (rec@.name, rec@.version),
            ));
            assert(done.map_values(|f: (Seq<u8>, Seq<u8>)| (field_text(f.0), field_text(f.1)))
                =~= old_done.map_values(
                |f: (Seq<u8>, Seq<u8>)| (field_text(f.0), field_text(f.1)),
            ).push((field_text(entry.0), field_text(entry.1))));
        }
        pos = e2 + 1;
        left = left - 1;
    }
    assert(done + seq![] =~= done);
    assert(data@.subrange(0, 8) == header@);
    Some(out)
}

fn slice_bytes(b: &Vec<u8>, from: usize, to: usize) -> (r: Vec<u8>)
    requires
        from <= to <= b.len(),
    ensures
        r@ == b@.subrange(from as int, to as int),
{
    let mut r: Vec<u8> = Vec::new();
    let mut i = from;
    while i < to
        invariant
            from <= i <= to <= b.len(),
            r@ == b@.subrange(from as int, i as int),
        decreases to - i,
    {
        r.push(b[i]);
        i += 1;
    }
    r
}

// ---------------------------------------------------------------------------
// Cache validity.
/// What loading the cache does.
#[derive(Debug, Clone, Copy, PartialEq, Eq, Structural)]
pub enum CacheStep {
    /// A modification time could not be read: no cached data, nothing deleted.
    Miss,
    /// The cache is older than the state file: delete it, no cached data.
    DropStale,
    /// Read the cache file and decode it.
    Read,
}

/// Decides what loading the cache does, from the modification times of the
/// cache file and of the state file (in nanoseconds), where they could be read.
pub fn cache_load_plan(cache_mtime: Option<u128>, state_mtime: Option<u128>) -> (r: CacheStep)
    ensures
        r == match (cache_mtime, state_mtime) {
            (Some(c), Some(s)) => if c < s {
                CacheStep::DropStale
            } else {
                CacheStep::Read
            },
            _ => CacheStep::Miss,
        },
{
    match (cache_mtime, state_mtime) {
        (Some(c), Some(s)) => {
            if c < s {
                CacheStep::DropStale
            } else {
                CacheStep::Read
            }
        },
        _ => CacheStep::Miss,
    }
}

/// The cached index for a plan and, when the plan reads, the file's bytes
/// (`None` when reading failed): only a `Read` plan with readable, intact
/// bytes yields data.
pub fn load_packages_cache(step: CacheStep, data: Option<Vec<u8>>) -> (r: Option<Vec<PackageInfo>>)
    ensures
        step != CacheStep::Read ==> r is None,
        data is None ==> r is None,
        step == CacheStep::Read && data is Some ==> match r {
            Some(v) => cache_index(data->0@) == Some(index_of(package_views(v@))) && bare_records(
                package_views(v@),
            ),
            None => cache_index(data->0@) is None,
        },
{
    match step {
        CacheStep::Read => match data {
            Some(d) => decode_packages_cache(&d),
            None => None,
        },
        _ => None,
    }
}

// ---------------------------------------------------------------------------
// Round trip.
/// `s` holds no NUL character, the field terminator of the cache.
pub open spec fn no_nul(s: Seq<char>) -> bool {
    forall|i: int| 0 <= i < s.len() ==> (s[i] as u32) != 0
}

pub open spec fn nul_free_index(ix: Seq<(Seq<char>, Seq<char>)>) -> bool {
    forall|k: int| 0 <= k < ix.len() ==> no_nul((#[trigger] ix[k]).0) && no_nul(ix[k].1)
}

proof fn lemma_scalar_no_zero(v: u32)
    requires
        is_scalar(v),
        v != 0,
    ensures
        forall|i: int| 0 <= i < encode_scalar(v).len() ==> encode_scalar(v)[i] != 0,
{
    assert(0x80u8 | ((v >> 12) & 0x3F) as u8 != 0) by (bit_vector);
    assert(0x80u8 | ((v >> 6) & 0x3F) as u8 != 0) by (bit_vector);
    assert(0x80u8 | (v & 0x3F) as u8 != 0) by (bit_vector);
    assert(0xC0u8 | ((v >> 6) & 0x1F) as u8 != 0) by (bit_vector);
    assert(0xE0u8 | ((v >> 12) & 0x0F) as u8 != 0) by (bit_vector);
    assert(0xF0u8 | ((v >> 18) & 0x7) as u8 != 0) by (bit_vector);
    assert((v <= 0x7F && v != 0) ==> (v & 0x7F) as u8 != 0) by (bit_vector);
}

proof fn lemma_encode_no_zero(s: Seq<char>)
    requires
        no_nul(s),
    ensures
        forall|i: int| 0 <= i < encode_utf8(s).len() ==> encode_utf8(s)[i] != 0,
    decreases s.len(),
{
    if s.len() > 0 {
        let v = s[0] as u32;
        vstd::utf8::char_is_scalar(s[0]);
        lemma_scalar_no_zero(v);
        lemma_encode_no_zero(s.drop_first());
        let e = encode_utf8(s);
        let a = encode_scalar(v);
        let rest = encode_utf8(s.drop_first());
        assert(e == a + rest);
        assert forall|i: int| 0 <= i < e.len() implies e[i] != 0 by {
            if i < a.len() {
                assert(e[i] == a[i]);
            } else {
                assert(e[i] == rest[i - a.len()]);
            }
        }
    }
}

proof fn lemma_nul_scan(b: Seq<u8>, i: int, n: int)
    requires
        0 <= i,
        0 <= n,
        i + n < b.len(),
        forall|j: int| i <= j < i + n ==> b[j] != 0,
        b[i + n] == 0,
    ensures
        nul_from(b, i) == Some(i + n),
    decreases n,
{
    if n > 0 {
        lemma_nul_scan(b, i + 1, n - 1);
    }
}

pub open spec fn encoded_fields(ix: Seq<(Seq<char>, Seq<char>)>) -> Seq<(Seq<u8>, Seq<u8>)> {
    ix.map_values(|r: (Seq<char>, Seq<char>)| (encode_utf8(r.0), encode_utf8(r.1)))
}

proof fn lemma_decode_records(p: Seq<u8>, ix: Seq<(Seq<char>, Seq<char>)>, t: Seq<u8>)
    requires
        nul_free_index(ix),
    ensures
        decode_fields(p + encode_records(ix) + t, p.len() as int, ix.len()) == Some(
            encoded_fields(ix),
        ),
    decreases ix.len(),
{
    let b = p + encode_records(ix) + t;
    if ix.len() == 0 {
        assert(encoded_fields(ix) =~= seq![]);
    } else {
        let r = ix[0];
        let rest = ix.drop_first();
        let e0 = encode_utf8(r.0);
        let e1 = encode_utf8(r.1);
        assert(no_nul(r.0) && no_nul(r.1));
        lemma_encode_no_zero(r.0);
        lemma_encode_no_zero(r.1);
        assert(nul_free_index(rest)) by {
            assert forall|k: int| 0 <= k < rest.len() implies no_nul((#[trigger] rest[k]).0)
                && no_nul(rest[k].1) by {
                assert(rest[k] == ix[k + 1]);
            }
        }
        let p2 = p + encode_record(r);
        assert(b =~= p + e0 + seq![0u8] + e1 + seq![0u8] + encode_records(rest) + t);
        assert(b =~= p2 + encode_records(rest) + t);
        let s1 = p.len() as int;
        let z1 = s1 + e0.len();
        let z2 = z1 + 1 + e1.len();
        assert forall|j: int| s1 <= j < s1 + e0.len() implies b[j] != 0 by {
            assert(b[j] == e0[j - s1]);
        }
        assert(b[z1] == 0);
        lemma_nul_scan(b, s1, e0.len() as int);
        assert forall|j: int| z1 + 1 <= j < z1 + 1 + e1.len() implies b[j] != 0 by {
            assert(b[j] == e1[j - z1 - 1]);
        }
        assert(b[z2] == 0);
        lemma_nul_scan(b, z1 + 1, e1.len() as int);
        assert(b.subrange(s1, z1) =~= e0);
        assert(b.subrange(z1 + 1, z2) =~= e1);
        assert(p2.len() == z2 + 1);
        lemma_decode_records(p2, rest, t);
        assert(encoded_fields(ix) =~= seq![(e0, e1)] + encoded_fields(rest));
    }
}

/// Writing an index with the cache encoder and reading it back with the
/// cache decoder gives the same pairs in the same order, for any number of
/// pairs, none included. A NUL character ends a field in the cache layout,
/// so names and versions are taken without one.
pub proof fn lemma_cache_round_trip(ix: Seq<(Seq<char>, Seq<char>)>)
    requires
        ix.len() <= u64::MAX,
        nul_free_index(ix),
    ensures
        cache_index(cache_bytes(ix)) == Some(ix),
{
    lemma_auto_spec_u64_to_from_le_bytes();
    let h = spec_u64_to_le_bytes(ix.len() as u64);
    let b = cache_bytes(ix);
    assert(b =~= h + encode_records(ix) + seq![]);
    assert(b.subrange(0, 8) =~= h);
    lemma_decode_records(h, ix, seq![]);
    let fs = encoded_fields(ix);
    assert forall|k: int| 0 <= k < ix.len() implies field_text(fs[k].0) == ix[k].0 && field_text(
        fs[k].1,
    ) == ix[k].1 by {
        encode_utf8_valid_utf8(ix[k].0);
        encode_utf8_valid_utf8(ix[k].1);
        encode_utf8_decode_utf8(ix[k].0);
        encode_utf8_decode_utf8(ix[k].1);
    }
    assert(fs.map_values(|f: (Seq<u8>, Seq<u8>)| (field_text(f.0), field_text(f.1))) =~= ix);
}

} // verus!
