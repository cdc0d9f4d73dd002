//! Package details from `show` / `info` output: `Key: value` lines.
use vstd::prelude::*;
use crate::process::{Invocation, InvocationView};
use crate::records::PackageDetail;
use crate::text::{
    copy_string, split_char, split_on, string_views, append_chars, chars_of, contains, contains_chars, find, find_chars, lines, lit, slice, split_lines,
    starts_with, starts_with_chars, string_of, trim, trim_chars, views,
};

verus! {

/// The text after `key` on a line that starts with it, trimmed.
pub open spec fn field_value(line: Seq<char>, key: Seq<char>) -> Seq<char> {
    trim(line.subrange(key.len() as int, line.len() as int))
}

/// The fields of system `show` output that a detail view uses.
pub struct ShowFields {
    pub version: String,
    pub description: String,
    pub installed_size: String,
}

pub type ShowScan = (Seq<char>, Seq<char>, Seq<char>);

pub open spec fn show_step(st: ShowScan, line: Seq<char>) -> ShowScan {
    if starts_with(line, "Version:"@) {
        (field_value(line, "Version:"@), st.1, st.2)
    } else if starts_with(line, "Description:"@) {
        (st.0, field_value(line, "Description:"@), st.2)
    } else if starts_with(line, "Installed-Size:"@) {
        (st.0, st.1, field_value(line, "Installed-Size:"@))
    } else {
        st
    }
}

pub open spec fn show_lines(ls: Seq<Seq<char>>) -> ShowScan
    decreases ls.len(),
{
    if ls.len() == 0 {
        (seq![], seq![], seq![])
    } else {
        show_step(show_lines(ls.drop_last()), ls.last())
    }
}

fn value_after(line: &Vec<char>, key: &Vec<char>) -> (r: Vec<char>)
    requires
        starts_with(line@, key@),
    ensures
        r@ == field_value(line@, key@),
{
    trim_chars(&slice(line, key.len(), line.len()))
}

/// Reads `Version:`, `Description:` and `Installed-Size:` from system
/// `show` output; the last line of each kind wins, and a missing field is
/// empty.
pub fn parse_show_output(output: &str) -> (r: ShowFields)
    ensures
        (r.version@, r.description@, r.installed_size@) == show_lines(lines(output@)),
{
    let text = chars_of(output);
    let ls = split_lines(&text);
    let k_version = chars_of("Version:");
    let k_description = chars_of("Description:");
    let k_size = chars_of("Installed-Size:");
    let mut version: Vec<char> = Vec::new();
    let mut description: Vec<char> = Vec::new();
    let mut size: Vec<char> = Vec::new();
    let mut i: usize = 0;
    while i < ls.len()
        invariant
            i <= ls.len(),
            views(ls@) == lines(text@),
            k_version@ == "Version:"@,
            k_description@ == "Description:"@,
            k_size@ == "Installed-Size:"@,
            (version@, description@, size@) == show_lines(views(ls@).subrange(0, i as int)),
        decreases ls.len() - i,
    {
        let ghost pre = views(ls@).subrange(0, i as int);
        let ghost post = views(ls@).subrange(0, i + 1);
        assert(post.drop_last() =~= pre);
        assert(post.last() == ls@[i as int]@);
        let line = &ls[i];
        if starts_with_chars(line, &k_version) {
            version = value_after(line, &k_version);
        } else if starts_with_chars(line, &k_description) {
            description = value_after(line, &k_description);
        } else if starts_with_chars(line, &k_size) {
            size = value_after(line, &k_size);
        }
        i += 1;
    }
    assert(views(ls@).subrange(0, i as int) =~= views(ls@));
    ShowFields {
        version: string_of(&version),
        description: string_of(&description),
        installed_size: string_of(&size),
    }
}

pub open spec fn or_default(v: Seq<char>, d: Seq<char>) -> Seq<char> {
    if v.len() == 0 {
        d
    } else {
        v
    }
}

fn or_default_exec(v: String, d: &str) -> (r: String)
    ensures
        r@ == or_default(v@, d@),
{
    if chars_of(v.as_str()).len() == 0 {
        lit(d)
    } else {
        v
    }
}

/// The detail of a system package from its `show` fields and the size
/// text made of its installed size; empty fields read "Unknown" or
/// "No description available".
pub fn system_detail(name: String, fields: ShowFields, size_text: String) -> (r: PackageDetail)
    ensures
        r.name@ == name@,
        r.version@ == or_default(fields.version@, "Unknown"@),
        r.description@ == or_default(fields.description@, "No description available"@),
        r.size@ == or_default(size_text@, "Unknown"@),
        !r.is_flatpak,
{
    PackageDetail {
        name,
        version: or_default_exec(fields.version, "Unknown"),
        description: or_default_exec(fields.description, "No description available"),
        size: or_default_exec(size_text, "Unknown"),
        is_flatpak: false,
    }
}

// ---------------------------------------------------------------------------
// Flatpak `info` / `remote-info` output.
/// Scan state: version, description, size, and whether the first
/// non-empty line is still to come.
pub type InfoScan = (Seq<char>, Seq<char>, Seq<char>, bool);

/// `size` extended by `part`, after " / " unless `size` is empty.
pub open spec fn add_size(size: Seq<char>, part: Seq<char>) -> Seq<char> {
    if size.len() == 0 {
        part
    } else {
        size + " / "@ + part
    }
}

/// The text of a `Name - Description` title line after its dash.
pub open spec fn title_description(t: Seq<char>) -> Seq<char> {
    match find(t, " - "@) {
        Some(k) => trim(t.subrange(k + " - "@.len(), t.len() as int)),
        None => t,
    }
}

pub open spec fn info_step(st: InfoScan, line: Seq<char>) -> InfoScan {
    let t = trim(line);
    if t.len() == 0 {
        st
    } else if st.3 && !contains(t, seq![':']) {
        (st.0, title_description(t), st.2, false)
    } else if starts_with(t, "Version:"@) {
        (field_value(t, "Version:"@), st.1, st.2, false)
    } else if starts_with(t, "Description:"@) {
        (st.0, field_value(t, "Description:"@), st.2, false)
    } else if starts_with(t, "Download:"@) {
        (st.0, st.1, add_size(st.2, "Download: "@ + field_value(t, "Download:"@)), false)
    } else if starts_with(t, "Installed:"@) {
        (st.0, st.1, add_size(st.2, "Installed: "@ + field_value(t, "Installed:"@)), false)
    } else if starts_with(t, "Installed size:"@) {
        (st.0, st.1, add_size(st.2, field_value(t, "Installed size:"@)), false)
    } else if starts_with(t, "Download size:"@) {
        (st.0, st.1, add_size(st.2, field_value(t, "Download size:"@)), false)
    } else {
        (st.0, st.1, st.2, false)
    }
}

pub open spec fn info_lines(ls: Seq<Seq<char>>) -> InfoScan
    decreases ls.len(),
{
    if ls.len() == 0 {
        (seq![], seq![], seq![], true)
    } else {
        info_step(info_lines(ls.drop_last()), ls.last())
    }
}

fn add_size_exec(size: &mut Vec<char>, part: &Vec<char>)
    ensures
        final(size)@ == add_size(old(size)@, part@),
{
    if size.len() > 0 {
        append_chars(size, &chars_of(" / "));
    }
    append_chars(size, part);
}

fn labelled(label: &str, value: &Vec<char>) -> (r: Vec<char>)
    ensures
        r@ == label@ + value@,
{
    let mut r = chars_of(label);
    append_chars(&mut r, value);
    r
}

/// The detail of a Flatpak application from `flatpak info` or
/// `flatpak remote-info` output. The first non-empty line, when it holds no
/// colon, is a `Name - Description` title; sizes found are joined with " / ".
pub fn flatpak_detail(application: String, output: &str) -> (r: PackageDetail)
    ensures
        r.name@ == application@,
        r.version@ == or_default(info_lines(lines(output@)).0, "Unknown"@),
        r.description@ == or_default(info_lines(lines(output@)).1, "No description available"@),
        r.size@ == or_default(info_lines(lines(output@)).2, "Unknown"@),
        r.is_flatpak,
{
    let text = chars_of(output);
    let ls = split_lines(&text);
    let colon: Vec<char> = vec![':'];
    assert(colon@ =~= seq![':']);
    let dash = chars_of(" - ");
    let k_version = chars_of("Version:");
    let k_description = chars_of("Description:");
    let k_download = chars_of("Download:");
    let k_installed = chars_of("Installed:");
    let k_installed_size = chars_of("Installed size:");
    let k_download_size = chars_of("Download size:");
    let mut version: Vec<char> = Vec::new();
    let mut description: Vec<char> = Vec::new();
    let mut size: Vec<char> = Vec::new();
    let mut first = true;
    let mut i: usize = 0;
    while i < ls.len()
        invariant
            i <= ls.len(),
            views(ls@) == lines(text@),
            colon@ == seq![':'],
            dash@ == " - "@,
            k_version@ == "Version:"@,
            k_description@ == "Description:"@,
            k_download@ == "Download:"@,
            k_installed@ == "Installed:"@,
            k_installed_size@ == "Installed size:"@,
            k_download_size@ == "Download size:"@,
            (version@, description@, size@, first) == info_lines(views(ls@).subrange(0, i as int)),
        decreases ls.len() - i,
    {
        let ghost pre = views(ls@).subrange(0, i as int);
        let ghost post = views(ls@).subrange(0, i + 1);
        assert(post.drop_last() =~= pre);
        assert(post.last() == ls@[i as int]@);
        let t = trim_chars(&ls[i]);
        if t.len() > 0 {
            if first && !contains_chars(&t, &colon) {
                description = match find_chars(&t, &dash) {
                    Some(k) => trim_chars(&slice(&t, k + dash.len(), t.len())),
                    None => t,
                };
            } else if starts_with_chars(&t, &k_version) {
                version = value_after(&t, &k_version);
            } else if starts_with_chars(&t, &k_description) {
                description = value_after(&t, &k_description);
            } else if starts_with_chars(&t, &k_download) {
                add_size_exec(&mut size, &labelled("Download: ", &value_after(&t, &k_download)));
            } else if starts_with_chars(&t, &k_installed) {
                add_size_exec(&mut size, &labelled("Installed: ", &value_after(&t, &k_installed)));
            } else if starts_with_chars(&t, &k_installed_size) {
                add_size_exec(&mut size, &value_after(&t, &k_installed_size));
            } else if starts_with_chars(&t, &k_download_size) {
                add_size_exec(&mut size, &value_after(&t, &k_download_size));
            }
            first = false;
        }
        i += 1;
    }
    assert(views(ls@).subrange(0, i as int) =~= views(ls@));
    PackageDetail {
        name: application,
        version: or_default_exec(string_of(&version), "Unknown"),
        description: or_default_exec(string_of(&description), "No description available"),
        size: or_default_exec(string_of(&size), "Unknown"),
        is_flatpak: true,
    }
}

// ---------------------------------------------------------------------------
// Meta-manager `show` output.
/// Details of a meta-manager package.
#[derive(Debug, Clone)]
pub struct MetaPackageDetail {
    pub name: String,
    pub version: String,
    pub description: String,
    pub size: String,
    pub repository: String,
}

/// The text between the first and the second colon of a line, trimmed.
pub open spec fn second_field(line: Seq<char>) -> Seq<char> {
    let parts = split_char(line, ':');
    if parts.len() > 1 {
        trim(parts[1])
    } else {
        seq![]
    }
}

pub type MetaScan = (Seq<char>, Seq<char>, Seq<char>, Seq<char>);

pub open spec fn meta_show_step(st: MetaScan, line: Seq<char>) -> MetaScan {
    if starts_with(line, "Version:"@) {
        (second_field(line), st.1, st.2, st.3)
    } else if starts_with(line, "Description:"@) {
        (st.0, second_field(line), st.2, st.3)
    } else if starts_with(line, "Size:"@) {
        (st.0, st.1, second_field(line), st.3)
    } else if starts_with(line, "Repository:"@) {
        (st.0, st.1, st.2, second_field(line))
    } else {
        st
    }
}

pub open spec fn meta_show_lines(ls: Seq<Seq<char>>) -> MetaScan
    decreases ls.len(),
{
    if ls.len() == 0 {
        ("Unknown"@, seq![], "Unknown"@, "Unknown"@)
    } else {
        meta_show_step(meta_show_lines(ls.drop_last()), ls.last())
    }
}

fn second_field_exec(line: &Vec<char>) -> (r: Vec<char>)
    ensures
        r@ == second_field(line@),
{
    let parts = split_on(line, ':');
    assert(views(parts@).len() == parts.len());
    if parts.len() > 1 {
        assert(views(parts@)[1] == parts@[1]@);
        trim_chars(&parts[1])
    } else {
        Vec::new()
    }
}

/// The detail of a meta-manager package from its `show` output, or, when
/// that could not be had (`None`), a placeholder saying so. The value of a
/// field is the text between its first and second colon.
pub fn meta_detail(name: String, output: Option<&str>) -> (r: MetaPackageDetail)
    ensures
        r.name@ == name@,
        output is None ==> r.version@ == "Unknown"@ && r.description@
            == "Package information not available"@ && r.size@ == "Unknown"@ && r.repository@
            == "Unknown"@,
        output matches Some(o) ==> (r.version@, r.description@, r.size@, r.repository@)
            == meta_show_lines(lines(o@)),
{
    let o = match output {
        Some(o) => o,
        None => {
            return MetaPackageDetail {
                name,
                version: lit("Unknown"),
                description: lit("Package information not available"),
                size: lit("Unknown"),
                repository: lit("Unknown"),
            };
        },
    };
    let text = chars_of(o);
    let ls = split_lines(&text);
    let k_version = chars_of("Version:");
    let k_description = chars_of("Description:");
    let k_size = chars_of("Size:");
    let k_repository = chars_of("Repository:");
    let mut version = chars_of("Unknown");
    let mut description: Vec<char> = Vec::new();
    let mut size = chars_of("Unknown");
    let mut repository = chars_of("Unknown");
    let mut i: usize = 0;
    while i < ls.len()
        invariant
            i <= ls.len(),
            views(ls@) == lines(text@),
            k_version@ == "Version:"@,
            k_description@ == "Description:"@,
            k_size@ == "Size:"@,
            k_repository@ == "Repository:"@,
            (version@, description@, size@, repository@) == meta_show_lines(
                views(ls@).subrange(0, i as int),
            ),
        decreases ls.len() - i,
    {
        let ghost pre = views(ls@).subrange(0, i as int);
        let ghost post = views(ls@).subrange(0, i + 1);
        assert(post.drop_last() =~= pre);
        assert(post.last() == ls@[i as int]@);
        let line = &ls[i];
        if starts_with_chars(line, &k_version) {
            version = second_field_exec(line);
        } else if starts_with_chars(line, &k_description) {
            description = second_field_exec(line);
        } else if starts_with_chars(line, &k_size) {
            size = second_field_exec(line);
        } else if starts_with_chars(line, &k_repository) {
            repository = second_field_exec(line);
        }
        i += 1;
    }
    assert(views(ls@).subrange(0, i as int) =~= views(ls@));
    MetaPackageDetail {
        name,
        version: string_of(&version),
        description: string_of(&description),
        size: string_of(&size),
        repository: string_of(&repository),
    }
}

// ---------------------------------------------------------------------------
// The distribution logo.
pub open spec fn icon_candidates() -> Seq<Seq<char>> {
    seq![
        "/usr/share/pixmaps/pika-logo.png"@,
        "/usr/share/pixmaps/pika-logo.svg"@,
        "/usr/share/pixmaps/pika-logo-duotone.svg"@,
        "/usr/share/icons/desktop-base/scalable/emblems/emblem-pika.svg"@,
    ]
}

/// The places where the distribution logo may be installed, in order of
/// preference.
pub fn pika_icon_candidates() -> (r: Vec<String>)
    ensures
        string_views(r@) == icon_candidates(),
{
    let r = vec![
        lit("/usr/share/pixmaps/pika-logo.png"),
        lit("/usr/share/pixmaps/pika-logo.svg"),
        lit("/usr/share/pixmaps/pika-logo-duotone.svg"),
        lit("/usr/share/icons/desktop-base/scalable/emblems/emblem-pika.svg"),
    ];
    assert(string_views(r@) =~= icon_candidates());
    r
}

/// The first candidate that is present; `present[i]` tells whether the `i`th
/// candidate of [`pika_icon_candidates`] is present.
pub fn find_pika_icon_path(present: &Vec<bool>) -> (r: Option<String>)
    ensures
        match r {
            Some(p) => exists|i: int|
                0 <= i < present@.len() && i < icon_candidates().len() && present@[i] && p@
                    == icon_candidates()[i] && forall|j: int| 0 <= j < i ==> !present@[j],
            None => forall|i: int|
                0 <= i < present@.len() && i < icon_candidates().len() ==> !present@[i],
        },
{
    let candidates = pika_icon_candidates();
    let mut i: usize = 0;
    while i < candidates.len() && i < present.len()
        invariant
            i <= candidates.len(),
            string_views(candidates@) == icon_candidates(),
            forall|j: int| 0 <= j < i ==> !present@[j],
        decreases candidates.len() - i,
    {
        if present[i] {
            let p = copy_string(&candidates[i]);
            assert(string_views(candidates@)[i as int] == candidates@[i as int]@);
            return Some(p);
        }
        i += 1;
    }
    None
}

// ---------------------------------------------------------------------------
// Where Flatpak details come from.
pub open spec fn flatpak_cmd(args: Seq<Seq<char>>) -> InvocationView {
    InvocationView { program: "flatpak"@, args, elevate: false }
}

/// The remotes asked, in order, when an application is not installed.
pub open spec fn known_remotes() -> Seq<Seq<char>> {
    seq!["flathub"@, "fedora"@, "gnome-nightly"@, "kdeapps"@, "elementary"@]
}

/// The commands tried in turn for an application's details: `flatpak info`
/// for an installed one, then `flatpak remote-info` on the known remotes.
pub open spec fn info_commands(app: Seq<char>) -> Seq<InvocationView> {
    seq![flatpak_cmd(seq!["info"@, app])] + known_remotes().map_values(
        |r: Seq<char>| flatpak_cmd(seq!["remote-info"@, r, app]),
    )
}

pub open spec fn invocation_views(v: Seq<Invocation>) -> Seq<InvocationView> {
    v.map_values(|i: Invocation| i@)
}

/// `flatpak remote-info <remote> <app>`.
pub fn remote_info_command(remote: &str, application: &str) -> (r: Invocation)
    ensures
        r@ == flatpak_cmd(seq!["remote-info"@, remote@, application@]),
{
    let args = vec![lit("remote-info"), lit(remote), lit(application)];
    let r = Invocation { program: lit("flatpak"), args, elevate: false };
    assert(r@.args =~= seq!["remote-info"@, remote@, application@]);
    r
}

pub fn flatpak_info_commands(application: &str) -> (r: Vec<Invocation>)
    ensures
        invocation_views(r@) == info_commands(application@),
{
    let info = Invocation {
        program: lit("flatpak"),
        args: vec![lit("info"), lit(application)],
        elevate: false,
    };
    assert(info@.args =~= seq!["info"@, application@]);
    let r = vec![
        info,
        remote_info_command("flathub", application),
        remote_info_command("fedora", application),
        remote_info_command("gnome-nightly", application),
        remote_info_command("kdeapps", application),
        remote_info_command("elementary", application),
    ];
    assert(invocation_views(r@) =~= info_commands(application@));
    r
}

/// `flatpak remotes --columns=name`, whose lines name every configured
/// remote; they are tried last.
pub fn flatpak_remotes_command() -> (r: Invocation)
    ensures
        r@ == flatpak_cmd(seq!["remotes"@, "--columns=name"@]),
{
    let r = Invocation {
        program: lit("flatpak"),
        args: vec![lit("remotes"), lit("--columns=name")],
        elevate: false,
    };
    assert(r@.args =~= seq!["remotes"@, "--columns=name"@]);
    r
}

/// The trimmed, non-empty lines of `ls`.
pub open spec fn remote_names(ls: Seq<Seq<char>>) -> Seq<Seq<char>>
    decreases ls.len(),
{
    if ls.len() == 0 {
        seq![]
    } else if trim(ls.last()).len() == 0 {
        remote_names(ls.drop_last())
    } else {
        remote_names(ls.drop_last()).push(trim(ls.last()))
    }
}

/// The remote names that `flatpak remotes --columns=name` printed.
pub fn parse_remote_names(output: &str) -> (r: Vec<String>)
    ensures
        string_views(r@) == remote_names(lines(output@)),
{
    let text = chars_of(output);
    let ls = split_lines(&text);
    let mut out: Vec<String> = Vec::new();
    let mut i: usize = 0;
    while i < ls.len()
        invariant
            i <= ls.len(),
            views(ls@) == lines(text@),
            string_views(out@) == remote_names(views(ls@).subrange(0, i as int)),
        decreases ls.len() - i,
    {
        let ghost pre = views(ls@).subrange(0, i as int);
        let ghost post = views(ls@).subrange(0, i + 1);
        assert(post.drop_last() =~= pre);
        assert(post.last() == ls@[i as int]@);
        let t = trim_chars(&ls[i]);
        if t.len() > 0 {
            let ghost before = string_views(out@);
            out.push(string_of(&t));
            assert(string_views(out@) =~= before.push(t@));
        }
        i += 1;
    }
    assert(views(ls@).subrange(0, i as int) =~= views(ls@));
    out
}

} // verus!
