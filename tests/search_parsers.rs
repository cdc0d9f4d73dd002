use birdnest::flatpak_search::{parse_flatpak_list_output, parse_flatpak_search_output};
use birdnest::meta_search::{parse_pikman_search_output, parse_search_output, DistroType};
use birdnest::records::PackageSource;
use birdnest::search::parse_apt_cache_search_output;

#[test]
fn system_search_example_two_records() {
    let r = parse_apt_cache_search_output("firefox - A web browser\nvim - Vi IMproved\n");
    assert_eq!(r.len(), 2);
    assert_eq!(r[0].name, "firefox");
    assert_eq!(r[0].description, "A web browser");
    assert_eq!(r[0].version, "");
    assert_eq!(r[0].source, PackageSource::Default);
    assert_eq!(r[1].name, "vim");
    assert_eq!(r[1].description, "Vi IMproved");
    assert_eq!(r[1].version, "");
    assert_eq!(r[1].source, PackageSource::Default);
}

#[test]
fn system_search_keeps_first_of_equal_names() {
    let r = parse_apt_cache_search_output(
        "vim - first\nnano - editor\nvim - second\nVim - other case\n",
    );
    let names: Vec<&str> = r.iter().map(|p| p.name.as_str()).collect();
    assert_eq!(names, vec!["vim", "nano", "Vim"]);
    assert_eq!(r[0].description, "first");
}

#[test]
fn system_search_version_and_malformed_lines() {
    let r = parse_apt_cache_search_output("\n  \ncurl/8.5.0 - transfer tool\nno separator here\n/1.0 - nameless\n");
    assert_eq!(r.len(), 1);
    assert_eq!(r[0].name, "curl");
    assert_eq!(r[0].version, "8.5.0");
    assert_eq!(r[0].description, "transfer tool");
}

#[test]
fn system_search_empty_input() {
    assert!(parse_apt_cache_search_output("").is_empty());
}

#[test]
fn flatpak_search_continuation_adds_one_space() {
    let out = "Extension Manager\tInstall GNOME Extensions\tcom.mattjakeman.ExtensionManager\t0.6.5\tstable\tflathub\n   and manage them  \n";
    let r = parse_flatpak_search_output(out);
    assert_eq!(r.len(), 1);
    assert_eq!(r[0].name, "Extension Manager");
    assert_eq!(r[0].application, "com.mattjakeman.ExtensionManager");
    assert_eq!(r[0].version, "0.6.5");
    assert_eq!(r[0].description, "Install GNOME Extensions and manage them");
}

#[test]
fn flatpak_search_blank_line_ends_record_and_defaults() {
    let out = "App\t\torg.example.App\n\nOther\tDesc\torg.example.Other\n";
    let r = parse_flatpak_search_output(out);
    assert_eq!(r.len(), 2);
    assert_eq!(r[0].description, "No description");
    assert_eq!(r[0].version, "");
    assert_eq!(r[1].name, "Other");
    assert_eq!(r[1].description, "Desc");
}

#[test]
fn flatpak_list_pairs() {
    let r = parse_flatpak_list_output("Firefox\torg.mozilla.firefox\nbroken line\n\nGIMP\torg.gimp.GIMP\n");
    assert_eq!(r.len(), 2);
    assert_eq!(r[0].name, "Firefox");
    assert_eq!(r[0].application, "org.mozilla.firefox");
    assert_eq!(r[1].application, "org.gimp.GIMP");
    assert_eq!(r[1].description, "");
}

#[test]
fn meta_default_dialect_with_continuation() {
    let out = "Warning: banner\nhello/2.12 GNU hello\n  prints a greeting\n\nfoo/1.0 bar\n";
    let r = parse_pikman_search_output(out, None);
    assert_eq!(r.len(), 2);
    assert_eq!(r[0].name, "hello");
    assert_eq!(r[0].version, "2.12");
    assert_eq!(r[0].description, "GNU hello prints a greeting");
    assert_eq!(r[1].name, "foo");
    assert_eq!(r[1].source, PackageSource::Default);
}

#[test]
fn meta_aur_dialect_header_and_description() {
    let out = "extra/firefox 128.0-1 (70.1 MiB 250.3 MiB) [installed]\n    Fast browser\n    from Mozilla\naur/yay 12.3 (1 MiB)\n";
    let r = parse_pikman_search_output(out, Some("aur".to_string()));
    assert_eq!(r.len(), 2);
    assert_eq!(r[0].name, "firefox");
    assert_eq!(r[0].version, "128.0-1");
    assert_eq!(r[0].size, "70.1 / MiB");
    assert_eq!(r[0].description, "Fast browser from Mozilla");
    assert_eq!(r[0].source, PackageSource::Aur);
    assert_eq!(r[1].name, "yay");
    assert_eq!(r[1].size, "1 / MiB");
}

#[test]
fn meta_aur_single_size_token() {
    let r = parse_pikman_search_output("core/bash 5.2 (9MiB)\n", Some("aur".to_string()));
    assert_eq!(r[0].size, "9MiB");
    assert_eq!(r[0].version, "5.2");
}

#[test]
fn meta_fedora_dialect_name_before_last_dot() {
    let out = "Updating metadata\nvim-enhanced.x86_64\tVi improved\nnano.x86_64   small   editor\nlonely.noarch\n";
    let r = parse_pikman_search_output(out, Some("fedora".to_string()));
    assert_eq!(r.len(), 3);
    assert_eq!(r[0].name, "vim-enhanced");
    assert_eq!(r[0].description, "Vi improved");
    assert_eq!(r[0].version, "");
    assert_eq!(r[1].name, "nano");
    assert_eq!(r[1].description, "small editor");
    assert_eq!(r[2].name, "lonely");
    assert_eq!(r[2].source, PackageSource::Fedora);
}

#[test]
fn meta_alpine_dialect_version_needs_digit() {
    let out = "busybox-1.36.1-r5\nalpine-base\n!!! banner\n";
    let r = parse_pikman_search_output(out, Some("alpine".to_string()));
    assert_eq!(r.len(), 2);
    assert_eq!(r[0].name, "busybox-1.36.1");
    assert_eq!(r[0].version, "r5");
    assert_eq!(r[1].name, "alpine-base");
    assert_eq!(r[1].version, "");
    assert_eq!(r[1].source, PackageSource::Alpine);
}

#[test]
fn unknown_filter_uses_default_dialect() {
    let r = parse_pikman_search_output("pkg/1 d\n", Some("other".to_string()));
    assert_eq!(r[0].source, PackageSource::Default);
    assert_eq!(r[0].name, "pkg");
}

#[test]
fn listing_parser_appends_indented_text() {
    let r = parse_search_output("zsh/5.9 shell\n  with extras\n\nbash/5.2 other\n");
    assert_eq!(r.len(), 2);
    assert_eq!(r[0].description, "shell with extras");
    assert_eq!(r[1].version, "5.2");
}

#[test]
fn distro_type_labels_and_flags() {
    assert_eq!(DistroType::all().len(), 4);
    assert_eq!(DistroType::Aur.as_str(), "AUR (Arch)");
    assert_eq!(DistroType::Default.to_pikman_flag(), None);
    assert_eq!(DistroType::Fedora.to_pikman_flag(), Some("--fedora"));
    assert_eq!(PackageSource::Default.as_str(), "System");
}

#[test]
fn search_results_prefix_then_substring_then_rest() {
    let r = parse_apt_cache_search_output(
        "libvim - library\nzsh - shell with vim keys\nvim-gtk - gui\nneovim - fork\nVim - caps\nabc - other\n",
    );
    let ranked = birdnest::ranking::rank_search_results(r, "VIM");
    let names: Vec<&str> = ranked.iter().map(|p| p.name.as_str()).collect();
    assert_eq!(names, vec!["Vim", "vim-gtk", "libvim", "neovim", "abc", "zsh"]);
}

#[test]
fn flatpak_continuation_after_crlf_record() {
    let r = parse_flatpak_search_output("App\tDesc\torg.example.App\r\n  more text \n");
    assert_eq!(r.len(), 1);
    assert_eq!(r[0].application, "org.example.App");
    assert_eq!(r[0].description, "Desc more text");
    assert_eq!(parse_flatpak_search_output("App\tDesc\torg.example.App\r")[0].description, "Desc");
}
