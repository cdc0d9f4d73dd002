use birdnest::cli::{ActionView, Cli, CliAction, Commands, PikmanSubcommand, Tools};
use birdnest::commands::{CommandError, Config, Confirmation, FlatpakManager, PackageManager, PackageManagerType};
use birdnest::details::{
    find_pika_icon_path, flatpak_detail, flatpak_info_commands, flatpak_remotes_command, meta_detail,
    parse_remote_names, parse_show_output, system_detail,
};
use birdnest::installed::parse_dpkg_query_output;
use birdnest::meta_search::{elevated_search_command, search_command, search_needs_elevation, search_outcome};
use birdnest::process::{elevation_helper, forwarded_env_names, is_auth_failure, to_command_line, Invocation};

fn strings(v: &[&str]) -> Vec<String> {
    v.iter().map(|s| s.to_string()).collect()
}

fn tools(pikman: bool, apt: bool, flatpak: bool) -> Tools {
    Tools { pikman_available: pikman, apt_available: apt, flatpak_available: flatpak, config: Config::default() }
}

#[test]
fn show_output_fields_and_defaults() {
    let out = "Package: vim\nVersion: 2:9.1.0016-1\nInstalled-Size: 4096\nDescription: Vi IMproved - enhanced vi editor\n Vim is an almost compatible version of the UNIX editor Vi.\n";
    let f = parse_show_output(out);
    assert_eq!(f.version, "2:9.1.0016-1");
    assert_eq!(f.installed_size, "4096");
    assert_eq!(f.description, "Vi IMproved - enhanced vi editor");
    let d = system_detail("vim".to_string(), f, "4.00 MB".to_string());
    assert_eq!(d.size, "4.00 MB");
    assert!(!d.is_flatpak);
    let empty = system_detail("x".to_string(), parse_show_output(""), String::new());
    assert_eq!(empty.version, "Unknown");
    assert_eq!(empty.description, "No description available");
    assert_eq!(empty.size, "Unknown");
}

#[test]
fn flatpak_info_title_and_sizes() {
    let out = "\nFirefox - Fast, Private & Safe Web Browser\n\n          ID: org.mozilla.firefox\n     Version: 128.0\n    Download: 100 MB\n   Installed: 250 MB\n";
    let d = flatpak_detail("org.mozilla.firefox".to_string(), out);
    assert_eq!(d.description, "Fast, Private & Safe Web Browser");
    assert_eq!(d.version, "128.0");
    assert_eq!(d.size, "Download: 100 MB / Installed: 250 MB");
    assert!(d.is_flatpak);
    let old = flatpak_detail("a.b".to_string(), "Ref: x\nInstalled size: 3 MB\n");
    assert_eq!(old.size, "3 MB");
    assert_eq!(old.description, "No description available");
}

#[test]
fn meta_show_second_field() {
    let d = meta_detail("yay".to_string(), Some("Version: 12.3\nRepository: aur\nSize: 5 MiB\nDescription: helper: extra\n"));
    assert_eq!(d.version, "12.3");
    assert_eq!(d.repository, "aur");
    assert_eq!(d.size, "5 MiB");
    assert_eq!(d.description, "helper");
    let missing = meta_detail("x".to_string(), None);
    assert_eq!(missing.description, "Package information not available");
    assert_eq!(missing.version, "Unknown");
}

#[test]
fn dpkg_query_fallback_lines() {
    let r = parse_dpkg_query_output("bash\t5.2-1\n\n\t1.0\nnotab\nzlib1g \t 1:1.3 \n");
    let pairs: Vec<(&str, &str)> = r.iter().map(|p| (p.name.as_str(), p.version.as_str())).collect();
    assert_eq!(pairs, vec![("bash", "5.2-1"), ("zlib1g", "1:1.3")]);
}

#[test]
fn icon_path_first_present() {
    assert_eq!(find_pika_icon_path(&vec![false, true, true, false]).as_deref(), Some("/usr/share/pixmaps/pika-logo.svg"));
    assert_eq!(find_pika_icon_path(&vec![false, false, false, false]), None);
}

#[test]
fn package_manager_plans() {
    let pm = PackageManager::new(true, true, Config::default()).unwrap();
    assert_eq!(pm.manager, PackageManagerType::Pikman);
    let plan = pm.install(&strings(&["firefox"]), true, Some("aur")).unwrap();
    assert_eq!(plan.confirm, None);
    assert_eq!(plan.steps[0].program, "pikman");
    assert_eq!(plan.steps[0].args, strings(&["install", "--aur", "firefox", "-y"]));
    let plan = pm.remove(&strings(&["a", "b"]), false, true).unwrap();
    assert_eq!(plan.confirm, Some(Confirmation::Remove(2)));
    assert_eq!(plan.steps[0].args, strings(&["remove", "a", "b", "--autoremove"]));
    assert_eq!(pm.install(&Vec::new(), true, None).unwrap_err(), CommandError::NoPackages);
    assert_eq!(pm.pikman_run("box", &Vec::new()).unwrap_err(), CommandError::NoCommand);
    let apt = PackageManager::new(false, true, Config::default()).unwrap();
    assert_eq!(apt.install(&strings(&["x"]), true, Some("fedora")).unwrap_err(), CommandError::DistroNeedsPikman);
    let plan = apt.install(&strings(&["x"]), false, None).unwrap();
    assert_eq!(plan.steps[0].args, strings(&["install", "-y", "x"]));
    assert!(plan.steps[0].elevate);
    assert_eq!(apt.clean().steps.len(), 2);
    assert_eq!(apt.upgrade(&strings(&["x"]), true).steps[0].args, strings(&["install", "--upgrade", "-y", "x"]));
    assert_eq!(apt.list(false).steps[0].program, "dpkg");
    assert!(PackageManager::new(false, false, Config::default()).is_err());
    assert_eq!(pm.pikman_export("code", Some("arch")).steps[0].args, strings(&["export", "code", "--name", "arch"]));
    assert_eq!(CommandError::NoPackages.message(), "No packages specified");
}

#[test]
fn flatpak_manager_plans() {
    assert_eq!(FlatpakManager::new(false).unwrap_err(), CommandError::FlatpakMissing);
    let fm = FlatpakManager::new(true).unwrap();
    let plan = fm.remove(&strings(&["org.a.B"]), false).unwrap();
    assert_eq!(plan.confirm, Some(Confirmation::RemoveFlatpaks(1)));
    assert_eq!(plan.steps[0].args, strings(&["uninstall", "-y", "org.a.B"]));
    assert_eq!(fm.clean().steps[0].args, strings(&["uninstall", "--unused", "-y"]));
    assert!(fm.list(true).capture);
}

#[test]
fn cli_dispatch() {
    let cli = Cli { command: Commands::Install { packages: strings(&["vim"]), flatpak: false, aur: false, fedora: true, alpine: false, yes: true } };
    match cli.run(tools(true, false, false)).unwrap() {
        CliAction::Run(p) => assert_eq!(p.steps[0].args, strings(&["install", "--fedora", "vim", "-y"])),
        _ => panic!(),
    }
    let cli = Cli { command: Commands::Search { query: "x".to_string(), flatpak: true } };
    assert_eq!(cli.run(tools(true, true, false)).unwrap_err(), CommandError::FlatpakMissing);
    let cli = Cli { command: Commands::Pikman { subcommand: PikmanSubcommand::Log } };
    assert_eq!(cli.run(tools(false, false, true)).unwrap_err(), CommandError::NoPackageManager);
    let cli = Cli { command: Commands::ConflictDialog { packages: strings(&["a"]), message: None, output: None } };
    match cli.run(tools(false, false, false)).unwrap() {
        CliAction::ConflictDialog { message, output, .. } => {
            assert_eq!(message, "Unknown conflict");
            assert_eq!(output, "");
        }
        _ => panic!(),
    }
    let _unused: Option<ActionView> = None;
}

#[test]
fn elevation_and_command_line() {
    assert_eq!(elevation_helper(true, true), None);
    assert_eq!(elevation_helper(false, true).as_deref(), Some("pkexec"));
    assert_eq!(elevation_helper(false, false).as_deref(), Some("sudo"));
    assert!(is_auth_failure(Some(126)) && is_auth_failure(Some(127)));
    assert!(!is_auth_failure(Some(1)) && !is_auth_failure(None));
    assert_eq!(forwarded_env_names(), strings(&["DISPLAY", "XAUTHORITY", "WAYLAND_DISPLAY"]));
    let inv = Invocation { program: "apt".to_string(), args: strings(&["install", "-y", "x"]), elevate: true };
    let (p, a) = to_command_line(&inv, &Some("pkexec".to_string()));
    assert_eq!(p, "pkexec");
    assert_eq!(a, strings(&["apt", "install", "-y", "x"]));
    let (p, a) = to_command_line(&inv, &None);
    assert_eq!(p, "apt");
    assert_eq!(a, strings(&["install", "-y", "x"]));
}

#[test]
fn meta_search_command_and_retry() {
    let inv = search_command("vim", &Some("alpine".to_string()));
    assert_eq!(inv.program, "pikman");
    assert_eq!(inv.args, strings(&["--alpine", "search", "vim"]));
    assert_eq!(search_command("vim", &None).args, strings(&["search", "vim"]));
    assert!(search_needs_elevation(Some(2), "Permission denied"));
    assert!(search_needs_elevation(Some(1), "run with sudo"));
    assert!(!search_needs_elevation(Some(2), "run with sudo"));
    assert!(!search_needs_elevation(Some(1), "not found"));
}

#[test]
fn flatpak_info_fallback_order() {
    let cmds = flatpak_info_commands("org.gimp.GIMP");
    let args: Vec<Vec<String>> = cmds.iter().map(|c| c.args.clone()).collect();
    assert_eq!(args[0], strings(&["info", "org.gimp.GIMP"]));
    assert_eq!(args[1], strings(&["remote-info", "flathub", "org.gimp.GIMP"]));
    assert_eq!(args[5], strings(&["remote-info", "elementary", "org.gimp.GIMP"]));
    assert_eq!(cmds.len(), 6);
    assert!(cmds.iter().all(|c| c.program == "flatpak" && !c.elevate));
    assert_eq!(flatpak_remotes_command().args, strings(&["remotes", "--columns=name"]));
    assert_eq!(parse_remote_names("flathub\n\n  beta  \n"), strings(&["flathub", "beta"]));
}

#[test]
fn meta_search_outcomes() {
    let inv = elevated_search_command("vim", &Some("aur".to_string()));
    assert!(inv.elevate);
    assert_eq!(inv.args, strings(&["--aur", "search", "vim"]));
    let ok = search_outcome(Some(0), "core/vim 9.1 (1 MiB)\n", "", false, Some("aur".to_string())).unwrap();
    assert_eq!(ok[0].name, "vim");
    assert_eq!(
        search_outcome(Some(126), "", "x", true, None).unwrap_err(),
        "Authentication cancelled or failed. Please try again."
    );
    assert_eq!(search_outcome(Some(126), "", "x", false, None).unwrap_err(), "Search failed: x");
    assert_eq!(search_outcome(Some(2), "", "boom", true, None).unwrap_err(), "Search failed: boom");
}
