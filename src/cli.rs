//! The command-line requests, and what each of them does.
use vstd::prelude::*;
use crate::commands::{
    clean_plan, flatpak_install_plan, flatpak_list_plan, flatpak_remove_plan,
    flatpak_upgrade_plan, install_plan, list_plan, opt_view, option_args, plan_result, purge_plan,
    remove_plan, run_plan, show_plan, single, update_plan, upgrade_plan, ask_unless, flag_if,
    CommandError, CommandPlan, Config, Confirmation, FlatpakManager, PackageManager,
    PackageManagerType, PlanView,
};
use crate::text::{lit, string_views};

verus! {

/// A parsed command line.
#[derive(Debug)]
pub struct Cli {
    pub command: Commands,
}

#[derive(Debug)]
pub enum Commands {
    Install {
        packages: Vec<String>,
        flatpak: bool,
        aur: bool,
        fedora: bool,
        alpine: bool,
        yes: bool,
    },
    Remove { packages: Vec<String>, flatpak: bool, yes: bool, autoremove: bool },
    Search { query: String, flatpak: bool },
    PikmanSearch { query: String },
    Update { flatpak: bool },
    Upgrade { packages: Vec<String>, flatpak: bool, yes: bool },
    List { upgradable: bool, flatpak: bool },
    Show { package: String, flatpak: bool },
    InstallDialog { packages: Vec<String>, flatpak: bool },
    RemoveDialog { packages: Vec<String>, flatpak: bool },
    ConflictDialog { packages: Vec<String>, message: Option<String>, output: Option<String> },
    Clean { flatpak: bool },
    Status,
    FlatpakInstall { packages: Vec<String>, yes: bool },
    FlatpakSearch { query: String },
    FlatpakUpdate,
    Pikman { subcommand: PikmanSubcommand },
}

#[derive(Debug)]
pub enum PikmanSubcommand {
    Autoremove { yes: bool },
    Enter { name: String },
    Export { package: String, name: Option<String> },
    Init { name: String, manager: Option<String> },
    Log,
    Purge { packages: Vec<String>, yes: bool },
    Run { name: String, command: Vec<String> },
    Upgrades,
    Unexport { package: String, name: Option<String> },
}

/// Which tools answered on this system, and the user settings.
#[derive(Debug)]
pub struct Tools {
    pub pikman_available: bool,
    pub apt_available: bool,
    pub flatpak_available: bool,
    pub config: Config,
}

/// What a request comes to.
#[derive(Debug)]
pub enum CliAction {
    /// Run these commands.
    Run(CommandPlan),
    /// Report the manager, refresh the lists, and show what can be upgraded.
    Status(PackageManager),
    InstallDialog { packages: Vec<String>, flatpak: bool },
    RemoveDialog { packages: Vec<String>, flatpak: bool },
    ConflictDialog { packages: Vec<String>, message: String, output: String },
}

pub enum ActionView {
    Run(PlanView),
    Status(PackageManagerType),
    InstallDialog(Seq<Seq<char>>, bool),
    RemoveDialog(Seq<Seq<char>>, bool),
    ConflictDialog(Seq<Seq<char>>, Seq<char>, Seq<char>),
}

pub open spec fn action_view(r: Result<CliAction, CommandError>) -> Result<ActionView, CommandError> {
    match r {
        Ok(CliAction::Run(p)) => Ok(ActionView::Run(p@)),
        Ok(CliAction::Status(pm)) => Ok(ActionView::Status(pm.manager)),
        Ok(CliAction::InstallDialog { packages, flatpak }) => Ok(
            ActionView::InstallDialog(string_views(packages@), flatpak),
        ),
        Ok(CliAction::RemoveDialog { packages, flatpak }) => Ok(
            ActionView::RemoveDialog(string_views(packages@), flatpak),
        ),
        Ok(CliAction::ConflictDialog { packages, message, output }) => Ok(
            ActionView::ConflictDialog(string_views(packages@), message@, output@),
        ),
        Err(e) => Err(e),
    }
}

pub open spec fn manager_of(t: Tools) -> Option<PackageManagerType> {
    if t.pikman_available {
        Some(PackageManagerType::Pikman)
    } else if t.apt_available {
        Some(PackageManagerType::Apt)
    } else {
        None
    }
}

pub open spec fn run_view(r: Result<PlanView, CommandError>) -> Result<ActionView, CommandError> {
    match r {
        Ok(p) => Ok(ActionView::Run(p)),
        Err(e) => Err(e),
    }
}

/// A request that the system package manager serves.
pub open spec fn with_manager(t: Tools, f: spec_fn(PackageManagerType) -> Result<PlanView, CommandError>) -> Result<
    ActionView,
    CommandError,
> {
    match manager_of(t) {
        Some(m) => run_view(f(m)),
        None => Err(CommandError::NoPackageManager),
    }
}

/// A request that the Flatpak tool serves.
pub open spec fn with_flatpak(t: Tools, r: Result<PlanView, CommandError>) -> Result<ActionView, CommandError> {
    if t.flatpak_available {
        run_view(r)
    } else {
        Err(CommandError::FlatpakMissing)
    }
}

pub open spec fn chosen_distro(aur: bool, fedora: bool, alpine: bool) -> Option<Seq<char>> {
    if aur {
        Some("aur"@)
    } else if fedora {
        Some("fedora"@)
    } else if alpine {
        Some("alpine"@)
    } else {
        None
    }
}

pub open spec fn opt_string(v: Option<String>) -> Option<Seq<char>> {
    match v {
        Some(x) => Some(x@),
        None => None,
    }
}

pub open spec fn pikman_outcome(s: PikmanSubcommand) -> Result<PlanView, CommandError> {
    match s {
        PikmanSubcommand::Autoremove { yes } => Ok(
            single(
                ask_unless(yes, Confirmation::RemoveUnused),
                "pikman"@,
                seq!["autoremove"@] + flag_if(yes, "-y"@),
                false,
                false,
            ),
        ),
        PikmanSubcommand::Enter { name } => Ok(
            single(None, "pikman"@, seq!["enter"@, name@], false, false),
        ),
        PikmanSubcommand::Export { package, name } => Ok(
            single(
                None,
                "pikman"@,
                seq!["export"@, package@] + option_args("--name"@, opt_string(name)),
                false,
                false,
            ),
        ),
        PikmanSubcommand::Init { name, manager } => Ok(
            single(
                None,
                "pikman"@,
                seq!["init"@, name@] + option_args("--manager"@, opt_string(manager)),
                false,
                false,
            ),
        ),
        PikmanSubcommand::Log => Ok(single(None, "pikman"@, seq!["log"@], false, true)),
        PikmanSubcommand::Purge { packages, yes } => purge_plan(string_views(packages@), yes),
        PikmanSubcommand::Run { name, command } => run_plan(name@, string_views(command@)),
        PikmanSubcommand::Upgrades => Ok(single(None, "pikman"@, seq!["upgrades"@], false, true)),
        PikmanSubcommand::Unexport { package, name } => Ok(
            single(
                None,
                "pikman"@,
                seq!["unexport"@, package@] + option_args("--name"@, opt_string(name)),
                false,
                false,
            ),
        ),
    }
}

/// What a request comes to, given the tools that answered.
pub open spec fn cli_outcome(c: Commands, t: Tools) -> Result<ActionView, CommandError> {
    match c {
        Commands::Install { packages, flatpak, aur, fedora, alpine, yes } => if flatpak {
            with_flatpak(t, flatpak_install_plan(string_views(packages@), yes))
        } else {
            with_manager(
                t,
                |m: PackageManagerType|
                    install_plan(m, string_views(packages@), yes, chosen_distro(aur, fedora, alpine)),
            )
        },
        Commands::Remove { packages, flatpak, yes, autoremove } => if flatpak {
            with_flatpak(t, flatpak_remove_plan(string_views(packages@), yes))
        } else {
            with_manager(
                t,
                |m: PackageManagerType| remove_plan(m, string_views(packages@), yes, autoremove),
            )
        },
        Commands::Search { query, flatpak } => if flatpak {
            with_flatpak(t, Ok(single(None, "flatpak"@, seq!["search"@, query@], false, true)))
        } else {
            with_manager(
                t,
                |m: PackageManagerType| Ok(single(None, "apt"@, seq!["search"@, query@], false, true)),
            )
        },
        Commands::PikmanSearch { query } => with_manager(
            t,
            |m: PackageManagerType| Ok(single(None, "pikman"@, seq!["search"@, query@], false, true)),
        ),
        Commands::Update { flatpak } => if flatpak {
            with_flatpak(
                t,
                Ok(single(None, "flatpak"@, seq!["update"@, "--noninteractive"@], false, false)),
            )
        } else {
            with_manager(t, |m: PackageManagerType| Ok(update_plan(m)))
        },
        Commands::Upgrade { packages, flatpak, yes } => if flatpak {
            with_flatpak(t, Ok(flatpak_upgrade_plan(string_views(packages@), yes)))
        } else {
            with_manager(t, |m: PackageManagerType| Ok(upgrade_plan(m, string_views(packages@), yes)))
        },
        Commands::List { upgradable, flatpak } => if flatpak {
            with_flatpak(t, Ok(flatpak_list_plan(upgradable)))
        } else {
            with_manager(t, |m: PackageManagerType| Ok(list_plan(m, upgradable)))
        },
        Commands::Show { package, flatpak } => if flatpak {
            with_flatpak(t, Ok(single(None, "flatpak"@, seq!["info"@, package@], false, true)))
        } else {
            with_manager(t, |m: PackageManagerType| Ok(show_plan(m, package@)))
        },
        Commands::InstallDialog { packages, flatpak } => Ok(
            ActionView::InstallDialog(string_views(packages@), flatpak),
        ),
        Commands::RemoveDialog { packages, flatpak } => Ok(
            ActionView::RemoveDialog(string_views(packages@), flatpak),
        ),
        Commands::ConflictDialog { packages, message, output } => Ok(
            ActionView::ConflictDialog(
                string_views(packages@),
                match message {
                    Some(m) => m@,
                    None => "Unknown conflict"@,
                },
                match output {
                    Some(o) => o@,
                    None => seq![],
                },
            ),
        ),
        Commands::Clean { flatpak } => if flatpak {
            with_flatpak(
                t,
                Ok(single(None, "flatpak"@, seq!["uninstall"@, "--unused"@, "-y"@], false, false)),
            )
        } else {
            with_manager(t, |m: PackageManagerType| Ok(clean_plan(m)))
        },
        Commands::Status => match manager_of(t) {
            Some(m) => Ok(ActionView::Status(m)),
            None => Err(CommandError::NoPackageManager),
        },
        Commands::FlatpakInstall { packages, yes } => with_flatpak(
            t,
            flatpak_install_plan(string_views(packages@), yes),
        ),
        Commands::FlatpakSearch { query } => with_flatpak(
            t,
            Ok(single(None, "flatpak"@, seq!["search"@, query@], false, true)),
        ),
        Commands::FlatpakUpdate => with_flatpak(
            t,
            Ok(single(None, "flatpak"@, seq!["update"@, "--noninteractive"@], false, false)),
        ),
        Commands::Pikman { subcommand } => with_manager(
            t,
            |m: PackageManagerType| pikman_outcome(subcommand),
        ),
    }
}

fn ok_run(p: CommandPlan) -> (r: Result<CliAction, CommandError>)
    ensures
        action_view(r) == run_view(Ok(p@)),
{
    Ok(CliAction::Run(p))
}

fn lift(r: Result<CommandPlan, CommandError>) -> (a: Result<CliAction, CommandError>)
    ensures
        action_view(a) == run_view(plan_result(r)),
{
    match r {
        Ok(p) => Ok(CliAction::Run(p)),
        Err(e) => Err(e),
    }
}

fn opt_str(v: &Option<String>) -> (r: Option<&str>)
    ensures
        opt_view(r) == opt_string(*v),
{
    match v {
        Some(x) => Some(x.as_str()),
        None => None,
    }
}

impl Cli {
    /// Turns the request into what is to be done: commands to run, or a
    /// dialog to open. The system package manager is the meta-manager when
    /// it answered, else the system tool.
    pub fn run(self, tools: Tools) -> (r: Result<CliAction, CommandError>)
        ensures
            action_view(r) == cli_outcome(self.command, tools),
    {
        let pm = PackageManager::new(tools.pikman_available, tools.apt_available, tools.config);
        let fm = FlatpakManager::new(tools.flatpak_available);
        match self.command {
            Commands::Install { packages, flatpak, aur, fedora, alpine, yes } => {
                if flatpak {
                    match fm {
                        Ok(f) => lift(f.install(&packages, yes)),
                        Err(e) => Err(e),
                    }
                } else {
                    let distro = if aur {
                        Some("aur")
                    } else if fedora {
                        Some("fedora")
                    } else if alpine {
                        Some("alpine")
                    } else {
                        None
                    };
                    assert(opt_view(distro) == chosen_distro(aur, fedora, alpine));
                    match pm {
                        Ok(p) => lift(p.install(&packages, yes, distro)),
                        Err(e) => Err(e),
                    }
                }
            },
            Commands::Remove { packages, flatpak, yes, autoremove } => {
                if flatpak {
                    match fm {
                        Ok(f) => lift(f.remove(&packages, yes)),
                        Err(e) => Err(e),
                    }
                } else {
                    match pm {
                        Ok(p) => lift(p.remove(&packages, yes, autoremove)),
                        Err(e) => Err(e),
                    }
                }
            },
            Commands::Search { query, flatpak } => {
                if flatpak {
                    match fm {
                        Ok(f) => ok_run(f.search(query.as_str())),
                        Err(e) => Err(e),
                    }
                } else {
                    match pm {
                        Ok(p) => ok_run(p.search(query.as_str())),
                        Err(e) => Err(e),
                    }
                }
            },
            Commands::PikmanSearch { query } => match pm {
                Ok(p) => ok_run(p.pikman_search(query.as_str())),
                Err(e) => Err(e),
            },
            Commands::Update { flatpak } => {
                if flatpak {
                    match fm {
                        Ok(f) => ok_run(f.update()),
                        Err(e) => Err(e),
                    }
                } else {
                    match pm {
                        Ok(p) => ok_run(p.update()),
                        Err(e) => Err(e),
                    }
                }
            },
            Commands::Upgrade { packages, flatpak, yes } => {
                if flatpak {
                    match fm {
                        Ok(f) => ok_run(f.upgrade(&packages, yes)),
                        Err(e) => Err(e),
                    }
                } else {
                    match pm {
                        Ok(p) => ok_run(p.upgrade(&packages, yes)),
                        Err(e) => Err(e),
                    }
                }
            },
            Commands::List { upgradable, flatpak } => {
                if flatpak {
                    match fm {
                        Ok(f) => ok_run(f.list(upgradable)),
                        Err(e) => Err(e),
                    }
                } else {
                    match pm {
                        Ok(p) => ok_run(p.list(upgradable)),
                        Err(e) => Err(e),
                    }
                }
            },
            Commands::Show { package, flatpak } => {
                if flatpak {
                    match fm {
                        Ok(f) => ok_run(f.show(package.as_str())),
                        Err(e) => Err(e),
                    }
                } else {
                    match pm {
                        Ok(p) => ok_run(p.show(package.as_str())),
                        Err(e) => Err(e),
                    }
                }
            },
            Commands::InstallDialog { packages, flatpak } => Ok(
                CliAction::InstallDialog { packages, flatpak },
            ),
            Commands::RemoveDialog { packages, flatpak } => Ok(
                CliAction::RemoveDialog { packages, flatpak },
            ),
            Commands::ConflictDialog { packages, message, output } => {
                let message = match message {
                    Some(m) => m,
                    None => lit("Unknown conflict"),
                };
                let output = match output {
                    Some(o) => o,
                    None => String::new(),
                };
                Ok(CliAction::ConflictDialog { packages, message, output })
            },
            Commands::Clean { flatpak } => {
                if flatpak {
                    match fm {
                        Ok(f) => ok_run(f.clean()),
                        Err(e) => Err(e),
                    }
                } else {
                    match pm {
                        Ok(p) => ok_run(p.clean()),
                        Err(e) => Err(e),
                    }
                }
            },
            Commands::Status => match pm {
                Ok(p) => Ok(CliAction::Status(p)),
                Err(e) => Err(e),
            },
            Commands::FlatpakInstall { packages, yes } => match fm {
                Ok(f) => lift(f.install(&packages, yes)),
                Err(e) => Err(e),
            },
            Commands::FlatpakSearch { query } => match fm {
                Ok(f) => ok_run(f.search(query.as_str())),
                Err(e) => Err(e),
            },
            Commands::FlatpakUpdate => match fm {
                Ok(f) => ok_run(f.update()),
                Err(e) => Err(e),
            },
            Commands::Pikman { subcommand } => match pm {
                Ok(p) => match subcommand {
                    PikmanSubcommand::Autoremove { yes } => ok_run(p.pikman_autoremove(yes)),
                    PikmanSubcommand::Enter { name } => ok_run(p.pikman_enter(name.as_str())),
                    PikmanSubcommand::Export { package, name } => ok_run(
                        p.pikman_export(package.as_str(), opt_str(&name)),
                    ),
                    PikmanSubcommand::Init { name, manager } => ok_run(
                        p.pikman_init(name.as_str(), opt_str(&manager)),
                    ),
                    PikmanSubcommand::Log => ok_run(p.pikman_log()),
                    PikmanSubcommand::Purge { packages, yes } => lift(p.pikman_purge(&packages, yes)),
                    PikmanSubcommand::Run { name, command } => lift(
                        p.pikman_run(name.as_str(), &command),
                    ),
                    PikmanSubcommand::Upgrades => ok_run(p.pikman_upgrades()),
                    PikmanSubcommand::Unexport { package, name } => ok_run(
                        p.pikman_unexport(package.as_str(), opt_str(&name)),
                    ),
                },
                Err(e) => Err(e),
            },
        }
    }
}

} // verus!
