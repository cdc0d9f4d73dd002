//! The command-line front end's decisions: which external commands a
//! request runs, after which confirmation, or why it is refused.
use vstd::prelude::*;
use crate::meta_search::{distro_flag, filter_kind, DistroType};
use crate::operation::push_all;
use crate::process::{Invocation, InvocationView};
use crate::text::{lit, string_views};

verus! {

/// User settings.
#[derive(Debug, Clone)]
pub struct Config {
    pub package_manager: String,
    pub auto_confirm: bool,
    pub flatpak_enabled: bool,
}

impl Default for Config {
    fn default() -> (r: Config)
        ensures
            r.package_manager@ == "auto"@,
            !r.auto_confirm,
            r.flatpak_enabled,
    {
        Config { package_manager: lit("auto"), auto_confirm: false, flatpak_enabled: true }
    }
}

/// The system tool that carries out requests.
#[derive(Debug, Clone, Copy, PartialEq, Eq, Structural)]
pub enum PackageManagerType {
    Pikman,
    Apt,
}

/// Why a request is refused.
#[derive(Debug, Clone, Copy, PartialEq, Eq, Structural)]
pub enum CommandError {
    NoPackageManager,
    FlatpakMissing,
    NoPackages,
    NoCommand,
    DistroNeedsPikman,
}

impl CommandError {
    pub fn message(&self) -> (r: &'static str)
        ensures
            r@ == error_text(*self),
    {
        match self {
            CommandError::NoPackageManager => "No supported package manager found (pikman or apt)",
            CommandError::FlatpakMissing => "flatpak is not installed",
            CommandError::NoPackages => "No packages specified",
            CommandError::NoCommand => "No command specified",
            CommandError::DistroNeedsPikman => "Distro-specific flags (--aur, --fedora, --alpine) only work with pikman",
        }
    }
}

pub open spec fn error_text(e: CommandError) -> Seq<char> {
    match e {
        CommandError::NoPackageManager => "No supported package manager found (pikman or apt)"@,
        CommandError::FlatpakMissing => "flatpak is not installed"@,
        CommandError::NoPackages => "No packages specified"@,
        CommandError::NoCommand => "No command specified"@,
        CommandError::DistroNeedsPikman => "Distro-specific flags (--aur, --fedora, --alpine) only work with pikman"@,
    }
}

/// The question asked before a request runs, unless confirmation was given
/// up front.
#[derive(Debug, Clone, Copy, PartialEq, Eq, Structural)]
pub enum Confirmation {
    Install(usize),
    Remove(usize),
    Upgrade,
    RemoveUnused,
    Purge(usize),
    InstallFlatpaks(usize),
    RemoveFlatpaks(usize),
    UpgradeFlatpaks,
}

/// The commands a request runs, in order, and the question asked first.
/// With `capture`, the output is collected and printed; otherwise the
/// command talks to the terminal directly.
#[derive(Debug)]
pub struct CommandPlan {
    pub confirm: Option<Confirmation>,
    pub steps: Vec<Invocation>,
    pub capture: bool,
}

pub struct PlanView {
    pub confirm: Option<Confirmation>,
    pub steps: Seq<InvocationView>,
    pub capture: bool,
}

impl View for CommandPlan {
    type V = PlanView;

    open spec fn view(&self) -> PlanView {
        PlanView {
            confirm: self.confirm,
            steps: self.steps@.map_values(|i: Invocation| i@),
            capture: self.capture,
        }
    }
}

pub open spec fn ask_unless(yes: bool, c: Confirmation) -> Option<Confirmation> {
    if yes {
        None
    } else {
        Some(c)
    }
}

pub open spec fn flag_if(b: bool, a: Seq<char>) -> Seq<Seq<char>> {
    if b {
        seq![a]
    } else {
        seq![]
    }
}

pub open spec fn option_args(flag: Seq<char>, v: Option<Seq<char>>) -> Seq<Seq<char>> {
    match v {
        Some(x) => seq![flag, x],
        None => seq![],
    }
}

/// A plan of one command.
pub open spec fn single(
    confirm: Option<Confirmation>,
    program: Seq<char>,
    args: Seq<Seq<char>>,
    elevate: bool,
    capture: bool,
) -> PlanView {
    PlanView {
        confirm,
        steps: seq![InvocationView { program, args, elevate }],
        capture,
    }
}

pub open spec fn opt_view(v: Option<&str>) -> Option<Seq<char>> {
    match v {
        Some(x) => Some(x@),
        None => None,
    }
}

pub open spec fn plan_result(r: Result<CommandPlan, CommandError>) -> Result<PlanView, CommandError> {
    match r {
        Ok(p) => Ok(p@),
        Err(e) => Err(e),
    }
}

/// The distribution flag that a `--aur`, `--fedora` or `--alpine` choice adds.
pub open spec fn distro_args(distro: Option<Seq<char>>) -> Seq<Seq<char>> {
    match distro {
        Some(d) => match distro_flag(filter_kind(Some(d))) {
            Some(f) => seq![f],
            None => seq![],
        },
        None => seq![],
    }
}

pub open spec fn install_plan(
    m: PackageManagerType,
    ps: Seq<Seq<char>>,
    yes: bool,
    distro: Option<Seq<char>>,
) -> Result<PlanView, CommandError> {
    if ps.len() == 0 {
        Err(CommandError::NoPackages)
    } else if m == PackageManagerType::Pikman {
        Ok(
            single(
                ask_unless(yes, Confirmation::Install(ps.len() as usize)),
                "pikman"@,
                seq!["install"@] + distro_args(distro) + ps + flag_if(yes, "-y"@),
                false,
                false,
            ),
        )
    } else if distro is Some {
        Err(CommandError::DistroNeedsPikman)
    } else {
        Ok(
            single(
                ask_unless(yes, Confirmation::Install(ps.len() as usize)),
                "apt"@,
                seq!["install"@, "-y"@] + ps,
                true,
                false,
            ),
        )
    }
}

pub open spec fn remove_plan(m: PackageManagerType, ps: Seq<Seq<char>>, yes: bool, autoremove: bool) -> Result<
    PlanView,
    CommandError,
> {
    if ps.len() == 0 {
        Err(CommandError::NoPackages)
    } else if m == PackageManagerType::Pikman {
        Ok(
            single(
                ask_unless(yes, Confirmation::Remove(ps.len() as usize)),
                "pikman"@,
                seq!["remove"@] + ps + flag_if(yes, "-y"@) + flag_if(autoremove, "--autoremove"@),
                false,
                false,
            ),
        )
    } else {
        Ok(
            single(
                ask_unless(yes, Confirmation::Remove(ps.len() as usize)),
                "apt"@,
                seq!["remove"@, "-y"@] + ps + flag_if(autoremove, "--autoremove"@),
                true,
                false,
            ),
        )
    }
}

pub open spec fn update_plan(m: PackageManagerType) -> PlanView {
    if m == PackageManagerType::Pikman {
        single(None, "pikman"@, seq!["update"@], false, false)
    } else {
        single(None, "apt"@, seq!["update"@], true, false)
    }
}

pub open spec fn upgrade_plan(m: PackageManagerType, ps: Seq<Seq<char>>, yes: bool) -> PlanView {
    if m == PackageManagerType::Pikman {
        single(
            ask_unless(yes, Confirmation::Upgrade),
            "pikman"@,
            seq!["upgrade"@] + ps + flag_if(yes, "-y"@),
            false,
            false,
        )
    } else if ps.len() == 0 {
        single(ask_unless(yes, Confirmation::Upgrade), "apt"@, seq!["upgrade"@, "-y"@], true, false)
    } else {
        single(
            ask_unless(yes, Confirmation::Upgrade),
            "apt"@,
            seq!["install"@, "--upgrade"@, "-y"@] + ps,
            true,
            false,
        )
    }
}

pub open spec fn clean_plan(m: PackageManagerType) -> PlanView {
    if m == PackageManagerType::Pikman {
        single(None, "pikman"@, seq!["clean"@], false, false)
    } else {
        PlanView {
            confirm: None,
            steps: seq![
                InvocationView { program: "apt"@, args: seq!["clean"@], elevate: true },
                InvocationView { program: "apt"@, args: seq!["autoclean"@], elevate: true },
            ],
            capture: false,
        }
    }
}

pub open spec fn list_plan(m: PackageManagerType, upgradable: bool) -> PlanView {
    if m == PackageManagerType::Pikman {
        single(
            None,
            "pikman"@,
            seq![
                "list"@,
                if upgradable {
                    "--upgradable"@
                } else {
                    "--installed"@
                },
            ],
            false,
            true,
        )
    } else if upgradable {
        single(None, "apt"@, seq!["list"@, "--upgradable"@], false, true)
    } else {
        single(None, "dpkg"@, seq!["-l"@], false, true)
    }
}

pub open spec fn show_plan(m: PackageManagerType, package: Seq<char>) -> PlanView {
    single(
        None,
        if m == PackageManagerType::Pikman {
            "pikman"@
        } else {
            "apt"@
        },
        seq!["show"@, package],
        false,
        true,
    )
}

pub open spec fn flatpak_install_plan(ps: Seq<Seq<char>>, yes: bool) -> Result<PlanView, CommandError> {
    if ps.len() == 0 {
        Err(CommandError::NoPackages)
    } else {
        Ok(
            single(
                ask_unless(yes, Confirmation::InstallFlatpaks(ps.len() as usize)),
                "flatpak"@,
                seq!["install"@, "-y"@] + ps,
                false,
                false,
            ),
        )
    }
}

pub open spec fn flatpak_remove_plan(ps: Seq<Seq<char>>, yes: bool) -> Result<PlanView, CommandError> {
    if ps.len() == 0 {
        Err(CommandError::NoPackages)
    } else {
        Ok(
            single(
                ask_unless(yes, Confirmation::RemoveFlatpaks(ps.len() as usize)),
                "flatpak"@,
                seq!["uninstall"@, "-y"@] + ps,
                false,
                false,
            ),
        )
    }
}

pub open spec fn flatpak_upgrade_plan(ps: Seq<Seq<char>>, yes: bool) -> PlanView {
    single(
        ask_unless(yes, Confirmation::UpgradeFlatpaks),
        "flatpak"@,
        seq!["update"@, "-y"@] + ps,
        false,
        false,
    )
}

pub open spec fn flatpak_list_plan(upgradable: bool) -> PlanView {
    if upgradable {
        single(None, "flatpak"@, seq!["update"@, "--dry-run"@], false, true)
    } else {
        single(None, "flatpak"@, seq!["list"@], false, true)
    }
}

pub open spec fn purge_plan(ps: Seq<Seq<char>>, yes: bool) -> Result<PlanView, CommandError> {
    if ps.len() == 0 {
        Err(CommandError::NoPackages)
    } else {
        Ok(
            single(
                ask_unless(yes, Confirmation::Purge(ps.len() as usize)),
                "pikman"@,
                seq!["purge"@] + ps + flag_if(yes, "-y"@),
                false,
                false,
            ),
        )
    }
}

pub open spec fn run_plan(name: Seq<char>, command: Seq<Seq<char>>) -> Result<PlanView, CommandError> {
    if command.len() == 0 {
        Err(CommandError::NoCommand)
    } else {
        Ok(single(None, "pikman"@, seq!["run"@, name] + command, false, false))
    }
}

fn ask(yes: bool, c: Confirmation) -> (r: Option<Confirmation>)
    ensures
        r == ask_unless(yes, c),
{
    if yes {
        None
    } else {
        Some(c)
    }
}

fn one(confirm: Option<Confirmation>, program: &str, args: Vec<String>, elevate: bool, capture: bool) -> (r: CommandPlan)
    ensures
        r@ == single(confirm, program@, string_views(args@), elevate, capture),
{
    let inv = Invocation { program: lit(program), args, elevate };
    let steps = vec![inv];
    let r = CommandPlan { confirm, steps, capture };
    assert(r@.steps =~= seq![inv@]);
    r
}

fn words1(a: &str) -> (r: Vec<String>)
    ensures
        string_views(r@) == seq![a@],
{
    let r = vec![lit(a)];
    assert(string_views(r@) =~= seq![a@]);
    r
}

fn words2(a: &str, b: &str) -> (r: Vec<String>)
    ensures
        string_views(r@) == seq![a@, b@],
{
    let r = vec![lit(a), lit(b)];
    assert(string_views(r@) =~= seq![a@, b@]);
    r
}

fn words3(a: &str, b: &str, c: &str) -> (r: Vec<String>)
    ensures
        string_views(r@) == seq![a@, b@, c@],
{
    let r = vec![lit(a), lit(b), lit(c)];
    assert(string_views(r@) =~= seq![a@, b@, c@]);
    r
}

fn push_word(args: &mut Vec<String>, w: &str)
    ensures
        string_views(final(args)@) == string_views(old(args)@).push(w@),
{
    args.push(lit(w));
    assert(string_views(args@) =~= string_views(old(args)@).push(w@));
}

fn push_if(args: &mut Vec<String>, b: bool, w: &str)
    ensures
        string_views(final(args)@) == string_views(old(args)@) + flag_if(b, w@),
{
    if b {
        push_word(args, w);
    }
    assert(string_views(args@) =~= string_views(old(args)@) + flag_if(b, w@));
}

fn push_option(args: &mut Vec<String>, flag: &str, v: Option<&str>)
    ensures
        string_views(final(args)@) == string_views(old(args)@) + option_args(flag@, opt_view(v)),
{
    match v {
        Some(x) => {
            push_word(args, flag);
            push_word(args, x);
        },
        None => {},
    }
    assert(string_views(args@) =~= string_views(old(args)@) + option_args(flag@, opt_view(v)));
}

fn append_all(args: &mut Vec<String>, items: &Vec<String>)
    ensures
        string_views(final(args)@) == string_views(old(args)@) + string_views(items@),
{
    push_all(args, items);
}

/// The system package manager front end.
#[derive(Debug)]
pub struct PackageManager {
    pub manager: PackageManagerType,
    pub config: Config,
}

impl PackageManager {
    /// Chooses the tool: the meta-manager when it answers, else the system
    /// tool, else none.
    pub fn new(pikman_available: bool, apt_available: bool, config: Config) -> (r: Result<
        PackageManager,
        CommandError,
    >)
        ensures
            pikman_available ==> (r matches Ok(pm) && pm.manager == PackageManagerType::Pikman),
            !pikman_available && apt_available ==> (r matches Ok(pm) && pm.manager
                == PackageManagerType::Apt),
            !pikman_available && !apt_available ==> r == Err::<PackageManager, CommandError>(
                CommandError::NoPackageManager,
            ),
    {
        if pikman_available {
            Ok(PackageManager { manager: PackageManagerType::Pikman, config })
        } else if apt_available {
            Ok(PackageManager { manager: PackageManagerType::Apt, config })
        } else {
            Err(CommandError::NoPackageManager)
        }
    }

    pub fn install(&self, packages: &Vec<String>, yes: bool, distro: Option<&str>) -> (r: Result<
        CommandPlan,
        CommandError,
    >)
        ensures
            plan_result(r) == install_plan(self.manager, string_views(packages@), yes, opt_view(distro)),
    {
        if packages.len() == 0 {
            return Err(CommandError::NoPackages);
        }
        let confirm = ask(yes, Confirmation::Install(packages.len()));
        match self.manager {
            PackageManagerType::Pikman => {
                let mut args: Vec<String> = Vec::new();
                push_word(&mut args, "install");
                let ghost flag_part: Seq<Seq<char>> = match opt_view(distro) {
                    Some(d) => match distro_flag(filter_kind(Some(d))) {
                        Some(f) => seq![f],
                        None => seq![],
                    },
                    None => seq![],
                };
                match distro {
                    Some(d) => match DistroType::from_name(d).to_pikman_flag() {
                        Some(f) => push_word(&mut args, f),
                        None => {},
                    },
                    None => {},
                }
                assert(string_views(args@) =~= seq!["install"@] + flag_part);
                append_all(&mut args, packages);
                push_if(&mut args, yes, "-y");
                assert(string_views(args@) =~= seq!["install"@] + flag_part + string_views(
                    packages@,
                ) + flag_if(yes, "-y"@));
                Ok(one(confirm, "pikman", args, false, false))
            },
            PackageManagerType::Apt => {
                if distro.is_some() {
                    return Err(CommandError::DistroNeedsPikman);
                }
                let mut args = words2("install", "-y");
                append_all(&mut args, packages);
                Ok(one(confirm, "apt", args, true, false))
            },
        }
    }

    pub fn remove(&self, packages: &Vec<String>, yes: bool, autoremove: bool) -> (r: Result<
        CommandPlan,
        CommandError,
    >)
        ensures
            plan_result(r) == remove_plan(self.manager, string_views(packages@), yes, autoremove),
    {
        if packages.len() == 0 {
            return Err(CommandError::NoPackages);
        }
        let confirm = ask(yes, Confirmation::Remove(packages.len()));
        match self.manager {
            PackageManagerType::Pikman => {
                let mut args = words1("remove");
                append_all(&mut args, packages);
                push_if(&mut args, yes, "-y");
                push_if(&mut args, autoremove, "--autoremove");
                assert(string_views(args@) =~= seq!["remove"@] + string_views(packages@) + flag_if(
                    yes,
                    "-y"@,
                ) + flag_if(autoremove, "--autoremove"@));
                Ok(one(confirm, "pikman", args, false, false))
            },
            PackageManagerType::Apt => {
                let mut args = words2("remove", "-y");
                append_all(&mut args, packages);
                push_if(&mut args, autoremove, "--autoremove");
                assert(string_views(args@) =~= seq!["remove"@, "-y"@] + string_views(packages@)
                    + flag_if(autoremove, "--autoremove"@));
                Ok(one(confirm, "apt", args, true, false))
            },
        }
    }

    pub fn update(&self) -> (r: CommandPlan)
        ensures
            r@ == update_plan(self.manager),
    {
        match self.manager {
            PackageManagerType::Pikman => one(None, "pikman", words1("update"), false, false),
            PackageManagerType::Apt => one(None, "apt", words1("update"), true, false),
        }
    }

    pub fn upgrade(&self, packages: &Vec<String>, yes: bool) -> (r: CommandPlan)
        ensures
            r@ == upgrade_plan(self.manager, string_views(packages@), yes),
    {
        let confirm = ask(yes, Confirmation::Upgrade);
        match self.manager {
            PackageManagerType::Pikman => {
                let mut args = words1("upgrade");
                append_all(&mut args, packages);
                push_if(&mut args, yes, "-y");
                assert(string_views(args@) =~= seq!["upgrade"@] + string_views(packages@) + flag_if(
                    yes,
                    "-y"@,
                ));
                one(confirm, "pikman", args, false, false)
            },
            PackageManagerType::Apt => {
                if packages.len() == 0 {
                    one(confirm, "apt", words2("upgrade", "-y"), true, false)
                } else {
                    let mut args = words3("install", "--upgrade", "-y");
                    append_all(&mut args, packages);
                    one(confirm, "apt", args, true, false)
                }
            },
        }
    }

    pub fn clean(&self) -> (r: CommandPlan)
        ensures
            r@ == clean_plan(self.manager),
    {
        match self.manager {
            PackageManagerType::Pikman => one(None, "pikman", words1("clean"), false, false),
            PackageManagerType::Apt => {
                let a = Invocation { program: lit("apt"), args: words1("clean"), elevate: true };
                let b = Invocation { program: lit("apt"), args: words1("autoclean"), elevate: true };
                let r = CommandPlan { confirm: None, steps: vec![a, b], capture: false };
                assert(r@.steps =~= seq![a@, b@]);
                r
            },
        }
    }

    /// Searches with the system tool, whatever the manager.
    pub fn search(&self, query: &str) -> (r: CommandPlan)
        ensures
            r@ == single(None, "apt"@, seq!["search"@, query@], false, true),
    {
        one(None, "apt", words2("search", query), false, true)
    }

    /// Searches with the meta-manager, whatever the manager.
    pub fn pikman_search(&self, query: &str) -> (r: CommandPlan)
        ensures
            r@ == single(None, "pikman"@, seq!["search"@, query@], false, true),
    {
        one(None, "pikman", words2("search", query), false, true)
    }

    pub fn list(&self, upgradable: bool) -> (r: CommandPlan)
        ensures
            r@ == list_plan(self.manager, upgradable),
    {
        match self.manager {
            PackageManagerType::Pikman => {
                if upgradable {
                    one(None, "pikman", words2("list", "--upgradable"), false, true)
                } else {
                    one(None, "pikman", words2("list", "--installed"), false, true)
                }
            },
            PackageManagerType::Apt => {
                if upgradable {
                    one(None, "apt", words2("list", "--upgradable"), false, true)
                } else {
                    one(None, "dpkg", words1("-l"), false, true)
                }
            },
        }
    }

    pub fn show(&self, package: &str) -> (r: CommandPlan)
        ensures
            r@ == show_plan(self.manager, package@),
    {
        match self.manager {
            PackageManagerType::Pikman => one(None, "pikman", words2("show", package), false, true),
            PackageManagerType::Apt => one(None, "apt", words2("show", package), false, true),
        }
    }

    pub fn pikman_autoremove(&self, yes: bool) -> (r: CommandPlan)
        ensures
            r@ == single(
                ask_unless(yes, Confirmation::RemoveUnused),
                "pikman"@,
                seq!["autoremove"@] + flag_if(yes, "-y"@),
                false,
                false,
            ),
    {
        let mut args = words1("autoremove");
        push_if(&mut args, yes, "-y");
        one(ask(yes, Confirmation::RemoveUnused), "pikman", args, false, false)
    }

    pub fn pikman_enter(&self, name: &str) -> (r: CommandPlan)
        ensures
            r@ == single(None, "pikman"@, seq!["enter"@, name@], false, false),
    {
        one(None, "pikman", words2("enter", name), false, false)
    }

    pub fn pikman_export(&self, package: &str, name: Option<&str>) -> (r: CommandPlan)
        ensures
            r@ == single(
                None,
                "pikman"@,
                seq!["export"@, package@] + option_args("--name"@, opt_view(name)),
                false,
                false,
            ),
    {
        let mut args = words2("export", package);
        push_option(&mut args, "--name", name);
        one(None, "pikman", args, false, false)
    }

    pub fn pikman_init(&self, name: &str, manager: Option<&str>) -> (r: CommandPlan)
        ensures
            r@ == single(
                None,
                "pikman"@,
                seq!["init"@, name@] + option_args("--manager"@, opt_view(manager)),
                false,
                false,
            ),
    {
        let mut args = words2("init", name);
        push_option(&mut args, "--manager", manager);
        one(None, "pikman", args, false, false)
    }

    pub fn pikman_log(&self) -> (r: CommandPlan)
        ensures
            r@ == single(None, "pikman"@, seq!["log"@], false, true),
    {
        one(None, "pikman", words1("log"), false, true)
    }

    pub fn pikman_purge(&self, packages: &Vec<String>, yes: bool) -> (r: Result<
        CommandPlan,
        CommandError,
    >)
        ensures
            plan_result(r) == purge_plan(string_views(packages@), yes),
    {
        if packages.len() == 0 {
            return Err(CommandError::NoPackages);
        }
        let mut args = words1("purge");
        append_all(&mut args, packages);
        push_if(&mut args, yes, "-y");
        assert(string_views(args@) =~= seq!["purge"@] + string_views(packages@) + flag_if(
            yes,
            "-y"@,
        ));
        Ok(one(ask(yes, Confirmation::Purge(packages.len())), "pikman", args, false, false))
    }

    pub fn pikman_run(&self, name: &str, command: &Vec<String>) -> (r: Result<
        CommandPlan,
        CommandError,
    >)
        ensures
            plan_result(r) == run_plan(name@, string_views(command@)),
    {
        if command.len() == 0 {
            return Err(CommandError::NoCommand);
        }
        let mut args = words2("run", name);
        append_all(&mut args, command);
        Ok(one(None, "pikman", args, false, false))
    }

    pub fn pikman_upgrades(&self) -> (r: CommandPlan)
        ensures
            r@ == single(None, "pikman"@, seq!["upgrades"@], false, true),
    {
        one(None, "pikman", words1("upgrades"), false, true)
    }

    pub fn pikman_unexport(&self, package: &str, name: Option<&str>) -> (r: CommandPlan)
        ensures
            r@ == single(
                None,
                "pikman"@,
                seq!["unexport"@, package@] + option_args("--name"@, opt_view(name)),
                false,
                false,
            ),
    {
        let mut args = words2("unexport", package);
        push_option(&mut args, "--name", name);
        one(None, "pikman", args, false, false)
    }
}

/// The Flatpak front end.
#[derive(Debug)]
pub struct FlatpakManager;

impl FlatpakManager {
    pub fn new(flatpak_available: bool) -> (r: Result<FlatpakManager, CommandError>)
        ensures
            flatpak_available <==> r is Ok,
            !flatpak_available ==> r matches Err(CommandError::FlatpakMissing),
    {
        if flatpak_available {
            Ok(FlatpakManager)
        } else {
            Err(CommandError::FlatpakMissing)
        }
    }

    pub fn install(&self, packages: &Vec<String>, yes: bool) -> (r: Result<
        CommandPlan,
        CommandError,
    >)
        ensures
            plan_result(r) == flatpak_install_plan(string_views(packages@), yes),
    {
        if packages.len() == 0 {
            return Err(CommandError::NoPackages);
        }
        let mut args = words2("install", "-y");
        append_all(&mut args, packages);
        Ok(one(ask(yes, Confirmation::InstallFlatpaks(packages.len())), "flatpak", args, false, false))
    }

    pub fn remove(&self, packages: &Vec<String>, yes: bool) -> (r: Result<
        CommandPlan,
        CommandError,
    >)
        ensures
            plan_result(r) == flatpak_remove_plan(string_views(packages@), yes),
    {
        if packages.len() == 0 {
            return Err(CommandError::NoPackages);
        }
        let mut args = words2("uninstall", "-y");
        append_all(&mut args, packages);
        Ok(one(ask(yes, Confirmation::RemoveFlatpaks(packages.len())), "flatpak", args, false, false))
    }

    pub fn search(&self, query: &str) -> (r: CommandPlan)
        ensures
            r@ == single(None, "flatpak"@, seq!["search"@, query@], false, true),
    {
        one(None, "flatpak", words2("search", query), false, true)
    }

    pub fn update(&self) -> (r: CommandPlan)
        ensures
            r@ == single(None, "flatpak"@, seq!["update"@, "--noninteractive"@], false, false),
    {
        one(None, "flatpak", words2("update", "--noninteractive"), false, false)
    }

    pub fn upgrade(&self, packages: &Vec<String>, yes: bool) -> (r: CommandPlan)
        ensures
            r@ == flatpak_upgrade_plan(string_views(packages@), yes),
    {
        let mut args = words2("update", "-y");
        append_all(&mut args, packages);
        one(ask(yes, Confirmation::UpgradeFlatpaks), "flatpak", args, false, false)
    }

    pub fn list(&self, upgradable: bool) -> (r: CommandPlan)
        ensures
            r@ == flatpak_list_plan(upgradable),
    {
        if upgradable {
            one(None, "flatpak", words2("update", "--dry-run"), false, true)
        } else {
            one(None, "flatpak", words1("list"), false, true)
        }
    }

    pub fn show(&self, package: &str) -> (r: CommandPlan)
        ensures
            r@ == single(None, "flatpak"@, seq!["info"@, package@], false, true),
    {
        one(None, "flatpak", words2("info", package), false, true)
    }

    pub fn clean(&self) -> (r: CommandPlan)
        ensures
            r@ == single(None, "flatpak"@, seq!["uninstall"@, "--unused"@, "-y"@], false, false),
    {
        one(None, "flatpak", words3("uninstall", "--unused", "-y"), false, false)
    }
}

} // verus!
