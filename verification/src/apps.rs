//! The application registry: which applications the engine knows, where
//! their configuration lives, and how to install them.
//!
//! The registry is plain data; whether an application is installed and
//! what the environment variables hold is observed by the caller and
//! handed in as values.

use crate::errors::StoreError;
use crate::text::{opt_view, str_eq};
use vstd::prelude::*;
use vstd::string::StringExecFns;

verus! {

/// What the front end shows per application.
#[derive(Debug, Clone)]
pub struct AppInfo {
    pub id: String,
    pub name: String,
    pub is_installed: bool,
}

/// One application the engine can back up: its stable id, display name,
/// the tag its manifest entries carry, and whether a snap package exists
/// for it.
#[derive(Debug, Clone)]
pub struct AppDescriptor {
    pub id: String,
    pub name: String,
    pub target_hint: String,
    pub snap_support: bool,
}

/// The environment-derived directories an application path can depend on.
pub struct EnvPaths {
    pub appdata: Option<String>,
    pub local_appdata: Option<String>,
    pub xdg_config_home: Option<String>,
    pub home: Option<String>,
}

/// The registry holds, in order: Zed, Windows Terminal, Visual Studio
/// Code.
pub open spec fn registry_ids() -> Seq<Seq<char>> {
    seq!["zed"@, "windows-terminal"@, "vscode"@]
}

/// The applications the engine knows.
pub fn registry() -> (r: Vec<AppDescriptor>)
    ensures
        r@.len() == 3,
        forall|i: int| 0 <= i < 3 ==> (#[trigger] r@[i]).id@ == registry_ids()[i],
        r@[0].name@ == "Zed"@,
        r@[1].name@ == "Windows Terminal"@,
        r@[2].name@ == "Visual Studio Code"@,
        r@[0].target_hint@ == "app:zed"@,
        r@[1].target_hint@ == "sys:windows-terminal"@,
        r@[2].target_hint@ == "app:vscode"@,
        r@[0].snap_support == true,
        r@[1].snap_support == false,
        r@[2].snap_support == false,
{
    let mut apps: Vec<AppDescriptor> = Vec::new();
    apps.push(
        AppDescriptor {
            id: String::from_str("zed"),
            name: String::from_str("Zed"),
            target_hint: String::from_str("app:zed"),
            snap_support: true,
        },
    );
    apps.push(
        AppDescriptor {
            id: String::from_str("windows-terminal"),
            name: String::from_str("Windows Terminal"),
            target_hint: String::from_str("sys:windows-terminal"),
            snap_support: false,
        },
    );
    apps.push(
        AppDescriptor {
            id: String::from_str("vscode"),
            name: String::from_str("Visual Studio Code"),
            target_hint: String::from_str("app:vscode"),
            snap_support: false,
        },
    );
    apps
}

/// The registered application with this id, if any.
pub fn get_app(id: &str) -> (r: Option<AppDescriptor>)
    ensures
        r matches Some(d) ==> d.id@ == id@,
        r is Some <==> exists|i: int| 0 <= i < 3 && registry_ids()[i] == id@,
        id@ == "zed"@ ==> (r matches Some(d) ==> d.name@ == "Zed"@ && d.target_hint@
            == "app:zed"@ && d.snap_support),
        id@ == "windows-terminal"@ ==> (r matches Some(d) ==> d.name@ == "Windows Terminal"@
            && d.target_hint@ == "sys:windows-terminal"@ && !d.snap_support),
        id@ == "vscode"@ ==> (r matches Some(d) ==> d.name@ == "Visual Studio Code"@
            && d.target_hint@ == "app:vscode"@ && !d.snap_support),
{
    let apps = registry();
    let mut i: usize = 0;
    while i < apps.len()
        invariant
            apps@.len() == 3,
            forall|j: int| 0 <= j < 3 ==> (#[trigger] apps@[j]).id@ == registry_ids()[j],
            apps@[0].name@ == "Zed"@ && apps@[0].target_hint@ == "app:zed"@
                && apps@[0].snap_support,
            apps@[1].name@ == "Windows Terminal"@ && apps@[1].target_hint@
                == "sys:windows-terminal"@ && !apps@[1].snap_support,
            apps@[2].name@ == "Visual Studio Code"@ && apps@[2].target_hint@ == "app:vscode"@
                && !apps@[2].snap_support,
            i <= 3,
            forall|j: int| 0 <= j < i ==> registry_ids()[j] != id@,
        decreases apps@.len() - i,
    {
        if str_eq(apps[i].id.as_str(), id) {
            proof {
                assert(registry_ids()[i as int] == id@);
                reveal_strlit("zed");
                reveal_strlit("windows-terminal");
                reveal_strlit("vscode");
                assert("zed"@.len() == 3 && "windows-terminal"@.len() == 16 && "vscode"@.len()
                    == 6);
            }
            let d = AppDescriptor {
                id: apps[i].id.clone(),
                name: apps[i].name.clone(),
                target_hint: apps[i].target_hint.clone(),
                snap_support: apps[i].snap_support,
            };
            return Some(d);
        }
        i += 1;
    }
    None
}

/// One `AppInfo` per registered application, with the installed flags the
/// caller observed, in registry order.
pub fn get_all_apps_info(installed: &Vec<bool>) -> (r: Vec<AppInfo>)
    requires
        installed@.len() == 3,
    ensures
        r@.len() == 3,
        forall|i: int| 0 <= i < 3 ==> (#[trigger] r@[i]).id@ == registry_ids()[i],
        forall|i: int| 0 <= i < 3 ==> (#[trigger] r@[i]).is_installed == installed@[i],
        r@[0].name@ == "Zed"@,
        r@[1].name@ == "Windows Terminal"@,
        r@[2].name@ == "Visual Studio Code"@,
{
    let apps = registry();
    let mut out: Vec<AppInfo> = Vec::new();
    let mut i: usize = 0;
    while i < 3
        invariant
            apps@.len() == 3,
            installed@.len() == 3,
            forall|j: int| 0 <= j < 3 ==> (#[trigger] apps@[j]).id@ == registry_ids()[j],
            i <= 3,
            out@.len() == i,
            forall|j: int| 0 <= j < i ==> (#[trigger] out@[j]).id@ == registry_ids()[j],
            forall|j: int| 0 <= j < i ==> (#[trigger] out@[j]).is_installed == installed@[j],
            forall|j: int| 0 <= j < i ==> (#[trigger] out@[j]).name@ == apps@[j].name@,
            apps@[0].name@ == "Zed"@,
            apps@[1].name@ == "Windows Terminal"@,
            apps@[2].name@ == "Visual Studio Code"@,
        decreases 3 - i,
    {
        out.push(
            AppInfo {
                id: apps[i].id.clone(),
                name: apps[i].name.clone(),
                is_installed: installed[i],
            },
        );
        i += 1;
    }
    out
}

/// The host package id for installing an application on a platform, when
/// one exists.
pub open spec fn spec_package_id(app_id: Seq<char>, platform: Seq<char>) -> Option<Seq<char>> {
    if app_id == "zed"@ {
        if platform == "macos"@ || platform == "linux"@ {
            Some("zed"@)
        } else {
            None
        }
    } else if app_id == "windows-terminal"@ {
        if platform == "windows"@ {
            Some("Microsoft.WindowsTerminal"@)
        } else {
            None
        }
    } else if app_id == "vscode"@ {
        if platform == "windows"@ {
            Some("Microsoft.VisualStudioCode"@)
        } else if platform == "darwin"@ {
            Some("visual-studio-code"@)
        } else {
            Some("code"@)
        }
    } else {
        None
    }
}

/// The package id for an application on a platform.
pub fn package_id(app_id: &str, platform: &str) -> (r: Option<String>)
    ensures
        opt_view(r) == spec_package_id(app_id@, platform@),
{
    if str_eq(app_id, "zed") {
        if str_eq(platform, "macos") || str_eq(platform, "linux") {
            Some(String::from_str("zed"))
        } else {
            None
        }
    } else if str_eq(app_id, "windows-terminal") {
        if str_eq(platform, "windows") {
            Some(String::from_str("Microsoft.WindowsTerminal"))
        } else {
            None
        }
    } else if str_eq(app_id, "vscode") {
        if str_eq(platform, "windows") {
            Some(String::from_str("Microsoft.VisualStudioCode"))
        } else if str_eq(platform, "darwin") {
            Some(String::from_str("visual-studio-code"))
        } else {
            Some(String::from_str("code"))
        }
    } else {
        None
    }
}

/// Where an application keeps its configuration, from the platform tag
/// and the environment directories: the application directory under the
/// platform's configuration root.
pub open spec fn spec_app_path(app_id: Seq<char>, platform: Seq<char>, env: EnvPaths) -> Result<
    Seq<char>,
    StoreError,
> {
    if app_id == "zed"@ {
        match spec_config_root(platform, env) {
            Ok(root) => Ok(root + "/zed"@),
            Err(e) => Err(e),
        }
    } else if app_id == "vscode"@ {
        if platform == "darwin"@ {
            match opt_view(env.home) {
                Some(h) => Ok(h + "/Library/Application Support/Code"@),
                None => Err(StoreError::Resolve),
            }
        } else {
            match spec_config_root(platform, env) {
                Ok(root) => Ok(root + "/Code"@),
                Err(e) => Err(e),
            }
        }
    } else if app_id == "windows-terminal"@ {
        if platform == "windows"@ {
            match opt_view(env.local_appdata) {
                Some(l) => Ok(
                    l + "/Packages/Microsoft.WindowsTerminal_8wekyb3d8bbwe/LocalState"@,
                ),
                None => Err(StoreError::Resolve),
            }
        } else {
            Err(StoreError::Resolve)
        }
    } else {
        Err(StoreError::Resolve)
    }
}

/// The platform's configuration root: `APPDATA` on Windows, otherwise
/// `XDG_CONFIG_HOME`, falling back to `HOME/.config`.
pub open spec fn spec_config_root(platform: Seq<char>, env: EnvPaths) -> Result<
    Seq<char>,
    StoreError,
> {
    if platform == "windows"@ {
        match opt_view(env.appdata) {
            Some(a) => Ok(a),
            None => Err(StoreError::Resolve),
        }
    } else {
        match opt_view(env.xdg_config_home) {
            Some(x) => Ok(x),
            None => match opt_view(env.home) {
                Some(h) => Ok(h + "/.config"@),
                None => Err(StoreError::Resolve),
            },
        }
    }
}

/// The platform's configuration root directory.
fn config_root(platform: &str, env: &EnvPaths) -> (r: Result<String, StoreError>)
    ensures
        r matches Ok(p) ==> spec_config_root(platform@, *env) == Ok::<Seq<char>, StoreError>(p@),
        r matches Err(e) ==> spec_config_root(platform@, *env) == Err::<Seq<char>, StoreError>(e),
{
    if str_eq(platform, "windows") {
        match &env.appdata {
            Some(a) => Ok(a.clone()),
            None => Err(StoreError::Resolve),
        }
    } else {
        match &env.xdg_config_home {
            Some(x) => Ok(x.clone()),
            None => match &env.home {
                Some(h) => {
                    let mut p = h.clone();
                    p.append("/.config");
                    Ok(p)
                },
                None => Err(StoreError::Resolve),
            },
        }
    }
}

/// The directory an application's configuration lives in.
pub fn app_path(app_id: &str, platform: &str, env: &EnvPaths) -> (r: Result<String, StoreError>)
    ensures
        r matches Ok(p) ==> spec_app_path(app_id@, platform@, *env) == Ok::<Seq<char>, StoreError>(
            p@,
        ),
        r matches Err(e) ==> spec_app_path(app_id@, platform@, *env) == Err::<
            Seq<char>,
            StoreError,
        >(e),
{
    if str_eq(app_id, "zed") {
        match config_root(platform, env) {
            Ok(root) => {
                let mut p = root;
                p.append("/zed");
                Ok(p)
            },
            Err(e) => Err(e),
        }
    } else if str_eq(app_id, "vscode") {
        if str_eq(platform, "darwin") {
            match &env.home {
                Some(h) => {
                    let mut p = h.clone();
                    p.append("/Library/Application Support/Code");
                    Ok(p)
                },
                None => Err(StoreError::Resolve),
            }
        } else {
            match config_root(platform, env) {
                Ok(root) => {
                    let mut p = root;
                    p.append("/Code");
                    Ok(p)
                },
                Err(e) => Err(e),
            }
        }
    } else if str_eq(app_id, "windows-terminal") {
        if str_eq(platform, "windows") {
            match &env.local_appdata {
                Some(l) => {
                    let mut p = l.clone();
                    p.append("/Packages/Microsoft.WindowsTerminal_8wekyb3d8bbwe/LocalState");
                    Ok(p)
                },
                None => Err(StoreError::Resolve),
            }
        } else {
            Err(StoreError::Resolve)
        }
    } else {
        Err(StoreError::Resolve)
    }
}

/// The words of each command, as character sequences.
pub open spec fn commands_view(r: Seq<Vec<String>>) -> Seq<Seq<Seq<char>>> {
    r.map_values(|c: Vec<String>| c@.map_values(|w: String| w@))
}

/// The commands that install a package on the platform: snap setup and
/// install on a snap-supporting Linux application, otherwise one call of
/// the platform's own package manager.
pub open spec fn spec_install_commands(
    platform: Seq<char>,
    snap_support: bool,
    package: Seq<char>,
) -> Seq<Seq<Seq<char>>> {
    if platform != "windows"@ && platform != "darwin"@ && snap_support {
        seq![
            seq!["sudo"@, "apt-get"@, "install"@, "-y"@, "snapd"@],
            seq!["sudo"@, "snap"@, "install"@, package],
        ]
    } else if platform == "windows"@ {
        seq![seq!["winget"@, "install"@, "-e"@, "--id"@, package]]
    } else if platform == "darwin"@ {
        seq![seq!["brew"@, "install"@, package]]
    } else {
        seq![seq!["sudo"@, "apt-get"@, "install"@, "-y"@, package]]
    }
}

/// The commands that install a package on the platform, in order.
pub fn install_commands(platform: &str, snap_support: bool, package: &str) -> (r: Vec<
    Vec<String>,
>)
    ensures
        commands_view(r@) == spec_install_commands(platform@, snap_support, package@),
{
    let mut commands: Vec<Vec<String>> = Vec::new();
    let not_windows = !str_eq(platform, "windows");
    let not_darwin = !str_eq(platform, "darwin");
    if not_windows && not_darwin && snap_support {
        let mut setup: Vec<String> = Vec::new();
        setup.push(String::from_str("sudo"));
        setup.push(String::from_str("apt-get"));
        setup.push(String::from_str("install"));
        setup.push(String::from_str("-y"));
        setup.push(String::from_str("snapd"));
        commands.push(setup);
        let mut install: Vec<String> = Vec::new();
        install.push(String::from_str("sudo"));
        install.push(String::from_str("snap"));
        install.push(String::from_str("install"));
        install.push(String::from_str(package));
        commands.push(install);
    } else if !not_windows {
        let mut install: Vec<String> = Vec::new();
        install.push(String::from_str("winget"));
        install.push(String::from_str("install"));
        install.push(String::from_str("-e"));
        install.push(String::from_str("--id"));
        install.push(String::from_str(package));
        commands.push(install);
    } else if !not_darwin {
        let mut install: Vec<String> = Vec::new();
        install.push(String::from_str("brew"));
        install.push(String::from_str("install"));
        install.push(String::from_str(package));
        commands.push(install);
    } else {
        let mut install: Vec<String> = Vec::new();
        install.push(String::from_str("sudo"));
        install.push(String::from_str("apt-get"));
        install.push(String::from_str("install"));
        install.push(String::from_str("-y"));
        install.push(String::from_str(package));
        commands.push(install);
    }
    proof {
        assert(commands_view(commands@) =~~= spec_install_commands(
            platform@,
            snap_support,
            package@,
        ));
    }
    commands
}

/// What restore does for an application: proceed when it is installed,
/// install it first when a package id exists, and skip it otherwise.
#[derive(Debug, Clone, Copy, PartialEq, Eq, Structural)]
pub enum RestoreDecision {
    Proceed,
    InstallFirst,
    Skip,
}

/// The restore decision for an application.
pub fn restore_decision(is_installed: bool, package: &Option<String>) -> (r: RestoreDecision)
    ensures
        is_installed ==> r == RestoreDecision::Proceed,
        !is_installed && package is Some ==> r == RestoreDecision::InstallFirst,
        !is_installed && package is None ==> r == RestoreDecision::Skip,
{
    if is_installed {
        RestoreDecision::Proceed
    } else {
        match package {
            Some(_) => RestoreDecision::InstallFirst,
            None => RestoreDecision::Skip,
        }
    }
}

} // verus!
