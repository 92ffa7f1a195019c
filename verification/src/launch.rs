//! Installing and starting an instance: the checks a run goes through, and
//! what the game is started with.
//!
//! The plan follows the launch library's runner: instance files from the panel,
//! loader under the root, per-user memory, Java and screen settings.

use vstd::prelude::*;

use crate::api::{instance_index, RemoteSnapshot};
use crate::error::{is_error, AppError};
use crate::models::Instance;
use crate::settings::{non_blank, retain_non_blank, JavaMode, LauncherBehavior, Settings};
use crate::text::{
    copy_opt, dec_chars, dec_seq, eq_chars, from_chars, lower_seq, opt_view, push_all, push_str,
    string_views, to_ascii_lowercase, to_chars, trim, trim_chars,
};
use crate::util::{java_major, spec_java_major};

verus! {

#[derive(Clone, Copy, PartialEq, Eq, Debug, Structural)]
pub enum LaunchMode {
    Install,
    Launch,
}

/// A launch needs the game stopped.
pub fn check_not_running(mode: LaunchMode, running: bool) -> (r: Result<(), AppError>)
    ensures
        r is Err <==> (mode == LaunchMode::Launch && running),
        r matches Err(e) ==> is_error(e, "game_running"@, "the game is already running"@),
{
    if mode == LaunchMode::Launch && running {
        return Err(AppError::new("game_running", "the game is already running"));
    }
    Ok(())
}

/// The error for an instance the panel does not list.
pub fn unknown_instance(id: &str) -> (e: AppError)
    ensures
        is_error(e, "instance_invalid"@, "unknown instance "@ + id@),
{
    let mut m = to_chars("unknown instance ");
    push_str(&mut m, id);
    let message = from_chars(&m);
    AppError::new("instance_invalid", message.as_str())
}

/// The account a run signs in with: a launch needs the selected account and
/// no maintenance; an installation takes the selected account if any (a
/// placeholder otherwise, `None`).
pub fn account_for(
    mode: LaunchMode,
    selected: Option<String>,
    maintenance: bool,
    maintenance_message: Option<String>,
) -> (r: Result<Option<String>, AppError>)
    ensures
        match mode {
            LaunchMode::Launch => match selected {
                None => r matches Err(e) && is_error(
                    e,
                    "account_required"@,
                    "select an account before playing"@,
                ),
                Some(uuid) => if maintenance {
                    r matches Err(e) && is_error(
                        e,
                        "maintenance"@,
                        match maintenance_message {
                            Some(m) => m@,
                            None => "the server is under maintenance"@,
                        },
                    )
                } else {
                    r == Ok::<Option<String>, AppError>(Some(uuid))
                },
            },
            LaunchMode::Install => r == Ok::<Option<String>, AppError>(selected),
        },
{
    match mode {
        LaunchMode::Launch => match selected {
            None => Err(AppError::new("account_required", "select an account before playing")),
            Some(uuid) => {
                if maintenance {
                    let message = match maintenance_message {
                        Some(m) => m,
                        None => "the server is under maintenance".to_owned(),
                    };
                    Err(AppError::new("maintenance", message.as_str()))
                } else {
                    Ok(Some(uuid))
                }
            },
        },
        LaunchMode::Install => Ok(selected),
    }
}

/// Why the account step refuses a run, as code and message; `None` when it
/// lets it through.
pub open spec fn account_refusal(
    mode: LaunchMode,
    selected: Option<String>,
    maintenance: bool,
    maintenance_message: Option<String>,
) -> Option<(Seq<char>, Seq<char>)> {
    match mode {
        LaunchMode::Launch => match selected {
            None => Some(("account_required"@, "select an account before playing"@)),
            Some(_) => if maintenance {
                Some(
                    (
                        "maintenance"@,
                        match maintenance_message {
                            Some(m) => m@,
                            None => "the server is under maintenance"@,
                        },
                    ),
                )
            } else {
                None
            },
        },
        LaunchMode::Install => None,
    }
}

/// The first check a run fails, in the order a run makes them: the game
/// stopped, the instance listed, then the account and maintenance.
pub open spec fn run_refusal(
    mode: LaunchMode,
    running: bool,
    instances: Seq<Instance>,
    id: Seq<char>,
    selected: Option<String>,
    maintenance: bool,
    maintenance_message: Option<String>,
) -> Option<(Seq<char>, Seq<char>)> {
    if mode == LaunchMode::Launch && running {
        Some(("game_running"@, "the game is already running"@))
    } else if instance_index(instances, id) < 0 {
        Some(("instance_invalid"@, "unknown instance "@ + id))
    } else {
        account_refusal(mode, selected, maintenance, maintenance_message)
    }
}

/// The checks a run makes on the panel's snapshot before the account is
/// renewed: the instance it runs and the account it signs in with, or the
/// first refusal.
pub fn check_run<'a>(
    mode: LaunchMode,
    running: bool,
    snapshot: &'a RemoteSnapshot,
    instance_id: &str,
    selected: Option<String>,
) -> (r: Result<(&'a Instance, Option<String>), AppError>)
    ensures
        match run_refusal(
            mode,
            running,
            snapshot.instances@,
            instance_id@,
            selected,
            snapshot.config.maintenance,
            snapshot.config.maintenance_message,
        ) {
            Some(refusal) => r matches Err(e) && is_error(e, refusal.0, refusal.1),
            None => r matches Ok(found) && *found.0 == snapshot.instances@[instance_index(
                snapshot.instances@,
                instance_id@,
            )] && found.1 == selected,
        },
{
    check_not_running(mode, running)?;
    let instance = match snapshot.instance(instance_id) {
        Some(i) => i,
        None => {
            return Err(unknown_instance(instance_id));
        },
    };
    let message = match &snapshot.config.maintenance_message {
        Some(m) => Some(m.clone()),
        None => None,
    };
    let account = account_for(mode, selected, snapshot.config.maintenance, message)?;
    Ok((instance, account))
}

/// A launch needs an account the instance's whitelist lets in.
pub fn check_whitelist(mode: LaunchMode, instance: &Instance, player: &str) -> (r: Result<
    (),
    AppError,
>)
    ensures
        r is Err <==> (mode == LaunchMode::Launch && instance.whitelist_active
            && !string_views(instance.whitelist@).contains(player@)),
        r matches Err(e) ==> is_error(
            e,
            "instance_whitelisted"@,
            "this account is not allowed on this instance"@,
        ),
{
    if mode == LaunchMode::Launch && !instance.allows(Some(player)) {
        return Err(
            AppError::new("instance_whitelisted", "this account is not allowed on this instance"),
        );
    }
    Ok(())
}

/// What the game is installed and started with.
pub struct LaunchPlan {
    /// The Minecraft version, trimmed.
    pub version: String,
    /// The custom files list of the instance.
    pub url: Option<String>,
    pub instance: String,
    pub intel_enabled_mac: bool,
    pub ignore_log4j: bool,
    pub ignored: Vec<String>,
    pub download_concurrency: usize,
    pub verify: bool,
    /// The MCP jar, for `mcp` instances.
    pub mcp: Option<String>,
    /// The mod loader to install, by name; `None` for vanilla and MCP.
    pub loader: Option<String>,
    pub loader_build: String,
    pub jvm_args: Vec<String>,
    /// `-Xms`, as `<MiB>M`.
    pub memory_min: String,
    /// `-Xmx`, as `<MiB>M`.
    pub memory_max: String,
    /// The Java executable the user chose.
    pub java_path: Option<String>,
    /// The Java major version the panel requires, when the choice is automatic.
    pub java_version: Option<String>,
    pub width: Option<u32>,
    pub height: Option<u32>,
    pub fullscreen: bool,
    /// The game outlives the launcher unless it is bound to it.
    pub detached: bool,
}

/// The loader of an instance kind (trimmed, ASCII lower-cased): none for
/// `mcp`, `none`, `vanilla` or nothing.
pub open spec fn loader_of(kind: Seq<char>) -> Option<Seq<char>> {
    let k = lower_seq(trim(kind));
    if k == "mcp"@ || k == ""@ || k == "none"@ || k == "vanilla"@ {
        None
    } else {
        Some(k)
    }
}

/// The memory argument for a number of MiB.
pub open spec fn mib(n: u64) -> Seq<char> {
    dec_seq(n as nat) + "M"@
}

fn mib_text(n: u64) -> (r: String)
    ensures
        r@ == mib(n),
{
    let mut v = dec_chars(n);
    push_str(&mut v, "M");
    from_chars(&v)
}

fn copy_strings(v: &Vec<String>) -> (r: Vec<String>)
    ensures
        r@ == v@,
{
    crate::settings::clone_strings(v)
}

/// What a plan for an instance under these settings holds.
pub open spec fn planned(settings: Settings, instance: Instance, r: LaunchPlan) -> bool {
    let o = if settings.instances.view().contains_key(instance.id@) {
        Some(settings.instances.view()[instance.id@])
    } else {
        None
    };
    let memory = match o {
        Some(i) => match i.memory {
            Some(m) => m,
            None => settings.memory,
        },
        None => settings.memory,
    };
    let java = match o {
        Some(i) => match i.java {
            Some(j) => j,
            None => settings.java,
        },
        None => settings.java,
    };
    let args = match o {
        Some(i) => match i.jvm_args {
            Some(a) => a@,
            None => settings.jvm_args@,
        },
        None => settings.jvm_args@,
    };
    &&& r.version@ == trim(instance.minecraft_version@)
    &&& r.url == instance.files_url
    &&& r.instance == instance.id
    &&& r.intel_enabled_mac == settings.intel_enabled_mac
    &&& r.ignore_log4j
    &&& r.ignored@ == instance.ignored@
    &&& r.download_concurrency == settings.download_concurrency
    &&& r.verify == instance.verify
    &&& r.mcp == (if lower_seq(trim(instance.loader.kind@)) == "mcp"@ {
        instance.loader.mcp_file
    } else {
        None
    })
    &&& opt_view(r.loader) == loader_of(instance.loader.kind@)
    &&& r.loader_build == instance.loader.version
    &&& string_views(r.jvm_args@) == non_blank(
        string_views(instance.jvm_args@ + args),
    )
    &&& r.memory_min@ == mib(memory.min_mb)
    &&& r.memory_max@ == mib(memory.max_mb)
    &&& r.java_path == (if java.mode == JavaMode::Custom {
        java.path
    } else {
        None
    })
    &&& opt_view(r.java_version) == (if java.mode == JavaMode::Auto {
        match instance.java_version {
            Some(v) => match spec_java_major(v@) {
                Some(major) => Some(dec_seq(major as nat)),
                None => None,
            },
            None => None,
        }
    } else {
        None
    })
    &&& r.width == settings.game_window.width
    &&& r.height == settings.game_window.height
    &&& r.fullscreen == settings.game_window.fullscreen
    &&& r.detached == (settings.launcher_behavior != LauncherBehavior::Bound)
    }

impl LaunchPlan {
    /// The plan for an instance under these settings. `loader_known` says
    /// whether the launch library knows the instance's mod loader; a loader
    /// it does not know is refused.
    pub fn of(settings: &Settings, instance: &Instance, loader_known: bool) -> (r: Result<
        LaunchPlan,
        AppError,
    >)
        ensures
            r is Err <==> (loader_of(instance.loader.kind@) is Some && !loader_known),
            r matches Err(e) ==> is_error(
                e,
                "instance_invalid"@,
                "unknown loader type "@ + loader_of(instance.loader.kind@)->0,
            ),
            r matches Ok(p) ==> planned(*settings, *instance, p),
    {
        let effective = settings.for_instance(instance.id.as_str());
        let kind = to_ascii_lowercase(&trim_chars(&to_chars(instance.loader.kind.as_str())));
        let is_mcp = eq_chars(&kind, &to_chars("mcp"));
        let vanilla = kind.len() == 0 || eq_chars(&kind, &to_chars("none")) || eq_chars(
            &kind,
            &to_chars("vanilla"),
        );
        proof {
            reveal_strlit("");
            if kind@.len() == 0 {
                assert(kind@ =~= ""@);
            }
            if kind@ == ""@ {
                assert(kind@.len() == 0);
            }
        }
        let mcp = if is_mcp {
            copy_opt(&instance.loader.mcp_file)
        } else {
            None
        };
        let loader = if is_mcp || vanilla {
            None
        } else {
            Some(from_chars(&kind))
        };
        let mut jvm_args = copy_strings(&instance.jvm_args);
        let ghost first = jvm_args@;
        let mut i: usize = 0;
        while i < effective.jvm_args.len()
            invariant
                i <= effective.jvm_args@.len(),
                jvm_args@ == first + effective.jvm_args@.take(i as int),
            decreases effective.jvm_args@.len() - i,
        {
            jvm_args.push(effective.jvm_args[i].clone());
            i += 1;
            assert(jvm_args@ =~= first + effective.jvm_args@.take(i as int));
        }
        assert(effective.jvm_args@.take(i as int) =~= effective.jvm_args@);
        retain_non_blank(&mut jvm_args);
        let (java_path, java_version) = match effective.java.mode {
            JavaMode::Custom => (copy_opt(&effective.java.path), None),
            JavaMode::Auto => {
                let forced = match &instance.java_version {
                    Some(v) => match java_major(v.as_str()) {
                        Some(major) => Some(from_chars(&dec_chars(major as u64))),
                        None => None,
                    },
                    None => None,
                };
                (None, forced)
            },
        };
        if loader.is_some() && !loader_known {
            let mut m = to_chars("unknown loader type ");
            push_all(&mut m, &kind);
            let message = from_chars(&m);
            return Err(AppError::new("instance_invalid", message.as_str()));
        }
        Ok(LaunchPlan {
            version: from_chars(&trim_chars(&to_chars(instance.minecraft_version.as_str()))),
            url: copy_opt(&instance.files_url),
            instance: instance.id.clone(),
            intel_enabled_mac: settings.intel_enabled_mac,
            ignore_log4j: true,
            ignored: copy_strings(&instance.ignored),
            download_concurrency: settings.download_concurrency,
            verify: instance.verify,
            mcp,
            loader,
            loader_build: instance.loader.version.clone(),
            jvm_args,
            memory_min: mib_text(effective.memory.min_mb),
            memory_max: mib_text(effective.memory.max_mb),
            java_path,
            java_version,
            width: settings.game_window.width,
            height: settings.game_window.height,
            fullscreen: settings.game_window.fullscreen,
            detached: settings.launcher_behavior != LauncherBehavior::Bound,
        })
    }
}

/// The game opens in the window the settings ask for: the plan's width is
/// the window's width, its height the window's height, and fullscreen is
/// kept.
pub proof fn law_plan_keeps_the_window(settings: Settings, instance: Instance, plan: LaunchPlan)
    requires
        planned(settings, instance, plan),
    ensures
        plan.width == settings.game_window.width,
        plan.height == settings.game_window.height,
        plan.fullscreen == settings.game_window.fullscreen,
{
}

} // verus!
