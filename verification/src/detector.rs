//! Shell detection from the platform and the environment.
//!
//! The decision is made here, from plain values: whether the platform is
//! Windows, and the environment variables that tell the shells apart
//! (`POLYSH_SHELL`, `PROMPT`, `PSModulePath`, `ComSpec`, `SHELL`). Reading
//! them is left to the caller.

use vstd::prelude::*;
use crate::mappings::{dialect_named, Dialect};
use crate::text::{contains, has_infix, lowercase, opt_view, to_lowercase};

verus! {

/// Information about the shell that will run the translated commands.
#[derive(Debug, Clone)]
pub struct ShellInfo {
    /// The type of shell currently running.
    pub dialect: Dialect,
    /// Whether this shell natively supports `&&` and `||` conditional connectors.
    pub supports_conditional_connectors: bool,
    /// Whether this shell needs Unix command translation (PowerShell and CMD do).
    pub needs_unix_translation: bool,
    /// The target dialect for command translation within this shell.
    pub target: Dialect,
    /// PowerShell major version, if available.
    pub version: Option<u32>,
}

/// A Unix shell: `&&`/`||` supported, nothing to translate.
pub open spec fn unix_shell() -> ShellInfo {
    ShellInfo {
        dialect: Dialect::Unix,
        supports_conditional_connectors: true,
        needs_unix_translation: false,
        target: Dialect::Unix,
        version: None,
    }
}

impl Default for ShellInfo {
    fn default() -> (r: Self)
        ensures
            r == unix_shell(),
    {
        ShellInfo {
            dialect: Dialect::Unix,
            supports_conditional_connectors: true,
            needs_unix_translation: false,
            target: Dialect::Unix,
            version: None,
        }
    }
}

/// The shell of a dialect, as detection reports it on Windows or where
/// `POLYSH_SHELL` names it. PowerShell is taken to be version 7 or later,
/// which supports `&&`/`||`; an older one can be described by hand.
pub open spec fn windows_shell(d: Dialect) -> ShellInfo {
    match d {
        Dialect::PowerShell => ShellInfo {
            dialect: Dialect::PowerShell,
            supports_conditional_connectors: true,
            needs_unix_translation: true,
            target: Dialect::PowerShell,
            version: None,
        },
        Dialect::Cmd => ShellInfo {
            dialect: Dialect::Cmd,
            supports_conditional_connectors: true,
            needs_unix_translation: true,
            target: Dialect::Cmd,
            version: None,
        },
        Dialect::Unix => ShellInfo {
            dialect: d,
            supports_conditional_connectors: true,
            needs_unix_translation: false,
            target: d,
            version: None,
        },
    }
}

fn shell_info_for(dialect: Dialect) -> (r: ShellInfo)
    ensures
        r == windows_shell(dialect),
{
    match dialect {
        Dialect::PowerShell => ShellInfo {
            dialect: Dialect::PowerShell,
            supports_conditional_connectors: true,
            needs_unix_translation: true,
            target: Dialect::PowerShell,
            version: None,
        },
        Dialect::Cmd => ShellInfo {
            dialect: Dialect::Cmd,
            supports_conditional_connectors: true,
            needs_unix_translation: true,
            target: Dialect::Cmd,
            version: None,
        },
        Dialect::Unix => ShellInfo {
            dialect,
            supports_conditional_connectors: true,
            needs_unix_translation: false,
            target: dialect,
            version: None,
        },
    }
}

/// What shell detection reads: the platform, and the environment variables
/// that are set (with their values, where they are valid Unicode).
pub struct ShellEnvironment {
    pub windows: bool,
    /// `POLYSH_SHELL`, which overrides the detection.
    pub polysh_shell: Option<String>,
    pub prompt: Option<String>,
    pub ps_module_path: Option<String>,
    pub comspec: Option<String>,
    pub shell: Option<String>,
}

/// The shell on Windows: CMD where `PROMPT` is set and `PSModulePath` is not;
/// PowerShell where `PSModulePath` is set; CMD where `ComSpec` names
/// `cmd.exe` (in any case: `comspec` is its lower-case form); a translating
/// bash where `SHELL` names bash; PowerShell otherwise.
pub open spec fn windows_detection(
    prompt: Option<Seq<char>>,
    ps_module_path: Option<Seq<char>>,
    comspec: Option<Seq<char>>,
    shell: Option<Seq<char>>,
) -> ShellInfo {
    if prompt is Some && ps_module_path is None {
        windows_shell(Dialect::Cmd)
    } else if ps_module_path is Some {
        windows_shell(Dialect::PowerShell)
    } else if comspec matches Some(c) && has_infix(c, "cmd.exe"@) {
        windows_shell(Dialect::Cmd)
    } else if shell matches Some(s) && has_infix(s, "bash"@) {
        ShellInfo {
            dialect: Dialect::Unix,
            supports_conditional_connectors: true,
            needs_unix_translation: true,
            target: Dialect::Unix,
            version: None,
        }
    } else {
        windows_shell(Dialect::PowerShell)
    }
}

/// The lower-case form of an optional text.
pub open spec fn lowered(o: Option<Seq<char>>) -> Option<Seq<char>> {
    match o {
        Some(c) => Some(lowercase(c)),
        None => None,
    }
}

/// The shell detected in an environment, given `ComSpec` in lower case.
/// Every shell that is not on Windows is a Unix shell with the same
/// capabilities.
pub open spec fn detected_shell(
    windows: bool,
    prompt: Option<Seq<char>>,
    ps_module_path: Option<Seq<char>>,
    comspec: Option<Seq<char>>,
    shell: Option<Seq<char>>,
) -> ShellInfo {
    if windows {
        windows_detection(prompt, ps_module_path, comspec, shell)
    } else {
        unix_shell()
    }
}

fn detect_windows_shell(env: &ShellEnvironment, comspec_lower: &Option<String>) -> (r: ShellInfo)
    ensures
        r == windows_detection(
            opt_view(env.prompt),
            opt_view(env.ps_module_path),
            opt_view(*comspec_lower),
            opt_view(env.shell),
        ),
{
    let is_cmd = env.prompt.is_some() && env.ps_module_path.is_none();
    if is_cmd {
        return shell_info_for(Dialect::Cmd);
    }
    if env.ps_module_path.is_some() {
        return shell_info_for(Dialect::PowerShell);
    }
    if let Some(comspec) = comspec_lower {
        if contains(comspec.as_str(), "cmd.exe") {
            return shell_info_for(Dialect::Cmd);
        }
    }
    if let Some(shell_path) = &env.shell {
        if contains(shell_path.as_str(), "bash") {
            return ShellInfo {
                dialect: Dialect::Unix,
                supports_conditional_connectors: true,
                needs_unix_translation: true,
                target: Dialect::Unix,
                version: None,
            };
        }
    }
    shell_info_for(Dialect::PowerShell)
}

/// The dialect that `POLYSH_SHELL` names, if it is set to one.
pub open spec fn overriding_dialect(polysh_shell: Option<Seq<char>>) -> Option<Dialect> {
    match polysh_shell {
        Some(v) => dialect_named(lowercase(v)),
        None => None,
    }
}

/// Detect the shell of an environment. `POLYSH_SHELL`, set to the name of a
/// dialect (`unix`, `powershell`, `ps`, `cmd`, ...), overrides the detection
/// with that dialect's shell; otherwise the platform and the other variables
/// decide.
pub fn detect_shell(env: &ShellEnvironment) -> (r: ShellInfo)
    ensures
        r == match overriding_dialect(opt_view(env.polysh_shell)) {
            Some(d) => windows_shell(d),
            None => detected_shell(
                env.windows,
                opt_view(env.prompt),
                opt_view(env.ps_module_path),
                lowered(opt_view(env.comspec)),
                opt_view(env.shell),
            ),
        },
{
    if let Some(v) = &env.polysh_shell {
        if let Some(d) = Dialect::from_str(v.as_str()) {
            return shell_info_for(d);
        }
    }
    let comspec_lower = match &env.comspec {
        Some(c) => Some(to_lowercase(c.as_str())),
        None => None,
    };
    detect_shell_with_lowercase(env, &comspec_lower)
}

/// Detect the shell of an environment from its platform and its variables,
/// given its `ComSpec` in lower case (the `comspec` of `env` itself is not
/// read, nor is its `POLYSH_SHELL`).
pub fn detect_shell_with_lowercase(env: &ShellEnvironment, comspec_lower: &Option<String>) -> (r:
    ShellInfo)
    ensures
        r == detected_shell(
            env.windows,
            opt_view(env.prompt),
            opt_view(env.ps_module_path),
            opt_view(*comspec_lower),
            opt_view(env.shell),
        ),
{
    if env.windows {
        detect_windows_shell(env, comspec_lower)
    } else {
        ShellInfo::default()
    }
}

} // verus!
