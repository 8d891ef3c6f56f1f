//! Shell detection and dialect names.

use polysh::detector::{detect_shell, ShellEnvironment, ShellInfo};
use polysh::mappings::Dialect;

fn env(
    windows: bool,
    prompt: Option<&str>,
    ps_module_path: Option<&str>,
    comspec: Option<&str>,
    shell: Option<&str>,
) -> ShellEnvironment {
    ShellEnvironment {
        windows,
        polysh_shell: None,
        prompt: prompt.map(|s| s.to_string()),
        ps_module_path: ps_module_path.map(|s| s.to_string()),
        comspec: comspec.map(|s| s.to_string()),
        shell: shell.map(|s| s.to_string()),
    }
}

#[test]
fn test_detect_shell_does_not_panic() {
    // Detection runs on any environment and always returns something valid.
    let envs = [
        env(false, None, None, None, Some("/bin/bash")),
        env(false, None, None, None, None),
        env(true, Some("$P$G"), None, Some("C:\\Windows\\system32\\cmd.exe"), None),
        env(true, None, Some("C:\\ps"), None, None),
        env(true, None, None, None, Some("/usr/bin/bash")),
        env(true, None, None, None, None),
    ];
    for e in &envs {
        let info = detect_shell(e);
        assert!(info.version.is_none() || info.version.unwrap() >= 1);
    }
}

#[test]
fn test_dialect_from_str_aliases() {
    // Verify Dialect::parse works for all known aliases
    assert_eq!(Dialect::parse("powershell"), Some(Dialect::PowerShell));
    assert_eq!(Dialect::parse("ps"), Some(Dialect::PowerShell));
    assert_eq!(Dialect::parse("bash"), Some(Dialect::Unix));
    assert_eq!(Dialect::parse("zsh"), Some(Dialect::Unix));
    assert_eq!(Dialect::parse("cmd"), Some(Dialect::Cmd));
    assert_eq!(Dialect::parse("unknown"), None);
}

fn same_info(a: &ShellInfo, b: &ShellInfo) -> bool {
    a.dialect == b.dialect
        && a.supports_conditional_connectors == b.supports_conditional_connectors
        && a.needs_unix_translation == b.needs_unix_translation
        && a.target == b.target
        && a.version == b.version
}

#[test]
fn unix_platform_is_always_the_default_shell() {
    let d = ShellInfo::default();
    assert_eq!(d.dialect, Dialect::Unix);
    assert_eq!(d.target, Dialect::Unix);
    assert!(d.supports_conditional_connectors);
    assert!(!d.needs_unix_translation);
    assert_eq!(d.version, None);
    for shell in [Some("/bin/zsh"), Some("/usr/bin/fish"), Some("/opt/weird"), None] {
        let info = detect_shell(&env(false, Some("x"), Some("y"), None, shell));
        assert!(same_info(&info, &d));
    }
}

#[test]
fn windows_prompt_without_ps_module_path_is_cmd() {
    let info = detect_shell(&env(true, Some("$P$G"), None, None, None));
    assert_eq!(info.dialect, Dialect::Cmd);
    assert_eq!(info.target, Dialect::Cmd);
    assert!(info.needs_unix_translation);
    assert!(info.supports_conditional_connectors);
}

#[test]
fn windows_ps_module_path_is_powershell() {
    let info = detect_shell(&env(true, Some("$P$G"), Some("C:\\mods"), None, None));
    assert_eq!(info.dialect, Dialect::PowerShell);
    assert_eq!(info.target, Dialect::PowerShell);
    assert!(info.needs_unix_translation);
    assert_eq!(info.version, None);
}

#[test]
fn windows_comspec_cmd_exe_in_any_case_is_cmd() {
    let info = detect_shell(&env(true, None, None, Some("C:\\WINDOWS\\System32\\CMD.EXE"), None));
    assert_eq!(info.dialect, Dialect::Cmd);
}

#[test]
fn windows_bash_shell_translates_to_unix() {
    let info = detect_shell(&env(true, None, None, Some("C:\\other.exe"), Some("/usr/bin/bash")));
    assert_eq!(info.dialect, Dialect::Unix);
    assert_eq!(info.target, Dialect::Unix);
    assert!(info.needs_unix_translation);
}

#[test]
fn windows_fallback_is_powershell() {
    let info = detect_shell(&env(true, None, None, None, Some("/bin/zsh")));
    assert_eq!(info.dialect, Dialect::PowerShell);
    assert!(info.needs_unix_translation);
}

#[test]
fn dialect_names_parse_back() {
    assert_eq!(Dialect::all(), [Dialect::Unix, Dialect::PowerShell, Dialect::Cmd]);
    for d in Dialect::all() {
        assert_eq!(Dialect::from_str(d.name()), Some(d));
    }
    assert_eq!(Dialect::Unix.name(), "Unix");
    assert_eq!(Dialect::PowerShell.name(), "PowerShell");
    assert_eq!(Dialect::Cmd.name(), "CMD");
    assert_eq!(Dialect::from_str("PWSH"), Some(Dialect::PowerShell));
    assert_eq!(Dialect::from_str("Batch"), Some(Dialect::Cmd));
    assert_eq!(Dialect::from_str("tcsh"), Some(Dialect::Unix));
    assert_eq!(Dialect::from_str(""), None);
}

#[test]
fn polysh_shell_overrides_detection() {
    let mut e = env(false, None, None, None, Some("/bin/bash"));
    e.polysh_shell = Some("PowerShell".to_string());
    let info = detect_shell(&e);
    assert_eq!(info.dialect, Dialect::PowerShell);
    assert_eq!(info.target, Dialect::PowerShell);
    assert!(info.needs_unix_translation);

    let mut w = env(true, None, Some("C:\\mods"), None, None);
    w.polysh_shell = Some("cmd".to_string());
    assert_eq!(detect_shell(&w).dialect, Dialect::Cmd);
    w.polysh_shell = Some("unix".to_string());
    let u = detect_shell(&w);
    assert_eq!(u.dialect, Dialect::Unix);
    assert!(!u.needs_unix_translation);
    // An unknown name leaves the detection to the other variables.
    w.polysh_shell = Some("nonsense".to_string());
    assert_eq!(detect_shell(&w).dialect, Dialect::PowerShell);
}
