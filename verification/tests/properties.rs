//! Concrete cases of the library's laws, edge cases, and exact values of the
//! dynamic translators.

use polysh::detector::{detect_shell_with_lowercase, ShellEnvironment, ShellInfo};
use polysh::mappings::dynamic::{cmd_param_given_lowercase, translate_dynamic};
use polysh::mappings::{Dialect, MappingRegistry};
use polysh::tokenizer::{
    tag_token_roles, tokenize_with_pos, tokenize_with_pos_enhanced,
    tokenize_with_pos_enhanced_and_roles, TokenRole,
};
use polysh::translator::{
    detect_input_format, detect_input_format_with_lowercase, lint_command, translate_command,
    translate_with_registry,
};

fn strings(v: &[&str]) -> Vec<String> {
    v.iter().map(|s| s.to_string()).collect()
}

fn dynamic(cmd: &str, flags: &[&str], args: &[&str], from: Dialect, to: Dialect) -> Option<String> {
    translate_dynamic(cmd, &strings(flags), &strings(args), from, to)
}

fn shell(dialect: Dialect, connectors: bool, translate: bool, target: Dialect) -> ShellInfo {
    ShellInfo {
        dialect,
        supports_conditional_connectors: connectors,
        needs_unix_translation: translate,
        target,
        version: None,
    }
}

// ---------------------------------------------------------------------------
// Laws on concrete values
// ---------------------------------------------------------------------------

#[test]
fn law_same_dialect_leaves_command_unchanged() {
    let reg = MappingRegistry::new();
    let unix = ShellInfo::default();
    for c in ["rm -rf dist && echo done", "Get-ChildItem `&`& x", "  spaced  ", "", "a | | b"] {
        for d in [Dialect::Unix, Dialect::PowerShell, Dialect::Cmd] {
            assert_eq!(translate_with_registry(c, d, d, &unix, &reg), c);
        }
    }
}

#[test]
fn law_blank_pipe_segments_are_dropped() {
    let reg = MappingRegistry::new();
    let s = shell(Dialect::PowerShell, true, true, Dialect::PowerShell);
    let r = translate_with_registry("ls |  | pwd", Dialect::Unix, Dialect::PowerShell, &s, &reg);
    assert_eq!(r, "Get-ChildItem | Get-Location");
}

#[test]
fn law_link_arguments_swap() {
    assert_eq!(
        dynamic("ln", &["-s"], &["target", "link"], Dialect::Unix, Dialect::Cmd),
        Some("mklink /D link target".to_string())
    );
    assert_eq!(
        dynamic("mklink", &["/D"], &["link", "target"], Dialect::Cmd, Dialect::Unix),
        Some("ln -s target link".to_string())
    );
    assert_eq!(
        dynamic("ln", &[], &["target", "link"], Dialect::Unix, Dialect::Cmd),
        Some("mklink link target".to_string())
    );
    assert_eq!(
        dynamic("mklink", &[], &["link", "target"], Dialect::Cmd, Dialect::Unix),
        Some("ln target link".to_string())
    );
}

#[test]
fn law_link_round_trip_through_cmd() {
    let reg = MappingRegistry::new();
    let to_cmd = shell(Dialect::Cmd, true, true, Dialect::Cmd);
    let cmd = translate_with_registry("ln -s src lnk", Dialect::Unix, Dialect::Cmd, &to_cmd, &reg);
    assert_eq!(cmd, "mklink /D lnk src");
    let back = translate_with_registry(&cmd, Dialect::Cmd, Dialect::Unix, &to_cmd, &reg);
    assert_eq!(back, "ln -s src lnk");
}

#[test]
fn law_service_actions_kept() {
    for (action, ps) in [("start", "Start-Service"), ("stop", "Stop-Service")] {
        assert_eq!(
            dynamic("systemctl", &[], &[action, "nginx"], Dialect::Unix, Dialect::Cmd),
            Some(format!("sc {} nginx", action))
        );
        assert_eq!(
            dynamic("sc", &[], &[action, "nginx"], Dialect::Cmd, Dialect::Unix),
            Some(format!("systemctl {} nginx", action))
        );
        assert_eq!(
            dynamic("systemctl", &[], &[action, "nginx"], Dialect::Unix, Dialect::PowerShell),
            Some(format!("{} nginx", ps))
        );
        assert_eq!(
            dynamic(ps, &[], &["nginx"], Dialect::PowerShell, Dialect::Unix),
            Some(format!("systemctl {} nginx", action))
        );
    }
}

#[test]
fn law_last_mapping_of_a_name_wins() {
    let reg = MappingRegistry::new();
    assert_eq!(reg.lookup_cmd(Dialect::PowerShell, "Get-ChildItem").unwrap().unix, "umask");
    assert_eq!(reg.lookup_cmd(Dialect::Cmd, "dir").unwrap().unix, "stat");
    assert_eq!(reg.lookup_cmd(Dialect::Unix, "ls").unwrap().powershell, "Get-ChildItem");
}

#[test]
fn law_found_command_is_named() {
    let reg = MappingRegistry::new();
    let probes = [
        (Dialect::Unix, "rm"),
        (Dialect::Unix, "grep"),
        (Dialect::PowerShell, "Remove-Item"),
        (Dialect::PowerShell, "Get-ChildItem"),
        (Dialect::Cmd, "del"),
        (Dialect::Cmd, "dir"),
    ];
    for (d, name) in probes {
        let m = reg.lookup_cmd(d, name).unwrap();
        assert_eq!(m.cmd_name(d), name);
    }
    assert!(reg.lookup_cmd(Dialect::Unix, "").is_none());
    assert!(reg.lookup_cmd(Dialect::Cmd, "").is_none());
    assert!(!reg.is_known(Dialect::Unix, "no-such-command"));
}

#[test]
fn law_translated_flag_comes_from_its_group() {
    let reg = MappingRegistry::new();
    let g = reg.lookup_flag(Dialect::Unix, "rm", "-rf").unwrap();
    assert_eq!(g.get(Dialect::Unix), "-rf");
    assert_eq!(
        reg.translate_flag(Dialect::Unix, "rm", "-rf", Dialect::PowerShell),
        Some(g.get(Dialect::PowerShell))
    );
    assert_eq!(reg.translate_flag(Dialect::Unix, "rm", "-zz", Dialect::PowerShell), None);
    assert!(reg.lookup_flag(Dialect::Unix, "rm", "").is_none());
}

#[test]
fn law_enhanced_tokens_are_ordered_and_nonempty() {
    let c = "echo $(date +%s) > out.txt && cat <<EOF && f() { ls; }";
    let ts = tokenize_with_pos_enhanced(c);
    let n = c.chars().count();
    assert!(!ts.is_empty());
    for (k, t) in ts.iter().enumerate() {
        assert!(t.start <= t.end && t.end <= n);
        assert!(!t.value.is_empty());
        if k + 1 < ts.len() {
            assert!(t.end <= ts[k + 1].start);
        }
    }
}

#[test]
fn law_roles_keep_tokens() {
    let c = "ls -la | grep foo > out.txt && echo 'x y'";
    let plain = tokenize_with_pos_enhanced(c);
    let tagged = tokenize_with_pos_enhanced_and_roles(c);
    assert_eq!(plain.len(), tagged.len());
    for (p, t) in plain.iter().zip(tagged.iter()) {
        assert_eq!(p.value, t.value);
        assert_eq!(p.start, t.start);
        assert_eq!(p.end, t.end);
        assert_eq!(p.original_text, t.original_text);
        assert_eq!(p.reconstructed_value, t.reconstructed_value);
        assert_eq!(p.quote_type, t.quote_type);
    }
}

// ---------------------------------------------------------------------------
// Calls that go through the lower-case and push wrappers
// ---------------------------------------------------------------------------

#[test]
fn upper_case_cmd_words_are_detected() {
    assert_eq!(detect_input_format("DEL /Q x"), Dialect::Cmd);
    assert_eq!(Dialect::from_str("BASH"), Some(Dialect::Unix));
    assert_eq!(Dialect::from_str("PowerShell"), Some(Dialect::PowerShell));
}

#[test]
fn icacls_grant_becomes_chmod() {
    assert_eq!(
        dynamic("icacls", &["/grant"], &["file.txt", "Everyone:F"], Dialect::PowerShell, Dialect::Unix),
        Some("chmod 777 file.txt".to_string())
    );
    assert_eq!(
        dynamic("icacls", &["/grant"], &["file.txt", "Everyone:F"], Dialect::Cmd, Dialect::PowerShell),
        Some("icacls file.txt /grant Everyone:F".to_string())
    );
    assert_eq!(
        dynamic("icacls", &[], &["file.txt", "/setowner", "alice"], Dialect::Cmd, Dialect::Unix),
        Some("chown alice file.txt".to_string())
    );
    assert_eq!(dynamic("icacls", &[], &["file.txt"], Dialect::Cmd, Dialect::Unix), None);
}

// ---------------------------------------------------------------------------
// Exact values of the dynamic translators
// ---------------------------------------------------------------------------

#[test]
fn awk_field_is_zero_based() {
    assert_eq!(
        dynamic("awk", &[], &["'{print $3}'", "data.txt"], Dialect::Unix, Dialect::PowerShell),
        Some("ForEach-Object { $_.Split()[2] } data.txt".to_string())
    );
    assert_eq!(dynamic("awk", &[], &["'{print $0}'"], Dialect::Unix, Dialect::PowerShell), None);
    assert_eq!(dynamic("awk", &[], &["'{sum += 1}'"], Dialect::Unix, Dialect::PowerShell), None);
}

#[test]
fn head_and_tail_counts() {
    assert_eq!(
        dynamic("head", &["-20"], &["f"], Dialect::Unix, Dialect::PowerShell),
        Some("Select-Object -First 20 f".to_string())
    );
    assert_eq!(
        dynamic("tail", &["-n15"], &["f"], Dialect::Unix, Dialect::PowerShell),
        Some("Select-Object -Last 15 f".to_string())
    );
    assert_eq!(
        dynamic("head", &["-n"], &["5", "f"], Dialect::Unix, Dialect::PowerShell),
        Some("Select-Object -First 5 f".to_string())
    );
    assert_eq!(dynamic("head", &["-n"], &["five", "f"], Dialect::Unix, Dialect::PowerShell), None);
}

#[test]
fn foreach_split_and_replace_reverse() {
    assert_eq!(
        dynamic("ForEach-Object", &[], &["{ $_.Split(',')[2] }", "f.csv"], Dialect::PowerShell, Dialect::Unix),
        Some("cut -d',' -f3 f.csv".to_string())
    );
    assert_eq!(
        dynamic("ForEach-Object", &[], &["{ $_.Replace('a','b') }", "f"], Dialect::PowerShell, Dialect::Unix),
        Some("tr 'a' 'b' f".to_string())
    );
    assert_eq!(
        dynamic("ForEach-Object", &[], &["{ $_.Split(',') }"], Dialect::PowerShell, Dialect::Unix),
        None
    );
    assert_eq!(
        dynamic("ForEach-Object", &[], &["{ $_.Length }"], Dialect::PowerShell, Dialect::Unix),
        None
    );
}

#[test]
fn cut_and_tr_values() {
    assert_eq!(
        dynamic("cut", &["-d", "','", "-f", "2"], &[], Dialect::Unix, Dialect::PowerShell),
        Some("ForEach-Object { $_.Split(',')[1] }".to_string())
    );
    assert_eq!(dynamic("cut", &["-f", "0"], &[], Dialect::Unix, Dialect::PowerShell), None);
    assert_eq!(
        dynamic("tr", &[], &["a", "b"], Dialect::Unix, Dialect::PowerShell),
        Some("ForEach-Object { $_.Replace('a','b') }".to_string())
    );
    assert_eq!(
        dynamic("tr", &[], &["abc", "xyz"], Dialect::Unix, Dialect::PowerShell),
        Some("ForEach-Object { $_ -replace '[abc]','xyz' }".to_string())
    );
    // Lengths are counted in UTF-8 bytes: 'é' is two of them.
    assert_eq!(dynamic("tr", &[], &["é", "e"], Dialect::Unix, Dialect::PowerShell), None);
}

#[test]
fn chmod_owner_digit_decides() {
    assert_eq!(
        dynamic("chmod", &[], &["755", "script.sh"], Dialect::Unix, Dialect::PowerShell),
        Some("icacls script.sh /grant Everyone:F".to_string())
    );
    assert_eq!(
        dynamic("chmod", &[], &["0644", "f"], Dialect::Unix, Dialect::Cmd),
        Some("icacls f /grant Everyone:M".to_string())
    );
    assert_eq!(dynamic("chmod", &[], &["75x", "f"], Dialect::Unix, Dialect::PowerShell), None);
    assert_eq!(dynamic("chmod", &[], &["+x", "f"], Dialect::Unix, Dialect::PowerShell), None);
}

#[test]
fn taskkill_and_runas() {
    assert_eq!(
        dynamic("taskkill", &["/F"], &["/PID", "42"], Dialect::Cmd, Dialect::Unix),
        Some("kill -9 42".to_string())
    );
    assert_eq!(
        dynamic("taskkill", &[], &["/im", "app.exe"], Dialect::Cmd, Dialect::PowerShell),
        Some("Stop-Process -Name app.exe".to_string())
    );
    assert_eq!(
        dynamic("runas", &[], &["/user:admin", "notepad"], Dialect::Cmd, Dialect::Unix),
        Some("sudo notepad".to_string())
    );
    assert_eq!(dynamic("taskkill", &[], &[], Dialect::Cmd, Dialect::Unix), None);
}

#[test]
fn same_dialect_has_no_dynamic_translation() {
    for d in [Dialect::Unix, Dialect::PowerShell, Dialect::Cmd] {
        assert_eq!(dynamic("find", &[], &["."], d, d), None);
        assert_eq!(dynamic("Start-Service", &[], &["x"], d, d), None);
    }
}

// ---------------------------------------------------------------------------
// Whole commands
// ---------------------------------------------------------------------------

#[test]
fn legacy_powershell_connectors_exact() {
    let reg = MappingRegistry::new();
    let legacy = shell(Dialect::PowerShell, false, true, Dialect::PowerShell);
    assert_eq!(
        translate_with_registry("rm -rf dist && echo done", Dialect::Unix, Dialect::PowerShell, &legacy, &reg),
        "Remove-Item -Recurse -Force dist; if ($?) { Write-Host done }"
    );
    assert_eq!(
        translate_with_registry("rm x || echo fail", Dialect::Unix, Dialect::PowerShell, &legacy, &reg),
        "Remove-Item x; if (-not $?) { Write-Host fail }"
    );
}

#[test]
fn translate_command_detects_source() {
    let s = shell(Dialect::PowerShell, true, true, Dialect::PowerShell);
    assert_eq!(
        translate_command("rm -rf dist && echo done", &s),
        "Remove-Item -Recurse -Force dist && Write-Host done"
    );
}

#[test]
fn lint_lists_each_unknown_command() {
    let r = lint_command("foo | ls && bar");
    assert_eq!(
        r.unsupported,
        vec![
            "foo (unknown command: 'foo')".to_string(),
            "bar (unknown command: 'bar')".to_string()
        ]
    );
    assert!(r.suggestions.is_empty());
}

#[test]
fn detect_input_format_edges() {
    assert_eq!(detect_input_format("echo %PATH%"), Dialect::Cmd);
    assert_eq!(detect_input_format("ls"), Dialect::Unix);
    assert_eq!(detect_input_format("dir"), Dialect::Unix);
    assert_eq!(detect_input_format("dir /s"), Dialect::Cmd);
    assert_eq!(detect_input_format("$env:PATH"), Dialect::PowerShell);
    assert_eq!(detect_input_format(""), Dialect::Unix);
}

// ---------------------------------------------------------------------------
// The logic that follows the lower-casing, on given lower-case values
// ---------------------------------------------------------------------------

#[test]
fn lowercase_given_entry_points() {
    assert_eq!(Dialect::from_lowercase("pwsh"), Some(Dialect::PowerShell));
    assert_eq!(Dialect::from_lowercase("PWSH"), None);
    assert_eq!(detect_input_format_with_lowercase("DIR /S", "dir /s"), Dialect::Cmd);
    assert_eq!(detect_input_format_with_lowercase("DIR /S", "DIR /S"), Dialect::Unix);

    let flags = strings(&["/F"]);
    let flags_lower = strings(&["/f"]);
    let args = strings(&["/PID", "42"]);
    let args_lower = strings(&["/pid", "42"]);
    assert_eq!(
        cmd_param_given_lowercase(&flags, &flags_lower, &args, &args_lower, "/pid"),
        Some("42".to_string())
    );
    assert_eq!(cmd_param_given_lowercase(&flags, &flags_lower, &args, &args_lower, "/im"), None);

    let env = ShellEnvironment {
        windows: true,
        polysh_shell: None,
        prompt: None,
        ps_module_path: None,
        comspec: Some("C:\\WINDOWS\\CMD.EXE".to_string()),
        shell: None,
    };
    let cmd = detect_shell_with_lowercase(&env, &Some("c:\\windows\\cmd.exe".to_string()));
    assert_eq!(cmd.dialect, Dialect::Cmd);
    let other = detect_shell_with_lowercase(&env, &Some("C:\\WINDOWS\\CMD.EXE".to_string()));
    assert_eq!(other.dialect, Dialect::PowerShell);
}

#[test]
fn law_translated_flag_known_back() {
    let reg = MappingRegistry::new();
    let probes = [
        (Dialect::Unix, "rm", "-rf", Dialect::PowerShell),
        (Dialect::Unix, "rm", "-rf", Dialect::Cmd),
        (Dialect::Unix, "ls", "-la", Dialect::Cmd),
        (Dialect::Unix, "grep", "-i", Dialect::PowerShell),
    ];
    for (from, name, flag, to) in probes {
        let t = reg.translate_flag(from, name, flag, to).unwrap();
        let m = reg.lookup_cmd(from, name).unwrap();
        let back = reg.lookup_flag(to, m.cmd_name(to), t).unwrap();
        assert_eq!(back.get(to), t);
    }
}

// ---------------------------------------------------------------------------
// Tokens of redirections, `${...}` and merged constructs; README examples
// ---------------------------------------------------------------------------

#[test]
fn connector_after_digit_is_not_a_redirection() {
    let ts = tokenize_with_pos_enhanced("echo 1 && echo 2");
    let values: Vec<&str> = ts.iter().map(|t| t.value.as_str()).collect();
    assert_eq!(values, vec!["echo", "1", "&&", "echo", "2"]);
    let r = tokenize_with_pos_enhanced("cmd 2> err.txt && ls");
    let values: Vec<&str> = r.iter().map(|t| t.value.as_str()).collect();
    assert_eq!(values, vec!["cmd", "2>", "err.txt", "&&", "ls"]);
}

#[test]
fn env_var_token_ends_at_its_brace() {
    let ts = tokenize_with_pos_enhanced("echo ${HOME} x");
    assert_eq!(ts.len(), 3);
    assert_eq!(ts[1].value, "${");
    assert_eq!((ts[1].start, ts[1].end), (5, 12));
    assert_eq!(ts[1].reconstructed_value, "${HOME}");
    assert_eq!(ts[1].original_text, "${HOME}");
    assert_eq!(ts[2].value, "x");
    assert_eq!((ts[2].start, ts[2].end), (13, 14));
}

#[test]
fn merged_token_keeps_its_command_text() {
    let c = "echo $(ls -la)";
    let ts = tokenize_with_pos_enhanced(c);
    assert_eq!(ts.len(), 2);
    assert_eq!(ts[1].original_text, "$(ls -la)");
    for t in &ts {
        assert_eq!(t.original_text, &c[t.start..t.end]);
    }
}

#[test]
fn readme_examples_translate_as_documented() {
    let reg = MappingRegistry::new();
    let s = ShellInfo {
        dialect: Dialect::PowerShell,
        supports_conditional_connectors: true,
        needs_unix_translation: true,
        target: Dialect::PowerShell,
        version: Some(7),
    };
    assert_eq!(
        translate_with_registry("grep -in 'error' log.txt", Dialect::Unix, Dialect::PowerShell, &s, &reg),
        "Select-String -CaseSensitive:$false -LineNumber 'error' log.txt"
    );
    assert_eq!(
        translate_with_registry(
            "Get-ChildItem -Recurse -Filter '*.rs'",
            Dialect::PowerShell,
            Dialect::Unix,
            &s,
            &reg
        ),
        "find . -name '*.rs'"
    );
    assert_eq!(
        translate_with_registry("sleep 5 && echo done", Dialect::Unix, Dialect::PowerShell, &s, &reg),
        "Start-Sleep 5 && Write-Host done"
    );
    assert_eq!(
        translate_with_registry("head -n 5 file.txt", Dialect::Unix, Dialect::PowerShell, &s, &reg),
        "Select-Object -First 5 file.txt"
    );
}

#[test]
fn combined_flag_with_an_unknown_letter_stays() {
    let reg = MappingRegistry::new();
    let s = shell(Dialect::PowerShell, true, true, Dialect::PowerShell);
    // `-z` has no translation, so `-iz` is kept as it is.
    assert_eq!(
        translate_with_registry("grep -iz x f", Dialect::Unix, Dialect::PowerShell, &s, &reg),
        "Select-String -iz x f"
    );
}

#[test]
fn count_flag_with_a_space() {
    assert_eq!(
        dynamic("head", &["-n 10"], &["f"], Dialect::Unix, Dialect::PowerShell),
        Some("Select-Object -First 10 f".to_string())
    );
    assert_eq!(
        dynamic("tail", &["-n"], &["3", "f"], Dialect::Unix, Dialect::PowerShell),
        Some("Select-Object -Last 3 f".to_string())
    );
}

#[test]
fn recursive_listing_paths() {
    assert_eq!(
        dynamic("Get-ChildItem", &["-Recurse"], &["src", "docs"], Dialect::PowerShell, Dialect::Unix),
        Some("find src docs".to_string())
    );
    assert_eq!(
        dynamic("Get-ChildItem", &["-Recurse"], &[], Dialect::PowerShell, Dialect::Unix),
        Some("find .".to_string())
    );
    assert_eq!(
        dynamic("Get-ChildItem", &[], &["-Recurse", "src"], Dialect::PowerShell, Dialect::Unix),
        Some("find src".to_string())
    );
    assert_eq!(dynamic("Get-ChildItem", &[], &["src"], Dialect::PowerShell, Dialect::Unix), None);
}

// ---------------------------------------------------------------------------
// Tokenizer laws on concrete values
// ---------------------------------------------------------------------------

#[test]
fn law_raw_tokens_cover_command() {
    let c = "  ls -la |  grep 'a b' > out.txt\t&& echo \"x\"  ";
    let ts = tokenize_with_pos(c);
    let chars: Vec<char> = c.chars().collect();
    let mut covered = vec![false; chars.len()];
    for (k, t) in ts.iter().enumerate() {
        assert!(t.start < t.end && t.end <= chars.len());
        let slice: String = chars[t.start..t.end].iter().collect();
        assert_eq!(t.value, slice);
        if k + 1 < ts.len() {
            assert!(t.end <= ts[k + 1].start);
        }
        for p in t.start..t.end {
            covered[p] = true;
        }
    }
    for (p, ch) in chars.iter().enumerate() {
        if !covered[p] {
            assert!(ch.is_ascii_whitespace());
        }
    }
}

#[test]
fn law_no_tokens_iff_blank() {
    assert!(tokenize_with_pos(" \t\n ").is_empty());
    assert!(tokenize_with_pos("").is_empty());
    assert!(!tokenize_with_pos(" \t x ").is_empty());
}

#[test]
fn law_roles_closed_form() {
    let ts = tokenize_with_pos_enhanced_and_roles("ls -la > out.txt | grep -v x; echo -n hi");
    let roles: Vec<TokenRole> = ts.iter().map(|t| t.role).collect();
    assert_eq!(
        roles,
        vec![
            TokenRole::Cmd,
            TokenRole::Flag,
            TokenRole::Arg,
            TokenRole::Arg,
            TokenRole::Op,
            TokenRole::Cmd,
            TokenRole::Flag,
            TokenRole::Arg,
            TokenRole::Op,
            TokenRole::Cmd,
            TokenRole::Flag,
            TokenRole::Arg,
        ]
    );
}

#[test]
fn law_roles_agree_without_merges() {
    let c = "ls -la | grep -v 'x y' && echo done";
    let raw = tokenize_with_pos(c);
    let plain = tag_token_roles(&raw);
    let full = tokenize_with_pos_enhanced_and_roles(c);
    assert_eq!(plain.len(), full.len());
    for (a, b) in plain.iter().zip(full.iter()) {
        assert_eq!(a.value, b.value);
        assert_eq!((a.start, a.end), (b.start, b.end));
        assert_eq!(a.quote_type, b.quote_type);
        assert_eq!(a.role, b.role);
    }
}

#[test]
fn bare_ampersand_is_an_argument_where_a_command_is_expected() {
    let raw = tokenize_with_pos("& x");
    let tagged = tag_token_roles(&raw);
    let roles: Vec<TokenRole> = tagged.iter().map(|t| t.role).collect();
    assert_eq!(roles, vec![TokenRole::Arg, TokenRole::Cmd]);
    let full = tokenize_with_pos_enhanced_and_roles("2 & x");
    let values: Vec<&str> = full.iter().map(|t| t.value.as_str()).collect();
    assert_eq!(values, vec!["2", "&", "x"]);
}

#[test]
fn law_flag_lookup_finds_last_match() {
    let reg = MappingRegistry::new();
    let g = reg.lookup_flag(Dialect::Unix, "rm", "-rf").unwrap();
    assert_eq!(g.get(Dialect::Unix), "-rf");
    assert_eq!(g.powershell, "-Recurse -Force");
    let m = reg.lookup_cmd(Dialect::Cmd, "dir").unwrap();
    // The group found for `/a` under `dir` spells `/a` in CMD.
    let a = reg.lookup_flag(Dialect::Cmd, "dir", "/a").unwrap();
    assert_eq!(a.get(Dialect::Cmd), "/a");
    assert_eq!(m.cmd_name(Dialect::Cmd), "dir");
}

#[test]
fn law_parse_ignores_ascii_case() {
    for s in ["BASH", "PwSh", "Cmd", "nope", "PowerShell"] {
        assert_eq!(Dialect::from_str(s), Dialect::from_str(&s.to_ascii_lowercase()));
    }
}

#[test]
fn law_lint_reports_trimmed_segments() {
    let r = lint_command("  foo   |  ls  ");
    assert_eq!(r.unsupported, vec!["foo (unknown command: 'foo')".to_string()]);
}
