//! The static command mappings.
//!
//! Every entry is a `CommandMapping` with its flag groups; one entry serves
//! all six directions of translation. `table` states the data, and
//! `all_mappings` builds it.

use vstd::prelude::*;
use super::{flag_views, mapping_views, CommandMapping, FlagGroup, MappingV, Names};

verus! {

pub open spec fn names(unix: Seq<char>, powershell: Seq<char>, cmd: Seq<char>) -> Names {
    Names { unix, powershell, cmd }
}

pub open spec fn mapping(
    unix: Seq<char>,
    powershell: Seq<char>,
    cmd: Seq<char>,
    flags: Seq<Names>,
    force_args: bool,
) -> MappingV {
    MappingV { names: names(unix, powershell, cmd), flags, force_args }
}

/// A flag group spelled in all three dialects.
pub fn fg(unix: &'static str, ps: &'static str, cmd: &'static str) -> (r: FlagGroup)
    ensures
        r@ == names(unix@, ps@, cmd@),
{
    FlagGroup { unix, powershell: ps, cmd }
}

/// A flag group with no CMD spelling.
pub fn fg2(unix: &'static str, ps: &'static str) -> (r: FlagGroup)
    ensures
        r@ == names(unix@, ps@, ""@),
{
    FlagGroup { unix, powershell: ps, cmd: "" }
}

fn cm(
    unix: &'static str,
    powershell: &'static str,
    cmd: &'static str,
    flags: Vec<FlagGroup>,
    force_args: bool,
) -> (r: CommandMapping)
    ensures
        r@ == mapping(unix@, powershell@, cmd@, flag_views(flags@), force_args),
{
    CommandMapping { unix, powershell, cmd, flags, force_args }
}

/// The entries of the table from `rm` to `which`.
pub open spec fn group_1() -> Seq<MappingV> {
    seq![
        mapping("rm"@, "Remove-Item"@, "del"@, seq![names("-rf"@, "-Recurse -Force"@, "/s /q"@), names("-fr"@, "-Recurse -Force"@, "/s /q"@), names("-r"@, "-Recurse"@, "/s"@), names("-f"@, "-Force"@, "/q"@)], true),
        mapping("mkdir"@, "New-Item -ItemType Directory"@, "md"@, seq![names("-p"@, "-Force"@, ""@), names("-m"@, "-Mode"@, ""@), names("-v"@, "-Verbose"@, ""@)], true),
        mapping("ls"@, "Get-ChildItem"@, "dir"@, seq![names("-la"@, "-Force"@, "/a"@), names("-al"@, "-Force"@, "/a"@), names("-a"@, "-Force"@, "/a"@), names("-l"@, ""@, ""@)], false),
        mapping("cp"@, "Copy-Item"@, "copy"@, seq![names("-rf"@, "-Recurse -Force"@, "/s /y"@), names("-fr"@, "-Recurse -Force"@, "/s /y"@), names("-r"@, "-Recurse"@, "/s"@), names("-R"@, "-Recurse"@, "/s"@), names("-f"@, "-Force"@, "/y"@)], true),
        mapping("mv"@, "Move-Item"@, "move"@, seq![], true),
        mapping("touch"@, "New-Item -ItemType File"@, "type nul >"@, seq![names("-a"@, "-AccessTime"@, ""@), names("-m"@, "-ModifyTime"@, ""@), names("-c"@, "-NoCreate"@, ""@)], true),
        mapping("cat"@, "Get-Content"@, "type"@, seq![], true),
        mapping("grep"@, "Select-String"@, "findstr"@, seq![names("-i"@, "-CaseSensitive:$false"@, "/i"@), names("-n"@, "-LineNumber"@, "/n"@), names("-v"@, "-NotMatch"@, "/v"@), names("-q"@, "-Quiet"@, ""@), names("-E"@, ""@, ""@), names("-F"@, "-SimpleMatch"@, ""@)], true),
        mapping("pwd"@, "Get-Location"@, "cd"@, seq![], false),
        mapping("clear"@, "Clear-Host"@, "cls"@, seq![], false),
        mapping("whoami"@, "$env:USERNAME"@, "echo %USERNAME%"@, seq![], false),
        mapping("hostname"@, "$env:COMPUTERNAME"@, "echo %COMPUTERNAME%"@, seq![], false),
        mapping("date"@, "Get-Date"@, "date"@, seq![names("-u"@, "-UFormat"@, ""@), names("-R"@, "-Format"@, ""@), names("-I"@, "-Format"@, ""@)], false),
        mapping("which"@, "Get-Command"@, ""@, seq![], true),
    ]
}

fn build_group_1() -> (r: Vec<CommandMapping>)
    ensures
        mapping_views(r@) == group_1(),
{
    let mut r: Vec<CommandMapping> = Vec::new();
    let f = vec![fg("-rf", "-Recurse -Force", "/s /q"), fg("-fr", "-Recurse -Force", "/s /q"), fg("-r", "-Recurse", "/s"), fg("-f", "-Force", "/q")];
    assert(flag_views(f@) =~= seq![names("-rf"@, "-Recurse -Force"@, "/s /q"@), names("-fr"@, "-Recurse -Force"@, "/s /q"@), names("-r"@, "-Recurse"@, "/s"@), names("-f"@, "-Force"@, "/q"@)]);
    r.push(cm("rm", "Remove-Item", "del", f, true));
    let f = vec![fg("-p", "-Force", ""), fg("-m", "-Mode", ""), fg("-v", "-Verbose", "")];
    assert(flag_views(f@) =~= seq![names("-p"@, "-Force"@, ""@), names("-m"@, "-Mode"@, ""@), names("-v"@, "-Verbose"@, ""@)]);
    r.push(cm("mkdir", "New-Item -ItemType Directory", "md", f, true));
    let f = vec![fg("-la", "-Force", "/a"), fg("-al", "-Force", "/a"), fg("-a", "-Force", "/a"), fg("-l", "", "")];
    assert(flag_views(f@) =~= seq![names("-la"@, "-Force"@, "/a"@), names("-al"@, "-Force"@, "/a"@), names("-a"@, "-Force"@, "/a"@), names("-l"@, ""@, ""@)]);
    r.push(cm("ls", "Get-ChildItem", "dir", f, false));
    let f = vec![fg("-rf", "-Recurse -Force", "/s /y"), fg("-fr", "-Recurse -Force", "/s /y"), fg("-r", "-Recurse", "/s"), fg("-R", "-Recurse", "/s"), fg("-f", "-Force", "/y")];
    assert(flag_views(f@) =~= seq![names("-rf"@, "-Recurse -Force"@, "/s /y"@), names("-fr"@, "-Recurse -Force"@, "/s /y"@), names("-r"@, "-Recurse"@, "/s"@), names("-R"@, "-Recurse"@, "/s"@), names("-f"@, "-Force"@, "/y"@)]);
    r.push(cm("cp", "Copy-Item", "copy", f, true));
    let f = vec![];
    assert(flag_views(f@) =~= seq![]);
    r.push(cm("mv", "Move-Item", "move", f, true));
    let f = vec![fg("-a", "-AccessTime", ""), fg("-m", "-ModifyTime", ""), fg("-c", "-NoCreate", "")];
    assert(flag_views(f@) =~= seq![names("-a"@, "-AccessTime"@, ""@), names("-m"@, "-ModifyTime"@, ""@), names("-c"@, "-NoCreate"@, ""@)]);
    r.push(cm("touch", "New-Item -ItemType File", "type nul >", f, true));
    let f = vec![];
    assert(flag_views(f@) =~= seq![]);
    r.push(cm("cat", "Get-Content", "type", f, true));
    let f = vec![fg("-i", "-CaseSensitive:$false", "/i"), fg("-n", "-LineNumber", "/n"), fg("-v", "-NotMatch", "/v"), fg("-q", "-Quiet", ""), fg("-E", "", ""), fg("-F", "-SimpleMatch", "")];
    assert(flag_views(f@) =~= seq![names("-i"@, "-CaseSensitive:$false"@, "/i"@), names("-n"@, "-LineNumber"@, "/n"@), names("-v"@, "-NotMatch"@, "/v"@), names("-q"@, "-Quiet"@, ""@), names("-E"@, ""@, ""@), names("-F"@, "-SimpleMatch"@, ""@)]);
    r.push(cm("grep", "Select-String", "findstr", f, true));
    let f = vec![];
    assert(flag_views(f@) =~= seq![]);
    r.push(cm("pwd", "Get-Location", "cd", f, false));
    let f = vec![];
    assert(flag_views(f@) =~= seq![]);
    r.push(cm("clear", "Clear-Host", "cls", f, false));
    let f = vec![];
    assert(flag_views(f@) =~= seq![]);
    r.push(cm("whoami", "$env:USERNAME", "echo %USERNAME%", f, false));
    let f = vec![];
    assert(flag_views(f@) =~= seq![]);
    r.push(cm("hostname", "$env:COMPUTERNAME", "echo %COMPUTERNAME%", f, false));
    let f = vec![fg("-u", "-UFormat", ""), fg("-R", "-Format", ""), fg("-I", "-Format", "")];
    assert(flag_views(f@) =~= seq![names("-u"@, "-UFormat"@, ""@), names("-R"@, "-Format"@, ""@), names("-I"@, "-Format"@, ""@)]);
    r.push(cm("date", "Get-Date", "date", f, false));
    let f = vec![];
    assert(flag_views(f@) =~= seq![]);
    r.push(cm("which", "Get-Command", "", f, true));
    assert(mapping_views(r@) =~= group_1());
    r
}

/// The entries of the table from `ps` to `tr`.
pub open spec fn group_2() -> Seq<MappingV> {
    seq![
        mapping("ps"@, "Get-Process"@, "tasklist"@, seq![], false),
        mapping("kill"@, "Stop-Process"@, "taskkill"@, seq![names("-9"@, "-Force"@, "/f"@)], true),
        mapping("top"@, "Get-Process | Sort-Object CPU -Descending | Select-Object -First"@, "tasklist"@, seq![], false),
        mapping("htop"@, "Get-Process | Sort-Object CPU -Descending | Select-Object -First 20 | Format-Table -AutoSize"@, "tasklist"@, seq![], false),
        mapping("echo"@, "Write-Host"@, "echo"@, seq![], false),
        mapping("sort"@, "Sort-Object"@, "sort"@, seq![], false),
        mapping("uniq"@, "Select-Object -Unique"@, "uniq"@, seq![names("-c"@, "-Unique"@, ""@)], false),
        mapping("wc"@, "Measure-Object"@, "find /c /v"@, seq![names("-l"@, "-Line"@, "/c"@), names("-w"@, "-Word"@, ""@), names("-c"@, "-Character"@, ""@), names("-m"@, "-Character"@, ""@)], false),
        mapping("head"@, "Get-Content | Select-Object -First"@, ""@, seq![names("-n"@, "-First"@, ""@), names("-c"@, "-TotalCount"@, ""@)], true),
        mapping("tail"@, "Get-Content | Select-Object -Last"@, ""@, seq![names("-n"@, "-Last"@, ""@), names("-c"@, "-TotalCount"@, ""@), names("-f"@, "-Wait"@, ""@)], true),
        mapping("awk"@, "ForEach-Object"@, ""@, seq![names("-F"@, "-FieldSeparator"@, ""@), names("-v"@, "-Variable"@, ""@), names("-f"@, "-File"@, ""@)], true),
        mapping("sed"@, "-replace"@, ""@, seq![names("-n"@, "-NoPrint"@, ""@), names("-e"@, "-Expression"@, ""@), names("-f"@, "-File"@, ""@), names("-i"@, "-InPlace"@, ""@)], true),
        mapping("cut"@, "ForEach-Object"@, ""@, seq![names("-d"@, "-Delimiter"@, ""@), names("-f"@, "-Fields"@, ""@), names("-c"@, "-Characters"@, ""@)], true),
        mapping("tr"@, "ForEach-Object"@, ""@, seq![names("-d"@, "-Delete"@, ""@), names("-s"@, "-Squeeze"@, ""@), names("-c"@, "-Complement"@, ""@)], true),
    ]
}

fn build_group_2() -> (r: Vec<CommandMapping>)
    ensures
        mapping_views(r@) == group_2(),
{
    let mut r: Vec<CommandMapping> = Vec::new();
    let f = vec![];
    assert(flag_views(f@) =~= seq![]);
    r.push(cm("ps", "Get-Process", "tasklist", f, false));
    let f = vec![fg("-9", "-Force", "/f")];
    assert(flag_views(f@) =~= seq![names("-9"@, "-Force"@, "/f"@)]);
    r.push(cm("kill", "Stop-Process", "taskkill", f, true));
    let f = vec![];
    assert(flag_views(f@) =~= seq![]);
    r.push(cm("top", "Get-Process | Sort-Object CPU -Descending | Select-Object -First", "tasklist", f, false));
    let f = vec![];
    assert(flag_views(f@) =~= seq![]);
    r.push(cm("htop", "Get-Process | Sort-Object CPU -Descending | Select-Object -First 20 | Format-Table -AutoSize", "tasklist", f, false));
    let f = vec![];
    assert(flag_views(f@) =~= seq![]);
    r.push(cm("echo", "Write-Host", "echo", f, false));
    let f = vec![];
    assert(flag_views(f@) =~= seq![]);
    r.push(cm("sort", "Sort-Object", "sort", f, false));
    let f = vec![fg("-c", "-Unique", "")];
    assert(flag_views(f@) =~= seq![names("-c"@, "-Unique"@, ""@)]);
    r.push(cm("uniq", "Select-Object -Unique", "uniq", f, false));
    let f = vec![fg("-l", "-Line", "/c"), fg("-w", "-Word", ""), fg("-c", "-Character", ""), fg("-m", "-Character", "")];
    assert(flag_views(f@) =~= seq![names("-l"@, "-Line"@, "/c"@), names("-w"@, "-Word"@, ""@), names("-c"@, "-Character"@, ""@), names("-m"@, "-Character"@, ""@)]);
    r.push(cm("wc", "Measure-Object", "find /c /v", f, false));
    let f = vec![fg("-n", "-First", ""), fg("-c", "-TotalCount", "")];
    assert(flag_views(f@) =~= seq![names("-n"@, "-First"@, ""@), names("-c"@, "-TotalCount"@, ""@)]);
    r.push(cm("head", "Get-Content | Select-Object -First", "", f, true));
    let f = vec![fg("-n", "-Last", ""), fg("-c", "-TotalCount", ""), fg("-f", "-Wait", "")];
    assert(flag_views(f@) =~= seq![names("-n"@, "-Last"@, ""@), names("-c"@, "-TotalCount"@, ""@), names("-f"@, "-Wait"@, ""@)]);
    r.push(cm("tail", "Get-Content | Select-Object -Last", "", f, true));
    let f = vec![fg("-F", "-FieldSeparator", ""), fg("-v", "-Variable", ""), fg("-f", "-File", "")];
    assert(flag_views(f@) =~= seq![names("-F"@, "-FieldSeparator"@, ""@), names("-v"@, "-Variable"@, ""@), names("-f"@, "-File"@, ""@)]);
    r.push(cm("awk", "ForEach-Object", "", f, true));
    let f = vec![fg("-n", "-NoPrint", ""), fg("-e", "-Expression", ""), fg("-f", "-File", ""), fg("-i", "-InPlace", "")];
    assert(flag_views(f@) =~= seq![names("-n"@, "-NoPrint"@, ""@), names("-e"@, "-Expression"@, ""@), names("-f"@, "-File"@, ""@), names("-i"@, "-InPlace"@, ""@)]);
    r.push(cm("sed", "-replace", "", f, true));
    let f = vec![fg("-d", "-Delimiter", ""), fg("-f", "-Fields", ""), fg("-c", "-Characters", "")];
    assert(flag_views(f@) =~= seq![names("-d"@, "-Delimiter"@, ""@), names("-f"@, "-Fields"@, ""@), names("-c"@, "-Characters"@, ""@)]);
    r.push(cm("cut", "ForEach-Object", "", f, true));
    let f = vec![fg("-d", "-Delete", ""), fg("-s", "-Squeeze", ""), fg("-c", "-Complement", "")];
    assert(flag_views(f@) =~= seq![names("-d"@, "-Delete"@, ""@), names("-s"@, "-Squeeze"@, ""@), names("-c"@, "-Complement"@, ""@)]);
    r.push(cm("tr", "ForEach-Object", "", f, true));
    assert(mapping_views(r@) =~= group_2());
    r
}

/// The entries of the table from `find` to `gzip`.
pub open spec fn group_3() -> Seq<MappingV> {
    seq![
        mapping("find"@, "Get-ChildItem -Recurse"@, "dir /s"@, seq![names("-name"@, "-Filter"@, ""@), names("-type"@, ""@, ""@), names("-delete"@, ""@, ""@)], true),
        mapping("df"@, "Get-PSDrive"@, "dir"@, seq![names("-h"@, ""@, ""@)], false),
        mapping("du"@, "Get-ChildItem -Recurse | Measure-Object -Property Length -Sum"@, "dir /s"@, seq![names("-h"@, "-Recurse"@, ""@), names("-s"@, "-Recurse"@, ""@), names("-a"@, "-Recurse"@, ""@)], true),
        mapping("dirname"@, "Split-Path -Parent"@, "cd"@, seq![], true),
        mapping("basename"@, "Split-Path -Leaf"@, ""@, seq![], true),
        mapping("rmdir"@, "Remove-Item -Directory"@, "rmdir"@, seq![names("-p"@, "-Recurse"@, "/s"@), names("-v"@, "-Verbose"@, ""@)], true),
        mapping("tee"@, "Tee-Object -FilePath"@, ""@, seq![names("-a"@, "-Append"@, ""@)], true),
        mapping("ln"@, "New-Item"@, "mklink"@, seq![names("-s"@, "-ItemType SymbolicLink"@, ""@), names("-f"@, "-Force"@, ""@), names("-v"@, "-Verbose"@, ""@)], true),
        mapping("stat"@, "Get-Item | Select-Object Name, Length, LastWriteTime, Attributes"@, "dir"@, seq![names("-f"@, "-Format"@, ""@), names("-t"@, "-Terse"@, ""@)], true),
        mapping("chmod"@, "icacls"@, "icacls"@, seq![names("-R"@, "/T"@, "/T"@), names("-v"@, "/Q"@, ""@)], true),
        mapping("chown"@, "icacls"@, "icacls"@, seq![names("-R"@, "/T"@, "/T"@), names("-v"@, "/Q"@, ""@)], true),
        mapping("chgrp"@, "icacls"@, "icacls"@, seq![names("-R"@, "/T"@, "/T"@), names("-v"@, "/Q"@, ""@)], true),
        mapping("tar"@, "tar"@, "tar"@, seq![names("-c"@, "-c"@, ""@), names("-x"@, "-x"@, ""@), names("-f"@, "-f"@, ""@), names("-z"@, "-z"@, ""@), names("-j"@, "-j"@, ""@), names("-v"@, "-v"@, ""@)], true),
        mapping("gzip"@, "Compress-Archive"@, ""@, seq![names("-d"@, "-DestinationPath"@, ""@), names("-r"@, "-Recurse"@, ""@), names("-f"@, "-Force"@, ""@), names("-v"@, "-Verbose"@, ""@)], false),
    ]
}

fn build_group_3() -> (r: Vec<CommandMapping>)
    ensures
        mapping_views(r@) == group_3(),
{
    let mut r: Vec<CommandMapping> = Vec::new();
    let f = vec![fg("-name", "-Filter", ""), fg("-type", "", ""), fg("-delete", "", "")];
    assert(flag_views(f@) =~= seq![names("-name"@, "-Filter"@, ""@), names("-type"@, ""@, ""@), names("-delete"@, ""@, ""@)]);
    r.push(cm("find", "Get-ChildItem -Recurse", "dir /s", f, true));
    let f = vec![fg("-h", "", "")];
    assert(flag_views(f@) =~= seq![names("-h"@, ""@, ""@)]);
    r.push(cm("df", "Get-PSDrive", "dir", f, false));
    let f = vec![fg("-h", "-Recurse", ""), fg("-s", "-Recurse", ""), fg("-a", "-Recurse", "")];
    assert(flag_views(f@) =~= seq![names("-h"@, "-Recurse"@, ""@), names("-s"@, "-Recurse"@, ""@), names("-a"@, "-Recurse"@, ""@)]);
    r.push(cm("du", "Get-ChildItem -Recurse | Measure-Object -Property Length -Sum", "dir /s", f, true));
    let f = vec![];
    assert(flag_views(f@) =~= seq![]);
    r.push(cm("dirname", "Split-Path -Parent", "cd", f, true));
    let f = vec![];
    assert(flag_views(f@) =~= seq![]);
    r.push(cm("basename", "Split-Path -Leaf", "", f, true));
    let f = vec![fg("-p", "-Recurse", "/s"), fg("-v", "-Verbose", "")];
    assert(flag_views(f@) =~= seq![names("-p"@, "-Recurse"@, "/s"@), names("-v"@, "-Verbose"@, ""@)]);
    r.push(cm("rmdir", "Remove-Item -Directory", "rmdir", f, true));
    let f = vec![fg("-a", "-Append", "")];
    assert(flag_views(f@) =~= seq![names("-a"@, "-Append"@, ""@)]);
    r.push(cm("tee", "Tee-Object -FilePath", "", f, true));
    let f = vec![fg("-s", "-ItemType SymbolicLink", ""), fg("-f", "-Force", ""), fg("-v", "-Verbose", "")];
    assert(flag_views(f@) =~= seq![names("-s"@, "-ItemType SymbolicLink"@, ""@), names("-f"@, "-Force"@, ""@), names("-v"@, "-Verbose"@, ""@)]);
    r.push(cm("ln", "New-Item", "mklink", f, true));
    let f = vec![fg("-f", "-Format", ""), fg("-t", "-Terse", "")];
    assert(flag_views(f@) =~= seq![names("-f"@, "-Format"@, ""@), names("-t"@, "-Terse"@, ""@)]);
    r.push(cm("stat", "Get-Item | Select-Object Name, Length, LastWriteTime, Attributes", "dir", f, true));
    let f = vec![fg("-R", "/T", "/T"), fg("-v", "/Q", "")];
    assert(flag_views(f@) =~= seq![names("-R"@, "/T"@, "/T"@), names("-v"@, "/Q"@, ""@)]);
    r.push(cm("chmod", "icacls", "icacls", f, true));
    let f = vec![fg("-R", "/T", "/T"), fg("-v", "/Q", "")];
    assert(flag_views(f@) =~= seq![names("-R"@, "/T"@, "/T"@), names("-v"@, "/Q"@, ""@)]);
    r.push(cm("chown", "icacls", "icacls", f, true));
    let f = vec![fg("-R", "/T", "/T"), fg("-v", "/Q", "")];
    assert(flag_views(f@) =~= seq![names("-R"@, "/T"@, "/T"@), names("-v"@, "/Q"@, ""@)]);
    r.push(cm("chgrp", "icacls", "icacls", f, true));
    let f = vec![fg("-c", "-c", ""), fg("-x", "-x", ""), fg("-f", "-f", ""), fg("-z", "-z", ""), fg("-j", "-j", ""), fg("-v", "-v", "")];
    assert(flag_views(f@) =~= seq![names("-c"@, "-c"@, ""@), names("-x"@, "-x"@, ""@), names("-f"@, "-f"@, ""@), names("-z"@, "-z"@, ""@), names("-j"@, "-j"@, ""@), names("-v"@, "-v"@, ""@)]);
    r.push(cm("tar", "tar", "tar", f, true));
    let f = vec![fg("-d", "-DestinationPath", ""), fg("-r", "-Recurse", ""), fg("-f", "-Force", ""), fg("-v", "-Verbose", "")];
    assert(flag_views(f@) =~= seq![names("-d"@, "-DestinationPath"@, ""@), names("-r"@, "-Recurse"@, ""@), names("-f"@, "-Force"@, ""@), names("-v"@, "-Verbose"@, ""@)]);
    r.push(cm("gzip", "Compress-Archive", "", f, false));
    assert(mapping_views(r@) =~= group_3());
    r
}

/// The entries of the table from `gunzip` to `nslookup`.
pub open spec fn group_4() -> Seq<MappingV> {
    seq![
        mapping("gunzip"@, "Expand-Archive"@, ""@, seq![names("-f"@, "-Force"@, ""@), names("-v"@, "-Verbose"@, ""@), names("-l"@, "-ListOnly"@, ""@)], false),
        mapping("zip"@, "Compress-Archive"@, ""@, seq![names("-r"@, "-Recurse"@, ""@), names("-f"@, "-Force"@, ""@), names("-u"@, "-Update"@, ""@), names("-d"@, "-DestinationPath"@, ""@)], true),
        mapping("unzip"@, "Expand-Archive"@, ""@, seq![names("-l"@, "-ListOnly"@, ""@), names("-o"@, "-Force"@, ""@), names("-d"@, "-DestinationPath"@, ""@), names("-q"@, "-Quiet"@, ""@)], true),
        mapping("bzip2"@, "Compress-Archive -CompressionLevel Optimal"@, ""@, seq![names("-d"@, "-Decompress"@, ""@), names("-k"@, "-Keep"@, ""@), names("-f"@, "-Force"@, ""@), names("-v"@, "-Verbose"@, ""@)], true),
        mapping("bunzip2"@, "Expand-Archive"@, ""@, seq![names("-k"@, "-Keep"@, ""@), names("-f"@, "-Force"@, ""@), names("-v"@, "-Verbose"@, ""@)], true),
        mapping("curl"@, "Invoke-WebRequest"@, "curl"@, seq![names("-o"@, "-OutFile"@, ""@), names("-O"@, "-OutFile"@, ""@), names("-s"@, "-UseBasicParsing"@, ""@), names("-L"@, "-MaximumRedirection"@, ""@), names("-H"@, "-Headers"@, ""@), names("-d"@, "-Body"@, ""@), names("-X"@, "-Method"@, ""@), names("-k"@, "-SkipCertificateCheck"@, ""@)], true),
        mapping("wget"@, "Invoke-WebRequest"@, ""@, seq![names("-O"@, "-OutFile"@, ""@), names("-o"@, "-OutFile"@, ""@), names("-q"@, "-UseBasicParsing"@, ""@), names("-c"@, "-Resume"@, ""@)], true),
        mapping("ping"@, "Test-Connection"@, "ping"@, seq![names("-c"@, "-Count"@, "-n"@), names("-i"@, "-Interval"@, ""@), names("-t"@, "-TimeoutSeconds"@, "-w"@), names("-W"@, "-TimeoutSeconds"@, ""@), names("-s"@, "-BufferSize"@, ""@)], true),
        mapping("ssh"@, "ssh"@, "ssh"@, seq![names("-p"@, "-Port"@, "-p"@), names("-i"@, "-IdentityFile"@, "-i"@), names("-X"@, "-X11Forwarding"@, ""@)], true),
        mapping("ifconfig"@, "Get-NetAdapter | Format-Table Name, Status, LinkSpeed, MacAddress -AutoSize"@, "ipconfig"@, seq![names("-a"@, "-All"@, "/all"@), names("-s"@, "-Statistics"@, ""@)], false),
        mapping("netstat"@, "Get-NetTCPConnection"@, "netstat"@, seq![names("-l"@, "-State Listen"@, "-a"@), names("-a"@, "-State Listen"@, "-a"@), names("-n"@, ""@, "-n"@), names("-p"@, ""@, "-p"@)], false),
        mapping("traceroute"@, "Test-NetConnection -TraceRoute"@, "tracert"@, seq![names("-n"@, "-NoResolve"@, "-d"@), names("-w"@, "-TimeoutSeconds"@, "-w"@), names("-m"@, "-MaxHops"@, "-h"@)], true),
        mapping("dig"@, "Resolve-DnsName"@, "nslookup"@, seq![names("+short"@, "-Type A"@, ""@), names("+trace"@, "-Type NS"@, ""@), names("-x"@, "-Type PTR"@, ""@)], true),
        mapping("nslookup"@, "Resolve-DnsName"@, "nslookup"@, seq![names("-type"@, "-Type"@, ""@), names("-server"@, "-Server"@, ""@)], true),
    ]
}

fn build_group_4() -> (r: Vec<CommandMapping>)
    ensures
        mapping_views(r@) == group_4(),
{
    let mut r: Vec<CommandMapping> = Vec::new();
    let f = vec![fg("-f", "-Force", ""), fg("-v", "-Verbose", ""), fg("-l", "-ListOnly", "")];
    assert(flag_views(f@) =~= seq![names("-f"@, "-Force"@, ""@), names("-v"@, "-Verbose"@, ""@), names("-l"@, "-ListOnly"@, ""@)]);
    r.push(cm("gunzip", "Expand-Archive", "", f, false));
    let f = vec![fg("-r", "-Recurse", ""), fg("-f", "-Force", ""), fg("-u", "-Update", ""), fg("-d", "-DestinationPath", "")];
    assert(flag_views(f@) =~= seq![names("-r"@, "-Recurse"@, ""@), names("-f"@, "-Force"@, ""@), names("-u"@, "-Update"@, ""@), names("-d"@, "-DestinationPath"@, ""@)]);
    r.push(cm("zip", "Compress-Archive", "", f, true));
    let f = vec![fg("-l", "-ListOnly", ""), fg("-o", "-Force", ""), fg("-d", "-DestinationPath", ""), fg("-q", "-Quiet", "")];
    assert(flag_views(f@) =~= seq![names("-l"@, "-ListOnly"@, ""@), names("-o"@, "-Force"@, ""@), names("-d"@, "-DestinationPath"@, ""@), names("-q"@, "-Quiet"@, ""@)]);
    r.push(cm("unzip", "Expand-Archive", "", f, true));
    let f = vec![fg("-d", "-Decompress", ""), fg("-k", "-Keep", ""), fg("-f", "-Force", ""), fg("-v", "-Verbose", "")];
    assert(flag_views(f@) =~= seq![names("-d"@, "-Decompress"@, ""@), names("-k"@, "-Keep"@, ""@), names("-f"@, "-Force"@, ""@), names("-v"@, "-Verbose"@, ""@)]);
    r.push(cm("bzip2", "Compress-Archive -CompressionLevel Optimal", "", f, true));
    let f = vec![fg("-k", "-Keep", ""), fg("-f", "-Force", ""), fg("-v", "-Verbose", "")];
    assert(flag_views(f@) =~= seq![names("-k"@, "-Keep"@, ""@), names("-f"@, "-Force"@, ""@), names("-v"@, "-Verbose"@, ""@)]);
    r.push(cm("bunzip2", "Expand-Archive", "", f, true));
    let f = vec![fg("-o", "-OutFile", ""), fg("-O", "-OutFile", ""), fg("-s", "-UseBasicParsing", ""), fg("-L", "-MaximumRedirection", ""), fg("-H", "-Headers", ""), fg("-d", "-Body", ""), fg("-X", "-Method", ""), fg("-k", "-SkipCertificateCheck", "")];
    assert(flag_views(f@) =~= seq![names("-o"@, "-OutFile"@, ""@), names("-O"@, "-OutFile"@, ""@), names("-s"@, "-UseBasicParsing"@, ""@), names("-L"@, "-MaximumRedirection"@, ""@), names("-H"@, "-Headers"@, ""@), names("-d"@, "-Body"@, ""@), names("-X"@, "-Method"@, ""@), names("-k"@, "-SkipCertificateCheck"@, ""@)]);
    r.push(cm("curl", "Invoke-WebRequest", "curl", f, true));
    let f = vec![fg("-O", "-OutFile", ""), fg("-o", "-OutFile", ""), fg("-q", "-UseBasicParsing", ""), fg("-c", "-Resume", "")];
    assert(flag_views(f@) =~= seq![names("-O"@, "-OutFile"@, ""@), names("-o"@, "-OutFile"@, ""@), names("-q"@, "-UseBasicParsing"@, ""@), names("-c"@, "-Resume"@, ""@)]);
    r.push(cm("wget", "Invoke-WebRequest", "", f, true));
    let f = vec![fg("-c", "-Count", "-n"), fg("-i", "-Interval", ""), fg("-t", "-TimeoutSeconds", "-w"), fg("-W", "-TimeoutSeconds", ""), fg("-s", "-BufferSize", "")];
    assert(flag_views(f@) =~= seq![names("-c"@, "-Count"@, "-n"@), names("-i"@, "-Interval"@, ""@), names("-t"@, "-TimeoutSeconds"@, "-w"@), names("-W"@, "-TimeoutSeconds"@, ""@), names("-s"@, "-BufferSize"@, ""@)]);
    r.push(cm("ping", "Test-Connection", "ping", f, true));
    let f = vec![fg("-p", "-Port", "-p"), fg("-i", "-IdentityFile", "-i"), fg("-X", "-X11Forwarding", "")];
    assert(flag_views(f@) =~= seq![names("-p"@, "-Port"@, "-p"@), names("-i"@, "-IdentityFile"@, "-i"@), names("-X"@, "-X11Forwarding"@, ""@)]);
    r.push(cm("ssh", "ssh", "ssh", f, true));
    let f = vec![fg("-a", "-All", "/all"), fg("-s", "-Statistics", "")];
    assert(flag_views(f@) =~= seq![names("-a"@, "-All"@, "/all"@), names("-s"@, "-Statistics"@, ""@)]);
    r.push(cm("ifconfig", "Get-NetAdapter | Format-Table Name, Status, LinkSpeed, MacAddress -AutoSize", "ipconfig", f, false));
    let f = vec![fg("-l", "-State Listen", "-a"), fg("-a", "-State Listen", "-a"), fg("-n", "", "-n"), fg("-p", "", "-p")];
    assert(flag_views(f@) =~= seq![names("-l"@, "-State Listen"@, "-a"@), names("-a"@, "-State Listen"@, "-a"@), names("-n"@, ""@, "-n"@), names("-p"@, ""@, "-p"@)]);
    r.push(cm("netstat", "Get-NetTCPConnection", "netstat", f, false));
    let f = vec![fg("-n", "-NoResolve", "-d"), fg("-w", "-TimeoutSeconds", "-w"), fg("-m", "-MaxHops", "-h")];
    assert(flag_views(f@) =~= seq![names("-n"@, "-NoResolve"@, "-d"@), names("-w"@, "-TimeoutSeconds"@, "-w"@), names("-m"@, "-MaxHops"@, "-h"@)]);
    r.push(cm("traceroute", "Test-NetConnection -TraceRoute", "tracert", f, true));
    let f = vec![fg("+short", "-Type A", ""), fg("+trace", "-Type NS", ""), fg("-x", "-Type PTR", "")];
    assert(flag_views(f@) =~= seq![names("+short"@, "-Type A"@, ""@), names("+trace"@, "-Type NS"@, ""@), names("-x"@, "-Type PTR"@, ""@)]);
    r.push(cm("dig", "Resolve-DnsName", "nslookup", f, true));
    let f = vec![fg("-type", "-Type", ""), fg("-server", "-Server", "")];
    assert(flag_views(f@) =~= seq![names("-type"@, "-Type"@, ""@), names("-server"@, "-Server"@, ""@)]);
    r.push(cm("nslookup", "Resolve-DnsName", "nslookup", f, true));
    assert(mapping_views(r@) =~= group_4());
    r
}

/// The entries of the table from `lsof` to `git`.
pub open spec fn group_5() -> Seq<MappingV> {
    seq![
        mapping("lsof"@, "Get-NetTCPConnection"@, "netstat -ano"@, seq![names("-i"@, "-Internet"@, ""@), names("-p"@, "-Process"@, ""@)], false),
        mapping("telnet"@, "Test-NetConnection"@, "telnet"@, seq![names("-p"@, "-Port"@, ""@)], true),
        mapping("route"@, "Get-NetRoute | Format-Table DestinationPrefix, NextHop, RouteMetric, InterfaceAlias -AutoSize"@, "route print"@, seq![names("-n"@, "-NoResolve"@, ""@), names("-e"@, "-Extended"@, ""@)], false),
        mapping("apt"@, "winget"@, ""@, seq![names("install"@, "install"@, ""@), names("remove"@, "uninstall"@, ""@), names("update"@, "upgrade"@, ""@), names("upgrade"@, "upgrade"@, ""@), names("search"@, "search"@, ""@), names("list"@, "list"@, ""@)], false),
        mapping("brew"@, "winget"@, ""@, seq![names("install"@, "install"@, ""@), names("uninstall"@, "uninstall"@, ""@), names("update"@, "upgrade"@, ""@), names("upgrade"@, "upgrade"@, ""@), names("search"@, "search"@, ""@), names("list"@, "list"@, ""@)], false),
        mapping("npm"@, "npm"@, "npm"@, seq![names("install"@, "install"@, "install"@), names("uninstall"@, "uninstall"@, "uninstall"@), names("update"@, "update"@, "update"@), names("run"@, "run"@, "run"@), names("test"@, "test"@, "test"@), names("build"@, "build"@, "build"@)], false),
        mapping("pnpm"@, "pnpm"@, "pnpm"@, seq![names("install"@, "install"@, "install"@), names("add"@, "add"@, "add"@), names("remove"@, "remove"@, "remove"@), names("run"@, "run"@, "run"@), names("test"@, "test"@, "test"@), names("build"@, "build"@, "build"@)], false),
        mapping("yarn"@, "yarn"@, "yarn"@, seq![names("install"@, "install"@, "install"@), names("add"@, "add"@, "add"@), names("remove"@, "remove"@, "remove"@), names("run"@, "run"@, "run"@)], false),
        mapping("pip"@, "pip"@, "pip"@, seq![names("install"@, "install"@, "install"@), names("uninstall"@, "uninstall"@, "uninstall"@), names("list"@, "list"@, "list"@), names("freeze"@, "freeze"@, "freeze"@)], false),
        mapping("cargo"@, "cargo"@, "cargo"@, seq![names("build"@, "build"@, "build"@), names("run"@, "run"@, "run"@), names("test"@, "test"@, "test"@), names("check"@, "check"@, "check"@), names("clean"@, "clean"@, "clean"@), names("update"@, "update"@, "update"@)], false),
        mapping("make"@, "make"@, "make"@, seq![names("-j"@, "-Jobs"@, ""@), names("-f"@, "-File"@, ""@), names("-C"@, "-Directory"@, ""@)], false),
        mapping("cmake"@, "cmake"@, "cmake"@, seq![names("build"@, "--build"@, ""@), names("install"@, "--install"@, ""@), names("test"@, "--test"@, ""@)], false),
        mapping("gcc"@, "gcc"@, "gcc"@, seq![names("-o"@, "-Output"@, "-o"@), names("-c"@, "-Compile"@, "-c"@), names("-g"@, "-Debug"@, "-g"@)], true),
        mapping("git"@, "git"@, "git"@, seq![names("clone"@, "clone"@, "clone"@), names("pull"@, "pull"@, "pull"@), names("push"@, "push"@, "push"@), names("commit"@, "commit"@, "commit"@), names("add"@, "add"@, "add"@), names("status"@, "status"@, "status"@), names("log"@, "log"@, "log"@), names("branch"@, "branch"@, "branch"@), names("checkout"@, "checkout"@, "checkout"@)], false),
    ]
}

fn build_group_5() -> (r: Vec<CommandMapping>)
    ensures
        mapping_views(r@) == group_5(),
{
    let mut r: Vec<CommandMapping> = Vec::new();
    let f = vec![fg("-i", "-Internet", ""), fg("-p", "-Process", "")];
    assert(flag_views(f@) =~= seq![names("-i"@, "-Internet"@, ""@), names("-p"@, "-Process"@, ""@)]);
    r.push(cm("lsof", "Get-NetTCPConnection", "netstat -ano", f, false));
    let f = vec![fg("-p", "-Port", "")];
    assert(flag_views(f@) =~= seq![names("-p"@, "-Port"@, ""@)]);
    r.push(cm("telnet", "Test-NetConnection", "telnet", f, true));
    let f = vec![fg("-n", "-NoResolve", ""), fg("-e", "-Extended", "")];
    assert(flag_views(f@) =~= seq![names("-n"@, "-NoResolve"@, ""@), names("-e"@, "-Extended"@, ""@)]);
    r.push(cm("route", "Get-NetRoute | Format-Table DestinationPrefix, NextHop, RouteMetric, InterfaceAlias -AutoSize", "route print", f, false));
    let f = vec![fg("install", "install", ""), fg("remove", "uninstall", ""), fg("update", "upgrade", ""), fg("upgrade", "upgrade", ""), fg("search", "search", ""), fg("list", "list", "")];
    assert(flag_views(f@) =~= seq![names("install"@, "install"@, ""@), names("remove"@, "uninstall"@, ""@), names("update"@, "upgrade"@, ""@), names("upgrade"@, "upgrade"@, ""@), names("search"@, "search"@, ""@), names("list"@, "list"@, ""@)]);
    r.push(cm("apt", "winget", "", f, false));
    let f = vec![fg("install", "install", ""), fg("uninstall", "uninstall", ""), fg("update", "upgrade", ""), fg("upgrade", "upgrade", ""), fg("search", "search", ""), fg("list", "list", "")];
    assert(flag_views(f@) =~= seq![names("install"@, "install"@, ""@), names("uninstall"@, "uninstall"@, ""@), names("update"@, "upgrade"@, ""@), names("upgrade"@, "upgrade"@, ""@), names("search"@, "search"@, ""@), names("list"@, "list"@, ""@)]);
    r.push(cm("brew", "winget", "", f, false));
    let f = vec![fg("install", "install", "install"), fg("uninstall", "uninstall", "uninstall"), fg("update", "update", "update"), fg("run", "run", "run"), fg("test", "test", "test"), fg("build", "build", "build")];
    assert(flag_views(f@) =~= seq![names("install"@, "install"@, "install"@), names("uninstall"@, "uninstall"@, "uninstall"@), names("update"@, "update"@, "update"@), names("run"@, "run"@, "run"@), names("test"@, "test"@, "test"@), names("build"@, "build"@, "build"@)]);
    r.push(cm("npm", "npm", "npm", f, false));
    let f = vec![fg("install", "install", "install"), fg("add", "add", "add"), fg("remove", "remove", "remove"), fg("run", "run", "run"), fg("test", "test", "test"), fg("build", "build", "build")];
    assert(flag_views(f@) =~= seq![names("install"@, "install"@, "install"@), names("add"@, "add"@, "add"@), names("remove"@, "remove"@, "remove"@), names("run"@, "run"@, "run"@), names("test"@, "test"@, "test"@), names("build"@, "build"@, "build"@)]);
    r.push(cm("pnpm", "pnpm", "pnpm", f, false));
    let f = vec![fg("install", "install", "install"), fg("add", "add", "add"), fg("remove", "remove", "remove"), fg("run", "run", "run")];
    assert(flag_views(f@) =~= seq![names("install"@, "install"@, "install"@), names("add"@, "add"@, "add"@), names("remove"@, "remove"@, "remove"@), names("run"@, "run"@, "run"@)]);
    r.push(cm("yarn", "yarn", "yarn", f, false));
    let f = vec![fg("install", "install", "install"), fg("uninstall", "uninstall", "uninstall"), fg("list", "list", "list"), fg("freeze", "freeze", "freeze")];
    assert(flag_views(f@) =~= seq![names("install"@, "install"@, "install"@), names("uninstall"@, "uninstall"@, "uninstall"@), names("list"@, "list"@, "list"@), names("freeze"@, "freeze"@, "freeze"@)]);
    r.push(cm("pip", "pip", "pip", f, false));
    let f = vec![fg("build", "build", "build"), fg("run", "run", "run"), fg("test", "test", "test"), fg("check", "check", "check"), fg("clean", "clean", "clean"), fg("update", "update", "update")];
    assert(flag_views(f@) =~= seq![names("build"@, "build"@, "build"@), names("run"@, "run"@, "run"@), names("test"@, "test"@, "test"@), names("check"@, "check"@, "check"@), names("clean"@, "clean"@, "clean"@), names("update"@, "update"@, "update"@)]);
    r.push(cm("cargo", "cargo", "cargo", f, false));
    let f = vec![fg("-j", "-Jobs", ""), fg("-f", "-File", ""), fg("-C", "-Directory", "")];
    assert(flag_views(f@) =~= seq![names("-j"@, "-Jobs"@, ""@), names("-f"@, "-File"@, ""@), names("-C"@, "-Directory"@, ""@)]);
    r.push(cm("make", "make", "make", f, false));
    let f = vec![fg("build", "--build", ""), fg("install", "--install", ""), fg("test", "--test", "")];
    assert(flag_views(f@) =~= seq![names("build"@, "--build"@, ""@), names("install"@, "--install"@, ""@), names("test"@, "--test"@, ""@)]);
    r.push(cm("cmake", "cmake", "cmake", f, false));
    let f = vec![fg("-o", "-Output", "-o"), fg("-c", "-Compile", "-c"), fg("-g", "-Debug", "-g")];
    assert(flag_views(f@) =~= seq![names("-o"@, "-Output"@, "-o"@), names("-c"@, "-Compile"@, "-c"@), names("-g"@, "-Debug"@, "-g"@)]);
    r.push(cm("gcc", "gcc", "gcc", f, true));
    let f = vec![fg("clone", "clone", "clone"), fg("pull", "pull", "pull"), fg("push", "push", "push"), fg("commit", "commit", "commit"), fg("add", "add", "add"), fg("status", "status", "status"), fg("log", "log", "log"), fg("branch", "branch", "branch"), fg("checkout", "checkout", "checkout")];
    assert(flag_views(f@) =~= seq![names("clone"@, "clone"@, "clone"@), names("pull"@, "pull"@, "pull"@), names("push"@, "push"@, "push"@), names("commit"@, "commit"@, "commit"@), names("add"@, "add"@, "add"@), names("status"@, "status"@, "status"@), names("log"@, "log"@, "log"@), names("branch"@, "branch"@, "branch"@), names("checkout"@, "checkout"@, "checkout"@)]);
    r.push(cm("git", "git", "git", f, false));
    assert(mapping_views(r@) =~= group_5());
    r
}

/// The entries of the table from `docker` to `split`.
pub open spec fn group_6() -> Seq<MappingV> {
    seq![
        mapping("docker"@, "docker"@, "docker"@, seq![names("run"@, "run"@, "run"@), names("build"@, "build"@, "build"@), names("ps"@, "ps"@, "ps"@), names("images"@, "images"@, "images"@)], false),
        mapping("kubectl"@, "kubectl"@, "kubectl"@, seq![names("get"@, "get"@, "get"@), names("apply"@, "apply"@, "apply"@), names("delete"@, "delete"@, "delete"@), names("logs"@, "logs"@, "logs"@)], false),
        mapping("terraform"@, "terraform"@, "terraform"@, seq![names("init"@, "init"@, "init"@), names("plan"@, "plan"@, "plan"@), names("apply"@, "apply"@, "apply"@), names("destroy"@, "destroy"@, "destroy"@)], false),
        mapping("ansible"@, "ansible"@, "ansible"@, seq![names("-i"@, "-Inventory"@, ""@), names("-m"@, "-Module"@, ""@), names("-a"@, "-Args"@, ""@), names("-v"@, "-Verbose"@, ""@)], true),
        mapping("systemctl"@, "Get-Service"@, "sc"@, seq![names("start"@, "Start-Service"@, "start"@), names("stop"@, "Stop-Service"@, "stop"@), names("restart"@, "Restart-Service"@, ""@), names("status"@, "Get-Service"@, "query"@), names("enable"@, "Set-Service -StartupType Automatic"@, ""@), names("disable"@, "Set-Service -StartupType Disabled"@, ""@)], true),
        mapping("uptime"@, "(Get-Date) - (Get-CimInstance Win32_OperatingSystem).LastBootUpTime"@, ""@, seq![], false),
        mapping("free"@, "Get-Counter '\\Memory\\Available MBytes'"@, ""@, seq![names("-h"@, "-Human"@, ""@), names("-m"@, "-MB"@, ""@), names("-g"@, "-GB"@, ""@)], false),
        mapping("shutdown"@, "Stop-Computer"@, "shutdown"@, seq![names("-h"@, ""@, "/s"@), names("-r"@, ""@, "/r"@), names("-c"@, ""@, "/c"@)], false),
        mapping("reboot"@, "Restart-Computer"@, "shutdown /r"@, seq![names("-f"@, "-Force"@, "/f"@)], false),
        mapping("sudo"@, "Start-Process powershell -Verb RunAs -ArgumentList"@, "runas"@, seq![], true),
        mapping("useradd"@, "New-LocalUser"@, "net user"@, seq![names("-m"@, "-Name"@, "/add"@)], false),
        mapping("userdel"@, "Remove-LocalUser"@, "net user"@, seq![names("-r"@, "-Name"@, "/delete"@), names("-f"@, "-Force"@, ""@)], true),
        mapping("diff"@, "Compare-Object"@, ""@, seq![names("-u"@, "-Unified"@, ""@), names("-r"@, "-Recurse"@, ""@), names("-i"@, "-CaseInsensitive"@, ""@), names("-w"@, "-IgnoreWhiteSpace"@, ""@)], true),
        mapping("split"@, "Split-Content"@, ""@, seq![names("-l"@, "-LineCount"@, ""@), names("-b"@, "-ByteCount"@, ""@), names("-n"@, "-Number"@, ""@)], true),
    ]
}

fn build_group_6() -> (r: Vec<CommandMapping>)
    ensures
        mapping_views(r@) == group_6(),
{
    let mut r: Vec<CommandMapping> = Vec::new();
    let f = vec![fg("run", "run", "run"), fg("build", "build", "build"), fg("ps", "ps", "ps"), fg("images", "images", "images")];
    assert(flag_views(f@) =~= seq![names("run"@, "run"@, "run"@), names("build"@, "build"@, "build"@), names("ps"@, "ps"@, "ps"@), names("images"@, "images"@, "images"@)]);
    r.push(cm("docker", "docker", "docker", f, false));
    let f = vec![fg("get", "get", "get"), fg("apply", "apply", "apply"), fg("delete", "delete", "delete"), fg("logs", "logs", "logs")];
    assert(flag_views(f@) =~= seq![names("get"@, "get"@, "get"@), names("apply"@, "apply"@, "apply"@), names("delete"@, "delete"@, "delete"@), names("logs"@, "logs"@, "logs"@)]);
    r.push(cm("kubectl", "kubectl", "kubectl", f, false));
    let f = vec![fg("init", "init", "init"), fg("plan", "plan", "plan"), fg("apply", "apply", "apply"), fg("destroy", "destroy", "destroy")];
    assert(flag_views(f@) =~= seq![names("init"@, "init"@, "init"@), names("plan"@, "plan"@, "plan"@), names("apply"@, "apply"@, "apply"@), names("destroy"@, "destroy"@, "destroy"@)]);
    r.push(cm("terraform", "terraform", "terraform", f, false));
    let f = vec![fg("-i", "-Inventory", ""), fg("-m", "-Module", ""), fg("-a", "-Args", ""), fg("-v", "-Verbose", "")];
    assert(flag_views(f@) =~= seq![names("-i"@, "-Inventory"@, ""@), names("-m"@, "-Module"@, ""@), names("-a"@, "-Args"@, ""@), names("-v"@, "-Verbose"@, ""@)]);
    r.push(cm("ansible", "ansible", "ansible", f, true));
    let f = vec![fg("start", "Start-Service", "start"), fg("stop", "Stop-Service", "stop"), fg("restart", "Restart-Service", ""), fg("status", "Get-Service", "query"), fg("enable", "Set-Service -StartupType Automatic", ""), fg("disable", "Set-Service -StartupType Disabled", "")];
    assert(flag_views(f@) =~= seq![names("start"@, "Start-Service"@, "start"@), names("stop"@, "Stop-Service"@, "stop"@), names("restart"@, "Restart-Service"@, ""@), names("status"@, "Get-Service"@, "query"@), names("enable"@, "Set-Service -StartupType Automatic"@, ""@), names("disable"@, "Set-Service -StartupType Disabled"@, ""@)]);
    r.push(cm("systemctl", "Get-Service", "sc", f, true));
    let f = vec![];
    assert(flag_views(f@) =~= seq![]);
    r.push(cm("uptime", "(Get-Date) - (Get-CimInstance Win32_OperatingSystem).LastBootUpTime", "", f, false));
    let f = vec![fg("-h", "-Human", ""), fg("-m", "-MB", ""), fg("-g", "-GB", "")];
    assert(flag_views(f@) =~= seq![names("-h"@, "-Human"@, ""@), names("-m"@, "-MB"@, ""@), names("-g"@, "-GB"@, ""@)]);
    r.push(cm("free", "Get-Counter '\\Memory\\Available MBytes'", "", f, false));
    let f = vec![fg("-h", "", "/s"), fg("-r", "", "/r"), fg("-c", "", "/c")];
    assert(flag_views(f@) =~= seq![names("-h"@, ""@, "/s"@), names("-r"@, ""@, "/r"@), names("-c"@, ""@, "/c"@)]);
    r.push(cm("shutdown", "Stop-Computer", "shutdown", f, false));
    let f = vec![fg("-f", "-Force", "/f")];
    assert(flag_views(f@) =~= seq![names("-f"@, "-Force"@, "/f"@)]);
    r.push(cm("reboot", "Restart-Computer", "shutdown /r", f, false));
    let f = vec![];
    assert(flag_views(f@) =~= seq![]);
    r.push(cm("sudo", "Start-Process powershell -Verb RunAs -ArgumentList", "runas", f, true));
    let f = vec![fg("-m", "-Name", "/add")];
    assert(flag_views(f@) =~= seq![names("-m"@, "-Name"@, "/add"@)]);
    r.push(cm("useradd", "New-LocalUser", "net user", f, false));
    let f = vec![fg("-r", "-Name", "/delete"), fg("-f", "-Force", "")];
    assert(flag_views(f@) =~= seq![names("-r"@, "-Name"@, "/delete"@), names("-f"@, "-Force"@, ""@)]);
    r.push(cm("userdel", "Remove-LocalUser", "net user", f, true));
    let f = vec![fg2("-u", "-Unified"), fg2("-r", "-Recurse"), fg2("-i", "-CaseInsensitive"), fg2("-w", "-IgnoreWhiteSpace")];
    assert(flag_views(f@) =~= seq![names("-u"@, "-Unified"@, ""@), names("-r"@, "-Recurse"@, ""@), names("-i"@, "-CaseInsensitive"@, ""@), names("-w"@, "-IgnoreWhiteSpace"@, ""@)]);
    r.push(cm("diff", "Compare-Object", "", f, true));
    let f = vec![fg2("-l", "-LineCount"), fg2("-b", "-ByteCount"), fg2("-n", "-Number")];
    assert(flag_views(f@) =~= seq![names("-l"@, "-LineCount"@, ""@), names("-b"@, "-ByteCount"@, ""@), names("-n"@, "-Number"@, ""@)]);
    r.push(cm("split", "Split-Content", "", f, true));
    assert(mapping_views(r@) =~= group_6());
    r
}

/// The entries of the table from `paste` to `comm`.
pub open spec fn group_7() -> Seq<MappingV> {
    seq![
        mapping("paste"@, "Join-Object"@, ""@, seq![names("-d"@, "-Delimiter"@, ""@), names("-s"@, "-Serial"@, ""@)], true),
        mapping("rsync"@, "Copy-Item"@, ""@, seq![names("-a"@, "-Recurse"@, ""@), names("-v"@, "-Verbose"@, ""@), names("-r"@, "-Recurse"@, ""@), names("-u"@, "-Force"@, ""@), names("-n"@, "-WhatIf"@, ""@)], true),
        mapping("less"@, "Get-Content | Out-Host -Paging"@, ""@, seq![names("-N"@, "-LineNumber"@, ""@)], false),
        mapping("more"@, "Get-Content | Out-Host -Paging"@, ""@, seq![], false),
        mapping("jobs"@, "Get-Job"@, ""@, seq![], false),
        mapping("bg"@, "Resume-Job"@, ""@, seq![], false),
        mapping("fg"@, "Receive-Job"@, ""@, seq![], false),
        mapping("nice"@, "Start-Process"@, ""@, seq![names("-n"@, "-Priority"@, ""@)], true),
        mapping("nohup"@, "Start-Process"@, ""@, seq![], true),
        mapping("umask"@, "Get-ChildItem"@, ""@, seq![], false),
        mapping("mktemp"@, "New-TemporaryFile"@, ""@, seq![names("-d"@, ""@, ""@)], false),
        mapping("realpath"@, "Resolve-Path"@, ""@, seq![names("-q"@, "-Quiet"@, ""@), names("-s"@, "-Relative"@, ""@)], true),
        mapping("join"@, "Join-Object"@, ""@, seq![names("-1"@, "-JoinProperty"@, ""@), names("-2"@, "-MergeProperty"@, ""@), names("-t"@, "-Delimiter"@, ""@)], true),
        mapping("comm"@, "Compare-Object"@, ""@, seq![names("-1"@, "-IncludeEqual"@, ""@), names("-2"@, "-IncludeEqual"@, ""@), names("-3"@, "-IncludeEqual"@, ""@)], true),
    ]
}

fn build_group_7() -> (r: Vec<CommandMapping>)
    ensures
        mapping_views(r@) == group_7(),
{
    let mut r: Vec<CommandMapping> = Vec::new();
    let f = vec![fg2("-d", "-Delimiter"), fg2("-s", "-Serial")];
    assert(flag_views(f@) =~= seq![names("-d"@, "-Delimiter"@, ""@), names("-s"@, "-Serial"@, ""@)]);
    r.push(cm("paste", "Join-Object", "", f, true));
    let f = vec![fg2("-a", "-Recurse"), fg2("-v", "-Verbose"), fg2("-r", "-Recurse"), fg2("-u", "-Force"), fg2("-n", "-WhatIf")];
    assert(flag_views(f@) =~= seq![names("-a"@, "-Recurse"@, ""@), names("-v"@, "-Verbose"@, ""@), names("-r"@, "-Recurse"@, ""@), names("-u"@, "-Force"@, ""@), names("-n"@, "-WhatIf"@, ""@)]);
    r.push(cm("rsync", "Copy-Item", "", f, true));
    let f = vec![fg2("-N", "-LineNumber")];
    assert(flag_views(f@) =~= seq![names("-N"@, "-LineNumber"@, ""@)]);
    r.push(cm("less", "Get-Content | Out-Host -Paging", "", f, false));
    let f = vec![];
    assert(flag_views(f@) =~= seq![]);
    r.push(cm("more", "Get-Content | Out-Host -Paging", "", f, false));
    let f = vec![];
    assert(flag_views(f@) =~= seq![]);
    r.push(cm("jobs", "Get-Job", "", f, false));
    let f = vec![];
    assert(flag_views(f@) =~= seq![]);
    r.push(cm("bg", "Resume-Job", "", f, false));
    let f = vec![];
    assert(flag_views(f@) =~= seq![]);
    r.push(cm("fg", "Receive-Job", "", f, false));
    let f = vec![fg2("-n", "-Priority")];
    assert(flag_views(f@) =~= seq![names("-n"@, "-Priority"@, ""@)]);
    r.push(cm("nice", "Start-Process", "", f, true));
    let f = vec![];
    assert(flag_views(f@) =~= seq![]);
    r.push(cm("nohup", "Start-Process", "", f, true));
    let f = vec![];
    assert(flag_views(f@) =~= seq![]);
    r.push(cm("umask", "Get-ChildItem", "", f, false));
    let f = vec![fg2("-d", "")];
    assert(flag_views(f@) =~= seq![names("-d"@, ""@, ""@)]);
    r.push(cm("mktemp", "New-TemporaryFile", "", f, false));
    let f = vec![fg2("-q", "-Quiet"), fg2("-s", "-Relative")];
    assert(flag_views(f@) =~= seq![names("-q"@, "-Quiet"@, ""@), names("-s"@, "-Relative"@, ""@)]);
    r.push(cm("realpath", "Resolve-Path", "", f, true));
    let f = vec![fg2("-1", "-JoinProperty"), fg2("-2", "-MergeProperty"), fg2("-t", "-Delimiter")];
    assert(flag_views(f@) =~= seq![names("-1"@, "-JoinProperty"@, ""@), names("-2"@, "-MergeProperty"@, ""@), names("-t"@, "-Delimiter"@, ""@)]);
    r.push(cm("join", "Join-Object", "", f, true));
    let f = vec![fg2("-1", "-IncludeEqual"), fg2("-2", "-IncludeEqual"), fg2("-3", "-IncludeEqual")];
    assert(flag_views(f@) =~= seq![names("-1"@, "-IncludeEqual"@, ""@), names("-2"@, "-IncludeEqual"@, ""@), names("-3"@, "-IncludeEqual"@, ""@)]);
    r.push(cm("comm", "Compare-Object", "", f, true));
    assert(mapping_views(r@) =~= group_7());
    r
}

/// The entries of the table from `uname` to `pkill`.
pub open spec fn group_8() -> Seq<MappingV> {
    seq![
        mapping("uname"@, "Get-ComputerInfo"@, ""@, seq![names("-a"@, "-a"@, ""@), names("-r"@, "-r"@, ""@), names("-m"@, "-m"@, ""@), names("-n"@, "-n"@, ""@)], false),
        mapping("locate"@, "Get-ChildItem -Recurse | Where-Object {$_.Name -like}"@, ""@, seq![names("-i"@, "-CaseInsensitive"@, ""@), names("-n"@, "-Limit"@, ""@)], true),
        mapping("rev"@, "ForEach-Object"@, ""@, seq![], false),
        mapping("tac"@, "Get-Content | Sort-Object -Descending"@, ""@, seq![], false),
        mapping("column"@, "Format-Table -AutoSize"@, ""@, seq![names("-t"@, "-AutoSize"@, ""@)], false),
        mapping("iotop"@, "Get-Process | Sort-Object IO -Descending | Select-Object -First 20"@, ""@, seq![], false),
        mapping("nmap"@, "Test-NetConnection"@, ""@, seq![names("-p"@, "-Port"@, ""@), names("-v"@, "-Verbose"@, ""@)], true),
        mapping("cron"@, "Register-ScheduledJob"@, "schtasks"@, seq![names("-e"@, "-Edit"@, "/create"@), names("-l"@, "-List"@, "/query"@), names("-r"@, "-Remove"@, "/delete"@)], true),
        mapping("crontab"@, "Get-ScheduledJob"@, "schtasks /query"@, seq![names("-e"@, "-Edit"@, "/create"@), names("-l"@, "-List"@, "/query"@), names("-r"@, "-Remove"@, "/delete"@)], true),
        mapping("dnf"@, "winget"@, ""@, seq![names("install"@, "install"@, ""@), names("remove"@, "uninstall"@, ""@), names("update"@, "upgrade"@, ""@), names("search"@, "search"@, ""@)], false),
        mapping("yum"@, "winget"@, ""@, seq![names("install"@, "install"@, ""@), names("remove"@, "uninstall"@, ""@), names("update"@, "upgrade"@, ""@), names("search"@, "search"@, ""@)], false),
        mapping("apt-get"@, "winget"@, ""@, seq![names("install"@, "install"@, ""@), names("remove"@, "uninstall"@, ""@), names("update"@, "upgrade"@, ""@), names("upgrade"@, "upgrade"@, ""@)], false),
        mapping("g++"@, "g++"@, ""@, seq![names("-o"@, "-o"@, ""@), names("-c"@, "-c"@, ""@), names("-g"@, "-g"@, ""@), names("-Wall"@, "-Wall"@, ""@), names("-std"@, "-std"@, ""@)], true),
        mapping("pkill"@, "Stop-Process"@, "taskkill"@, seq![names("-f"@, "-Name"@, "/f"@), names("-9"@, "-Force"@, ""@)], true),
    ]
}

fn build_group_8() -> (r: Vec<CommandMapping>)
    ensures
        mapping_views(r@) == group_8(),
{
    let mut r: Vec<CommandMapping> = Vec::new();
    let f = vec![fg2("-a", "-a"), fg2("-r", "-r"), fg2("-m", "-m"), fg2("-n", "-n")];
    assert(flag_views(f@) =~= seq![names("-a"@, "-a"@, ""@), names("-r"@, "-r"@, ""@), names("-m"@, "-m"@, ""@), names("-n"@, "-n"@, ""@)]);
    r.push(cm("uname", "Get-ComputerInfo", "", f, false));
    let f = vec![fg2("-i", "-CaseInsensitive"), fg2("-n", "-Limit")];
    assert(flag_views(f@) =~= seq![names("-i"@, "-CaseInsensitive"@, ""@), names("-n"@, "-Limit"@, ""@)]);
    r.push(cm("locate", "Get-ChildItem -Recurse | Where-Object {$_.Name -like}", "", f, true));
    let f = vec![];
    assert(flag_views(f@) =~= seq![]);
    r.push(cm("rev", "ForEach-Object", "", f, false));
    let f = vec![];
    assert(flag_views(f@) =~= seq![]);
    r.push(cm("tac", "Get-Content | Sort-Object -Descending", "", f, false));
    let f = vec![fg2("-t", "-AutoSize")];
    assert(flag_views(f@) =~= seq![names("-t"@, "-AutoSize"@, ""@)]);
    r.push(cm("column", "Format-Table -AutoSize", "", f, false));
    let f = vec![];
    assert(flag_views(f@) =~= seq![]);
    r.push(cm("iotop", "Get-Process | Sort-Object IO -Descending | Select-Object -First 20", "", f, false));
    let f = vec![fg2("-p", "-Port"), fg2("-v", "-Verbose")];
    assert(flag_views(f@) =~= seq![names("-p"@, "-Port"@, ""@), names("-v"@, "-Verbose"@, ""@)]);
    r.push(cm("nmap", "Test-NetConnection", "", f, true));
    let f = vec![fg("-e", "-Edit", "/create"), fg("-l", "-List", "/query"), fg("-r", "-Remove", "/delete")];
    assert(flag_views(f@) =~= seq![names("-e"@, "-Edit"@, "/create"@), names("-l"@, "-List"@, "/query"@), names("-r"@, "-Remove"@, "/delete"@)]);
    r.push(cm("cron", "Register-ScheduledJob", "schtasks", f, true));
    let f = vec![fg("-e", "-Edit", "/create"), fg("-l", "-List", "/query"), fg("-r", "-Remove", "/delete")];
    assert(flag_views(f@) =~= seq![names("-e"@, "-Edit"@, "/create"@), names("-l"@, "-List"@, "/query"@), names("-r"@, "-Remove"@, "/delete"@)]);
    r.push(cm("crontab", "Get-ScheduledJob", "schtasks /query", f, true));
    let f = vec![fg2("install", "install"), fg2("remove", "uninstall"), fg2("update", "upgrade"), fg2("search", "search")];
    assert(flag_views(f@) =~= seq![names("install"@, "install"@, ""@), names("remove"@, "uninstall"@, ""@), names("update"@, "upgrade"@, ""@), names("search"@, "search"@, ""@)]);
    r.push(cm("dnf", "winget", "", f, false));
    let f = vec![fg2("install", "install"), fg2("remove", "uninstall"), fg2("update", "upgrade"), fg2("search", "search")];
    assert(flag_views(f@) =~= seq![names("install"@, "install"@, ""@), names("remove"@, "uninstall"@, ""@), names("update"@, "upgrade"@, ""@), names("search"@, "search"@, ""@)]);
    r.push(cm("yum", "winget", "", f, false));
    let f = vec![fg2("install", "install"), fg2("remove", "uninstall"), fg2("update", "upgrade"), fg2("upgrade", "upgrade")];
    assert(flag_views(f@) =~= seq![names("install"@, "install"@, ""@), names("remove"@, "uninstall"@, ""@), names("update"@, "upgrade"@, ""@), names("upgrade"@, "upgrade"@, ""@)]);
    r.push(cm("apt-get", "winget", "", f, false));
    let f = vec![fg2("-o", "-o"), fg2("-c", "-c"), fg2("-g", "-g"), fg2("-Wall", "-Wall"), fg2("-std", "-std")];
    assert(flag_views(f@) =~= seq![names("-o"@, "-o"@, ""@), names("-c"@, "-c"@, ""@), names("-g"@, "-g"@, ""@), names("-Wall"@, "-Wall"@, ""@), names("-std"@, "-std"@, ""@)]);
    r.push(cm("g++", "g++", "", f, true));
    let f = vec![fg("-f", "-Name", "/f"), fg("-9", "-Force", "")];
    assert(flag_views(f@) =~= seq![names("-f"@, "-Name"@, "/f"@), names("-9"@, "-Force"@, ""@)]);
    r.push(cm("pkill", "Stop-Process", "taskkill", f, true));
    assert(mapping_views(r@) =~= group_8());
    r
}

/// The entries of the table from `pgrep` to `dotnet`.
pub open spec fn group_9() -> Seq<MappingV> {
    seq![
        mapping("pgrep"@, "Get-Process"@, "tasklist"@, seq![], true),
        mapping("killall"@, "Stop-Process"@, "taskkill"@, seq![names("-9"@, "-Force"@, "/f"@)], true),
        mapping("renice"@, "Set-ProcessPriority"@, ""@, seq![names("-p"@, "-Id"@, ""@)], true),
        mapping("iostat"@, "Get-Counter"@, ""@, seq![], false),
        mapping("vmstat"@, "Get-Counter"@, ""@, seq![], false),
        mapping("nl"@, "Get-Content | ForEach-Object"@, ""@, seq![], false),
        mapping("chroot"@, "Set-Location"@, ""@, seq![], true),
        mapping("dmesg"@, "Get-WinEvent -LogName System"@, ""@, seq![], false),
        mapping("tracepath"@, "Test-NetConnection -TraceRoute -InformationLevel Detailed"@, ""@, seq![], true),
        mapping("mtr"@, "Test-NetConnection -TraceRoute -InformationLevel Detailed"@, ""@, seq![], true),
        mapping("javac"@, "javac"@, "javac"@, seq![names("-d"@, "-d"@, "-d"@), names("-cp"@, "-cp"@, "-cp"@)], true),
        mapping("java"@, "java"@, "java"@, seq![names("-cp"@, "-cp"@, "-cp"@), names("-jar"@, "-jar"@, "-jar"@)], true),
        mapping("go"@, "go"@, "go"@, seq![names("build"@, "build"@, "build"@), names("run"@, "run"@, "run"@), names("test"@, "test"@, "test"@), names("install"@, "install"@, "install"@), names("get"@, "get"@, "get"@)], false),
        mapping("dotnet"@, "dotnet"@, "dotnet"@, seq![names("build"@, "build"@, "build"@), names("run"@, "run"@, "run"@), names("test"@, "test"@, "test"@), names("publish"@, "publish"@, "publish"@), names("restore"@, "restore"@, "restore"@)], false),
    ]
}

fn build_group_9() -> (r: Vec<CommandMapping>)
    ensures
        mapping_views(r@) == group_9(),
{
    let mut r: Vec<CommandMapping> = Vec::new();
    let f = vec![];
    assert(flag_views(f@) =~= seq![]);
    r.push(cm("pgrep", "Get-Process", "tasklist", f, true));
    let f = vec![fg("-9", "-Force", "/f")];
    assert(flag_views(f@) =~= seq![names("-9"@, "-Force"@, "/f"@)]);
    r.push(cm("killall", "Stop-Process", "taskkill", f, true));
    let f = vec![fg2("-p", "-Id")];
    assert(flag_views(f@) =~= seq![names("-p"@, "-Id"@, ""@)]);
    r.push(cm("renice", "Set-ProcessPriority", "", f, true));
    let f = vec![];
    assert(flag_views(f@) =~= seq![]);
    r.push(cm("iostat", "Get-Counter", "", f, false));
    let f = vec![];
    assert(flag_views(f@) =~= seq![]);
    r.push(cm("vmstat", "Get-Counter", "", f, false));
    let f = vec![];
    assert(flag_views(f@) =~= seq![]);
    r.push(cm("nl", "Get-Content | ForEach-Object", "", f, false));
    let f = vec![];
    assert(flag_views(f@) =~= seq![]);
    r.push(cm("chroot", "Set-Location", "", f, true));
    let f = vec![];
    assert(flag_views(f@) =~= seq![]);
    r.push(cm("dmesg", "Get-WinEvent -LogName System", "", f, false));
    let f = vec![];
    assert(flag_views(f@) =~= seq![]);
    r.push(cm("tracepath", "Test-NetConnection -TraceRoute -InformationLevel Detailed", "", f, true));
    let f = vec![];
    assert(flag_views(f@) =~= seq![]);
    r.push(cm("mtr", "Test-NetConnection -TraceRoute -InformationLevel Detailed", "", f, true));
    let f = vec![fg("-d", "-d", "-d"), fg("-cp", "-cp", "-cp")];
    assert(flag_views(f@) =~= seq![names("-d"@, "-d"@, "-d"@), names("-cp"@, "-cp"@, "-cp"@)]);
    r.push(cm("javac", "javac", "javac", f, true));
    let f = vec![fg("-cp", "-cp", "-cp"), fg("-jar", "-jar", "-jar")];
    assert(flag_views(f@) =~= seq![names("-cp"@, "-cp"@, "-cp"@), names("-jar"@, "-jar"@, "-jar"@)]);
    r.push(cm("java", "java", "java", f, true));
    let f = vec![fg("build", "build", "build"), fg("run", "run", "run"), fg("test", "test", "test"), fg("install", "install", "install"), fg("get", "get", "get")];
    assert(flag_views(f@) =~= seq![names("build"@, "build"@, "build"@), names("run"@, "run"@, "run"@), names("test"@, "test"@, "test"@), names("install"@, "install"@, "install"@), names("get"@, "get"@, "get"@)]);
    r.push(cm("go", "go", "go", f, false));
    let f = vec![fg("build", "build", "build"), fg("run", "run", "run"), fg("test", "test", "test"), fg("publish", "publish", "publish"), fg("restore", "restore", "restore")];
    assert(flag_views(f@) =~= seq![names("build"@, "build"@, "build"@), names("run"@, "run"@, "run"@), names("test"@, "test"@, "test"@), names("publish"@, "publish"@, "publish"@), names("restore"@, "restore"@, "restore"@)]);
    r.push(cm("dotnet", "dotnet", "dotnet", f, false));
    assert(mapping_views(r@) =~= group_9());
    r
}

/// The entries of the table from `mysql` to `packer`.
pub open spec fn group_10() -> Seq<MappingV> {
    seq![
        mapping("mysql"@, "mysql"@, "mysql"@, seq![names("-u"@, "-User"@, "-u"@), names("-p"@, "-Password"@, "-p"@), names("-h"@, "-Host"@, "-h"@), names("-P"@, "-Port"@, "-P"@)], true),
        mapping("psql"@, "psql"@, "psql"@, seq![names("-U"@, "-User"@, "-U"@), names("-h"@, "-Host"@, "-h"@), names("-p"@, "-Port"@, "-p"@), names("-d"@, "-Database"@, "-d"@)], true),
        mapping("svn"@, "svn"@, "svn"@, seq![names("checkout"@, "checkout"@, "checkout"@), names("update"@, "update"@, "update"@), names("commit"@, "commit"@, "commit"@), names("status"@, "status"@, "status"@), names("log"@, "log"@, "log"@)], false),
        mapping("hg"@, "hg"@, "hg"@, seq![names("clone"@, "clone"@, "clone"@), names("pull"@, "pull"@, "pull"@), names("push"@, "push"@, "push"@), names("commit"@, "commit"@, "commit"@), names("status"@, "status"@, "status"@)], false),
        mapping("vagrant"@, "vagrant"@, "vagrant"@, seq![names("up"@, "up"@, "up"@), names("down"@, "down"@, "down"@), names("halt"@, "halt"@, "halt"@), names("destroy"@, "destroy"@, "destroy"@), names("ssh"@, "ssh"@, "ssh"@), names("status"@, "status"@, "status"@)], false),
        mapping("chef"@, "chef"@, "chef"@, seq![names("client"@, "client"@, "client"@), names("solo"@, "solo"@, "solo"@), names("apply"@, "apply"@, "apply"@)], true),
        mapping("puppet"@, "puppet"@, "puppet"@, seq![names("apply"@, "apply"@, "apply"@), names("agent"@, "agent"@, "agent"@), names("master"@, "master"@, "master"@)], true),
        mapping("salt"@, "salt"@, "salt"@, seq![names("minion"@, "minion"@, "minion"@), names("master"@, "master"@, "master"@), names("key"@, "key"@, "key"@)], true),
        mapping("conda"@, "conda"@, "conda"@, seq![names("install"@, "install"@, "install"@), names("remove"@, "remove"@, "remove"@), names("list"@, "list"@, "list"@), names("create"@, "create"@, "create"@), names("activate"@, "activate"@, "activate"@), names("deactivate"@, "deactivate"@, "deactivate"@)], false),
        mapping("gradle"@, "gradle"@, "gradle"@, seq![names("build"@, "build"@, "build"@), names("test"@, "test"@, "test"@), names("run"@, "run"@, "run"@), names("clean"@, "clean"@, "clean"@)], false),
        mapping("mvn"@, "mvn"@, "mvn"@, seq![names("compile"@, "compile"@, "compile"@), names("test"@, "test"@, "test"@), names("package"@, "package"@, "package"@), names("install"@, "install"@, "install"@), names("clean"@, "clean"@, "clean"@)], false),
        mapping("ant"@, "ant"@, "ant"@, seq![names("build"@, "build"@, "build"@), names("clean"@, "clean"@, "clean"@), names("test"@, "test"@, "test"@)], false),
        mapping("composer"@, "composer"@, "composer"@, seq![names("install"@, "install"@, "install"@), names("update"@, "update"@, "update"@), names("require"@, "require"@, "require"@), names("remove"@, "remove"@, "remove"@)], false),
        mapping("packer"@, "packer"@, "packer"@, seq![names("build"@, "build"@, "build"@), names("validate"@, "validate"@, "validate"@), names("inspect"@, "inspect"@, "inspect"@), names("init"@, "init"@, "init"@)], true),
    ]
}

fn build_group_10() -> (r: Vec<CommandMapping>)
    ensures
        mapping_views(r@) == group_10(),
{
    let mut r: Vec<CommandMapping> = Vec::new();
    let f = vec![fg("-u", "-User", "-u"), fg("-p", "-Password", "-p"), fg("-h", "-Host", "-h"), fg("-P", "-Port", "-P")];
    assert(flag_views(f@) =~= seq![names("-u"@, "-User"@, "-u"@), names("-p"@, "-Password"@, "-p"@), names("-h"@, "-Host"@, "-h"@), names("-P"@, "-Port"@, "-P"@)]);
    r.push(cm("mysql", "mysql", "mysql", f, true));
    let f = vec![fg("-U", "-User", "-U"), fg("-h", "-Host", "-h"), fg("-p", "-Port", "-p"), fg("-d", "-Database", "-d")];
    assert(flag_views(f@) =~= seq![names("-U"@, "-User"@, "-U"@), names("-h"@, "-Host"@, "-h"@), names("-p"@, "-Port"@, "-p"@), names("-d"@, "-Database"@, "-d"@)]);
    r.push(cm("psql", "psql", "psql", f, true));
    let f = vec![fg("checkout", "checkout", "checkout"), fg("update", "update", "update"), fg("commit", "commit", "commit"), fg("status", "status", "status"), fg("log", "log", "log")];
    assert(flag_views(f@) =~= seq![names("checkout"@, "checkout"@, "checkout"@), names("update"@, "update"@, "update"@), names("commit"@, "commit"@, "commit"@), names("status"@, "status"@, "status"@), names("log"@, "log"@, "log"@)]);
    r.push(cm("svn", "svn", "svn", f, false));
    let f = vec![fg("clone", "clone", "clone"), fg("pull", "pull", "pull"), fg("push", "push", "push"), fg("commit", "commit", "commit"), fg("status", "status", "status")];
    assert(flag_views(f@) =~= seq![names("clone"@, "clone"@, "clone"@), names("pull"@, "pull"@, "pull"@), names("push"@, "push"@, "push"@), names("commit"@, "commit"@, "commit"@), names("status"@, "status"@, "status"@)]);
    r.push(cm("hg", "hg", "hg", f, false));
    let f = vec![fg("up", "up", "up"), fg("down", "down", "down"), fg("halt", "halt", "halt"), fg("destroy", "destroy", "destroy"), fg("ssh", "ssh", "ssh"), fg("status", "status", "status")];
    assert(flag_views(f@) =~= seq![names("up"@, "up"@, "up"@), names("down"@, "down"@, "down"@), names("halt"@, "halt"@, "halt"@), names("destroy"@, "destroy"@, "destroy"@), names("ssh"@, "ssh"@, "ssh"@), names("status"@, "status"@, "status"@)]);
    r.push(cm("vagrant", "vagrant", "vagrant", f, false));
    let f = vec![fg("client", "client", "client"), fg("solo", "solo", "solo"), fg("apply", "apply", "apply")];
    assert(flag_views(f@) =~= seq![names("client"@, "client"@, "client"@), names("solo"@, "solo"@, "solo"@), names("apply"@, "apply"@, "apply"@)]);
    r.push(cm("chef", "chef", "chef", f, true));
    let f = vec![fg("apply", "apply", "apply"), fg("agent", "agent", "agent"), fg("master", "master", "master")];
    assert(flag_views(f@) =~= seq![names("apply"@, "apply"@, "apply"@), names("agent"@, "agent"@, "agent"@), names("master"@, "master"@, "master"@)]);
    r.push(cm("puppet", "puppet", "puppet", f, true));
    let f = vec![fg("minion", "minion", "minion"), fg("master", "master", "master"), fg("key", "key", "key")];
    assert(flag_views(f@) =~= seq![names("minion"@, "minion"@, "minion"@), names("master"@, "master"@, "master"@), names("key"@, "key"@, "key"@)]);
    r.push(cm("salt", "salt", "salt", f, true));
    let f = vec![fg("install", "install", "install"), fg("remove", "remove", "remove"), fg("list", "list", "list"), fg("create", "create", "create"), fg("activate", "activate", "activate"), fg("deactivate", "deactivate", "deactivate")];
    assert(flag_views(f@) =~= seq![names("install"@, "install"@, "install"@), names("remove"@, "remove"@, "remove"@), names("list"@, "list"@, "list"@), names("create"@, "create"@, "create"@), names("activate"@, "activate"@, "activate"@), names("deactivate"@, "deactivate"@, "deactivate"@)]);
    r.push(cm("conda", "conda", "conda", f, false));
    let f = vec![fg("build", "build", "build"), fg("test", "test", "test"), fg("run", "run", "run"), fg("clean", "clean", "clean")];
    assert(flag_views(f@) =~= seq![names("build"@, "build"@, "build"@), names("test"@, "test"@, "test"@), names("run"@, "run"@, "run"@), names("clean"@, "clean"@, "clean"@)]);
    r.push(cm("gradle", "gradle", "gradle", f, false));
    let f = vec![fg("compile", "compile", "compile"), fg("test", "test", "test"), fg("package", "package", "package"), fg("install", "install", "install"), fg("clean", "clean", "clean")];
    assert(flag_views(f@) =~= seq![names("compile"@, "compile"@, "compile"@), names("test"@, "test"@, "test"@), names("package"@, "package"@, "package"@), names("install"@, "install"@, "install"@), names("clean"@, "clean"@, "clean"@)]);
    r.push(cm("mvn", "mvn", "mvn", f, false));
    let f = vec![fg("build", "build", "build"), fg("clean", "clean", "clean"), fg("test", "test", "test")];
    assert(flag_views(f@) =~= seq![names("build"@, "build"@, "build"@), names("clean"@, "clean"@, "clean"@), names("test"@, "test"@, "test"@)]);
    r.push(cm("ant", "ant", "ant", f, false));
    let f = vec![fg("install", "install", "install"), fg("update", "update", "update"), fg("require", "require", "require"), fg("remove", "remove", "remove")];
    assert(flag_views(f@) =~= seq![names("install"@, "install"@, "install"@), names("update"@, "update"@, "update"@), names("require"@, "require"@, "require"@), names("remove"@, "remove"@, "remove"@)]);
    r.push(cm("composer", "composer", "composer", f, false));
    let f = vec![fg("build", "build", "build"), fg("validate", "validate", "validate"), fg("inspect", "inspect", "inspect"), fg("init", "init", "init")];
    assert(flag_views(f@) =~= seq![names("build"@, "build"@, "build"@), names("validate"@, "validate"@, "validate"@), names("inspect"@, "inspect"@, "inspect"@), names("init"@, "init"@, "init"@)]);
    r.push(cm("packer", "packer", "packer", f, true));
    assert(mapping_views(r@) =~= group_10());
    r
}

/// The table of all mappings, in the order they are indexed.
pub open spec fn table() -> Seq<MappingV> {
    group_1() + group_2() + group_3() + group_4() + group_5() + group_6() + group_7() + group_8() + group_9() + group_10()
}

/// All command mappings, in table order.
pub fn all_mappings() -> (r: Vec<CommandMapping>)
    ensures
        mapping_views(r@) == table(),
{
    let mut r = build_group_1();
    let ghost before = r@;
    let mut g = build_group_2();
    let ghost gv = g@;
    r.append(&mut g);
    assert(mapping_views(r@) =~= mapping_views(before) + mapping_views(gv));
    let ghost before = r@;
    let mut g = build_group_3();
    let ghost gv = g@;
    r.append(&mut g);
    assert(mapping_views(r@) =~= mapping_views(before) + mapping_views(gv));
    let ghost before = r@;
    let mut g = build_group_4();
    let ghost gv = g@;
    r.append(&mut g);
    assert(mapping_views(r@) =~= mapping_views(before) + mapping_views(gv));
    let ghost before = r@;
    let mut g = build_group_5();
    let ghost gv = g@;
    r.append(&mut g);
    assert(mapping_views(r@) =~= mapping_views(before) + mapping_views(gv));
    let ghost before = r@;
    let mut g = build_group_6();
    let ghost gv = g@;
    r.append(&mut g);
    assert(mapping_views(r@) =~= mapping_views(before) + mapping_views(gv));
    let ghost before = r@;
    let mut g = build_group_7();
    let ghost gv = g@;
    r.append(&mut g);
    assert(mapping_views(r@) =~= mapping_views(before) + mapping_views(gv));
    let ghost before = r@;
    let mut g = build_group_8();
    let ghost gv = g@;
    r.append(&mut g);
    assert(mapping_views(r@) =~= mapping_views(before) + mapping_views(gv));
    let ghost before = r@;
    let mut g = build_group_9();
    let ghost gv = g@;
    r.append(&mut g);
    assert(mapping_views(r@) =~= mapping_views(before) + mapping_views(gv));
    let ghost before = r@;
    let mut g = build_group_10();
    let ghost gv = g@;
    r.append(&mut g);
    assert(mapping_views(r@) =~= mapping_views(before) + mapping_views(gv));
    r
}

} // verus!
