//! The translation engine. It is direction-agnostic: given a source and a
//! target dialect it tokenizes the input, splits it at the connectors (`&&`,
//! `||`) and pipes (`|`) that stand outside parentheses and braces,
//! translates each segment with the registry and the dynamic translators, and
//! joins the result again.

use vstd::prelude::*;
use crate::detector::ShellInfo;
use crate::mappings::data::table;
use crate::mappings::dynamic::{dynamic_translation, translate_dynamic};
use crate::mappings::{cmd_entry, spelled, translated_flag, Dialect, MappingRegistry, MappingV};
use crate::text::{
    alpha, any_is, ascii_space, cat2, cat3, chars_of, contains, has_infix, has_prefix, is_alpha,
    is_ascii_space, join, joined, lemma_trimmed_fixed, lemma_trimmed_idempotent, lowercase,
    opt_view, owned, push_char, replace, replaced, same, starts_with, starts_with_char, string_of,
    to_lowercase, trim, trimmed, views,
};
use crate::tokenizer::{
    enhanced, lemma_enhanced_ordered, lemma_with_roles_tokens, ordered, role_views,
    tokenize_with_pos_enhanced_and_roles, with_roles, RoleToken, RoleV, TokenRole,
};

verus! {

/// Result of linting a command for unsupported segments.
#[derive(Debug, Clone)]
pub struct LintResult {
    pub unsupported: Vec<String>,
    pub suggestions: Vec<String>,
}

// ---------------------------------------------------------------------------
// Detecting the dialect of a command
// ---------------------------------------------------------------------------

/// Words that only PowerShell writes.
pub open spec fn ps_indicated(c: Seq<char>) -> bool {
    has_infix(c, "Remove-Item"@) || has_infix(c, "Get-ChildItem"@) || has_infix(c, "Copy-Item"@)
        || has_infix(c, "Move-Item"@) || has_infix(c, "New-Item"@) || has_infix(c, "Get-Content"@)
        || has_infix(c, "Select-String"@) || has_infix(c, "Write-Host"@) || has_infix(
        c,
        "Clear-Host"@,
    ) || has_infix(c, "Get-Location"@) || has_infix(c, "$env:"@) || has_infix(c, "Invoke-"@)
}

/// `w` stands at the start of `lower` followed by its end or ASCII white
/// space, or stands between two spaces.
pub open spec fn word_at_boundary(lower: Seq<char>, w: Seq<char>) -> bool {
    (has_prefix(lower, w) && (lower.len() == w.len() || is_ascii_space(lower[w.len() as int])))
        || has_infix(lower, " "@ + w + " "@)
}

/// Words of the Unix commands; `l` is `c` in lower case.
pub open spec fn unix_indicated(c: Seq<char>, l: Seq<char>) -> bool {
    has_infix(c, "grep"@) || has_infix(c, "ls "@) || has_infix(c, "cat "@) || has_infix(c, "rm "@)
        || has_infix(c, "cp "@) || has_infix(c, "mv "@) || has_infix(c, "mkdir"@) || has_infix(
        c,
        "chmod"@,
    ) || has_infix(c, "chown"@) || has_infix(c, "sed "@) || has_infix(c, "awk "@)
        || word_at_boundary(l, "find"@) || word_at_boundary(l, "ls"@) || word_at_boundary(l, "rm"@)
}

/// Words of the CMD commands (in any case, by `l`, which is `c` in lower
/// case), or `echo %`.
pub open spec fn cmd_indicated(c: Seq<char>, l: Seq<char>) -> bool {
    has_infix(l, "del "@) || has_infix(l, "dir "@) || has_infix(l, "copy "@) || has_infix(
        l,
        "move "@,
    ) || has_infix(l, "md "@) || has_infix(l, "type "@) || has_infix(l, "findstr"@) || has_infix(
        l,
        "cls"@,
    ) || has_infix(l, "tasklist"@) || has_infix(l, "taskkill"@) || has_infix(c, "echo %"@)
}

/// The dialect a command `c` is written in, where `l` is `c` in lower case:
/// PowerShell, Unix or CMD by the first kind of words found, in that order;
/// Unix by default.
pub open spec fn format_of(c: Seq<char>, l: Seq<char>) -> Dialect {
    if ps_indicated(c) {
        Dialect::PowerShell
    } else if unix_indicated(c, l) {
        Dialect::Unix
    } else if cmd_indicated(c, l) {
        Dialect::Cmd
    } else {
        Dialect::Unix
    }
}

/// The dialect a command is written in.
pub open spec fn input_format(c: Seq<char>) -> Dialect {
    format_of(c, lowercase(c))
}

fn regex_boundary_match(lower: &str, word: &str) -> (r: bool)
    ensures
        r == word_at_boundary(lower@, word@),
{
    if starts_with(lower, word) {
        let l = chars_of(lower);
        let w = chars_of(word);
        if l.len() == w.len() || ascii_space(l[w.len()]) {
            return true;
        }
    }
    let pattern = cat3(" ", word, " ");
    contains(lower, pattern.as_str())
}

/// Detect the dialect of a command string by its words.
pub fn detect_input_format(command: &str) -> (r: Dialect)
    ensures
        r == input_format(command@),
{
    let lower = to_lowercase(command);
    detect_input_format_with_lowercase(command, lower.as_str())
}

/// Detect the dialect of a command string by its words, given the command
/// in lower case.
pub fn detect_input_format_with_lowercase(command: &str, lower: &str) -> (r: Dialect)
    ensures
        r == format_of(command@, lower@),
{
    let c = command;
    if contains(c, "Remove-Item") || contains(c, "Get-ChildItem") || contains(c, "Copy-Item")
        || contains(c, "Move-Item") || contains(c, "New-Item") || contains(c, "Get-Content")
        || contains(c, "Select-String") || contains(c, "Write-Host") || contains(c, "Clear-Host")
        || contains(c, "Get-Location") || contains(c, "$env:") || contains(c, "Invoke-") {
        return Dialect::PowerShell;
    }
    let l = lower;
    if contains(c, "grep") || contains(c, "ls ") || contains(c, "cat ") || contains(c, "rm ")
        || contains(c, "cp ") || contains(c, "mv ") || contains(c, "mkdir") || contains(c, "chmod")
        || contains(c, "chown") || contains(c, "sed ") || contains(c, "awk ")
        || regex_boundary_match(l, "find") || regex_boundary_match(l, "ls")
        || regex_boundary_match(l, "rm") {
        return Dialect::Unix;
    }
    if contains(l, "del ") || contains(l, "dir ") || contains(l, "copy ") || contains(l, "move ")
        || contains(l, "md ") || contains(l, "type ") || contains(l, "findstr") || contains(
        l,
        "cls",
    ) || contains(l, "tasklist") || contains(l, "taskkill") || contains(c, "echo %") {
        return Dialect::Cmd;
    }
    Dialect::Unix
}

// ---------------------------------------------------------------------------
// Escapes, splitting, legacy connectors
// ---------------------------------------------------------------------------

/// PowerShell's backtick-escaped operators made plain: `` `&`& `` becomes
/// `'&&'` and `` `|`| `` becomes `'||'`.
pub open spec fn backtick_escaped(c: Seq<char>) -> Seq<char> {
    replaced(replaced(c, "`&`&"@, "'&&'"@), "`|`|"@, "'||'"@)
}

fn handle_backtick_escapes(cmd: &str) -> (r: String)
    ensures
        r@ == backtick_escaped(cmd@),
{
    proof {
        reveal_strlit("`&`&");
        reveal_strlit("`|`|");
    }
    let a = replace(cmd, "`&`&", "'&&'");
    replace(a.as_str(), "`|`|", "'||'")
}

/// The depths of parentheses and braces after a token with text `v`; a
/// closing one never takes a depth below zero.
pub open spec fn depths_after(v: Seq<char>, pd: int, bd: int) -> (int, int) {
    if v == "("@ {
        (pd + 1, bd)
    } else if v == ")"@ {
        (if pd > 0 {
            pd - 1
        } else {
            0
        }, bd)
    } else if v == "{"@ {
        (pd, bd + 1)
    } else if v == "}"@ {
        (pd, if bd > 0 {
            bd - 1
        } else {
            0
        })
    } else {
        (pd, bd)
    }
}

/// The tokens a command is split at: `&&` and `||` for connectors, `|` for
/// pipes.
pub open spec fn is_separator(v: Seq<char>, connectors: bool) -> bool {
    if connectors {
        v == "&&"@ || v == "||"@
    } else {
        v == "|"@
    }
}

/// The trimmed text `c[lo..hi]` as a part, unless it is empty.
pub open spec fn chunk(c: Seq<char>, lo: int, hi: int) -> Seq<Seq<char>> {
    let t = trimmed(c.subrange(lo, hi));
    if t.len() > 0 {
        seq![t]
    } else {
        Seq::empty()
    }
}

/// The parts of `c` from token `i` on, the current part starting at `start`:
/// at each separator outside parentheses and braces the text before it ends a
/// part; connectors are parts of their own, pipes are dropped.
pub open spec fn split_from(
    c: Seq<char>,
    ts: Seq<RoleV>,
    i: int,
    start: int,
    pd: int,
    bd: int,
    connectors: bool,
) -> Seq<Seq<char>>
    decreases ts.len() - i,
{
    if 0 <= i < ts.len() {
        let t = ts[i].token;
        let (pd2, bd2) = depths_after(t.rebuilt, pd, bd);
        if pd2 == 0 && bd2 == 0 && is_separator(t.rebuilt, connectors) {
            let sep = if connectors {
                seq![t.rebuilt]
            } else {
                Seq::empty()
            };
            chunk(c, start, t.start) + sep + split_from(c, ts, i + 1, t.end, pd2, bd2, connectors)
        } else {
            split_from(c, ts, i + 1, start, pd2, bd2, connectors)
        }
    } else {
        chunk(c, start, c.len() as int)
    }
}

/// `c` split at its top-level connectors (kept as parts) or pipes (dropped).
pub open spec fn split_parts(c: Seq<char>, connectors: bool) -> Seq<Seq<char>> {
    split_from(c, with_roles(enhanced(c)), 0, 0, 0, 0, connectors)
}

fn push_chunk(parts: &mut Vec<String>, cs: &Vec<char>, lo: usize, hi: usize)
    requires
        lo <= hi <= cs@.len(),
    ensures
        views(final(parts)@) == views(old(parts)@) + chunk(cs@, lo as int, hi as int),
{
    let piece = string_of(cs, lo, hi);
    let t = trim(piece.as_str());
    let ghost before = parts@;
    if !t.as_str().is_empty() {
        parts.push(t);
        assert(views(parts@) =~= views(before) + chunk(cs@, lo as int, hi as int));
    } else {
        assert(chunk(cs@, lo as int, hi as int) =~= Seq::<Seq<char>>::empty());
        assert(views(parts@) =~= views(before) + chunk(cs@, lo as int, hi as int));
    }
}

fn split_at_separators(cmd: &str, connectors: bool) -> (r: Vec<String>)
    ensures
        views(r@) == split_parts(cmd@, connectors),
{
    let cs = chars_of(cmd);
    let tokens = tokenize_with_pos_enhanced_and_roles(cmd);
    let ghost ts = role_views(tokens@);
    proof {
        lemma_enhanced_ordered(cmd@);
        lemma_with_roles_tokens(enhanced(cmd@));
    }
    let mut parts: Vec<String> = Vec::new();
    let mut start: usize = 0;
    let mut pd: usize = 0;
    let mut bd: usize = 0;
    let mut i: usize = 0;
    while i < tokens.len()
        invariant
            cs@ == cmd@,
            ts == role_views(tokens@),
            ts == with_roles(enhanced(cmd@)),
            ordered(enhanced(cmd@), cmd@.len() as int),
            ts.len() == enhanced(cmd@).len(),
            forall|k: int| 0 <= k < ts.len() ==> (#[trigger] ts[k]).token == enhanced(cmd@)[k],
            i <= tokens.len(),
            pd <= i,
            bd <= i,
            start <= cs@.len(),
            i < tokens.len() ==> start <= tokens@[i as int].start,
            views(parts@) + split_from(cmd@, ts, i as int, start as int, pd as int, bd as int, connectors)
                == split_parts(cmd@, connectors),
        decreases tokens.len() - i,
    {
        let t = &tokens[i];
        assert(ts[i as int] == t@);
        assert(enhanced(cmd@)[i as int] == t@.token);
        let v = t.reconstructed_value.as_str();
        if same(v, "(") {
            pd = pd + 1;
        } else if same(v, ")") {
            pd = if pd > 0 {
                pd - 1
            } else {
                0
            };
        } else if same(v, "{") {
            bd = bd + 1;
        } else if same(v, "}") {
            bd = if bd > 0 {
                bd - 1
            } else {
                0
            };
        }
        let sep = if connectors {
            same(v, "&&") || same(v, "||")
        } else {
            same(v, "|")
        };
        if pd == 0 && bd == 0 && sep {
            let ghost before = views(parts@);
            push_chunk(&mut parts, &cs, start, t.start);
            if connectors {
                parts.push(t.reconstructed_value.clone());
            }
            let ghost sepv = if connectors {
                seq![t@.token.rebuilt]
            } else {
                Seq::<Seq<char>>::empty()
            };
            assert(views(parts@) =~= before + chunk(cmd@, start as int, t.start as int) + sepv);
            start = t.end;
        }
        proof {
            if i + 1 < tokens.len() {
                assert(ts[i + 1] == tokens@[i + 1]@);
                assert(ts[i + 1].token == enhanced(cmd@)[i + 1]);
                assert(enhanced(cmd@)[i as int].start <= enhanced(cmd@)[i as int].end);
                assert(enhanced(cmd@)[i as int].end <= enhanced(cmd@)[i + 1].start);
            }
        }
        i += 1;
    }
    push_chunk(&mut parts, &cs, start, cs.len());
    parts
}

/// Split a command at its `&&` and `||` connectors outside parentheses and
/// braces; the connectors are parts of their own.
fn split_by_connectors(cmd: &str) -> (r: Vec<String>)
    ensures
        views(r@) == split_parts(cmd@, true),
{
    split_at_separators(cmd, true)
}

/// Split a segment at its `|` pipes outside parentheses and braces.
fn split_by_pipe(segment: &str) -> (r: Vec<String>)
    ensures
        views(r@) == split_parts(segment@, false),
{
    split_at_separators(segment, false)
}

/// The PowerShell 5 form of connectors from part `i` on, after `script`:
/// `a && b` becomes `a; if ($?) { b }` and `a || b` becomes
/// `a; if (-not $?) { b }`; a connector with nothing after it is dropped.
pub open spec fn legacy_from(parts: Seq<Seq<char>>, i: int, script: Seq<char>) -> Seq<char>
    decreases parts.len() - i,
{
    if 0 <= i && i + 1 < parts.len() {
        let next = parts[i + 1];
        let s2 = if parts[i] == "&&"@ {
            script + "; if ($?) { "@ + next + " }"@
        } else if parts[i] == "||"@ {
            script + "; if (-not $?) { "@ + next + " }"@
        } else {
            script
        };
        legacy_from(parts, i + 2, s2)
    } else {
        script
    }
}

/// `&&` and `||` rewritten for PowerShell before version 7.
pub open spec fn legacy_powershell(c: Seq<char>) -> Seq<char> {
    let parts = split_parts(c, true);
    if parts.len() == 0 {
        c
    } else {
        legacy_from(parts, 1, parts[0])
    }
}

fn translate_for_legacy_powershell(command: &str) -> (r: String)
    ensures
        r@ == legacy_powershell(command@),
{
    let parts = split_by_connectors(command);
    let ghost ps = views(parts@);
    if parts.len() == 0 {
        return owned(command);
    }
    assert(ps[0] == parts@[0]@);
    let mut script = parts[0].clone();
    let mut i: usize = 1;
    while i < parts.len() && i + 1 < parts.len()
        invariant
            ps == views(parts@),
            1 <= i,
            legacy_powershell(command@) == legacy_from(ps, i as int, script@),
        decreases parts.len() - i,
    {
        assert(ps[i as int] == parts@[i as int]@);
        assert(ps[i + 1] == parts@[i + 1]@);
        let connector = parts[i].as_str();
        let next_cmd = parts[i + 1].as_str();
        if same(connector, "&&") {
            script.append("; if ($?) { ");
            script.append(next_cmd);
            script.append(" }");
        } else if same(connector, "||") {
            script.append("; if (-not $?) { ");
            script.append(next_cmd);
            script.append(" }");
        }
        i += 2;
    }
    script
}

// ---------------------------------------------------------------------------
// Segments
// ---------------------------------------------------------------------------

/// The values of the tokens of a role, in order.
pub open spec fn role_values(ts: Seq<RoleV>, role: TokenRole) -> Seq<Seq<char>>
    decreases ts.len(),
{
    if ts.len() == 0 {
        Seq::empty()
    } else {
        let r = role_values(ts.drop_last(), role);
        if ts.last().role == role {
            r.push(ts.last().token.rebuilt)
        } else {
            r
        }
    }
}

/// The first token from `i` on that is a command.
pub open spec fn first_cmd_from(ts: Seq<RoleV>, i: int) -> Option<int>
    decreases ts.len() - i,
{
    if 0 <= i < ts.len() {
        if ts[i].role == TokenRole::Cmd {
            Some(i)
        } else {
            first_cmd_from(ts, i + 1)
        }
    } else {
        None
    }
}

/// A here-document: a `<<` token, or two `<` tokens in a row.
pub open spec fn here_doc_in(ts: Seq<RoleV>) -> bool {
    (exists|i: int|
        0 <= i && i + 1 < ts.len() && #[trigger] ts[i].token.rebuilt == "<"@ && ts[i
            + 1].token.rebuilt == "<"@) || (exists|i: int|
        0 <= i < ts.len() && #[trigger] ts[i].token.rebuilt == "<<"@)
}

/// A CMD switch: `/` then ASCII letters only, at least one.
pub open spec fn is_slash_switch(v: Seq<char>) -> bool {
    v.len() > 1 && v[0] == '/' && forall|k: int| 1 <= k < v.len() ==> is_alpha(#[trigger] v[k])
}

/// The flags with the unquoted CMD switches among the arguments added, each
/// once, in order.
pub open spec fn reclassified_from(ts: Seq<RoleV>, i: int, acc: Seq<Seq<char>>) -> Seq<Seq<char>>
    decreases ts.len() - i,
{
    if 0 <= i < ts.len() {
        let v = ts[i].token.rebuilt;
        if ts[i].role == TokenRole::Arg && ts[i].token.quote is None && is_slash_switch(v)
            && !acc.contains(v) {
            reclassified_from(ts, i + 1, acc.push(v))
        } else {
            reclassified_from(ts, i + 1, acc)
        }
    } else {
        acc
    }
}

/// The flags of a segment; CMD switches count as flags when the source is
/// CMD.
pub open spec fn flags_for(ts: Seq<RoleV>, source: Dialect) -> Seq<Seq<char>> {
    let f = role_values(ts, TokenRole::Flag);
    if source == Dialect::Cmd {
        reclassified_from(ts, 0, f)
    } else {
        f
    }
}

fn role_values_exec(tokens: &Vec<RoleToken>, role: TokenRole) -> (r: Vec<String>)
    ensures
        views(r@) == role_values(role_views(tokens@), role),
{
    let ghost ts = role_views(tokens@);
    let mut r: Vec<String> = Vec::new();
    let mut i: usize = 0;
    while i < tokens.len()
        invariant
            i <= tokens.len(),
            ts == role_views(tokens@),
            views(r@) == role_values(ts.take(i as int), role),
        decreases tokens.len() - i,
    {
        assert(ts.take(i + 1).drop_last() =~= ts.take(i as int));
        assert(ts.take(i + 1).last() == tokens@[i as int]@);
        if tokens[i].role == role {
            let ghost before = r@;
            r.push(tokens[i].reconstructed_value.clone());
            assert(views(r@) =~= views(before).push(tokens@[i as int]@.token.rebuilt));
        }
        i += 1;
    }
    assert(ts.take(i as int) =~= ts);
    r
}

fn first_cmd_exec(tokens: &Vec<RoleToken>) -> (r: Option<usize>)
    ensures
        match r {
            Some(k) => k < tokens@.len() && first_cmd_from(role_views(tokens@), 0) == Some(k as int),
            None => first_cmd_from(role_views(tokens@), 0) is None,
        },
{
    let ghost ts = role_views(tokens@);
    let mut i: usize = 0;
    while i < tokens.len()
        invariant
            i <= tokens.len(),
            ts == role_views(tokens@),
            first_cmd_from(ts, 0) == first_cmd_from(ts, i as int),
        decreases tokens.len() - i,
    {
        assert(ts[i as int] == tokens@[i as int]@);
        if tokens[i].role == TokenRole::Cmd {
            return Some(i);
        }
        i += 1;
    }
    None
}

fn has_here_doc(tokens: &Vec<RoleToken>) -> (r: bool)
    ensures
        r == here_doc_in(role_views(tokens@)),
{
    let ghost ts = role_views(tokens@);
    let mut i: usize = 0;
    while i < tokens.len() && i + 1 < tokens.len()
        invariant
            ts == role_views(tokens@),
            forall|j: int|
                0 <= j < i && j + 1 < ts.len() ==> !(#[trigger] ts[j].token.rebuilt == "<"@
                    && ts[j + 1].token.rebuilt == "<"@),
        decreases tokens.len() - i,
    {
        assert(ts[i as int] == tokens@[i as int]@);
        assert(ts[i + 1] == tokens@[i + 1]@);
        if same(tokens[i].reconstructed_value.as_str(), "<") && same(
            tokens[i + 1].reconstructed_value.as_str(),
            "<",
        ) {
            assert(ts[i as int].token.rebuilt == "<"@ && ts[i + 1].token.rebuilt == "<"@);
            return true;
        }
        i += 1;
    }
    let mut k: usize = 0;
    while k < tokens.len()
        invariant
            ts == role_views(tokens@),
            forall|j: int|
                0 <= j && j + 1 < ts.len() ==> !(#[trigger] ts[j].token.rebuilt == "<"@
                    && ts[j + 1].token.rebuilt == "<"@),
            forall|j: int| 0 <= j < k ==> #[trigger] ts[j].token.rebuilt != "<<"@,
            k <= tokens.len(),
        decreases tokens.len() - k,
    {
        assert(ts[k as int] == tokens@[k as int]@);
        if same(tokens[k].reconstructed_value.as_str(), "<<") {
            assert(ts[k as int].token.rebuilt == "<<"@);
            return true;
        }
        k += 1;
    }
    false
}

fn slash_switch(v: &str) -> (r: bool)
    ensures
        r == is_slash_switch(v@),
{
    let cs = chars_of(v);
    if cs.len() <= 1 || cs[0] != '/' {
        return false;
    }
    let mut k: usize = 1;
    while k < cs.len()
        invariant
            1 <= k <= cs.len(),
            cs@ == v@,
            forall|m: int| 1 <= m < k ==> is_alpha(#[trigger] cs@[m]),
        decreases cs.len() - k,
    {
        if !alpha(cs[k]) {
            return false;
        }
        k += 1;
    }
    true
}

fn reclassify_cmd_flags(tokens: &Vec<RoleToken>, flags: &Vec<String>) -> (r: Vec<String>)
    ensures
        views(r@) == reclassified_from(role_views(tokens@), 0, views(flags@)),
{
    let ghost ts = role_views(tokens@);
    let mut result = flags.clone();
    assert(views(result@) =~= views(flags@));
    let mut i: usize = 0;
    while i < tokens.len()
        invariant
            i <= tokens.len(),
            ts == role_views(tokens@),
            reclassified_from(ts, 0, views(flags@)) == reclassified_from(
                ts,
                i as int,
                views(result@),
            ),
        decreases tokens.len() - i,
    {
        let t = &tokens[i];
        assert(ts[i as int] == t@);
        if t.role == TokenRole::Arg && t.quote_type.is_none() && slash_switch(
            t.reconstructed_value.as_str(),
        ) && !any_is(result.as_slice(), t.reconstructed_value.as_str()) {
            let ghost before = result@;
            result.push(t.reconstructed_value.clone());
            assert(views(result@) =~= views(before).push(t@.token.rebuilt));
        }
        i += 1;
    }
    result
}

/// The translations of the single-letter flags `-c` for the letters
/// `f[1..k]` of a combined flag, each after a space; none when one of them
/// has no translation.
pub open spec fn letter_words(
    table: Seq<MappingV>,
    source: Dialect,
    name: Seq<char>,
    f: Seq<char>,
    k: int,
    target: Dialect,
) -> Option<Seq<char>>
    decreases k,
{
    if k <= 1 {
        Some(Seq::empty())
    } else {
        match (
            letter_words(table, source, name, f, k - 1, target),
            translated_flag(table, source, name, seq!['-', f[k - 1]], target),
        ) {
            (Some(w), Some(x)) => Some(w + " "@ + x),
            _ => None,
        }
    }
}

/// A combined flag such as `-in`: `-` and two or more ASCII letters.
pub open spec fn is_combined_flag(f: Seq<char>) -> bool {
    f.len() > 2 && f[0] == '-' && forall|k: int| 1 <= k < f.len() ==> is_alpha(#[trigger] f[k])
}

/// What a flag becomes, after a space: its own translation, or else, for a
/// combined flag whose letters all have one, the translations of its
/// letters; none when the flag is unknown.
pub open spec fn flag_words(
    table: Seq<MappingV>,
    source: Dialect,
    name: Seq<char>,
    flag: Seq<char>,
    target: Dialect,
) -> Option<Seq<char>> {
    match translated_flag(table, source, name, flag, target) {
        Some(t) => Some(" "@ + t),
        None => if is_combined_flag(flag) {
            letter_words(table, source, name, flag, flag.len() as int, target)
        } else {
            None
        },
    }
}

/// The translated spellings of the known flags, each after a space.
pub open spec fn known_flag_words(
    table: Seq<MappingV>,
    source: Dialect,
    name: Seq<char>,
    flags: Seq<Seq<char>>,
    target: Dialect,
) -> Seq<char>
    decreases flags.len(),
{
    if flags.len() == 0 {
        Seq::empty()
    } else {
        let w = known_flag_words(table, source, name, flags.drop_last(), target);
        match flag_words(table, source, name, flags.last(), target) {
            Some(t) => w + t,
            None => w,
        }
    }
}

/// The flags that have no translation, in order.
pub open spec fn unknown_flags(
    table: Seq<MappingV>,
    source: Dialect,
    name: Seq<char>,
    flags: Seq<Seq<char>>,
    target: Dialect,
) -> Seq<Seq<char>>
    decreases flags.len(),
{
    if flags.len() == 0 {
        Seq::empty()
    } else {
        let u = unknown_flags(table, source, name, flags.drop_last(), target);
        if flag_words(table, source, name, flags.last(), target) is None {
            u.push(flags.last())
        } else {
            u
        }
    }
}

/// Each part after a space.
pub open spec fn spaced(parts: Seq<Seq<char>>) -> Seq<char>
    decreases parts.len(),
{
    if parts.len() == 0 {
        Seq::empty()
    } else {
        spaced(parts.drop_last()) + " "@ + parts.last()
    }
}

/// The translation of a command by the registry: its name in the target, the
/// translated flags, the flags without a translation, then the arguments.
/// The segment `tr` stays as it is where the command is unknown, has no name
/// in the target, or needs arguments and has none while some flag is
/// unknown.
pub open spec fn static_translation(
    table: Seq<MappingV>,
    source: Dialect,
    target: Dialect,
    name: Seq<char>,
    flags: Seq<Seq<char>>,
    args: Seq<Seq<char>>,
    tr: Seq<char>,
) -> Seq<char> {
    match cmd_entry(table, source, name) {
        Some(k) => {
            let target_cmd = spelled(table[k].names, target);
            let unknown = unknown_flags(table, source, name, flags, target);
            if target_cmd.len() == 0 {
                tr
            } else if unknown.len() > 0 && table[k].force_args && args.len() == 0 {
                tr
            } else {
                trimmed(
                    target_cmd + known_flag_words(table, source, name, flags, target) + spaced(
                        unknown,
                    ) + spaced(args),
                )
            }
        },
        None => tr,
    }
}

/// The translation of one segment (no connectors, no top-level pipes).
/// Segments with `${`, subshells and groupings, here-documents and segments
/// without a command stay as they are (trimmed); otherwise the dynamic
/// translation comes first, then the registry's.
pub open spec fn segment_translation(
    seg: Seq<char>,
    source: Dialect,
    target: Dialect,
    table: Seq<MappingV>,
) -> Seq<char> {
    let tr = trimmed(seg);
    if has_infix(tr, "${"@) || (tr.len() > 0 && (tr[0] == '(' || tr[0] == '{')) {
        tr
    } else {
        let ts = with_roles(enhanced(tr));
        if ts.len() == 0 || here_doc_in(ts) {
            tr
        } else {
            match first_cmd_from(ts, 0) {
                None => tr,
                Some(k) => {
                    let name = ts[k].token.rebuilt;
                    let flags = flags_for(ts, source);
                    let args = role_values(ts, TokenRole::Arg);
                    match dynamic_translation(name, flags, args, source, target) {
                        Some(r) => r,
                        None => static_translation(table, source, target, name, flags, args, tr),
                    }
                },
            }
        }
    }
}

fn append_spaced(out: &mut String, parts: &Vec<String>)
    ensures
        final(out)@ == old(out)@ + spaced(views(parts@)),
{
    let ghost ps = views(parts@);
    let ghost start = out@;
    let mut i: usize = 0;
    while i < parts.len()
        invariant
            i <= parts.len(),
            ps == views(parts@),
            out@ == start + spaced(ps.take(i as int)),
        decreases parts.len() - i,
    {
        assert(ps.take(i + 1).drop_last() =~= ps.take(i as int));
        assert(ps.take(i + 1).last() == parts@[i as int]@);
        out.append(" ");
        out.append(parts[i].as_str());
        assert(out@ =~= start + spaced(ps.take(i + 1)));
        i += 1;
    }
    assert(ps.take(i as int) =~= ps);
}

fn flag_words_exec(
    registry: &MappingRegistry,
    source: Dialect,
    name: &str,
    flag: &str,
    target: Dialect,
) -> (r: Option<String>)
    ensures
        opt_view(r) == flag_words(registry@, source, name@, flag@, target),
{
    if let Some(t) = registry.translate_flag(source, name, flag, target) {
        return Some(cat2(" ", t));
    }
    let cs = chars_of(flag);
    if cs.len() <= 2 || cs[0] != '-' {
        return None;
    }
    let mut k: usize = 1;
    while k < cs.len()
        invariant
            1 <= k <= cs.len(),
            cs@ == flag@,
            cs@.len() > 2 && cs@[0] == '-',
            translated_flag(registry@, source, name@, flag@, target) is None,
            forall|m: int| 1 <= m < k ==> is_alpha(#[trigger] cs@[m]),
        decreases cs.len() - k,
    {
        if !alpha(cs[k]) {
            assert(!is_combined_flag(flag@));
            return None;
        }
        k += 1;
    }
    assert(is_combined_flag(flag@));
    let mut out = String::new();
    let mut k: usize = 1;
    while k < cs.len()
        invariant
            1 <= k <= cs.len(),
            cs@ == flag@,
            is_combined_flag(flag@),
            translated_flag(registry@, source, name@, flag@, target) is None,
            letter_words(registry@, source, name@, flag@, k as int, target) == Some(out@),
        decreases cs.len() - k,
    {
        let mut single = String::new();
        push_char(&mut single, '-');
        push_char(&mut single, cs[k]);
        assert(single@ =~= seq!['-', flag@[k as int]]);
        match registry.translate_flag(source, name, single.as_str(), target) {
            Some(x) => {
                out.append(" ");
                out.append(x);
            },
            None => {
                proof {
                    lemma_letter_words_stay_none(registry@, source, name@, flag@, k + 1, cs@.len() as int, target);
                }
                return None;
            },
        }
        k += 1;
    }
    Some(out)
}

proof fn lemma_letter_words_stay_none(
    table: Seq<MappingV>,
    source: Dialect,
    name: Seq<char>,
    f: Seq<char>,
    k: int,
    n: int,
    target: Dialect,
)
    requires
        1 < k <= n,
        letter_words(table, source, name, f, k, target) is None,
    ensures
        letter_words(table, source, name, f, n, target) is None,
    decreases n - k,
{
    if k < n {
        lemma_letter_words_stay_none(table, source, name, f, k + 1, n, target);
        assert(letter_words(table, source, name, f, k + 1, target) is None);
    }
}

fn static_translate(
    registry: &MappingRegistry,
    source: Dialect,
    target: Dialect,
    cmd_name: &str,
    flags: &Vec<String>,
    args: &Vec<String>,
    tr: &str,
) -> (r: String)
    ensures
        r@ == static_translation(
            registry@,
            source,
            target,
            cmd_name@,
            views(flags@),
            views(args@),
            tr@,
        ),
{
    let mapping = match registry.lookup_cmd(source, cmd_name) {
        Some(m) => m,
        None => {
            return owned(tr);
        },
    };
    let target_cmd = mapping.cmd_name(target);
    if target_cmd.is_empty() {
        return owned(tr);
    }
    let ghost fs = views(flags@);
    let mut translated_flags = String::new();
    let mut unknown: Vec<String> = Vec::new();
    let mut i: usize = 0;
    while i < flags.len()
        invariant
            i <= flags.len(),
            fs == views(flags@),
            translated_flags@ == known_flag_words(registry@, source, cmd_name@, fs.take(i as int), target),
            views(unknown@) == unknown_flags(registry@, source, cmd_name@, fs.take(i as int), target),
        decreases flags.len() - i,
    {
        assert(fs.take(i + 1).drop_last() =~= fs.take(i as int));
        assert(fs.take(i + 1).last() == flags@[i as int]@);
        match flag_words_exec(registry, source, cmd_name, flags[i].as_str(), target) {
            Some(words) => {
                translated_flags.append(words.as_str());
            },
            None => {
                let ghost before = unknown@;
                unknown.push(flags[i].clone());
                assert(views(unknown@) =~= views(before).push(flags@[i as int]@));
            },
        }
        i += 1;
    }
    assert(fs.take(i as int) =~= fs);
    if unknown.len() > 0 && mapping.force_args && args.len() == 0 {
        return owned(tr);
    }
    let mut result = owned(target_cmd);
    result.append(translated_flags.as_str());
    append_spaced(&mut result, &unknown);
    append_spaced(&mut result, args);
    trim(result.as_str())
}

fn translate_segment(
    segment: &str,
    source: Dialect,
    target: Dialect,
    registry: &MappingRegistry,
) -> (r: String)
    ensures
        r@ == segment_translation(segment@, source, target, registry@),
{
    let tr = trim(segment);
    let t = tr.as_str();
    if contains(t, "${") || starts_with_char(t, '(') || starts_with_char(t, '{') {
        return tr;
    }
    let tokens = tokenize_with_pos_enhanced_and_roles(t);
    let ghost ts = role_views(tokens@);
    if tokens.len() == 0 || has_here_doc(&tokens) {
        return tr;
    }
    let k = match first_cmd_exec(&tokens) {
        Some(k) => k,
        None => {
            return tr;
        },
    };
    assert(ts[k as int] == tokens@[k as int]@);
    let cmd_name = tokens[k].reconstructed_value.as_str();
    let flags0 = role_values_exec(&tokens, TokenRole::Flag);
    let flags = if source == Dialect::Cmd {
        reclassify_cmd_flags(&tokens, &flags0)
    } else {
        flags0
    };
    let args = role_values_exec(&tokens, TokenRole::Arg);
    if let Some(result) = translate_dynamic(cmd_name, flags.as_slice(), args.as_slice(), source, target) {
        return result;
    }
    static_translate(registry, source, target, cmd_name, &flags, &args, t)
}

// ---------------------------------------------------------------------------
// Whole commands
// ---------------------------------------------------------------------------

/// A part between connectors: its pipe segments translated one by one and
/// joined by ` | `.
pub open spec fn pipe_translation(
    p: Seq<char>,
    source: Dialect,
    target: Dialect,
    table: Seq<MappingV>,
) -> Seq<char> {
    joined(
        split_parts(p, false).map_values(
            |s: Seq<char>| segment_translation(s, source, target, table),
        ),
        " | "@,
    )
}

/// A connector stays; any other part is translated as a pipeline.
pub open spec fn part_translation(
    p: Seq<char>,
    source: Dialect,
    target: Dialect,
    table: Seq<MappingV>,
) -> Seq<char> {
    if p == "&&"@ || p == "||"@ {
        p
    } else {
        pipe_translation(p, source, target, table)
    }
}

/// The translation of a command from `source` to `target` for `shell`.
/// Nothing changes where the dialects agree and the shell asks for no
/// translation. Otherwise the backtick escapes are made plain, the parts
/// between connectors are translated and joined by spaces, and for a
/// PowerShell that lacks `&&`/`||` the connectors are rewritten.
pub open spec fn translation(
    c: Seq<char>,
    source: Dialect,
    target: Dialect,
    shell: ShellInfo,
    table: Seq<MappingV>,
) -> Seq<char> {
    if source == target && !shell.needs_unix_translation {
        c
    } else {
        let c2 = backtick_escaped(c);
        let parts = split_parts(c2, true);
        if parts.len() == 0 {
            c2
        } else {
            let t = joined(
                parts.map_values(|p: Seq<char>| part_translation(p, source, target, table)),
                " "@,
            );
            if shell.supports_conditional_connectors {
                t
            } else if shell.dialect == Dialect::PowerShell {
                legacy_powershell(t)
            } else {
                t
            }
        }
    }
}

fn translate_pipeline(
    part: &str,
    source: Dialect,
    target: Dialect,
    registry: &MappingRegistry,
) -> (r: String)
    ensures
        r@ == pipe_translation(part@, source, target, registry@),
{
    let segs = split_by_pipe(part);
    let ghost ss = views(segs@);
    let ghost f = |s: Seq<char>| segment_translation(s, source, target, registry@);
    let mut out: Vec<String> = Vec::new();
    let mut j: usize = 0;
    while j < segs.len()
        invariant
            j <= segs.len(),
            ss == views(segs@),
            f == (|s: Seq<char>| segment_translation(s, source, target, registry@)),
            views(out@) == ss.take(j as int).map_values(f),
        decreases segs.len() - j,
    {
        let ghost before = out@;
        let t = translate_segment(segs[j].as_str(), source, target, registry);
        out.push(t);
        assert(ss[j as int] == segs@[j as int]@);
        assert(views(out@) =~= ss.take(j + 1).map_values(f)) by {
            assert(views(out@) =~= views(before).push(t@));
        }
        j += 1;
    }
    assert(ss.take(j as int) =~= ss);
    join(out.as_slice(), " | ")
}

/// Translate a command from `source` to `target` for `shell`, with a
/// registry built beforehand.
pub fn translate_with_registry(
    command: &str,
    source: Dialect,
    target: Dialect,
    shell: &ShellInfo,
    registry: &MappingRegistry,
) -> (r: String)
    ensures
        r@ == translation(command@, source, target, *shell, registry@),
{
    if source == target && !shell.needs_unix_translation {
        return owned(command);
    }
    let command = handle_backtick_escapes(command);
    let parts = split_by_connectors(command.as_str());
    if parts.len() == 0 {
        return command;
    }
    let ghost ps = views(parts@);
    let ghost f = |p: Seq<char>| part_translation(p, source, target, registry@);
    let mut translated_parts: Vec<String> = Vec::new();
    let mut i: usize = 0;
    while i < parts.len()
        invariant
            i <= parts.len(),
            ps == views(parts@),
            f == (|p: Seq<char>| part_translation(p, source, target, registry@)),
            views(translated_parts@) == ps.take(i as int).map_values(f),
        decreases parts.len() - i,
    {
        let ghost before = translated_parts@;
        assert(ps[i as int] == parts@[i as int]@);
        let part = parts[i].as_str();
        let t = if same(part, "&&") || same(part, "||") {
            parts[i].clone()
        } else {
            translate_pipeline(part, source, target, registry)
        };
        translated_parts.push(t);
        assert(views(translated_parts@) =~= ps.take(i + 1).map_values(f)) by {
            assert(views(translated_parts@) =~= views(before).push(t@));
        }
        i += 1;
    }
    assert(ps.take(i as int) =~= ps);
    let translated = join(translated_parts.as_slice(), " ");
    if shell.supports_conditional_connectors {
        return translated;
    }
    if shell.dialect == Dialect::PowerShell {
        translate_for_legacy_powershell(translated.as_str())
    } else {
        translated
    }
}

/// Translate a command from the dialect it is written in to the shell's
/// target.
pub fn translate_command(command: &str, shell: &ShellInfo) -> (r: String)
    ensures
        r@ == translation(command@, input_format(command@), shell.target, *shell, table()),
{
    let registry = MappingRegistry::new();
    let input_format = detect_input_format(command);
    translate_with_registry(command, input_format, shell.target, shell, &registry)
}

// ---------------------------------------------------------------------------
// Lint
// ---------------------------------------------------------------------------

/// The finding for one pipe segment: its command, where the registry does not
/// know it in `source`.
pub open spec fn lint_segment(seg: Seq<char>, source: Dialect, table: Seq<MappingV>) -> Seq<
    Seq<char>,
> {
    let tr = trimmed(seg);
    if tr.len() == 0 || tr[0] == '(' || tr[0] == '{' {
        Seq::empty()
    } else {
        let ts = with_roles(enhanced(tr));
        match first_cmd_from(ts, 0) {
            Some(k) => {
                let name = ts[k].token.rebuilt;
                if cmd_entry(table, source, name) is None {
                    seq![tr + " (unknown command: '"@ + name + "')"@]
                } else {
                    Seq::empty()
                }
            },
            None => Seq::empty(),
        }
    }
}

/// The findings of a sequence of pipe segments, in order.
pub open spec fn lint_segments(segs: Seq<Seq<char>>, source: Dialect, table: Seq<MappingV>) -> Seq<
    Seq<char>,
>
    decreases segs.len(),
{
    if segs.len() == 0 {
        Seq::empty()
    } else {
        lint_segments(segs.drop_last(), source, table) + lint_segment(segs.last(), source, table)
    }
}

/// The findings of the parts between connectors, in order.
pub open spec fn lint_parts(parts: Seq<Seq<char>>, source: Dialect, table: Seq<MappingV>) -> Seq<
    Seq<char>,
>
    decreases parts.len(),
{
    if parts.len() == 0 {
        Seq::empty()
    } else {
        let p = parts.last();
        let rest = lint_parts(parts.drop_last(), source, table);
        if p == "&&"@ || p == "||"@ {
            rest
        } else {
            rest + lint_segments(split_parts(p, false), source, table)
        }
    }
}

/// The unsupported segments of a command: those whose command the registry
/// does not know in the command's dialect.
pub open spec fn lint_findings(c: Seq<char>, table: Seq<MappingV>) -> Seq<Seq<char>> {
    lint_parts(split_parts(c, true), input_format(c), table)
}

fn lint_segment_exec(seg: &str, source: Dialect, registry: &MappingRegistry, out: &mut Vec<String>)
    ensures
        views(final(out)@) == views(old(out)@) + lint_segment(seg@, source, registry@),
{
    let tr = trim(seg);
    let t = tr.as_str();
    if t.is_empty() || starts_with_char(t, '(') || starts_with_char(t, '{') {
        assert(views(out@) =~= views(out@) + lint_segment(seg@, source, registry@));
        return;
    }
    let tokens = tokenize_with_pos_enhanced_and_roles(t);
    let ghost ts = role_views(tokens@);
    match first_cmd_exec(&tokens) {
        Some(k) => {
            assert(ts[k as int] == tokens@[k as int]@);
            let cmd_name = tokens[k].reconstructed_value.as_str();
            if !registry.is_known(source, cmd_name) {
                let ghost before = out@;
                let mut msg = cat2(t, " (unknown command: '");
                msg.append(cmd_name);
                msg.append("')");
                out.push(msg);
                assert(views(out@) =~= views(before) + lint_segment(seg@, source, registry@));
            } else {
                assert(views(out@) =~= views(out@) + lint_segment(seg@, source, registry@));
            }
        },
        None => {
            assert(views(out@) =~= views(out@) + lint_segment(seg@, source, registry@));
        },
    }
}

/// Lint a command for segments that cannot be translated.
pub fn lint_command(command: &str) -> (r: LintResult)
    ensures
        views(r.unsupported@) == lint_findings(command@, table()),
        r.suggestions@.len() == 0,
{
    let registry = MappingRegistry::new();
    let source = detect_input_format(command);
    let mut unsupported: Vec<String> = Vec::new();
    let suggestions: Vec<String> = Vec::new();
    let parts = split_by_connectors(command);
    let ghost ps = views(parts@);
    let mut i: usize = 0;
    while i < parts.len()
        invariant
            i <= parts.len(),
            ps == views(parts@),
            registry@ == table(),
            source == input_format(command@),
            views(unsupported@) == lint_parts(ps.take(i as int), source, table()),
        decreases parts.len() - i,
    {
        assert(ps.take(i + 1).drop_last() =~= ps.take(i as int));
        assert(ps.take(i + 1).last() == parts@[i as int]@);
        let part = parts[i].as_str();
        if !(same(part, "&&") || same(part, "||")) {
            let segs = split_by_pipe(part);
            let ghost ss = views(segs@);
            let ghost base = views(unsupported@);
            let mut j: usize = 0;
            while j < segs.len()
                invariant
                    j <= segs.len(),
                    ss == views(segs@),
                    registry@ == table(),
                    views(unsupported@) == base + lint_segments(ss.take(j as int), source, table()),
                decreases segs.len() - j,
            {
                assert(ss.take(j + 1).drop_last() =~= ss.take(j as int));
                assert(ss.take(j + 1).last() == segs@[j as int]@);
                lint_segment_exec(segs[j].as_str(), source, &registry, &mut unsupported);
                assert(views(unsupported@) =~= base + lint_segments(ss.take(j + 1), source, table()));
                j += 1;
            }
            assert(ss.take(j as int) =~= ss);
        }
        i += 1;
    }
    assert(ps.take(i as int) =~= ps);
    LintResult { unsupported, suggestions }
}

// ---------------------------------------------------------------------------
// Laws
// ---------------------------------------------------------------------------

/// A command translated into its own dialect, for a shell that asks for no
/// translation, comes back unchanged.
pub proof fn lemma_same_dialect_unchanged(
    c: Seq<char>,
    d: Dialect,
    shell: ShellInfo,
    table: Seq<MappingV>,
)
    requires
        !shell.needs_unix_translation,
    ensures
        translation(c, d, d, shell, table) == c,
{
}

proof fn lemma_split_from_nonempty(
    c: Seq<char>,
    ts: Seq<RoleV>,
    i: int,
    start: int,
    pd: int,
    bd: int,
    connectors: bool,
)
    ensures
        forall|k: int|
            0 <= k < split_from(c, ts, i, start, pd, bd, connectors).len() ==> (#[trigger] split_from(
                c,
                ts,
                i,
                start,
                pd,
                bd,
                connectors,
            )[k]).len() > 0 && trimmed(split_from(c, ts, i, start, pd, bd, connectors)[k])
                == split_from(c, ts, i, start, pd, bd, connectors)[k],
    decreases ts.len() - i,
{
    reveal_strlit("&&");
    reveal_strlit("||");
    if 0 <= i < ts.len() {
        let t = ts[i].token;
        let (pd2, bd2) = depths_after(t.rebuilt, pd, bd);
        lemma_split_from_nonempty(c, ts, i + 1, t.end, pd2, bd2, connectors);
        lemma_split_from_nonempty(c, ts, i + 1, start, pd2, bd2, connectors);
        if pd2 == 0 && bd2 == 0 && is_separator(t.rebuilt, connectors) {
            let sep = if connectors {
                seq![t.rebuilt]
            } else {
                Seq::<Seq<char>>::empty()
            };
            assert(connectors ==> t.rebuilt.len() == 2);
            if connectors {
                lemma_trimmed_fixed(t.rebuilt);
            }
            lemma_trimmed_idempotent(c.subrange(start, t.start));
            let whole = chunk(c, start, t.start) + sep + split_from(
                c,
                ts,
                i + 1,
                t.end,
                pd2,
                bd2,
                connectors,
            );
            assert forall|k: int| 0 <= k < whole.len() implies (#[trigger] whole[k]).len() > 0
                && trimmed(whole[k]) == whole[k] by {
                let n1 = chunk(c, start, t.start).len();
                let n2 = sep.len();
                if k >= n1 + n2 {
                    assert(whole[k] == split_from(c, ts, i + 1, t.end, pd2, bd2, connectors)[k - n1
                        - n2]);
                } else if k >= n1 {
                    assert(whole[k] == sep[k - n1]);
                } else {
                    assert(whole[k] == chunk(c, start, t.start)[k]);
                }
            }
            assert(split_from(c, ts, i, start, pd, bd, connectors) == whole);
        } else {
            let rest = split_from(c, ts, i + 1, start, pd2, bd2, connectors);
            assert(split_from(c, ts, i, start, pd, bd, connectors) == rest);
            assert forall|k: int| 0 <= k < rest.len() implies (#[trigger] rest[k]).len() > 0
                && trimmed(rest[k]) == rest[k] by {}
        }
    } else {
        lemma_trimmed_idempotent(c.subrange(start, c.len() as int));
        assert(split_from(c, ts, i, start, pd, bd, connectors) == chunk(c, start, c.len() as int));
    }
}

/// Splitting at connectors or pipes never yields an empty part, and every
/// part is already trimmed: the text between two separators is trimmed, and
/// dropped where it is blank.
pub proof fn lemma_split_parts_nonempty(c: Seq<char>, connectors: bool)
    ensures
        forall|k: int|
            0 <= k < split_parts(c, connectors).len() ==> (#[trigger] split_parts(
                c,
                connectors,
            )[k]).len() > 0 && trimmed(split_parts(c, connectors)[k]) == split_parts(
                c,
                connectors,
            )[k],
{
    lemma_split_from_nonempty(c, with_roles(enhanced(c)), 0, 0, 0, 0, connectors);
}

/// A segment stays as it is (trimmed) where it holds `${`, opens a subshell
/// or a group, or where its command is known neither to the dynamic
/// translators nor to the registry.
pub proof fn lemma_untranslatable_segment_kept(
    seg: Seq<char>,
    source: Dialect,
    target: Dialect,
    table: Seq<MappingV>,
)
    ensures
        ({
            let tr = trimmed(seg);
            (has_infix(tr, "${"@) || (tr.len() > 0 && (tr[0] == '(' || tr[0] == '{'))) ==> segment_translation(seg, source, target, table) == tr
        }),
        ({
            let tr = trimmed(seg);
            let ts = with_roles(enhanced(tr));
            first_cmd_from(ts, 0) matches Some(k) && dynamic_translation(
                ts[k].token.rebuilt,
                flags_for(ts, source),
                role_values(ts, TokenRole::Arg),
                source,
                target,
            ) is None && cmd_entry(table, source, ts[k].token.rebuilt) is None
                ==> segment_translation(seg, source, target, table) == tr
        }),
{
}

/// Lint reports a pipe segment of a command in its own words: for each
/// segment of a part between connectors, the finding (if any) names the
/// segment itself and its command.
pub proof fn lemma_lint_reports_segment(p: Seq<char>, k: int, source: Dialect, table: Seq<MappingV>)
    requires
        0 <= k < split_parts(p, false).len(),
    ensures
        ({
            let s = split_parts(p, false)[k];
            let ts = with_roles(enhanced(s));
            lint_segment(s, source, table) == if s[0] == '(' || s[0] == '{' {
                Seq::empty()
            } else {
                match first_cmd_from(ts, 0) {
                    Some(j) => if cmd_entry(table, source, ts[j].token.rebuilt) is None {
                        seq![s + " (unknown command: '"@ + ts[j].token.rebuilt + "')"@]
                    } else {
                        Seq::empty()
                    },
                    None => Seq::empty(),
                }
            }
        }),
{
    lemma_split_parts_nonempty(p, false);
    let s = split_parts(p, false)[k];
    assert(trimmed(s) == s);
}

proof fn lemma_contains_concat(a: Seq<Seq<char>>, b: Seq<Seq<char>>, x: Seq<char>)
    ensures
        a.contains(x) ==> (a + b).contains(x),
        b.contains(x) ==> (a + b).contains(x),
{
    if a.contains(x) {
        let m = choose|m: int| 0 <= m < a.len() && a[m] == x;
        assert((a + b)[m] == x);
    }
    if b.contains(x) {
        let m = choose|m: int| 0 <= m < b.len() && b[m] == x;
        assert((a + b)[a.len() + m] == x);
    }
}

proof fn lemma_lint_segments_holds(
    segs: Seq<Seq<char>>,
    k: int,
    x: Seq<char>,
    source: Dialect,
    table: Seq<MappingV>,
)
    requires
        0 <= k < segs.len(),
        lint_segment(segs[k], source, table).contains(x),
    ensures
        lint_segments(segs, source, table).contains(x),
    decreases segs.len(),
{
    let rest = lint_segments(segs.drop_last(), source, table);
    if k == segs.len() - 1 {
        lemma_contains_concat(rest, lint_segment(segs.last(), source, table), x);
    } else {
        assert(segs.drop_last()[k] == segs[k]);
        lemma_lint_segments_holds(segs.drop_last(), k, x, source, table);
        lemma_contains_concat(rest, lint_segment(segs.last(), source, table), x);
    }
}

proof fn lemma_lint_parts_holds(
    parts: Seq<Seq<char>>,
    i: int,
    x: Seq<char>,
    source: Dialect,
    table: Seq<MappingV>,
)
    requires
        0 <= i < parts.len(),
        parts[i] != "&&"@,
        parts[i] != "||"@,
        lint_segments(split_parts(parts[i], false), source, table).contains(x),
    ensures
        lint_parts(parts, source, table).contains(x),
    decreases parts.len(),
{
    let rest = lint_parts(parts.drop_last(), source, table);
    let here = lint_segments(split_parts(parts.last(), false), source, table);
    if i == parts.len() - 1 {
        lemma_contains_concat(rest, here, x);
    } else {
        assert(parts.drop_last()[i] == parts[i]);
        lemma_lint_parts_holds(parts.drop_last(), i, x, source, table);
        lemma_contains_concat(rest, here, x);
    }
}

/// Lint checks every pipe segment of every part between connectors, whatever
/// connector stands before it: where the segment does not open a subshell or
/// a group and the registry does not know its command in the command's
/// dialect, the findings name that segment and its command.
pub proof fn lemma_lint_checks_every_segment(c: Seq<char>, table: Seq<MappingV>, i: int, k: int)
    requires
        0 <= i < split_parts(c, true).len(),
        split_parts(c, true)[i] != "&&"@,
        split_parts(c, true)[i] != "||"@,
        0 <= k < split_parts(split_parts(c, true)[i], false).len(),
    ensures
        ({
            let s = split_parts(split_parts(c, true)[i], false)[k];
            let ts = with_roles(enhanced(s));
            s[0] != '(' && s[0] != '{' ==> match first_cmd_from(ts, 0) {
                Some(j) => cmd_entry(table, input_format(c), ts[j].token.rebuilt) is None
                    ==> lint_findings(c, table).contains(
                    s + " (unknown command: '"@ + ts[j].token.rebuilt + "')"@,
                ),
                None => true,
            }
        }),
{
    let parts = split_parts(c, true);
    let segs = split_parts(parts[i], false);
    let s = segs[k];
    let ts = with_roles(enhanced(s));
    let source = input_format(c);
    lemma_lint_reports_segment(parts[i], k, source, table);
    if s[0] != '(' && s[0] != '{' {
        if let Some(j) = first_cmd_from(ts, 0) {
            if cmd_entry(table, source, ts[j].token.rebuilt) is None {
                let x = s + " (unknown command: '"@ + ts[j].token.rebuilt + "')"@;
                assert(lint_segment(s, source, table)[0] == x);
                lemma_lint_segments_holds(segs, k, x, source, table);
                lemma_lint_parts_holds(parts, i, x, source, table);
            }
        }
    }
}

/// `x` is the finding of lint for the pipe segment `s`: a segment that opens
/// no subshell or group, whose command the registry does not know in
/// `source`.
pub open spec fn unknown_command_finding(
    s: Seq<char>,
    source: Dialect,
    table: Seq<MappingV>,
    x: Seq<char>,
) -> bool {
    let ts = with_roles(enhanced(s));
    &&& s[0] != '('
    &&& s[0] != '{'
    &&& match first_cmd_from(ts, 0) {
        Some(j) => cmd_entry(table, source, ts[j].token.rebuilt) is None && x == s
            + " (unknown command: '"@ + ts[j].token.rebuilt + "')"@,
        None => false,
    }
}

proof fn lemma_lint_segments_from(
    segs: Seq<Seq<char>>,
    x: Seq<char>,
    source: Dialect,
    table: Seq<MappingV>,
) -> (k: int)
    requires
        lint_segments(segs, source, table).contains(x),
    ensures
        0 <= k < segs.len(),
        lint_segment(segs[k], source, table).contains(x),
    decreases segs.len(),
{
    let rest = lint_segments(segs.drop_last(), source, table);
    let last = lint_segment(segs.last(), source, table);
    let m = choose|m: int| 0 <= m < (rest + last).len() && (rest + last)[m] == x;
    if m < rest.len() {
        assert(rest[m] == x);
        let k = lemma_lint_segments_from(segs.drop_last(), x, source, table);
        assert(segs.drop_last()[k] == segs[k]);
        k
    } else {
        assert(last[m - rest.len()] == x);
        segs.len() - 1
    }
}

proof fn lemma_lint_parts_from(
    parts: Seq<Seq<char>>,
    x: Seq<char>,
    source: Dialect,
    table: Seq<MappingV>,
) -> (i: int)
    requires
        lint_parts(parts, source, table).contains(x),
    ensures
        0 <= i < parts.len(),
        parts[i] != "&&"@,
        parts[i] != "||"@,
        lint_segments(split_parts(parts[i], false), source, table).contains(x),
    decreases parts.len(),
{
    let rest = lint_parts(parts.drop_last(), source, table);
    let p = parts.last();
    if p == "&&"@ || p == "||"@ {
        let i = lemma_lint_parts_from(parts.drop_last(), x, source, table);
        assert(parts.drop_last()[i] == parts[i]);
        i
    } else {
        let here = lint_segments(split_parts(p, false), source, table);
        let m = choose|m: int| 0 <= m < (rest + here).len() && (rest + here)[m] == x;
        if m < rest.len() {
            assert(rest[m] == x);
            let i = lemma_lint_parts_from(parts.drop_last(), x, source, table);
            assert(parts.drop_last()[i] == parts[i]);
            i
        } else {
            assert(here[m - rest.len()] == x);
            parts.len() - 1
        }
    }
}

/// Lint reports nothing but unknown commands: each finding is the finding of
/// a pipe segment of a part between connectors of the command.
pub proof fn lemma_lint_findings_name_segments(c: Seq<char>, table: Seq<MappingV>, x: Seq<char>)
    requires
        lint_findings(c, table).contains(x),
    ensures
        exists|i: int, k: int|
            0 <= i < split_parts(c, true).len() && split_parts(c, true)[i] != "&&"@ && split_parts(
                c,
                true,
            )[i] != "||"@ && 0 <= k < split_parts(split_parts(c, true)[i], false).len()
                && unknown_command_finding(
                #[trigger] split_parts(split_parts(c, true)[i], false)[k],
                input_format(c),
                table,
                x,
            ),
{
    let parts = split_parts(c, true);
    let source = input_format(c);
    let i = lemma_lint_parts_from(parts, x, source, table);
    let segs = split_parts(parts[i], false);
    let k = lemma_lint_segments_from(segs, x, source, table);
    lemma_lint_reports_segment(parts[i], k, source, table);
    let s = segs[k];
    let m = choose|m: int| 0 <= m < lint_segment(s, source, table).len() && lint_segment(s, source, table)[m] == x;
    assert(unknown_command_finding(s, source, table, x));
}

/// The PowerShell words decide first: a command holding `Remove-Item`,
/// `Get-ChildItem`, `Copy-Item`, `Move-Item`, `New-Item`, `Get-Content`,
/// `Select-String`, `Write-Host`, `Clear-Host`, `Get-Location`, `$env:` or
/// `Invoke-` is PowerShell, whatever else it holds and whatever its lower
/// case.
pub proof fn lemma_powershell_words_detected(c: Seq<char>, l: Seq<char>)
    requires
        has_infix(c, "Remove-Item"@) || has_infix(c, "Get-ChildItem"@) || has_infix(c, "Copy-Item"@)
            || has_infix(c, "Move-Item"@) || has_infix(c, "New-Item"@) || has_infix(
            c,
            "Get-Content"@,
        ) || has_infix(c, "Select-String"@) || has_infix(c, "Write-Host"@) || has_infix(
            c,
            "Clear-Host"@,
        ) || has_infix(c, "Get-Location"@) || has_infix(c, "$env:"@) || has_infix(c, "Invoke-"@),
    ensures
        format_of(c, l) == Dialect::PowerShell,
        input_format(c) == Dialect::PowerShell,
{
}

/// Without a PowerShell word, a command holding `grep`, `ls `, `cat `, `rm `,
/// `cp `, `mv `, `mkdir`, `chmod`, `chown`, `sed ` or `awk ` is Unix.
pub proof fn lemma_unix_words_detected(c: Seq<char>, l: Seq<char>)
    requires
        !(has_infix(c, "Remove-Item"@) || has_infix(c, "Get-ChildItem"@) || has_infix(
            c,
            "Copy-Item"@,
        ) || has_infix(c, "Move-Item"@) || has_infix(c, "New-Item"@) || has_infix(
            c,
            "Get-Content"@,
        ) || has_infix(c, "Select-String"@) || has_infix(c, "Write-Host"@) || has_infix(
            c,
            "Clear-Host"@,
        ) || has_infix(c, "Get-Location"@) || has_infix(c, "$env:"@) || has_infix(c, "Invoke-"@)),
        has_infix(c, "grep"@) || has_infix(c, "ls "@) || has_infix(c, "cat "@) || has_infix(
            c,
            "rm "@,
        ) || has_infix(c, "cp "@) || has_infix(c, "mv "@) || has_infix(c, "mkdir"@) || has_infix(
            c,
            "chmod"@,
        ) || has_infix(c, "chown"@) || has_infix(c, "sed "@) || has_infix(c, "awk "@),
    ensures
        format_of(c, l) == Dialect::Unix,
{
}

/// Only CMD words make a command CMD: a command detected as CMD, given its
/// lower case `l`, holds `del `, `dir `, `copy `, `move `, `md `, `type `,
/// `findstr`, `cls`, `tasklist` or `taskkill` in `l`, or `echo %` in itself;
/// and a command with none of the three kinds of words is Unix.
pub proof fn lemma_cmd_needs_cmd_words(c: Seq<char>, l: Seq<char>)
    ensures
        format_of(c, l) == Dialect::Cmd ==> has_infix(l, "del "@) || has_infix(l, "dir "@)
            || has_infix(l, "copy "@) || has_infix(l, "move "@) || has_infix(l, "md "@) || has_infix(
            l,
            "type "@,
        ) || has_infix(l, "findstr"@) || has_infix(l, "cls"@) || has_infix(l, "tasklist"@)
            || has_infix(l, "taskkill"@) || has_infix(c, "echo %"@),
        format_of(c, l) == Dialect::Cmd ==> !has_infix(c, "Get-Content"@) && !has_infix(c, "grep"@),
{
}

} // verus!
