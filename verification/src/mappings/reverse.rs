//! Dynamic translation of PowerShell and CMD commands, and of Unix commands
//! into CMD: the service, file-system, process and permission commands whose
//! arguments a static flag mapping cannot carry.

use vstd::prelude::*;
use super::Dialect;
use super::dynamic::{
    arg_or_empty, arg_or_empty_exec, chmod_icacls_exec, chmod_to_icacls, chown_icacls_exec,
    chown_to_icacls, cmd_param, dynamic_translation, icacls_octal, icacls_perm_to_octal,
    keep_without_prefix, parse_cmd_named_param, parse_ps_named_param, ps_param, ps_param_from, sp,
    without_prefix,
};
use crate::text::{
    any_is, cat2, cat3, cat4, cat5, chars_of, contains_char, decimal, find_char, find_char_from,
    has_prefix, join, join_from, joined, lemma_find_char_from, opt_view, owned, parse_usize,
    parsed_usize, push_decimal, push_decimal_wide, same, starts_with, starts_with_char, string_of,
    trim, trim_of, trimmed, trimmed_of, views,
};

verus! {

// ---------------------------------------------------------------------------
// PowerShell -> Unix
// ---------------------------------------------------------------------------

/// The service of `Set-Service`: its `-Name`, else the first argument, else
/// empty.
pub open spec fn named_or_first(f: Seq<Seq<char>>, a: Seq<Seq<char>>) -> Seq<char> {
    match ps_param(f, "-Name"@) {
        Some(x) => x,
        None => arg_or_empty(a, 0),
    }
}

pub(crate) fn named_or_first_exec(flags: &[String], args: &[String]) -> (r: String)
    ensures
        r@ == named_or_first(views(flags@), views(args@)),
{
    match parse_ps_named_param(flags, "-Name") {
        Some(x) => x,
        None => arg_or_empty_exec(args, 0),
    }
}

/// `Set-Service -StartupType Automatic|Disabled` → `systemctl enable|disable`.
pub open spec fn set_service_to_unix(f: Seq<Seq<char>>, a: Seq<Seq<char>>) -> Option<Seq<char>> {
    match ps_param(f, "-StartupType"@) {
        Some(t) => if t == "Automatic"@ {
            Some("systemctl enable "@ + named_or_first(f, a))
        } else if t == "Disabled"@ {
            Some("systemctl disable "@ + named_or_first(f, a))
        } else {
            None
        },
        None => None,
    }
}

fn set_service_ps_to_unix(flags: &[String], args: &[String]) -> (r: Option<String>)
    ensures
        opt_view(r) == set_service_to_unix(views(flags@), views(args@)),
{
    let name = named_or_first_exec(flags, args);
    match parse_ps_named_param(flags, "-StartupType") {
        Some(t) => if same(t.as_str(), "Automatic") {
            Some(cat2("systemctl enable ", name.as_str()))
        } else if same(t.as_str(), "Disabled") {
            Some(cat2("systemctl disable ", name.as_str()))
        } else {
            None
        },
        None => None,
    }
}

/// The name of a new link: its `-Name`, else the first argument.
pub open spec fn link_name(f: Seq<Seq<char>>, a: Seq<Seq<char>>) -> Option<Seq<char>> {
    match ps_param(f, "-Name"@) {
        Some(x) => Some(x),
        None => if a.len() > 0 {
            Some(a[0])
        } else {
            None
        },
    }
}

pub(crate) fn link_name_exec(flags: &[String], args: &[String]) -> (r: Option<String>)
    ensures
        opt_view(r) == link_name(views(flags@), views(args@)),
{
    match parse_ps_named_param(flags, "-Name") {
        Some(x) => Some(x),
        None => if args.len() > 0 {
            assert(views(args@)[0] == args@[0]@);
            Some(args[0].clone())
        } else {
            None
        },
    }
}

/// `New-Item -ItemType File|Directory|SymbolicLink|HardLink` → `touch`,
/// `mkdir`, `ln -s`, `ln`.
pub open spec fn new_item_to_unix(f: Seq<Seq<char>>, a: Seq<Seq<char>>) -> Option<Seq<char>> {
    match ps_param(f, "-ItemType"@) {
        Some(t) => if t == "File"@ {
            if a.len() == 0 {
                None
            } else {
                Some("touch "@ + joined(a, sp()))
            }
        } else if t == "Directory"@ {
            Some("mkdir "@ + joined(a, sp()))
        } else if t == "SymbolicLink"@ {
            match (ps_param(f, "-Target"@), link_name(f, a)) {
                (Some(target), Some(name)) => Some("ln -s "@ + target + sp() + name),
                _ => None,
            }
        } else if t == "HardLink"@ {
            match (ps_param(f, "-Target"@), link_name(f, a)) {
                (Some(target), Some(name)) => Some("ln "@ + target + sp() + name),
                _ => None,
            }
        } else {
            None
        },
        None => None,
    }
}

fn new_item_ps_to_unix(flags: &[String], args: &[String]) -> (r: Option<String>)
    ensures
        opt_view(r) == new_item_to_unix(views(flags@), views(args@)),
{
    let t = match parse_ps_named_param(flags, "-ItemType") {
        Some(t) => t,
        None => {
            return None;
        },
    };
    let t = t.as_str();
    if same(t, "File") {
        if args.len() == 0 {
            None
        } else {
            Some(cat2("touch ", join(args, " ").as_str()))
        }
    } else if same(t, "Directory") {
        Some(cat2("mkdir ", join(args, " ").as_str()))
    } else if same(t, "SymbolicLink") || same(t, "HardLink") {
        let target = match parse_ps_named_param(flags, "-Target") {
            Some(x) => x,
            None => {
                return None;
            },
        };
        let name = match link_name_exec(flags, args) {
            Some(x) => x,
            None => {
                return None;
            },
        };
        if same(t, "SymbolicLink") {
            Some(cat4("ln -s ", target.as_str(), " ", name.as_str()))
        } else {
            Some(cat4("ln ", target.as_str(), " ", name.as_str()))
        }
    } else {
        None
    }
}

/// `Get-Content -Tail N f` → `tail -n N f`; `Get-Content -Wait f` →
/// `tail -f f`.
pub open spec fn get_content_to_unix(f: Seq<Seq<char>>, a: Seq<Seq<char>>) -> Option<Seq<char>> {
    let tail = match ps_param(f, "-Tail"@) {
        Some(v) => parsed_usize(v),
        None => None,
    };
    match tail {
        Some(n) => Some("tail -n "@ + decimal(n) + sp() + joined(without_prefix(a, "-"@), sp())),
        None => if f.contains("-Wait"@) {
            Some("tail -f "@ + joined(a, sp()))
        } else {
            None
        },
    }
}

fn get_content_ps_to_unix(flags: &[String], args: &[String]) -> (r: Option<String>)
    ensures
        opt_view(r) == get_content_to_unix(views(flags@), views(args@)),
{
    if let Some(tail_val) = parse_ps_named_param(flags, "-Tail") {
        if let Some(n) = parse_usize(tail_val.as_str()) {
            let rest = keep_without_prefix(args, "-");
            let mut r = owned("tail -n ");
            push_decimal(&mut r, n);
            r.append(" ");
            r.append(join(rest.as_slice(), " ").as_str());
            return Some(r);
        }
    }
    if any_is(flags, "-Wait") {
        return Some(cat2("tail -f ", join(args, " ").as_str()));
    }
    None
}

/// `ForEach-Object { $_.Split('d')[N] } f` → `cut -d'd' -f(N+1) f`; `s`
/// is the script with its braces and surrounding white space removed.
pub open spec fn split_to_cut(s: Seq<char>, a: Seq<Seq<char>>) -> Option<Seq<char>> {
    let rest = s.skip("$_.Split("@.len() as int);
    let de = find_char_from(rest, ')', 0);
    if de < rest.len() {
        let delim = trimmed_of(rest.take(de), "'\"("@);
        let after = rest.skip(de + 1);
        let is = find_char_from(after, '[', 0);
        let ie = find_char_from(after, ']', is);
        if is < after.len() && ie < after.len() {
            match parsed_usize(after.subrange(is + 1, ie)) {
                Some(idx) => Some(
                    "cut -d'"@ + delim + "' -f"@ + decimal(idx + 1) + sp() + joined(
                        a.skip(1),
                        sp(),
                    ),
                ),
                None => None,
            }
        } else {
            None
        }
    } else {
        None
    }
}

/// `ForEach-Object { $_.Replace('a','b') } f` → `tr 'a' 'b' f`.
pub open spec fn replace_to_tr(s: Seq<char>, a: Seq<Seq<char>>) -> Option<Seq<char>> {
    let rest = s.skip("$_.Replace("@.len() as int);
    let c1 = find_char_from(rest, ',', 0);
    if c1 < rest.len() {
        let c2 = find_char_from(rest, ',', c1 + 1);
        let from = trimmed_of(rest.take(c1), "'\"("@);
        let to = trimmed_of(rest.subrange(c1 + 1, c2), "'\")"@);
        Some("tr '"@ + from + "' '"@ + to + "' "@ + joined(a.skip(1), sp()))
    } else {
        None
    }
}

/// The script of `ForEach-Object` without its braces and outer white space.
pub open spec fn foreach_script(x: Seq<char>) -> Seq<char> {
    trimmed(trimmed_of(x, "{}"@))
}

pub open spec fn foreach_to_unix(a: Seq<Seq<char>>) -> Option<Seq<char>> {
    if a.len() == 0 {
        None
    } else {
        let s = foreach_script(a[0]);
        if has_prefix(s, "$_.Split("@) {
            split_to_cut(s, a)
        } else if has_prefix(s, "$_.Replace("@) {
            replace_to_tr(s, a)
        } else {
            None
        }
    }
}

fn split_to_cut_exec(s: &Vec<char>, args: &[String]) -> (r: Option<String>)
    requires
        has_prefix(s@, "$_.Split("@),
        args@.len() > 0,
    ensures
        opt_view(r) == split_to_cut(s@, views(args@)),
{
    let p = chars_of("$_.Split(");
    let rest = string_of(s, p.len(), s.len());
    let rs = chars_of(rest.as_str());
    assert(rs@ =~= s@.skip("$_.Split("@.len() as int));
    proof {
        lemma_find_char_from(rs@, ')', 0);
    }
    let de = find_char(&rs, ')', 0);
    if de < rs.len() {
        let d0 = string_of(&rs, 0, de);
        assert(d0@ =~= rs@.take(de as int));
        let delim = trim_of(d0.as_str(), "'\"(");
        let after = string_of(&rs, de + 1, rs.len());
        let afs = chars_of(after.as_str());
        assert(afs@ =~= rs@.skip(de + 1));
        proof {
            lemma_find_char_from(afs@, '[', 0);
        }
        let is = find_char(&afs, '[', 0);
        if is < afs.len() {
            proof {
                lemma_find_char_from(afs@, ']', is as int);
            }
            let ie = find_char(&afs, ']', is);
            if ie < afs.len() {
                let idx_str = string_of(&afs, is + 1, ie);
                if let Some(idx) = parse_usize(idx_str.as_str()) {
                    let mut r = cat3("cut -d'", delim.as_str(), "' -f");
                    push_decimal_wide(&mut r, idx as u128 + 1);
                    r.append(" ");
                    r.append(join_from(args, 1, " ").as_str());
                    return Some(r);
                }
            }
        }
    }
    None
}

fn replace_to_tr_exec(s: &Vec<char>, args: &[String]) -> (r: Option<String>)
    requires
        has_prefix(s@, "$_.Replace("@),
        args@.len() > 0,
    ensures
        opt_view(r) == replace_to_tr(s@, views(args@)),
{
    let p = chars_of("$_.Replace(");
    let rest = string_of(s, p.len(), s.len());
    let rs = chars_of(rest.as_str());
    assert(rs@ =~= s@.skip("$_.Replace("@.len() as int));
    proof {
        lemma_find_char_from(rs@, ',', 0);
    }
    let c1 = find_char(&rs, ',', 0);
    if c1 < rs.len() {
        proof {
            lemma_find_char_from(rs@, ',', c1 + 1);
        }
        let c2 = find_char(&rs, ',', c1 + 1);
        let f0 = string_of(&rs, 0, c1);
        let t0 = string_of(&rs, c1 + 1, c2);
        assert(f0@ =~= rs@.take(c1 as int));
        let from = trim_of(f0.as_str(), "'\"(");
        let to = trim_of(t0.as_str(), "'\")");
        let mut r = cat5("tr '", from.as_str(), "' '", to.as_str(), "' ");
        r.append(join_from(args, 1, " ").as_str());
        return Some(r);
    }
    None
}

fn foreach_ps_to_unix(args: &[String]) -> (r: Option<String>)
    ensures
        opt_view(r) == foreach_to_unix(views(args@)),
{
    if args.len() == 0 {
        return None;
    }
    assert(views(args@)[0] == args@[0]@);
    let inner = trim_of(args[0].as_str(), "{}");
    let script = trim(inner.as_str());
    let s = chars_of(script.as_str());
    if starts_with(script.as_str(), "$_.Split(") {
        split_to_cut_exec(&s, args)
    } else if starts_with(script.as_str(), "$_.Replace(") {
        replace_to_tr_exec(&s, args)
    } else {
        None
    }
}

/// Neither a CMD switch (`/x`) nor a Unix/PowerShell flag (`-x`).
pub open spec fn is_plain(s: Seq<char>) -> bool {
    !(s.len() > 0 && (s[0] == '/' || s[0] == '-'))
}

/// The first argument from `i` on that is plain, or empty.
pub open spec fn first_plain(a: Seq<Seq<char>>, i: int) -> Seq<char>
    decreases a.len() - i,
{
    if 0 <= i < a.len() {
        if is_plain(a[i]) {
            a[i]
        } else {
            first_plain(a, i + 1)
        }
    } else {
        Seq::empty()
    }
}

/// The first argument from `i` on that does not start with `/` and is not
/// `x`, or empty.
pub open spec fn first_unslashed_other(a: Seq<Seq<char>>, x: Seq<char>, i: int) -> Seq<char>
    decreases a.len() - i,
{
    if 0 <= i < a.len() {
        if !(a[i].len() > 0 && a[i][0] == '/') && a[i] != x {
            a[i]
        } else {
            first_unslashed_other(a, x, i + 1)
        }
    } else {
        Seq::empty()
    }
}

/// The first argument from `i` on that does not start with `/`, or empty.
pub open spec fn first_unslashed(a: Seq<Seq<char>>, i: int) -> Seq<char>
    decreases a.len() - i,
{
    if 0 <= i < a.len() {
        if !(a[i].len() > 0 && a[i][0] == '/') {
            a[i]
        } else {
            first_unslashed(a, i + 1)
        }
    } else {
        Seq::empty()
    }
}

/// The first argument from `i` on that holds a `:`.
pub open spec fn first_with_colon(a: Seq<Seq<char>>, i: int) -> Option<Seq<char>>
    decreases a.len() - i,
{
    if 0 <= i < a.len() {
        if a[i].contains(':') {
            Some(a[i])
        } else {
            first_with_colon(a, i + 1)
        }
    } else {
        None
    }
}

/// The position of the last `:` before `k`, or -1.
pub open spec fn last_colon(s: Seq<char>, k: int) -> int
    decreases k,
{
    if 0 < k <= s.len() {
        if s[k - 1] == ':' {
            k - 1
        } else {
            last_colon(s, k - 1)
        }
    } else {
        -1
    }
}

/// The permission granted by `/grant who:perm`: what follows the last `:` of
/// the first argument with a `:`, else `F`.
pub open spec fn grant_perm(a: Seq<Seq<char>>) -> Seq<char> {
    match first_with_colon(a, 0) {
        Some(x) => x.skip(last_colon(x, x.len() as int) + 1),
        None => "F"@,
    }
}

/// `icacls file /grant who:perm` → `chmod` with the octal digit of the
/// permission for owner, group and others (`F` → `777`);
/// `icacls file /setowner who` → `chown who file`. The switches may stand
/// among the flags or the arguments.
pub open spec fn icacls_to_unix(f: Seq<Seq<char>>, a: Seq<Seq<char>>) -> Option<Seq<char>> {
    if f.contains("/grant"@) || a.contains("/grant"@) {
        let p = grant_perm(a);
        Some("chmod "@ + icacls_octal(p) + sp() + first_plain(a, 0))
    } else if f.contains("/setowner"@) || a.contains("/setowner"@) {
        let file = first_plain(a, 0);
        Some("chown "@ + first_unslashed_other(a, file, 0) + sp() + file)
    } else {
        None
    }
}

/// `icacls file /grant who:perm` in CMD → the same grant to `Everyone` in
/// PowerShell.
pub open spec fn icacls_to_ps(f: Seq<Seq<char>>, a: Seq<Seq<char>>) -> Option<Seq<char>> {
    if f.contains("/grant"@) || a.contains("/grant"@) {
        Some("icacls "@ + first_unslashed(a, 0) + " /grant Everyone:"@ + grant_perm(a))
    } else {
        None
    }
}

fn first_plain_exec(args: &[String]) -> (r: String)
    ensures
        r@ == first_plain(views(args@), 0),
{
    let ghost a = views(args@);
    let mut i: usize = 0;
    while i < args.len()
        invariant
            i <= args.len(),
            a == views(args@),
            first_plain(a, 0) == first_plain(a, i as int),
        decreases args.len() - i,
    {
        assert(a[i as int] == args@[i as int]@);
        if !starts_with_char(args[i].as_str(), '/') && !starts_with_char(args[i].as_str(), '-') {
            return args[i].clone();
        }
        i += 1;
    }
    String::new()
}

fn first_unslashed_other_exec(args: &[String], x: &str) -> (r: String)
    ensures
        r@ == first_unslashed_other(views(args@), x@, 0),
{
    let ghost a = views(args@);
    let mut i: usize = 0;
    while i < args.len()
        invariant
            i <= args.len(),
            a == views(args@),
            first_unslashed_other(a, x@, 0) == first_unslashed_other(a, x@, i as int),
        decreases args.len() - i,
    {
        assert(a[i as int] == args@[i as int]@);
        if !starts_with_char(args[i].as_str(), '/') && !same(args[i].as_str(), x) {
            return args[i].clone();
        }
        i += 1;
    }
    String::new()
}

fn first_unslashed_exec(args: &[String]) -> (r: String)
    ensures
        r@ == first_unslashed(views(args@), 0),
{
    let ghost a = views(args@);
    let mut i: usize = 0;
    while i < args.len()
        invariant
            i <= args.len(),
            a == views(args@),
            first_unslashed(a, 0) == first_unslashed(a, i as int),
        decreases args.len() - i,
    {
        assert(a[i as int] == args@[i as int]@);
        if !starts_with_char(args[i].as_str(), '/') {
            return args[i].clone();
        }
        i += 1;
    }
    String::new()
}

fn grant_perm_exec(args: &[String]) -> (r: String)
    ensures
        r@ == grant_perm(views(args@)),
{
    let ghost a = views(args@);
    let mut i: usize = 0;
    while i < args.len()
        invariant
            i <= args.len(),
            a == views(args@),
            first_with_colon(a, 0) == first_with_colon(a, i as int),
        decreases args.len() - i,
    {
        assert(a[i as int] == args@[i as int]@);
        if contains_char(args[i].as_str(), ':') {
            let cs = chars_of(args[i].as_str());
            let mut k: usize = cs.len();
            while k > 0 && cs[k - 1] != ':'
                invariant
                    k <= cs.len(),
                    last_colon(cs@, cs@.len() as int) == last_colon(cs@, k as int),
                decreases k,
            {
                k -= 1;
            }
            return string_of(&cs, k, cs.len());
        }
        i += 1;
    }
    owned("F")
}

pub(crate) fn icacls_to_unix_exec(flags: &[String], args: &[String]) -> (r: Option<String>)
    ensures
        opt_view(r) == icacls_to_unix(views(flags@), views(args@)),
{
    if any_is(flags, "/grant") || any_is(args, "/grant") {
        let p = grant_perm_exec(args);
        let octal = icacls_perm_to_octal(p.as_str());
        let file = first_plain_exec(args);
        Some(cat4("chmod ", octal.as_str(), " ", file.as_str()))
    } else if any_is(flags, "/setowner") || any_is(args, "/setowner") {
        let file = first_plain_exec(args);
        let owner = first_unslashed_other_exec(args, file.as_str());
        Some(cat4("chown ", owner.as_str(), " ", file.as_str()))
    } else {
        None
    }
}

pub(crate) fn icacls_to_ps_exec(flags: &[String], args: &[String]) -> (r: Option<String>)
    ensures
        opt_view(r) == icacls_to_ps(views(flags@), views(args@)),
{
    if any_is(flags, "/grant") || any_is(args, "/grant") {
        let file = first_unslashed_exec(args);
        let p = grant_perm_exec(args);
        Some(cat4("icacls ", file.as_str(), " /grant Everyone:", p.as_str()))
    } else {
        None
    }
}

/// `Get-ChildItem -Recurse [path ...] [-Filter pattern]` → `find path
/// [-name pattern]` (`-Recurse` may stand among the flags or the
/// arguments): with `-Filter`, the last argument is its pattern; the other
/// arguments (those not starting with `-`) are the paths, `.` when there are
/// none.
pub open spec fn recursive_listing_to_find(f: Seq<Seq<char>>, a: Seq<Seq<char>>) -> Seq<char> {
    let plain = without_prefix(a, "-"@);
    let filtered = f.contains("-Filter"@) && plain.len() > 0;
    let paths = if filtered {
        plain.drop_last()
    } else {
        plain
    };
    let place = if paths.len() == 0 {
        "."@
    } else {
        joined(paths, sp())
    };
    if filtered {
        "find "@ + place + " -name "@ + plain.last()
    } else {
        "find "@ + place
    }
}

fn recursive_listing_exec(flags: &[String], args: &[String]) -> (r: String)
    ensures
        r@ == recursive_listing_to_find(views(flags@), views(args@)),
{
    let plain = keep_without_prefix(args, "-");
    let ghost pv = views(plain@);
    let filtered = any_is(flags, "-Filter") && plain.len() > 0;
    let n = if filtered {
        plain.len() - 1
    } else {
        plain.len()
    };
    let mut paths: Vec<String> = Vec::new();
    let mut i: usize = 0;
    while i < n
        invariant
            i <= n <= plain.len(),
            pv == views(plain@),
            views(paths@) == pv.take(i as int),
        decreases n - i,
    {
        let ghost before = paths@;
        paths.push(plain[i].clone());
        assert(views(paths@) =~= pv.take(i + 1)) by {
            assert(views(paths@) =~= views(before).push(plain@[i as int]@));
        }
        i += 1;
    }
    proof {
        if filtered {
            assert(pv.take(n as int) =~= pv.drop_last());
        } else {
            assert(pv.take(n as int) =~= pv);
        }
    }
    let mut r = owned("find ");
    if n == 0 {
        r.append(".");
    } else {
        r.append(join(paths.as_slice(), " ").as_str());
    }
    if filtered {
        assert(pv.last() == plain@[n as int]@);
        r.append(" -name ");
        r.append(plain[n].as_str());
    }
    r
}

/// PowerShell → Unix: the commands with a dynamic translation.
pub open spec fn ps_to_unix(cmd: Seq<char>, f: Seq<Seq<char>>, a: Seq<Seq<char>>) -> Option<
    Seq<char>,
> {
    if cmd == "Start-Service"@ {
        Some("systemctl start "@ + joined(a, sp()))
    } else if cmd == "Stop-Service"@ {
        Some("systemctl stop "@ + joined(a, sp()))
    } else if cmd == "Restart-Service"@ {
        Some("systemctl restart "@ + joined(a, sp()))
    } else if cmd == "Get-Service"@ {
        if a.len() == 0 {
            Some("systemctl list-units --type=service"@)
        } else {
            Some("systemctl status "@ + joined(a, sp()))
        }
    } else if cmd == "Set-Service"@ {
        set_service_to_unix(f, a)
    } else if cmd == "New-Item"@ {
        new_item_to_unix(f, a)
    } else if cmd == "Set-Location"@ {
        if a.len() == 0 {
            Some("cd"@)
        } else {
            Some("cd "@ + joined(a, sp()))
        }
    } else if cmd == "Get-Item"@ {
        if a.len() == 0 {
            None
        } else {
            Some("stat "@ + joined(a, sp()))
        }
    } else if cmd == "Get-ChildItem"@ {
        if f.contains("-Recurse"@) || a.contains("-Recurse"@) {
            Some(recursive_listing_to_find(f, a))
        } else {
            None
        }
    } else if cmd == "Get-Content"@ {
        get_content_to_unix(f, a)
    } else if cmd == "Out-Host"@ {
        if f.contains("-Paging"@) {
            Some("less "@ + joined(a, sp()))
        } else {
            None
        }
    } else if cmd == "Stop-Process"@ {
        match ps_param(f, "-Name"@) {
            Some(name) => if f.contains("-Force"@) {
                Some("pkill -9 "@ + name)
            } else {
                Some("killall "@ + name)
            },
            None => None,
        }
    } else if cmd == "ForEach-Object"@ {
        foreach_to_unix(a)
    } else if cmd == "Select-String"@ {
        Some("grep "@ + joined(a, sp()))
    } else if cmd == "Select-Object"@ {
        if f.contains("-Unique"@) {
            Some("uniq "@ + joined(a, sp()))
        } else {
            Some("head "@ + joined(a, sp()))
        }
    } else if cmd == "Measure-Object"@ {
        if f.contains("-Line"@) {
            Some("wc -l "@ + joined(a, sp()))
        } else if f.contains("-Word"@) {
            Some("wc -w "@ + joined(a, sp()))
        } else {
            Some("wc "@ + joined(a, sp()))
        }
    } else if cmd == "icacls"@ {
        icacls_to_unix(f, a)
    } else {
        None
    }
}

pub(crate) fn translate_ps_to_unix(cmd: &str, flags: &[String], args: &[String]) -> (r: Option<
    String,
>)
    ensures
        opt_view(r) == ps_to_unix(cmd@, views(flags@), views(args@)),
{
    if same(cmd, "Start-Service") {
        Some(cat2("systemctl start ", join(args, " ").as_str()))
    } else if same(cmd, "Stop-Service") {
        Some(cat2("systemctl stop ", join(args, " ").as_str()))
    } else if same(cmd, "Restart-Service") {
        Some(cat2("systemctl restart ", join(args, " ").as_str()))
    } else if same(cmd, "Get-Service") {
        if args.len() == 0 {
            Some(owned("systemctl list-units --type=service"))
        } else {
            Some(cat2("systemctl status ", join(args, " ").as_str()))
        }
    } else if same(cmd, "Set-Service") {
        set_service_ps_to_unix(flags, args)
    } else if same(cmd, "New-Item") {
        new_item_ps_to_unix(flags, args)
    } else if same(cmd, "Set-Location") {
        if args.len() == 0 {
            Some(owned("cd"))
        } else {
            Some(cat2("cd ", join(args, " ").as_str()))
        }
    } else if same(cmd, "Get-Item") {
        if args.len() == 0 {
            None
        } else {
            Some(cat2("stat ", join(args, " ").as_str()))
        }
    } else if same(cmd, "Get-ChildItem") {
        if any_is(flags, "-Recurse") || any_is(args, "-Recurse") {
            Some(recursive_listing_exec(flags, args))
        } else {
            None
        }
    } else if same(cmd, "Get-Content") {
        get_content_ps_to_unix(flags, args)
    } else if same(cmd, "Out-Host") {
        if any_is(flags, "-Paging") {
            Some(cat2("less ", join(args, " ").as_str()))
        } else {
            None
        }
    } else if same(cmd, "Stop-Process") {
        match parse_ps_named_param(flags, "-Name") {
            Some(name) => if any_is(flags, "-Force") {
                Some(cat2("pkill -9 ", name.as_str()))
            } else {
                Some(cat2("killall ", name.as_str()))
            },
            None => None,
        }
    } else if same(cmd, "ForEach-Object") {
        foreach_ps_to_unix(args)
    } else if same(cmd, "Select-String") {
        Some(cat2("grep ", join(args, " ").as_str()))
    } else if same(cmd, "Select-Object") {
        if any_is(flags, "-Unique") {
            Some(cat2("uniq ", join(args, " ").as_str()))
        } else {
            Some(cat2("head ", join(args, " ").as_str()))
        }
    } else if same(cmd, "Measure-Object") {
        if any_is(flags, "-Line") {
            Some(cat2("wc -l ", join(args, " ").as_str()))
        } else if any_is(flags, "-Word") {
            Some(cat2("wc -w ", join(args, " ").as_str()))
        } else {
            Some(cat2("wc ", join(args, " ").as_str()))
        }
    } else if same(cmd, "icacls") {
        icacls_to_unix_exec(flags, args)
    } else {
        None
    }
}

// ---------------------------------------------------------------------------
// CMD -> Unix
// ---------------------------------------------------------------------------

/// `sc start|stop|query svc` → `systemctl start|stop|status svc`.
pub open spec fn sc_to_unix(a: Seq<Seq<char>>) -> Option<Seq<char>> {
    if a.len() == 0 {
        None
    } else if a[0] == "start"@ {
        Some("systemctl start "@ + arg_or_empty(a, 1))
    } else if a[0] == "stop"@ {
        Some("systemctl stop "@ + arg_or_empty(a, 1))
    } else if a[0] == "query"@ {
        Some("systemctl status "@ + arg_or_empty(a, 1))
    } else {
        None
    }
}

fn sc_cmd_to_unix(args: &[String]) -> (r: Option<String>)
    ensures
        opt_view(r) == sc_to_unix(views(args@)),
{
    if args.len() == 0 {
        return None;
    }
    assert(views(args@)[0] == args@[0]@);
    let action = args[0].as_str();
    let service = arg_or_empty_exec(args, 1);
    if same(action, "start") {
        Some(cat2("systemctl start ", service.as_str()))
    } else if same(action, "stop") {
        Some(cat2("systemctl stop ", service.as_str()))
    } else if same(action, "query") {
        Some(cat2("systemctl status ", service.as_str()))
    } else {
        None
    }
}

/// The link name and target of `mklink [/D] link target`: the first two
/// arguments that are not switches.
pub open spec fn mklink_parts(a: Seq<Seq<char>>) -> Option<(Seq<char>, Seq<char>)> {
    let nf = without_prefix(a, "/"@);
    if nf.len() < 2 {
        None
    } else {
        Some((nf[0], nf[1]))
    }
}

pub open spec fn mklink_dir(f: Seq<Seq<char>>) -> bool {
    f.contains("/D"@) || f.contains("/d"@)
}

/// `mklink /D link target` → `ln -s target link`; without `/D`, a hard link.
pub open spec fn mklink_to_unix(f: Seq<Seq<char>>, a: Seq<Seq<char>>) -> Option<Seq<char>> {
    match mklink_parts(a) {
        Some((link, target)) => if mklink_dir(f) {
            Some("ln -s "@ + target + sp() + link)
        } else {
            Some("ln "@ + target + sp() + link)
        },
        None => None,
    }
}

/// `mklink /D link target` → `New-Item -ItemType SymbolicLink`; without
/// `/D`, a hard link.
pub open spec fn mklink_to_ps(f: Seq<Seq<char>>, a: Seq<Seq<char>>) -> Option<Seq<char>> {
    match mklink_parts(a) {
        Some((link, target)) => if mklink_dir(f) {
            Some("New-Item -ItemType SymbolicLink -Target "@ + target + " -Name "@ + link)
        } else {
            Some("New-Item -ItemType HardLink -Target "@ + target + " -Name "@ + link)
        },
        None => None,
    }
}

fn mklink_parts_exec(args: &[String]) -> (r: Option<(String, String)>)
    ensures
        match r {
            Some((l, t)) => mklink_parts(views(args@)) == Some((l@, t@)),
            None => mklink_parts(views(args@)) is None,
        },
{
    let nf = keep_without_prefix(args, "/");
    if nf.len() < 2 {
        return None;
    }
    assert(views(nf@)[0] == nf@[0]@);
    assert(views(nf@)[1] == nf@[1]@);
    Some((nf[0].clone(), nf[1].clone()))
}

fn mklink_cmd_to_unix(flags: &[String], args: &[String]) -> (r: Option<String>)
    ensures
        opt_view(r) == mklink_to_unix(views(flags@), views(args@)),
{
    let is_dir = any_is(flags, "/D") || any_is(flags, "/d");
    match mklink_parts_exec(args) {
        Some((link, target)) => if is_dir {
            Some(cat4("ln -s ", target.as_str(), " ", link.as_str()))
        } else {
            Some(cat4("ln ", target.as_str(), " ", link.as_str()))
        },
        None => None,
    }
}

fn mklink_cmd_to_ps(flags: &[String], args: &[String]) -> (r: Option<String>)
    ensures
        opt_view(r) == mklink_to_ps(views(flags@), views(args@)),
{
    let is_dir = any_is(flags, "/D") || any_is(flags, "/d");
    match mklink_parts_exec(args) {
        Some((link, target)) => if is_dir {
            Some(
                cat4(
                    "New-Item -ItemType SymbolicLink -Target ",
                    target.as_str(),
                    " -Name ",
                    link.as_str(),
                ),
            )
        } else {
            Some(
                cat4(
                    "New-Item -ItemType HardLink -Target ",
                    target.as_str(),
                    " -Name ",
                    link.as_str(),
                ),
            )
        },
        None => None,
    }
}

/// The command that `runas` runs: its arguments without the `/user:...`
/// switch (an argument that starts with `/user` starts with `/u` as well).
pub open spec fn runas_command(a: Seq<Seq<char>>) -> Seq<char> {
    joined(without_prefix(a, "/u"@), sp())
}

fn runas_command_exec(args: &[String]) -> (r: String)
    ensures
        r@ == runas_command(views(args@)),
{
    let sub = keep_without_prefix(args, "/u");
    join(sub.as_slice(), " ")
}

/// `taskkill [/f] /pid N` → `kill [-9] N`; `taskkill [/f] /im name` →
/// `pkill -9 name` or `killall name`.
pub open spec fn taskkill_to_unix(f: Seq<Seq<char>>, a: Seq<Seq<char>>) -> Option<Seq<char>> {
    let force = f.contains("/f"@) || f.contains("/F"@);
    match cmd_param(f, a, "/pid"@) {
        Some(pid) => if force {
            Some("kill -9 "@ + pid)
        } else {
            Some("kill "@ + pid)
        },
        None => match cmd_param(f, a, "/im"@) {
            Some(im) => if force {
                Some("pkill -9 "@ + im)
            } else {
                Some("killall "@ + im)
            },
            None => None,
        },
    }
}

fn taskkill_cmd_to_unix(flags: &[String], args: &[String]) -> (r: Option<String>)
    ensures
        opt_view(r) == taskkill_to_unix(views(flags@), views(args@)),
{
    let force = any_is(flags, "/f") || any_is(flags, "/F");
    if let Some(pid) = parse_cmd_named_param(flags, args, "/pid") {
        if force {
            return Some(cat2("kill -9 ", pid.as_str()));
        } else {
            return Some(cat2("kill ", pid.as_str()));
        }
    }
    if let Some(im) = parse_cmd_named_param(flags, args, "/im") {
        if force {
            return Some(cat2("pkill -9 ", im.as_str()));
        } else {
            return Some(cat2("killall ", im.as_str()));
        }
    }
    None
}

/// CMD → Unix: the commands with a dynamic translation.
pub open spec fn cmd_to_unix(cmd: Seq<char>, f: Seq<Seq<char>>, a: Seq<Seq<char>>) -> Option<
    Seq<char>,
> {
    if cmd == "sc"@ {
        sc_to_unix(a)
    } else if cmd == "icacls"@ {
        icacls_to_unix(f, a)
    } else if cmd == "mklink"@ {
        mklink_to_unix(f, a)
    } else if cmd == "runas"@ {
        Some("sudo "@ + runas_command(a))
    } else if cmd == "tasklist"@ {
        Some("ps aux"@)
    } else if cmd == "taskkill"@ {
        taskkill_to_unix(f, a)
    } else if cmd == "schtasks"@ && f.contains("/query"@) {
        Some("crontab -l"@)
    } else {
        None
    }
}

pub(crate) fn translate_cmd_to_unix(cmd: &str, flags: &[String], args: &[String]) -> (r: Option<
    String,
>)
    ensures
        opt_view(r) == cmd_to_unix(cmd@, views(flags@), views(args@)),
{
    if same(cmd, "sc") {
        sc_cmd_to_unix(args)
    } else if same(cmd, "icacls") {
        icacls_to_unix_exec(flags, args)
    } else if same(cmd, "mklink") {
        mklink_cmd_to_unix(flags, args)
    } else if same(cmd, "runas") {
        Some(cat2("sudo ", runas_command_exec(args).as_str()))
    } else if same(cmd, "tasklist") {
        Some(owned("ps aux"))
    } else if same(cmd, "taskkill") {
        taskkill_cmd_to_unix(flags, args)
    } else if same(cmd, "schtasks") && any_is(flags, "/query") {
        Some(owned("crontab -l"))
    } else {
        None
    }
}

// ---------------------------------------------------------------------------
// Unix -> CMD
// ---------------------------------------------------------------------------

/// `systemctl <action> svc` → `sc`.
pub open spec fn systemctl_to_cmd(a: Seq<Seq<char>>) -> Option<Seq<char>> {
    if a.len() == 0 {
        None
    } else {
        let service = arg_or_empty(a, 1);
        if a[0] == "start"@ {
            Some("sc start "@ + service)
        } else if a[0] == "stop"@ {
            Some("sc stop "@ + service)
        } else if a[0] == "status"@ {
            Some("sc query "@ + service)
        } else if a[0] == "enable"@ {
            Some("sc config "@ + service + " start=auto"@)
        } else if a[0] == "disable"@ {
            Some("sc config "@ + service + " start=disabled"@)
        } else {
            None
        }
    }
}

fn systemctl_unix_to_cmd(args: &[String]) -> (r: Option<String>)
    ensures
        opt_view(r) == systemctl_to_cmd(views(args@)),
{
    if args.len() == 0 {
        return None;
    }
    assert(views(args@)[0] == args@[0]@);
    let action = args[0].as_str();
    let service = arg_or_empty_exec(args, 1);
    let service = service.as_str();
    if same(action, "start") {
        Some(cat2("sc start ", service))
    } else if same(action, "stop") {
        Some(cat2("sc stop ", service))
    } else if same(action, "status") {
        Some(cat2("sc query ", service))
    } else if same(action, "enable") {
        Some(cat3("sc config ", service, " start=auto"))
    } else if same(action, "disable") {
        Some(cat3("sc config ", service, " start=disabled"))
    } else {
        None
    }
}

/// `ln [-s] target link` → `mklink [/D] link target`.
pub open spec fn ln_to_cmd(f: Seq<Seq<char>>, a: Seq<Seq<char>>) -> Option<Seq<char>> {
    if a.len() < 2 {
        None
    } else if f.contains("-s"@) {
        Some("mklink /D "@ + a[1] + sp() + a[0])
    } else {
        Some("mklink "@ + a[1] + sp() + a[0])
    }
}

fn ln_unix_to_cmd(flags: &[String], args: &[String]) -> (r: Option<String>)
    ensures
        opt_view(r) == ln_to_cmd(views(flags@), views(args@)),
{
    if args.len() < 2 {
        return None;
    }
    assert(views(args@)[0] == args@[0]@);
    assert(views(args@)[1] == args@[1]@);
    if any_is(flags, "-s") {
        Some(cat4("mklink /D ", args[1].as_str(), " ", args[0].as_str()))
    } else {
        Some(cat4("mklink ", args[1].as_str(), " ", args[0].as_str()))
    }
}

/// Unix → CMD: the commands with a dynamic translation.
pub open spec fn unix_to_cmd(cmd: Seq<char>, f: Seq<Seq<char>>, a: Seq<Seq<char>>) -> Option<
    Seq<char>,
> {
    if cmd == "systemctl"@ {
        systemctl_to_cmd(a)
    } else if cmd == "chmod"@ {
        chmod_to_icacls(a)
    } else if cmd == "chown"@ {
        chown_to_icacls(a)
    } else if cmd == "ln"@ {
        ln_to_cmd(f, a)
    } else if cmd == "sudo"@ {
        if a.len() == 0 {
            None
        } else {
            Some("runas /user:Administrator \""@ + joined(a, sp()) + "\""@)
        }
    } else {
        None
    }
}

pub(crate) fn translate_unix_to_cmd(cmd: &str, flags: &[String], args: &[String]) -> (r: Option<
    String,
>)
    ensures
        opt_view(r) == unix_to_cmd(cmd@, views(flags@), views(args@)),
{
    if same(cmd, "systemctl") {
        systemctl_unix_to_cmd(args)
    } else if same(cmd, "chmod") {
        chmod_icacls_exec(args)
    } else if same(cmd, "chown") {
        chown_icacls_exec(args)
    } else if same(cmd, "ln") {
        ln_unix_to_cmd(flags, args)
    } else if same(cmd, "sudo") {
        if args.len() == 0 {
            None
        } else {
            Some(cat3("runas /user:Administrator \"", join(args, " ").as_str(), "\""))
        }
    } else {
        None
    }
}

// ---------------------------------------------------------------------------
// PowerShell -> CMD
// ---------------------------------------------------------------------------

/// `Set-Service -StartupType Automatic|Disabled` → `sc config svc start=...`.
pub open spec fn set_service_to_cmd(f: Seq<Seq<char>>, a: Seq<Seq<char>>) -> Option<Seq<char>> {
    match ps_param(f, "-StartupType"@) {
        Some(t) => if t == "Automatic"@ {
            Some("sc config "@ + named_or_first(f, a) + " start=auto"@)
        } else if t == "Disabled"@ {
            Some("sc config "@ + named_or_first(f, a) + " start=disabled"@)
        } else {
            None
        },
        None => None,
    }
}

fn set_service_ps_to_cmd(flags: &[String], args: &[String]) -> (r: Option<String>)
    ensures
        opt_view(r) == set_service_to_cmd(views(flags@), views(args@)),
{
    let name = named_or_first_exec(flags, args);
    match parse_ps_named_param(flags, "-StartupType") {
        Some(t) => if same(t.as_str(), "Automatic") {
            Some(cat3("sc config ", name.as_str(), " start=auto"))
        } else if same(t.as_str(), "Disabled") {
            Some(cat3("sc config ", name.as_str(), " start=disabled"))
        } else {
            None
        },
        None => None,
    }
}

/// `New-Item -ItemType ...` → `type nul >`, `md`, `mklink /D`, `mklink`.
pub open spec fn new_item_to_cmd(f: Seq<Seq<char>>, a: Seq<Seq<char>>) -> Option<Seq<char>> {
    match ps_param(f, "-ItemType"@) {
        Some(t) => if t == "File"@ {
            if a.len() == 0 {
                None
            } else {
                Some("type nul > "@ + joined(a, sp()))
            }
        } else if t == "Directory"@ {
            Some("md "@ + joined(a, sp()))
        } else if t == "SymbolicLink"@ {
            match (ps_param(f, "-Target"@), link_name(f, a)) {
                (Some(target), Some(name)) => Some("mklink /D "@ + name + sp() + target),
                _ => None,
            }
        } else if t == "HardLink"@ {
            match (ps_param(f, "-Target"@), link_name(f, a)) {
                (Some(target), Some(name)) => Some("mklink "@ + name + sp() + target),
                _ => None,
            }
        } else {
            None
        },
        None => None,
    }
}

fn new_item_ps_to_cmd(flags: &[String], args: &[String]) -> (r: Option<String>)
    ensures
        opt_view(r) == new_item_to_cmd(views(flags@), views(args@)),
{
    let t = match parse_ps_named_param(flags, "-ItemType") {
        Some(t) => t,
        None => {
            return None;
        },
    };
    let t = t.as_str();
    if same(t, "File") {
        if args.len() == 0 {
            None
        } else {
            Some(cat2("type nul > ", join(args, " ").as_str()))
        }
    } else if same(t, "Directory") {
        Some(cat2("md ", join(args, " ").as_str()))
    } else if same(t, "SymbolicLink") || same(t, "HardLink") {
        let target = match parse_ps_named_param(flags, "-Target") {
            Some(x) => x,
            None => {
                return None;
            },
        };
        let name = match link_name_exec(flags, args) {
            Some(x) => x,
            None => {
                return None;
            },
        };
        if same(t, "SymbolicLink") {
            Some(cat4("mklink /D ", name.as_str(), " ", target.as_str()))
        } else {
            Some(cat4("mklink ", name.as_str(), " ", target.as_str()))
        }
    } else {
        None
    }
}

/// PowerShell → CMD: the commands with a dynamic translation.
pub open spec fn ps_to_cmd(cmd: Seq<char>, f: Seq<Seq<char>>, a: Seq<Seq<char>>) -> Option<
    Seq<char>,
> {
    if cmd == "Start-Service"@ {
        Some("sc start "@ + joined(a, sp()))
    } else if cmd == "Stop-Service"@ {
        Some("sc stop "@ + joined(a, sp()))
    } else if cmd == "Get-Service"@ {
        if a.len() == 0 {
            Some("sc query"@)
        } else {
            Some("sc query "@ + joined(a, sp()))
        }
    } else if cmd == "Set-Service"@ {
        set_service_to_cmd(f, a)
    } else if cmd == "Set-Location"@ {
        if a.len() == 0 {
            Some("cd"@)
        } else {
            Some("cd /d "@ + joined(a, sp()))
        }
    } else if cmd == "New-Item"@ {
        new_item_to_cmd(f, a)
    } else {
        None
    }
}

pub(crate) fn translate_ps_to_cmd(cmd: &str, flags: &[String], args: &[String]) -> (r: Option<
    String,
>)
    ensures
        opt_view(r) == ps_to_cmd(cmd@, views(flags@), views(args@)),
{
    if same(cmd, "Start-Service") {
        Some(cat2("sc start ", join(args, " ").as_str()))
    } else if same(cmd, "Stop-Service") {
        Some(cat2("sc stop ", join(args, " ").as_str()))
    } else if same(cmd, "Get-Service") {
        if args.len() == 0 {
            Some(owned("sc query"))
        } else {
            Some(cat2("sc query ", join(args, " ").as_str()))
        }
    } else if same(cmd, "Set-Service") {
        set_service_ps_to_cmd(flags, args)
    } else if same(cmd, "Set-Location") {
        if args.len() == 0 {
            Some(owned("cd"))
        } else {
            Some(cat2("cd /d ", join(args, " ").as_str()))
        }
    } else if same(cmd, "New-Item") {
        new_item_ps_to_cmd(flags, args)
    } else {
        None
    }
}

// ---------------------------------------------------------------------------
// CMD -> PowerShell
// ---------------------------------------------------------------------------

/// `sc start|stop|query svc` → the PowerShell service cmdlets.
pub open spec fn sc_to_ps(a: Seq<Seq<char>>) -> Option<Seq<char>> {
    if a.len() == 0 {
        None
    } else if a[0] == "start"@ {
        Some("Start-Service "@ + arg_or_empty(a, 1))
    } else if a[0] == "stop"@ {
        Some("Stop-Service "@ + arg_or_empty(a, 1))
    } else if a[0] == "query"@ {
        Some("Get-Service "@ + arg_or_empty(a, 1))
    } else {
        None
    }
}

fn sc_cmd_to_ps(args: &[String]) -> (r: Option<String>)
    ensures
        opt_view(r) == sc_to_ps(views(args@)),
{
    if args.len() == 0 {
        return None;
    }
    assert(views(args@)[0] == args@[0]@);
    let action = args[0].as_str();
    let service = arg_or_empty_exec(args, 1);
    if same(action, "start") {
        Some(cat2("Start-Service ", service.as_str()))
    } else if same(action, "stop") {
        Some(cat2("Stop-Service ", service.as_str()))
    } else if same(action, "query") {
        Some(cat2("Get-Service ", service.as_str()))
    } else {
        None
    }
}

/// `taskkill [/f] /im name` → `Stop-Process -Name name [-Force]`;
/// `taskkill /pid N` → `Stop-Process -Id N`.
pub open spec fn taskkill_to_ps(f: Seq<Seq<char>>, a: Seq<Seq<char>>) -> Option<Seq<char>> {
    match cmd_param(f, a, "/im"@) {
        Some(im) => if f.contains("/f"@) || f.contains("/F"@) {
            Some("Stop-Process -Name "@ + im + " -Force"@)
        } else {
            Some("Stop-Process -Name "@ + im)
        },
        None => match cmd_param(f, a, "/pid"@) {
            Some(pid) => Some("Stop-Process -Id "@ + pid),
            None => None,
        },
    }
}

fn taskkill_cmd_to_ps(flags: &[String], args: &[String]) -> (r: Option<String>)
    ensures
        opt_view(r) == taskkill_to_ps(views(flags@), views(args@)),
{
    let force = any_is(flags, "/f") || any_is(flags, "/F");
    if let Some(im) = parse_cmd_named_param(flags, args, "/im") {
        if force {
            return Some(cat3("Stop-Process -Name ", im.as_str(), " -Force"));
        } else {
            return Some(cat2("Stop-Process -Name ", im.as_str()));
        }
    }
    if let Some(pid) = parse_cmd_named_param(flags, args, "/pid") {
        return Some(cat2("Stop-Process -Id ", pid.as_str()));
    }
    None
}

/// CMD → PowerShell: the commands with a dynamic translation.
pub open spec fn cmd_to_ps(cmd: Seq<char>, f: Seq<Seq<char>>, a: Seq<Seq<char>>) -> Option<
    Seq<char>,
> {
    if cmd == "sc"@ {
        sc_to_ps(a)
    } else if cmd == "icacls"@ {
        icacls_to_ps(f, a)
    } else if cmd == "mklink"@ {
        mklink_to_ps(f, a)
    } else if cmd == "runas"@ {
        Some("Start-Process -Verb RunAs -ArgumentList '"@ + runas_command(a) + "'"@)
    } else if cmd == "tasklist"@ {
        Some("Get-Process"@)
    } else if cmd == "taskkill"@ {
        taskkill_to_ps(f, a)
    } else if cmd == "schtasks"@ && f.contains("/query"@) {
        Some("Get-ScheduledJob"@)
    } else {
        None
    }
}

pub(crate) fn translate_cmd_to_ps(cmd: &str, flags: &[String], args: &[String]) -> (r: Option<
    String,
>)
    ensures
        opt_view(r) == cmd_to_ps(cmd@, views(flags@), views(args@)),
{
    if same(cmd, "sc") {
        sc_cmd_to_ps(args)
    } else if same(cmd, "icacls") {
        icacls_to_ps_exec(flags, args)
    } else if same(cmd, "mklink") {
        mklink_cmd_to_ps(flags, args)
    } else if same(cmd, "runas") {
        Some(
            cat3(
                "Start-Process -Verb RunAs -ArgumentList '",
                runas_command_exec(args).as_str(),
                "'",
            ),
        )
    } else if same(cmd, "tasklist") {
        Some(owned("Get-Process"))
    } else if same(cmd, "taskkill") {
        taskkill_cmd_to_ps(flags, args)
    } else if same(cmd, "schtasks") && any_is(flags, "/query") {
        Some(owned("Get-ScheduledJob"))
    } else {
        None
    }
}

// ---------------------------------------------------------------------------
// Laws
// ---------------------------------------------------------------------------

/// `ln` and `mklink` name the link and its target in opposite orders, and the
/// translation swaps them: `ln -s target link` becomes
/// `mklink /D link target`, and `mklink /D link target` becomes
/// `ln -s target link`; hard links likewise, without `-s` and `/D`. (A name
/// that starts with `/` would read as a CMD switch.)
pub proof fn lemma_link_arguments_swap(target: Seq<char>, link: Seq<char>)
    requires
        !(target.len() > 0 && target[0] == '/'),
        !(link.len() > 0 && link[0] == '/'),
    ensures
        dynamic_translation("ln"@, seq!["-s"@], seq![target, link], Dialect::Unix, Dialect::Cmd)
            == Some("mklink /D "@ + link + " "@ + target),
        dynamic_translation("mklink"@, seq!["/D"@], seq![link, target], Dialect::Cmd, Dialect::Unix)
            == Some("ln -s "@ + target + " "@ + link),
        dynamic_translation("ln"@, Seq::empty(), seq![target, link], Dialect::Unix, Dialect::Cmd)
            == Some("mklink "@ + link + " "@ + target),
        dynamic_translation("mklink"@, Seq::empty(), seq![link, target], Dialect::Cmd, Dialect::Unix)
            == Some("ln "@ + target + " "@ + link),
{
    reveal_strlit("ln");
    reveal_strlit("systemctl");
    reveal_strlit("chmod");
    reveal_strlit("chown");
    reveal_strlit("mklink");
    reveal_strlit("sc");
    reveal_strlit("icacls");
    reveal_strlit("/");
    reveal_strlit("-s");
    reveal_strlit("/D");
    reveal_strlit("/d");
    assert("ln"@.len() == 2 && "systemctl"@.len() == 9 && "chmod"@.len() == 5 && "chown"@.len() == 5);
    assert("mklink"@.len() == 6 && "sc"@.len() == 2 && "icacls"@.len() == 6);
    assert("mklink"@[0] != "icacls"@[0]);
    assert("/"@.len() == 1 && "/"@[0] == '/');
    let a = seq![link, target];
    assert(!has_prefix(link, "/"@)) by {
        if has_prefix(link, "/"@) {
            assert(link.subrange(0, 1)[0] == link[0]);
        }
    }
    assert(!has_prefix(target, "/"@)) by {
        if has_prefix(target, "/"@) {
            assert(target.subrange(0, 1)[0] == target[0]);
        }
    }
    assert(a.drop_last() =~= seq![link]);
    assert(seq![link].drop_last() =~= Seq::<Seq<char>>::empty());
    assert(without_prefix(Seq::<Seq<char>>::empty(), "/"@) =~= Seq::<Seq<char>>::empty());
    assert(without_prefix(seq![link], "/"@) =~= seq![link]);
    assert(without_prefix(a, "/"@) =~= a);
    assert(seq!["-s"@][0] == "-s"@);
    assert(seq!["/D"@][0] == "/D"@);
    assert(!Seq::<Seq<char>>::empty().contains("/D"@));
    assert(!Seq::<Seq<char>>::empty().contains("/d"@));
    assert(!Seq::<Seq<char>>::empty().contains("-s"@));
}

/// Services keep their action and their name from one dialect to another:
/// `systemctl start s` becomes `sc start s` in CMD and `Start-Service s` in
/// PowerShell, and both of those become `systemctl start s` in Unix; `stop`
/// likewise.
pub proof fn lemma_service_actions_kept(s: Seq<char>)
    ensures
        dynamic_translation("systemctl"@, Seq::empty(), seq!["start"@, s], Dialect::Unix, Dialect::Cmd)
            == Some("sc start "@ + s),
        dynamic_translation("sc"@, Seq::empty(), seq!["start"@, s], Dialect::Cmd, Dialect::Unix)
            == Some("systemctl start "@ + s),
        dynamic_translation("systemctl"@, Seq::empty(), seq!["start"@, s], Dialect::Unix, Dialect::PowerShell)
            == Some("Start-Service "@ + s),
        dynamic_translation("Start-Service"@, Seq::empty(), seq![s], Dialect::PowerShell, Dialect::Unix)
            == Some("systemctl start "@ + s),
        dynamic_translation("systemctl"@, Seq::empty(), seq!["stop"@, s], Dialect::Unix, Dialect::Cmd)
            == Some("sc stop "@ + s),
        dynamic_translation("sc"@, Seq::empty(), seq!["stop"@, s], Dialect::Cmd, Dialect::Unix)
            == Some("systemctl stop "@ + s),
        dynamic_translation("systemctl"@, Seq::empty(), seq!["stop"@, s], Dialect::Unix, Dialect::PowerShell)
            == Some("Stop-Service "@ + s),
        dynamic_translation("Stop-Service"@, Seq::empty(), seq![s], Dialect::PowerShell, Dialect::Unix)
            == Some("systemctl stop "@ + s),
{
    reveal_strlit("systemctl");
    reveal_strlit("sc");
    reveal_strlit("start");
    reveal_strlit("stop");
    reveal_strlit("Start-Service");
    reveal_strlit("Stop-Service");
    reveal_strlit("find");
    reveal_strlit("sed");
    reveal_strlit("awk");
    reveal_strlit("cut");
    reveal_strlit("tr");
    reveal_strlit("head");
    reveal_strlit("tail");
    reveal_strlit("wc");
    assert("systemctl"@.len() == 9 && "sc"@.len() == 2 && "start"@.len() == 5 && "stop"@.len() == 4);
    assert("Start-Service"@.len() == 13 && "Stop-Service"@.len() == 12);
    assert("find"@.len() == 4 && "sed"@.len() == 3 && "awk"@.len() == 3 && "cut"@.len() == 3);
    assert("tr"@.len() == 2 && "head"@.len() == 4 && "tail"@.len() == 4 && "wc"@.len() == 2);
    assert(seq!["start"@, s][1] == s);
    assert(seq!["stop"@, s][1] == s);
    assert(seq![s].len() == 1);
}

/// `ln -s T L` in PowerShell names the target `T` after `-Target` and the
/// link `L` after `-Name` (the order of `ln`'s own arguments); without `-s`
/// the link is a hard link.
pub proof fn lemma_ln_to_powershell_names(target: Seq<char>, link: Seq<char>)
    ensures
        dynamic_translation("ln"@, seq!["-s"@], seq![target, link], Dialect::Unix, Dialect::PowerShell)
            == Some("New-Item -ItemType SymbolicLink -Target "@ + target + " -Name "@ + link),
        dynamic_translation("ln"@, Seq::empty(), seq![target, link], Dialect::Unix, Dialect::PowerShell)
            == Some("New-Item -ItemType HardLink -Target "@ + target + " -Name "@ + link),
{
    reveal_strlit("ln");
    reveal_strlit("find");
    reveal_strlit("sed");
    reveal_strlit("awk");
    reveal_strlit("cut");
    reveal_strlit("tr");
    reveal_strlit("head");
    reveal_strlit("tail");
    reveal_strlit("wc");
    reveal_strlit("systemctl");
    reveal_strlit("chmod");
    reveal_strlit("chown");
    reveal_strlit("-s");
    assert("ln"@.len() == 2 && "find"@.len() == 4 && "sed"@.len() == 3 && "awk"@.len() == 3);
    assert("cut"@.len() == 3 && "tr"@.len() == 2 && "head"@.len() == 4 && "tail"@.len() == 4);
    assert("wc"@.len() == 2 && "systemctl"@.len() == 9 && "chmod"@.len() == 5 && "chown"@.len() == 5);
    assert("ln"@[0] != "tr"@[0] && "ln"@[0] != "wc"@[0]);
    assert(seq!["-s"@][0] == "-s"@);
    assert(!Seq::<Seq<char>>::empty().contains("-s"@));
}

proof fn lemma_without_dash_keeps(a: Seq<Seq<char>>)
    requires
        forall|k: int| 0 <= k < a.len() ==> !((#[trigger] a[k]).len() > 0 && a[k][0] == '-'),
    ensures
        without_prefix(a, "-"@) == a,
    decreases a.len(),
{
    reveal_strlit("-");
    if a.len() > 0 {
        lemma_without_dash_keeps(a.drop_last());
        let x = a.last();
        assert(a[a.len() - 1] == x);
        assert(!has_prefix(x, "-"@)) by {
            if has_prefix(x, "-"@) {
                assert(x.subrange(0, 1)[0] == x[0]);
            }
        }
        assert(a.drop_last().push(x) =~= a);
    } else {
        assert(a =~= Seq::<Seq<char>>::empty());
    }
}

/// `Get-Content -Tail N files` keeps its files: it becomes `tail -n N`
/// followed by every file, in order; `Get-Content -Wait files` becomes
/// `tail -f` followed by the files.
pub proof fn lemma_get_content_keeps_files(v: Seq<char>, n: nat, files: Seq<Seq<char>>)
    requires
        parsed_usize(v) == Some(n),
        forall|k: int| 0 <= k < files.len() ==> !((#[trigger] files[k]).len() > 0 && files[k][0] == '-'),
    ensures
        dynamic_translation("Get-Content"@, seq!["-Tail"@, v], files, Dialect::PowerShell, Dialect::Unix)
            == Some("tail -n "@ + decimal(n) + " "@ + joined(files, " "@)),
        dynamic_translation("Get-Content"@, seq!["-Wait"@], files, Dialect::PowerShell, Dialect::Unix)
            == Some("tail -f "@ + joined(files, " "@)),
{
    reveal_strlit("Get-Content");
    reveal_strlit("Start-Service");
    reveal_strlit("Stop-Service");
    reveal_strlit("Restart-Service");
    reveal_strlit("Get-Service");
    reveal_strlit("Set-Service");
    reveal_strlit("New-Item");
    reveal_strlit("Set-Location");
    reveal_strlit("Get-Item");
    reveal_strlit("Get-ChildItem");
    reveal_strlit("-Tail");
    reveal_strlit("-Wait");
    assert("Get-Content"@.len() == 11 && "Start-Service"@.len() == 13 && "Stop-Service"@.len() == 12);
    assert("Restart-Service"@.len() == 15 && "Get-Service"@.len() == 11 && "Set-Service"@.len() == 11);
    assert("New-Item"@.len() == 8 && "Set-Location"@.len() == 12 && "Get-Item"@.len() == 8);
    assert("Get-ChildItem"@.len() == 13);
    assert("Get-Content"@[4] != "Get-Service"@[4] && "Get-Content"@[0] != "Set-Service"@[0]);
    assert("-Wait"@[1] != "-Tail"@[1]);
    lemma_without_dash_keeps(files);
    let f1 = seq!["-Tail"@, v];
    assert(f1[0] == "-Tail"@ && f1[1] == v);
    assert(ps_param(f1, "-Tail"@) == Some(v));
    let f2 = seq!["-Wait"@];
    assert(f2[0] == "-Wait"@);
    assert(ps_param_from(f2, "-Tail"@, 1) is None);
    assert(ps_param(f2, "-Tail"@) is None);
    assert(f2.contains("-Wait"@));
}

} // verus!
