//! Dynamic translation of commands whose arguments have structure that a
//! static flag mapping cannot carry (`find -name "*.rs" -delete`,
//! `sed 's/old/new/'`, `awk '{print $1}'`, services, links, ...).
//!
//! Each translator maps one command from one dialect to another. A spec
//! function of the same purpose states the result of each, over the
//! character sequences of the flags and arguments.

use vstd::prelude::*;
use super::Dialect;
use super::reverse::{
    cmd_to_ps, cmd_to_unix, ps_to_cmd, ps_to_unix, translate_cmd_to_ps, translate_cmd_to_unix,
    translate_ps_to_cmd, translate_ps_to_unix, translate_unix_to_cmd, unix_to_cmd,
};
use crate::text::{
    all_digits, any_is, byte_len, cat2, cat3, cat4, cat5, chars_of, contains, decimal, digit,
    find_char, find_char_from, has_infix, has_prefix, is_alpha, is_digit, join, join_from, joined,
    lemma_find_char_from, lowercase, opt_view, owned, parse_usize, parsed_usize, push_char,
    push_decimal, same, starts_with, starts_with_char, string_of, to_lowercase, trim, trim_of,
    trimmed, trimmed_of, utf8_len, views,
};

verus! {

// ---------------------------------------------------------------------------
// Helpers
// ---------------------------------------------------------------------------

/// `s` without its surrounding single and double quotes.
pub open spec fn unquoted(s: Seq<char>) -> Seq<char> {
    trimmed_of(s, "'\""@)
}

pub(crate) fn unquote(s: &str) -> (r: String)
    ensures
        r@ == unquoted(s@),
{
    trim_of(s, "'\"")
}

pub open spec fn starts_with_dash(s: Seq<char>) -> bool {
    s.len() > 0 && s[0] == '-'
}

/// The argument at `i`, or the empty string.
pub open spec fn arg_or_empty(a: Seq<Seq<char>>, i: int) -> Seq<char> {
    if 0 <= i < a.len() {
        a[i]
    } else {
        Seq::empty()
    }
}

pub(crate) fn arg_or_empty_exec(args: &[String], i: usize) -> (r: String)
    ensures
        r@ == arg_or_empty(views(args@), i as int),
{
    if i < args.len() {
        args[i].clone()
    } else {
        String::new()
    }
}

/// The elements of `v` that do not start with `p`, in order.
pub open spec fn without_prefix(v: Seq<Seq<char>>, p: Seq<char>) -> Seq<Seq<char>>
    decreases v.len(),
{
    if v.len() == 0 {
        Seq::empty()
    } else {
        let r = without_prefix(v.drop_last(), p);
        if has_prefix(v.last(), p) {
            r
        } else {
            r.push(v.last())
        }
    }
}

pub(crate) fn keep_without_prefix(v: &[String], p: &str) -> (r: Vec<String>)
    ensures
        views(r@) == without_prefix(views(v@), p@),
{
    let ghost vv = views(v@);
    let mut r: Vec<String> = Vec::new();
    let mut i: usize = 0;
    while i < v.len()
        invariant
            i <= v.len(),
            vv == views(v@),
            views(r@) == without_prefix(vv.take(i as int), p@),
        decreases v.len() - i,
    {
        assert(vv.take(i + 1).drop_last() =~= vv.take(i as int));
        assert(vv.take(i + 1).last() == v@[i as int]@);
        if !starts_with(v[i].as_str(), p) {
            let ghost before = r@;
            r.push(v[i].clone());
            assert(views(r@) =~= views(before).push(v@[i as int]@));
        }
        i += 1;
    }
    assert(vv.take(i as int) =~= vv);
    r
}

/// The value after the first `name` among the flags (PowerShell style
/// `-Name value`).
pub open spec fn ps_param_from(f: Seq<Seq<char>>, name: Seq<char>, i: int) -> Option<Seq<char>>
    decreases f.len() - i,
{
    if 0 <= i < f.len() {
        if f[i] == name && i + 1 < f.len() {
            Some(f[i + 1])
        } else {
            ps_param_from(f, name, i + 1)
        }
    } else {
        None
    }
}

pub open spec fn ps_param(f: Seq<Seq<char>>, name: Seq<char>) -> Option<Seq<char>> {
    ps_param_from(f, name, 0)
}

/// Parse a PowerShell-style named parameter: the value after `param_name`.
pub(crate) fn parse_ps_named_param(flags: &[String], param_name: &str) -> (r: Option<String>)
    ensures
        opt_view(r) == ps_param(views(flags@), param_name@),
{
    let ghost f = views(flags@);
    let mut i: usize = 0;
    while i < flags.len()
        invariant
            i <= flags.len(),
            f == views(flags@),
            ps_param(f, param_name@) == ps_param_from(f, param_name@, i as int),
        decreases flags.len() - i,
    {
        assert(f[i as int] == flags@[i as int]@);
        if same(flags[i].as_str(), param_name) && i + 1 < flags.len() {
            assert(f[i + 1] == flags@[i + 1]@);
            return Some(flags[i + 1].clone());
        }
        i += 1;
    }
    None
}

/// The value after the first element of `v` whose lower-case form (in `lv`,
/// element by element) is `lower`.
pub open spec fn param_after(v: Seq<Seq<char>>, lv: Seq<Seq<char>>, lower: Seq<char>, i: int) -> Option<
    Seq<char>,
>
    decreases v.len() - i,
{
    if 0 <= i < v.len() && i < lv.len() {
        if lv[i] == lower && i + 1 < v.len() {
            Some(v[i + 1])
        } else {
            param_after(v, lv, lower, i + 1)
        }
    } else {
        None
    }
}

/// The lower-case forms of the elements of `v`.
pub open spec fn lowered_all(v: Seq<Seq<char>>) -> Seq<Seq<char>> {
    v.map_values(|s: Seq<char>| lowercase(s))
}

/// A CMD-style named parameter (`/pid 42`), matched without regard to case
/// (`lf`, `la` and `lower` being the flags, the arguments and the name in
/// lower case), looked for among the flags, then among the arguments.
pub open spec fn cmd_param_lowered(
    f: Seq<Seq<char>>,
    lf: Seq<Seq<char>>,
    a: Seq<Seq<char>>,
    la: Seq<Seq<char>>,
    lower: Seq<char>,
) -> Option<Seq<char>> {
    match param_after(f, lf, lower, 0) {
        Some(x) => Some(x),
        None => param_after(a, la, lower, 0),
    }
}

pub open spec fn cmd_param(f: Seq<Seq<char>>, a: Seq<Seq<char>>, name: Seq<char>) -> Option<
    Seq<char>,
> {
    cmd_param_lowered(f, lowered_all(f), a, lowered_all(a), lowercase(name))
}

fn lowered_strings(v: &[String]) -> (r: Vec<String>)
    ensures
        views(r@) == lowered_all(views(v@)),
{
    let ghost vv = views(v@);
    let mut r: Vec<String> = Vec::new();
    let mut i: usize = 0;
    while i < v.len()
        invariant
            i <= v.len(),
            vv == views(v@),
            views(r@) == lowered_all(vv.take(i as int)),
        decreases v.len() - i,
    {
        let ghost before = r@;
        r.push(to_lowercase(v[i].as_str()));
        assert(views(r@) =~= lowered_all(vv.take(i + 1))) by {
            assert(views(r@) =~= views(before).push(lowercase(v@[i as int]@)));
        }
        i += 1;
    }
    assert(vv.take(i as int) =~= vv);
    r
}

fn param_after_exec(v: &[String], lv: &[String], lower: &str) -> (r: Option<String>)
    ensures
        opt_view(r) == param_after(views(v@), views(lv@), lower@, 0),
{
    let ghost vv = views(v@);
    let ghost ll = views(lv@);
    let mut i: usize = 0;
    while i < v.len() && i < lv.len()
        invariant
            vv == views(v@),
            ll == views(lv@),
            param_after(vv, ll, lower@, 0) == param_after(vv, ll, lower@, i as int),
        decreases v.len() - i,
    {
        assert(vv[i as int] == v@[i as int]@);
        assert(ll[i as int] == lv@[i as int]@);
        if same(lv[i].as_str(), lower) && i + 1 < v.len() {
            assert(vv[i + 1] == v@[i + 1]@);
            return Some(v[i + 1].clone());
        }
        i += 1;
    }
    None
}

/// Find a CMD-style named parameter (`/pid`, `/im`) among the flags, then
/// the arguments, given their lower-case forms and the name in lower case.
pub fn cmd_param_given_lowercase(
    flags: &[String],
    flags_lower: &[String],
    args: &[String],
    args_lower: &[String],
    name_lower: &str,
) -> (r: Option<String>)
    ensures
        opt_view(r) == cmd_param_lowered(
            views(flags@),
            views(flags_lower@),
            views(args@),
            views(args_lower@),
            name_lower@,
        ),
{
    match param_after_exec(flags, flags_lower, name_lower) {
        Some(x) => Some(x),
        None => param_after_exec(args, args_lower, name_lower),
    }
}

/// Parse a CMD-style named parameter (`/pid`, `/im`) from the flags or the
/// arguments.
pub(crate) fn parse_cmd_named_param(flags: &[String], args: &[String], param_name: &str) -> (r: Option<
    String,
>)
    ensures
        opt_view(r) == cmd_param(views(flags@), views(args@), param_name@),
{
    let param_lower = to_lowercase(param_name);
    let flags_lower = lowered_strings(flags);
    let args_lower = lowered_strings(args);
    cmd_param_given_lowercase(
        flags,
        flags_lower.as_slice(),
        args,
        args_lower.as_slice(),
        param_lower.as_str(),
    )
}

/// A count written as a flag: `-10`, or a letter then digits as `-n10` or
/// `-n 10` (white space around the digits is let pass).
pub open spec fn number_flag(f: Seq<char>) -> Option<nat> {
    if f.len() > 1 && f[0] == '-' {
        match parsed_usize(f.skip(1)) {
            Some(n) => Some(n),
            None => if f.len() > 2 && is_alpha(f[1]) {
                parsed_usize(trimmed(f.skip(2)))
            } else {
                None
            },
        }
    } else {
        None
    }
}

fn parse_number_flag(flag: &str) -> (r: Option<usize>)
    ensures
        r matches Some(n) ==> number_flag(flag@) == Some(n as nat),
        r is None ==> number_flag(flag@) is None,
{
    let cs = chars_of(flag);
    if cs.len() > 1 && cs[0] == '-' {
        let tail1 = string_of(&cs, 1, cs.len());
        assert(tail1@ =~= flag@.skip(1));
        if let Some(n) = parse_usize(tail1.as_str()) {
            return Some(n);
        }
        if cs.len() > 2 && (('a' <= cs[1] && cs[1] <= 'z') || ('A' <= cs[1] && cs[1] <= 'Z')) {
            let tail2 = string_of(&cs, 2, cs.len());
            assert(tail2@ =~= flag@.skip(2));
            let digits = trim(tail2.as_str());
            if let Some(n) = parse_usize(digits.as_str()) {
                return Some(n);
            }
        }
    }
    None
}

/// The octal digit that an icacls permission stands for, three times.
pub open spec fn icacls_octal(perm: Seq<char>) -> Seq<char> {
    let d = if perm == "F"@ {
        '7'
    } else if perm == "M"@ {
        '6'
    } else if perm == "RX"@ {
        '5'
    } else if perm == "R"@ {
        '4'
    } else if perm == "W"@ {
        '3'
    } else if perm == "X"@ {
        '1'
    } else {
        '4'
    };
    seq![d, d, d]
}

/// Map an icacls permission to an octal mode (approximate).
pub(crate) fn icacls_perm_to_octal(perm: &str) -> (r: String)
    ensures
        r@ == icacls_octal(perm@),
{
    let d = if same(perm, "F") {
        '7'
    } else if same(perm, "M") {
        '6'
    } else if same(perm, "RX") {
        '5'
    } else if same(perm, "R") {
        '4'
    } else if same(perm, "W") {
        '3'
    } else if same(perm, "X") {
        '1'
    } else {
        '4'
    };
    let mut r = String::new();
    push_char(&mut r, d);
    push_char(&mut r, d);
    push_char(&mut r, d);
    assert(r@ =~= seq![d, d, d]);
    r
}

pub open spec fn sp() -> Seq<char> {
    " "@
}

/// The dynamic translation of a command from one dialect to another; `None`
/// where the command has none, and for a dialect to itself.
pub open spec fn dynamic_translation(
    cmd: Seq<char>,
    f: Seq<Seq<char>>,
    a: Seq<Seq<char>>,
    from: Dialect,
    to: Dialect,
) -> Option<Seq<char>> {
    match (from, to) {
        (Dialect::Unix, Dialect::PowerShell) => unix_to_ps(cmd, f, a),
        (Dialect::PowerShell, Dialect::Unix) => ps_to_unix(cmd, f, a),
        (Dialect::Cmd, Dialect::Unix) => cmd_to_unix(cmd, f, a),
        (Dialect::Unix, Dialect::Cmd) => unix_to_cmd(cmd, f, a),
        (Dialect::PowerShell, Dialect::Cmd) => ps_to_cmd(cmd, f, a),
        (Dialect::Cmd, Dialect::PowerShell) => cmd_to_ps(cmd, f, a),
        _ => None,
    }
}

/// Translate a command whose arguments have structure (`find`, `sed`,
/// services, links, permissions, ...): `Some` with the translation, or
/// `None` where the command has no dynamic translation in that direction.
pub fn translate_dynamic(
    cmd: &str,
    flags: &[String],
    args: &[String],
    from: Dialect,
    to: Dialect,
) -> (r: Option<String>)
    ensures
        opt_view(r) == dynamic_translation(cmd@, views(flags@), views(args@), from, to),
{
    match (from, to) {
        (Dialect::Unix, Dialect::PowerShell) => translate_unix_to_ps(cmd, flags, args),
        (Dialect::PowerShell, Dialect::Unix) => translate_ps_to_unix(cmd, flags, args),
        (Dialect::Cmd, Dialect::Unix) => translate_cmd_to_unix(cmd, flags, args),
        (Dialect::Unix, Dialect::Cmd) => translate_unix_to_cmd(cmd, flags, args),
        (Dialect::PowerShell, Dialect::Cmd) => translate_ps_to_cmd(cmd, flags, args),
        (Dialect::Cmd, Dialect::PowerShell) => translate_cmd_to_ps(cmd, flags, args),
        _ => None,
    }
}

// ---------------------------------------------------------------------------
// Unix -> PowerShell
// ---------------------------------------------------------------------------

/// The search path of `find`: the first argument that is not a flag and not
/// `.`, else `.`.
pub open spec fn find_path_from(a: Seq<Seq<char>>, i: int, path: Seq<char>) -> Seq<char>
    decreases a.len() - i,
{
    if 0 <= i < a.len() {
        let p2 = if !starts_with_dash(a[i]) && path == "."@ {
            a[i]
        } else {
            path
        };
        find_path_from(a, i + 1, p2)
    } else {
        path
    }
}

/// The `-name` filter and the `-delete` switch among the flags of `find`.
pub open spec fn find_scan(f: Seq<Seq<char>>, i: int, filter: Option<Seq<char>>, del: bool) -> (
    Option<Seq<char>>,
    bool,
)
    decreases f.len() - i,
{
    if 0 <= i < f.len() {
        if f[i] == "-name"@ && i + 1 < f.len() {
            find_scan(f, i + 2, Some(f[i + 1]), del)
        } else if f[i] == "-delete"@ {
            find_scan(f, i + 1, filter, true)
        } else {
            find_scan(f, i + 1, filter, del)
        }
    } else {
        (filter, del)
    }
}

pub open spec fn find_to_ps(f: Seq<Seq<char>>, a: Seq<Seq<char>>) -> Seq<char> {
    let path = find_path_from(a, 0, "."@);
    let (filter, del) = find_scan(f, 0, None, false);
    let filter_part = match filter {
        Some(x) => " -Filter \""@ + unquoted(x) + "\""@,
        None => Seq::empty(),
    };
    let ps = "Get-ChildItem "@ + path + " -Recurse"@ + filter_part;
    if del {
        ps + " | Remove-Item"@
    } else {
        ps
    }
}

fn translate_find_unix_to_ps(flags: &[String], args: &[String]) -> (r: String)
    ensures
        r@ == find_to_ps(views(flags@), views(args@)),
{
    let ghost f = views(flags@);
    let ghost a = views(args@);
    let mut path = owned(".");
    let mut i: usize = 0;
    while i < args.len()
        invariant
            i <= args.len(),
            a == views(args@),
            find_path_from(a, 0, "."@) == find_path_from(a, i as int, path@),
        decreases args.len() - i,
    {
        assert(a[i as int] == args@[i as int]@);
        if !starts_with_char(args[i].as_str(), '-') {
            if same(path.as_str(), ".") {
                path = args[i].clone();
            }
        }
        i += 1;
    }
    let mut filter: Option<String> = None;
    let mut want_delete = false;
    let mut k: usize = 0;
    while k < flags.len()
        invariant
            k <= flags.len() + 1,
            f == views(flags@),
            find_scan(f, 0, None, false) == find_scan(f, k as int, opt_view(filter), want_delete),
        decreases flags.len() + 1 - k,
    {
        assert(f[k as int] == flags@[k as int]@);
        if same(flags[k].as_str(), "-name") && k + 1 < flags.len() {
            assert(f[k + 1] == flags@[k + 1]@);
            filter = Some(flags[k + 1].clone());
            k += 2;
        } else {
            if same(flags[k].as_str(), "-delete") {
                want_delete = true;
            }
            k += 1;
        }
    }
    let filter_part = match &filter {
        Some(x) => cat3(" -Filter \"", unquote(x.as_str()).as_str(), "\""),
        None => String::new(),
    };
    let mut ps = cat4("Get-ChildItem ", path.as_str(), " -Recurse", filter_part.as_str());
    if want_delete {
        ps.append(" | Remove-Item");
    }
    ps
}

/// `sed -n 'Np'` → the N-th line.
pub open spec fn sed_print_line(f: Seq<Seq<char>>, a: Seq<Seq<char>>) -> Option<Seq<char>> {
    if f.contains("-n"@) && a.len() >= 2 {
        let script = unquoted(a[1]);
        if script.len() > 0 && script.last() == 'p' {
            match parsed_usize(script.drop_last()) {
                Some(n) => if n >= 1 {
                    Some("Select-Object -Index "@ + decimal((n - 1) as nat) + sp() + joined(
                        a.skip(2),
                        sp(),
                    ))
                } else {
                    None
                },
                None => None,
            }
        } else {
            None
        }
    } else {
        None
    }
}

/// `sed 's/pat/rep/' file` → `-replace 'pat','rep' file`.
pub open spec fn sed_to_ps(f: Seq<Seq<char>>, a: Seq<Seq<char>>) -> Option<Seq<char>> {
    if a.len() > 0 && unquoted(a[0]).len() > 0 && unquoted(a[0])[0] == 's' {
        let u = unquoted(a[0]);
        if u.len() < 2 {
            None
        } else {
            let delim = u[1];
            let rest = u.skip(2);
            let k1 = find_char_from(rest, delim, 0);
            if k1 < rest.len() {
                let after = rest.skip(k1 + 1);
                let k2 = find_char_from(after, delim, 0);
                Some(
                    "-replace '"@ + rest.take(k1) + "','"@ + after.take(k2) + "' "@ + joined(
                        a.skip(1),
                        sp(),
                    ),
                )
            } else {
                sed_print_line(f, a)
            }
        }
    } else {
        sed_print_line(f, a)
    }
}

fn sed_print_line_exec(flags: &[String], args: &[String]) -> (r: Option<String>)
    ensures
        opt_view(r) == sed_print_line(views(flags@), views(args@)),
{
    let ghost a = views(args@);
    if any_is(flags, "-n") && args.len() >= 2 {
        assert(a[1] == args@[1]@);
        let script = unquote(args[1].as_str());
        let cs = chars_of(script.as_str());
        if cs.len() > 0 && cs[cs.len() - 1] == 'p' {
            let caps = string_of(&cs, 0, cs.len() - 1);
            assert(caps@ =~= script@.drop_last());
            if let Some(n) = parse_usize(caps.as_str()) {
                if n >= 1 {
                    let mut r = owned("Select-Object -Index ");
                    push_decimal(&mut r, n - 1);
                    r.append(" ");
                    r.append(join_from(args, 2, " ").as_str());
                    return Some(r);
                }
            }
        }
    }
    None
}

fn translate_sed_unix_to_ps(flags: &[String], args: &[String]) -> (r: Option<String>)
    ensures
        opt_view(r) == sed_to_ps(views(flags@), views(args@)),
{
    let ghost a = views(args@);
    if args.len() > 0 {
        assert(a[0] == args@[0]@);
        let unq = unquote(args[0].as_str());
        if starts_with_char(unq.as_str(), 's') {
            let u = chars_of(unq.as_str());
            if u.len() < 2 {
                return None;
            }
            let delim = u[1];
            let rest = string_of(&u, 2, u.len());
            let rs = chars_of(rest.as_str());
            assert(rs@ =~= unq@.skip(2));
            proof {
                lemma_find_char_from(rs@, delim, 0);
            }
            let k1 = find_char(&rs, delim, 0);
            if k1 < rs.len() {
                let after = string_of(&rs, k1 + 1, rs.len());
                let afs = chars_of(after.as_str());
                assert(afs@ =~= rs@.skip(k1 + 1));
                proof {
                    lemma_find_char_from(afs@, delim, 0);
                }
                let k2 = find_char(&afs, delim, 0);
                let pattern = string_of(&rs, 0, k1);
                let replacement = string_of(&afs, 0, k2);
                assert(pattern@ =~= rs@.take(k1 as int));
                assert(replacement@ =~= afs@.take(k2 as int));
                let rest_args = join_from(args, 1, " ");
                return Some(
                    cat5(
                        "-replace '",
                        pattern.as_str(),
                        "','",
                        replacement.as_str(),
                        "' ",
                    ).concat(rest_args.as_str()),
                );
            }
        }
    }
    sed_print_line_exec(flags, args)
}

/// The digits at the start of `s`.
pub open spec fn digit_run(s: Seq<char>, i: int) -> int
    decreases s.len() - i,
{
    if 0 <= i < s.len() && is_digit(s[i]) {
        digit_run(s, i + 1)
    } else {
        i
    }
}

/// `awk '{print $N}'` → split the line and take field N.
pub open spec fn awk_to_ps(a: Seq<Seq<char>>) -> Option<Seq<char>> {
    if a.len() > 0 {
        let u = unquoted(a[0]);
        if has_infix(u, "print"@) {
            let pos = find_char_from(u, '$', 0);
            if pos < u.len() {
                let after = u.skip(pos + 1);
                match parsed_usize(after.take(digit_run(after, 0))) {
                    Some(field) => if field >= 1 {
                        Some(
                            "ForEach-Object { $_.Split()["@ + decimal((field - 1) as nat)
                                + "] } "@ + joined(a.skip(1), sp()),
                        )
                    } else {
                        None
                    },
                    None => None,
                }
            } else {
                None
            }
        } else {
            None
        }
    } else {
        None
    }
}

proof fn lemma_digit_run(s: Seq<char>, i: int)
    requires
        0 <= i <= s.len(),
    ensures
        i <= digit_run(s, i) <= s.len(),
    decreases s.len() - i,
{
    if i < s.len() && is_digit(s[i]) {
        lemma_digit_run(s, i + 1);
    }
}

fn translate_awk_unix_to_ps(_flags: &[String], args: &[String]) -> (r: Option<String>)
    ensures
        opt_view(r) == awk_to_ps(views(args@)),
{
    let ghost a = views(args@);
    if args.len() > 0 {
        assert(a[0] == args@[0]@);
        let unq = unquote(args[0].as_str());
        if contains(unq.as_str(), "print") {
            let u = chars_of(unq.as_str());
            proof {
                lemma_find_char_from(u@, '$', 0);
            }
            let pos = find_char(&u, '$', 0);
            if pos < u.len() {
                let after = string_of(&u, pos + 1, u.len());
                let afs = chars_of(after.as_str());
                assert(afs@ =~= u@.skip(pos + 1));
                let mut e: usize = 0;
                proof {
                    lemma_digit_run(afs@, 0);
                }
                while e < afs.len() && digit(afs[e])
                    invariant
                        e <= afs.len(),
                        digit_run(afs@, 0) == digit_run(afs@, e as int),
                    decreases afs.len() - e,
                {
                    e += 1;
                }
                let num = string_of(&afs, 0, e);
                assert(num@ =~= afs@.take(e as int));
                if let Some(field) = parse_usize(num.as_str()) {
                    if field >= 1 {
                        let mut r = owned("ForEach-Object { $_.Split()[");
                        push_decimal(&mut r, field - 1);
                        r.append("] } ");
                        r.append(join_from(args, 1, " ").as_str());
                        return Some(r);
                    }
                }
            }
        }
    }
    None
}

/// The `-d` delimiter and `-f` field among the flags of `cut`.
pub open spec fn cut_scan(f: Seq<Seq<char>>, i: int, delim: Seq<char>, field: Option<nat>) -> (
    Seq<char>,
    Option<nat>,
)
    decreases f.len() - i,
{
    if 0 <= i < f.len() {
        if f[i] == "-d"@ && i + 1 < f.len() {
            cut_scan(f, i + 2, unquoted(f[i + 1]), field)
        } else if f[i] == "-f"@ && i + 1 < f.len() {
            let field2 = match parsed_usize(f[i + 1]) {
                Some(n) => Some(n),
                None => field,
            };
            cut_scan(f, i + 2, delim, field2)
        } else {
            cut_scan(f, i + 1, delim, field)
        }
    } else {
        (delim, field)
    }
}

/// `cut -d',' -f2` → split on the delimiter and take the field.
pub open spec fn cut_to_ps(f: Seq<Seq<char>>) -> Option<Seq<char>> {
    let (d, field) = cut_scan(f, 0, "\t"@, None);
    match field {
        Some(n) => if n >= 1 {
            Some("ForEach-Object { $_.Split('"@ + d + "')["@ + decimal((n - 1) as nat) + "] }"@)
        } else {
            None
        },
        None => None,
    }
}

fn translate_cut_unix_to_ps(flags: &[String], _args: &[String]) -> (r: Option<String>)
    ensures
        opt_view(r) == cut_to_ps(views(flags@)),
{
    let ghost f = views(flags@);
    let mut delim = owned("\t");
    let mut field_num: Option<usize> = None;
    let mut i: usize = 0;
    while i < flags.len()
        invariant
            i <= flags.len() + 1,
            f == views(flags@),
            cut_scan(f, 0, "\t"@, None) == cut_scan(
                f,
                i as int,
                delim@,
                match field_num {
                    Some(n) => Some(n as nat),
                    None => None,
                },
            ),
        decreases flags.len() + 1 - i,
    {
        assert(f[i as int] == flags@[i as int]@);
        if same(flags[i].as_str(), "-d") && i + 1 < flags.len() {
            assert(f[i + 1] == flags@[i + 1]@);
            delim = unquote(flags[i + 1].as_str());
            i += 2;
        } else if same(flags[i].as_str(), "-f") && i + 1 < flags.len() {
            assert(f[i + 1] == flags@[i + 1]@);
            if let Some(n) = parse_usize(flags[i + 1].as_str()) {
                field_num = Some(n);
            }
            i += 2;
        } else {
            i += 1;
        }
    }
    if let Some(field) = field_num {
        if field >= 1 {
            let mut r = cat3("ForEach-Object { $_.Split('", delim.as_str(), "')[");
            push_decimal(&mut r, field - 1);
            r.append("] }");
            return Some(r);
        }
    }
    None
}

/// `tr 'a' 'b'` → a character replacement; `tr 'abc' 'xyz'` → a regex one.
/// Lengths are counted in UTF-8 bytes.
pub open spec fn tr_to_ps(a: Seq<Seq<char>>) -> Option<Seq<char>> {
    if a.len() >= 2 {
        let from = unquoted(a[0]);
        let to = unquoted(a[1]);
        if utf8_len(from) == 1 && utf8_len(to) == 1 {
            Some("ForEach-Object { $_.Replace('"@ + from + "','"@ + to + "') }"@)
        } else if utf8_len(from) == utf8_len(to) {
            Some("ForEach-Object { $_ -replace '["@ + from + "]','"@ + to + "' }"@)
        } else {
            None
        }
    } else {
        None
    }
}

fn translate_tr_unix_to_ps(_flags: &[String], args: &[String]) -> (r: Option<String>)
    ensures
        opt_view(r) == tr_to_ps(views(args@)),
{
    let ghost a = views(args@);
    if args.len() >= 2 {
        assert(a[0] == args@[0]@);
        assert(a[1] == args@[1]@);
        let from = unquote(args[0].as_str());
        let to = unquote(args[1].as_str());
        let fl = byte_len(from.as_str());
        let tl = byte_len(to.as_str());
        if fl == 1 && tl == 1 {
            return Some(
                cat5("ForEach-Object { $_.Replace('", from.as_str(), "','", to.as_str(), "') }"),
            );
        }
        if fl == tl {
            return Some(
                cat5("ForEach-Object { $_ -replace '[", from.as_str(), "]','", to.as_str(), "' }"),
            );
        }
    }
    None
}

/// The first count among the flags.
pub open spec fn first_number_from(f: Seq<Seq<char>>, i: int) -> Option<nat>
    decreases f.len() - i,
{
    if 0 <= i < f.len() {
        match number_flag(f[i]) {
            Some(n) => Some(n),
            None => first_number_from(f, i + 1),
        }
    } else {
        None
    }
}

/// `head -n 5 f` / `tail -5 f` → `Select-Object -First/-Last 5 f`.
pub open spec fn head_tail_to_ps(cmd: Seq<char>, f: Seq<Seq<char>>, a: Seq<Seq<char>>) -> Option<
    Seq<char>,
> {
    let flag_name = if cmd == "head"@ {
        "-First"@
    } else {
        "-Last"@
    };
    match first_number_from(f, 0) {
        Some(n) => Some("Select-Object "@ + flag_name + sp() + decimal(n) + sp() + joined(a, sp())),
        None => if f.contains("-n"@) && a.len() > 0 {
            match parsed_usize(a[0]) {
                Some(n) => Some(
                    "Select-Object "@ + flag_name + sp() + decimal(n) + sp() + joined(a.skip(1), sp()),
                ),
                None => None,
            }
        } else {
            None
        },
    }
}

fn translate_head_tail_unix_to_ps(cmd: &str, flags: &[String], args: &[String]) -> (r: Option<
    String,
>)
    ensures
        opt_view(r) == head_tail_to_ps(cmd@, views(flags@), views(args@)),
{
    let ghost f = views(flags@);
    let flag_name = if same(cmd, "head") {
        "-First"
    } else {
        "-Last"
    };
    let mut count: Option<usize> = None;
    let mut i: usize = 0;
    while i < flags.len() && count.is_none()
        invariant
            i <= flags.len(),
            f == views(flags@),
            count is None ==> first_number_from(f, 0) == first_number_from(f, i as int),
            count matches Some(c) ==> first_number_from(f, 0) == Some(c as nat),
        decreases flags.len() - i,
    {
        assert(f[i as int] == flags@[i as int]@);
        if let Some(num) = parse_number_flag(flags[i].as_str()) {
            count = Some(num);
        }
        i += 1;
    }
    match count {
        Some(c) => {
            let mut r = cat3("Select-Object ", flag_name, " ");
            push_decimal(&mut r, c);
            r.append(" ");
            r.append(join(args, " ").as_str());
            Some(r)
        },
        None => {
            if any_is(flags, "-n") && args.len() > 0 {
                assert(views(args@)[0] == args@[0]@);
                if let Some(n) = parse_usize(args[0].as_str()) {
                    let mut r = cat3("Select-Object ", flag_name, " ");
                    push_decimal(&mut r, n);
                    r.append(" ");
                    r.append(join_from(args, 1, " ").as_str());
                    return Some(r);
                }
            }
            None
        },
    }
}

/// `wc -l/-w/-c/-m` → `Measure-Object -Line/-Word/-Character`.
pub open spec fn wc_to_ps(f: Seq<Seq<char>>, a: Seq<Seq<char>>) -> Option<Seq<char>> {
    let mode = if f.contains("-l"@) {
        Some("-Line"@)
    } else if f.contains("-w"@) {
        Some("-Word"@)
    } else if f.contains("-c"@) || f.contains("-m"@) {
        Some("-Character"@)
    } else {
        None
    };
    match mode {
        Some(m) => Some("Measure-Object "@ + m + sp() + joined(a, sp())),
        None => None,
    }
}

fn translate_wc_unix_to_ps(flags: &[String], args: &[String]) -> (r: Option<String>)
    ensures
        opt_view(r) == wc_to_ps(views(flags@), views(args@)),
{
    let mode = if any_is(flags, "-l") {
        "-Line"
    } else if any_is(flags, "-w") {
        "-Word"
    } else if any_is(flags, "-c") || any_is(flags, "-m") {
        "-Character"
    } else {
        return None;
    };
    Some(cat4("Measure-Object ", mode, " ", join(args, " ").as_str()))
}

/// `systemctl <action> <service>` → the PowerShell service cmdlets.
pub open spec fn systemctl_to_ps(a: Seq<Seq<char>>) -> Option<Seq<char>> {
    if a.len() == 0 {
        None
    } else {
        let action = a[0];
        let service = arg_or_empty(a, 1);
        if action == "start"@ {
            Some("Start-Service "@ + service)
        } else if action == "stop"@ {
            Some("Stop-Service "@ + service)
        } else if action == "restart"@ {
            Some("Restart-Service "@ + service)
        } else if action == "status"@ {
            Some("Get-Service "@ + service)
        } else if action == "enable"@ {
            Some("Set-Service -Name "@ + service + " -StartupType Automatic"@)
        } else if action == "disable"@ {
            Some("Set-Service -Name "@ + service + " -StartupType Disabled"@)
        } else if action == "reload"@ {
            Some("Restart-Service "@ + service)
        } else {
            None
        }
    }
}

fn translate_systemctl_unix_to_ps(args: &[String]) -> (r: Option<String>)
    ensures
        opt_view(r) == systemctl_to_ps(views(args@)),
{
    if args.len() == 0 {
        return None;
    }
    assert(views(args@)[0] == args@[0]@);
    let action = args[0].as_str();
    let service = arg_or_empty_exec(args, 1);
    let service = service.as_str();
    if same(action, "start") {
        Some(cat2("Start-Service ", service))
    } else if same(action, "stop") {
        Some(cat2("Stop-Service ", service))
    } else if same(action, "restart") {
        Some(cat2("Restart-Service ", service))
    } else if same(action, "status") {
        Some(cat2("Get-Service ", service))
    } else if same(action, "enable") {
        Some(cat3("Set-Service -Name ", service, " -StartupType Automatic"))
    } else if same(action, "disable") {
        Some(cat3("Set-Service -Name ", service, " -StartupType Disabled"))
    } else if same(action, "reload") {
        Some(cat2("Restart-Service ", service))
    } else {
        None
    }
}

/// The icacls permission for the owner digit of an octal mode.
pub open spec fn perm_letter(c: char) -> Seq<char> {
    if c == '7' {
        "F"@
    } else if c == '6' {
        "M"@
    } else if c == '5' {
        "M"@
    } else if c == '4' {
        "R"@
    } else if c == '3' {
        "W"@
    } else if c == '2' {
        "W"@
    } else if c == '1' {
        "X"@
    } else {
        "R"@
    }
}

fn perm_letter_exec(c: char) -> (r: &'static str)
    ensures
        r@ == perm_letter(c),
{
    if c == '7' {
        "F"
    } else if c == '6' {
        "M"
    } else if c == '5' {
        "M"
    } else if c == '4' {
        "R"
    } else if c == '3' {
        "W"
    } else if c == '2' {
        "W"
    } else if c == '1' {
        "X"
    } else {
        "R"
    }
}

/// `chmod 755 file` → `icacls file /grant Everyone:F` (the owner digit
/// decides; the mode is 3 or 4 bytes long, the first of 4 dropped).
pub open spec fn chmod_to_icacls(a: Seq<Seq<char>>) -> Option<Seq<char>> {
    if a.len() > 0 && (utf8_len(a[0]) == 3 || utf8_len(a[0]) == 4) {
        let mode = if utf8_len(a[0]) == 4 {
            a[0].drop_first()
        } else {
            a[0]
        };
        if all_digits(mode) && mode.len() > 0 {
            Some("icacls "@ + joined(a.skip(1), sp()) + " /grant Everyone:"@ + perm_letter(mode[0]))
        } else {
            None
        }
    } else {
        None
    }
}

pub(crate) fn chmod_icacls_exec(args: &[String]) -> (r: Option<String>)
    ensures
        opt_view(r) == chmod_to_icacls(views(args@)),
{
    if args.len() == 0 {
        return None;
    }
    assert(views(args@)[0] == args@[0]@);
    let mode_all = args[0].as_str();
    let n = byte_len(mode_all);
    if n == 3 || n == 4 {
        let cs = chars_of(mode_all);
        let mode = if n == 4 && cs.len() > 0 {
            string_of(&cs, 1, cs.len())
        } else {
            mode_all.to_owned()
        };
        proof {
            if n == 4 {
                if cs@.len() == 0 {
                    assert(vstd::utf8::encode_utf8(mode_all@) =~= Seq::<u8>::empty()) by {
                        assert(mode_all@ =~= Seq::<char>::empty());
                        reveal_with_fuel(vstd::utf8::encode_utf8, 1);
                    }
                }
                assert(mode@ =~= mode_all@.drop_first());
            }
        }
        let ms = chars_of(mode.as_str());
        let mut all = true;
        let mut k: usize = 0;
        while k < ms.len()
            invariant
                k <= ms.len(),
                all == forall|m: int| 0 <= m < k ==> is_digit(#[trigger] ms@[m]),
            decreases ms.len() - k,
        {
            if !digit(ms[k]) {
                all = false;
            }
            k += 1;
        }
        if all && ms.len() > 0 {
            let rest = join_from(args, 1, " ");
            return Some(cat3("icacls ", rest.as_str(), " /grant Everyone:").concat(
                perm_letter_exec(ms[0]),
            ));
        }
    }
    None
}

fn translate_chmod_unix_to_ps(_flags: &[String], args: &[String]) -> (r: Option<String>)
    ensures
        opt_view(r) == chmod_to_icacls(views(args@)),
{
    chmod_icacls_exec(args)
}

/// `chown owner file` → `icacls file /setowner owner`.
pub open spec fn chown_to_icacls(a: Seq<Seq<char>>) -> Option<Seq<char>> {
    if a.len() > 0 {
        Some("icacls "@ + joined(a.skip(1), sp()) + " /setowner "@ + a[0])
    } else {
        None
    }
}

pub(crate) fn chown_icacls_exec(args: &[String]) -> (r: Option<String>)
    ensures
        opt_view(r) == chown_to_icacls(views(args@)),
{
    if args.len() == 0 {
        return None;
    }
    assert(views(args@)[0] == args@[0]@);
    let rest = join_from(args, 1, " ");
    Some(cat4("icacls ", rest.as_str(), " /setowner ", args[0].as_str()))
}

fn translate_chown_unix_to_ps(args: &[String]) -> (r: Option<String>)
    ensures
        opt_view(r) == chown_to_icacls(views(args@)),
{
    chown_icacls_exec(args)
}

/// `ln [-s] target name` → `New-Item -ItemType SymbolicLink|HardLink`.
pub open spec fn ln_to_ps(f: Seq<Seq<char>>, a: Seq<Seq<char>>) -> Option<Seq<char>> {
    if a.len() >= 2 {
        if f.contains("-s"@) {
            Some("New-Item -ItemType SymbolicLink -Target "@ + a[0] + " -Name "@ + a[1])
        } else {
            Some("New-Item -ItemType HardLink -Target "@ + a[0] + " -Name "@ + a[1])
        }
    } else {
        None
    }
}

fn translate_ln_unix_to_ps(flags: &[String], args: &[String]) -> (r: Option<String>)
    ensures
        opt_view(r) == ln_to_ps(views(flags@), views(args@)),
{
    if args.len() < 2 {
        return None;
    }
    assert(views(args@)[0] == args@[0]@);
    assert(views(args@)[1] == args@[1]@);
    let target = args[0].as_str();
    let name = args[1].as_str();
    if any_is(flags, "-s") {
        Some(cat4("New-Item -ItemType SymbolicLink -Target ", target, " -Name ", name))
    } else {
        Some(cat4("New-Item -ItemType HardLink -Target ", target, " -Name ", name))
    }
}

/// `xargs cmd args` → run `cmd args` on each input line.
pub open spec fn xargs_to_ps(a: Seq<Seq<char>>) -> Option<Seq<char>> {
    if a.len() == 0 {
        None
    } else {
        Some("ForEach-Object { "@ + a[0] + sp() + joined(a.skip(1), sp()) + " $_ }"@)
    }
}

fn translate_xargs_unix_to_ps(_flags: &[String], args: &[String]) -> (r: Option<String>)
    ensures
        opt_view(r) == xargs_to_ps(views(args@)),
{
    if args.len() == 0 {
        return None;
    }
    assert(views(args@)[0] == args@[0]@);
    let rest = join_from(args, 1, " ");
    Some(cat5("ForEach-Object { ", args[0].as_str(), " ", rest.as_str(), " $_ }"))
}

/// `sleep N` → `Start-Sleep N` (digits only).
pub open spec fn sleep_to_ps(a: Seq<Seq<char>>) -> Option<Seq<char>> {
    if a.len() > 0 && all_digits(a[0]) {
        Some("Start-Sleep "@ + a[0])
    } else {
        None
    }
}

fn translate_sleep_unix_to_ps(args: &[String]) -> (r: Option<String>)
    ensures
        opt_view(r) == sleep_to_ps(views(args@)),
{
    if args.len() == 0 {
        return None;
    }
    assert(views(args@)[0] == args@[0]@);
    let cs = chars_of(args[0].as_str());
    let mut k: usize = 0;
    while k < cs.len()
        invariant
            k <= cs.len(),
            cs@ == views(args@)[0],
            forall|m: int| 0 <= m < k ==> is_digit(#[trigger] cs@[m]),
        decreases cs.len() - k,
    {
        if !digit(cs[k]) {
            assert(!is_digit(cs@[k as int]));
            return None;
        }
        k += 1;
    }
    Some(cat2("Start-Sleep ", args[0].as_str()))
}

/// `du [-h] path` → the size of the item(s).
pub open spec fn du_to_ps(f: Seq<Seq<char>>, a: Seq<Seq<char>>) -> Seq<char> {
    if f.contains("-h"@) {
        "Get-Item "@ + joined(a, sp())
            + " | Select-Object Name, @{Name='Size(MB)';Expression={[math]::Round($_.Length/1MB,2)}}"@
    } else {
        "Get-ChildItem -Recurse "@ + joined(a, sp()) + " | Measure-Object -Property Length -Sum"@
    }
}

fn translate_du_unix_to_ps(flags: &[String], args: &[String]) -> (r: Option<String>)
    ensures
        opt_view(r) == Some(du_to_ps(views(flags@), views(args@))),
{
    let all = join(args, " ");
    if any_is(flags, "-h") {
        Some(
            cat3(
                "Get-Item ",
                all.as_str(),
                " | Select-Object Name, @{Name='Size(MB)';Expression={[math]::Round($_.Length/1MB,2)}}",
            ),
        )
    } else {
        Some(
            cat3(
                "Get-ChildItem -Recurse ",
                all.as_str(),
                " | Measure-Object -Property Length -Sum",
            ),
        )
    }
}

/// `ping host` → `Test-Connection -ComputerName host -Count 4`.
pub open spec fn ping_to_ps(a: Seq<Seq<char>>) -> Option<Seq<char>> {
    if a.len() > 0 {
        Some("Test-Connection -ComputerName "@ + a[0] + " -Count 4"@)
    } else {
        None
    }
}

fn translate_ping_unix_to_ps(args: &[String]) -> (r: Option<String>)
    ensures
        opt_view(r) == ping_to_ps(views(args@)),
{
    if args.len() == 0 {
        return None;
    }
    assert(views(args@)[0] == args@[0]@);
    Some(cat3("Test-Connection -ComputerName ", args[0].as_str(), " -Count 4"))
}

/// `less [-N] file` → paged output, with line numbers for `-N`.
pub open spec fn less_to_ps(f: Seq<Seq<char>>, a: Seq<Seq<char>>) -> Seq<char> {
    if f.contains("-N"@) {
        "Get-Content "@ + joined(a, sp())
            + " | ForEach-Object { $i++; \"$i`t$_\" } | Out-Host -Paging"@
    } else {
        "Get-Content "@ + joined(a, sp()) + " | Out-Host -Paging"@
    }
}

fn translate_less_unix_to_ps(flags: &[String], args: &[String]) -> (r: Option<String>)
    ensures
        opt_view(r) == Some(less_to_ps(views(flags@), views(args@))),
{
    let all = join(args, " ");
    if any_is(flags, "-N") {
        Some(
            cat3(
                "Get-Content ",
                all.as_str(),
                " | ForEach-Object { $i++; \"$i`t$_\" } | Out-Host -Paging",
            ),
        )
    } else {
        Some(cat3("Get-Content ", all.as_str(), " | Out-Host -Paging"))
    }
}

/// `rmdir [-p] dir` → `Remove-Item -Directory [-Recurse] dir`.
pub open spec fn rmdir_to_ps(f: Seq<Seq<char>>, a: Seq<Seq<char>>) -> Seq<char> {
    if f.contains("-p"@) {
        "Remove-Item -Directory -Recurse "@ + joined(a, sp())
    } else {
        "Remove-Item -Directory "@ + joined(a, sp())
    }
}

fn translate_rmdir_unix_to_ps(flags: &[String], args: &[String]) -> (r: Option<String>)
    ensures
        opt_view(r) == Some(rmdir_to_ps(views(flags@), views(args@))),
{
    let all = join(args, " ");
    if any_is(flags, "-p") {
        Some(cat2("Remove-Item -Directory -Recurse ", all.as_str()))
    } else {
        Some(cat2("Remove-Item -Directory ", all.as_str()))
    }
}

/// `netstat` → TCP connections; listening ones for `-l`/`-a`.
pub open spec fn netstat_to_ps(f: Seq<Seq<char>>) -> Seq<char> {
    if f.contains("-l"@) || f.contains("-a"@) {
        "Get-NetTCPConnection -State Listen | Format-Table LocalAddress,LocalPort,RemoteAddress,RemotePort,State -AutoSize"@
    } else if f.contains("-n"@) {
        "Get-NetTCPConnection | Format-Table LocalAddress,LocalPort,RemoteAddress,RemotePort,State -AutoSize"@
    } else {
        "Get-NetTCPConnection | Select-Object -First 20 | Format-Table LocalAddress,LocalPort,RemoteAddress,RemotePort,State -AutoSize"@
    }
}

fn translate_netstat_unix_to_ps(flags: &[String]) -> (r: Option<String>)
    ensures
        opt_view(r) == Some(netstat_to_ps(views(flags@))),
{
    if any_is(flags, "-l") || any_is(flags, "-a") {
        Some(
            owned(
                "Get-NetTCPConnection -State Listen | Format-Table LocalAddress,LocalPort,RemoteAddress,RemotePort,State -AutoSize",
            ),
        )
    } else if any_is(flags, "-n") {
        Some(
            owned(
                "Get-NetTCPConnection | Format-Table LocalAddress,LocalPort,RemoteAddress,RemotePort,State -AutoSize",
            ),
        )
    } else {
        Some(
            owned(
                "Get-NetTCPConnection | Select-Object -First 20 | Format-Table LocalAddress,LocalPort,RemoteAddress,RemotePort,State -AutoSize",
            ),
        )
    }
}

/// `gzip f` → `Compress-Archive -Path f -DestinationPath f.zip`.
pub open spec fn gzip_to_ps(a: Seq<Seq<char>>) -> Option<Seq<char>> {
    if a.len() == 0 {
        None
    } else {
        Some("Compress-Archive -Path "@ + joined(a, sp()) + " -DestinationPath "@ + a[0] + ".zip"@)
    }
}

fn translate_gzip_unix_to_ps(_flags: &[String], args: &[String]) -> (r: Option<String>)
    ensures
        opt_view(r) == gzip_to_ps(views(args@)),
{
    if args.len() == 0 {
        return None;
    }
    assert(views(args@)[0] == args@[0]@);
    let all = join(args, " ");
    Some(cat5("Compress-Archive -Path ", all.as_str(), " -DestinationPath ", args[0].as_str(), ".zip"))
}

/// `gunzip f` → `Expand-Archive -Path f -DestinationPath .`.
pub open spec fn gunzip_to_ps(a: Seq<Seq<char>>) -> Option<Seq<char>> {
    if a.len() == 0 {
        None
    } else {
        Some("Expand-Archive -Path "@ + joined(a, sp()) + " -DestinationPath ."@)
    }
}

fn translate_gunzip_unix_to_ps(_flags: &[String], args: &[String]) -> (r: Option<String>)
    ensures
        opt_view(r) == gunzip_to_ps(views(args@)),
{
    if args.len() == 0 {
        return None;
    }
    let all = join(args, " ");
    Some(cat3("Expand-Archive -Path ", all.as_str(), " -DestinationPath ."))
}

/// `dig host` → `Resolve-DnsName host` with the record type of the flags.
pub open spec fn dig_to_ps(f: Seq<Seq<char>>, a: Seq<Seq<char>>) -> Option<Seq<char>> {
    if a.len() == 0 {
        None
    } else if f.contains("+short"@) {
        Some("Resolve-DnsName "@ + a[0] + " -Type A | Select-Object -ExpandProperty IPAddress"@)
    } else if f.contains("+trace"@) {
        Some("Resolve-DnsName "@ + a[0] + " -Type NS"@)
    } else if f.contains("-x"@) {
        Some("Resolve-DnsName "@ + a[0] + " -Type PTR"@)
    } else {
        Some("Resolve-DnsName "@ + a[0])
    }
}

fn translate_dig_unix_to_ps(flags: &[String], args: &[String]) -> (r: Option<String>)
    ensures
        opt_view(r) == dig_to_ps(views(flags@), views(args@)),
{
    if args.len() == 0 {
        return None;
    }
    assert(views(args@)[0] == args@[0]@);
    let target = args[0].as_str();
    if any_is(flags, "+short") {
        Some(cat3("Resolve-DnsName ", target, " -Type A | Select-Object -ExpandProperty IPAddress"))
    } else if any_is(flags, "+trace") {
        Some(cat3("Resolve-DnsName ", target, " -Type NS"))
    } else if any_is(flags, "-x") {
        Some(cat3("Resolve-DnsName ", target, " -Type PTR"))
    } else {
        Some(cat2("Resolve-DnsName ", target))
    }
}

/// `sudo cmd` → an elevated PowerShell running `cmd`.
pub open spec fn sudo_to_ps(a: Seq<Seq<char>>) -> Option<Seq<char>> {
    if a.len() == 0 {
        None
    } else {
        Some(
            "Start-Process powershell -Verb RunAs -ArgumentList \"-Command\", \""@ + joined(a, sp())
                + "\""@,
        )
    }
}

fn translate_sudo_unix_to_ps(args: &[String]) -> (r: Option<String>)
    ensures
        opt_view(r) == sudo_to_ps(views(args@)),
{
    if args.len() == 0 {
        return None;
    }
    let sub_cmd = join(args, " ");
    Some(
        cat3(
            "Start-Process powershell -Verb RunAs -ArgumentList \"-Command\", \"",
            sub_cmd.as_str(),
            "\"",
        ),
    )
}

/// `nl [file]` → numbered lines.
pub open spec fn nl_to_ps(a: Seq<Seq<char>>) -> Seq<char> {
    if a.len() == 0 {
        "Get-Content | ForEach-Object { $i++; \"$i`t$_\" }"@
    } else {
        "Get-Content "@ + joined(a, sp()) + " | ForEach-Object { $i++; \"$i`t$_\" }"@
    }
}

fn translate_nl_unix_to_ps(args: &[String]) -> (r: Option<String>)
    ensures
        opt_view(r) == Some(nl_to_ps(views(args@))),
{
    if args.len() == 0 {
        Some(owned("Get-Content | ForEach-Object { $i++; \"$i`t$_\" }"))
    } else {
        let all = join(args, " ");
        Some(cat3("Get-Content ", all.as_str(), " | ForEach-Object { $i++; \"$i`t$_\" }"))
    }
}

pub open spec fn uptime_ps() -> Seq<char> {
    "(Get-Date) - (Get-CimInstance Win32_OperatingSystem).LastBootUpTime"@
}

/// Unix → PowerShell: the commands with a dynamic translation.
pub open spec fn unix_to_ps(cmd: Seq<char>, f: Seq<Seq<char>>, a: Seq<Seq<char>>) -> Option<
    Seq<char>,
> {
    if cmd == "find"@ {
        Some(find_to_ps(f, a))
    } else if cmd == "sed"@ {
        sed_to_ps(f, a)
    } else if cmd == "awk"@ {
        awk_to_ps(a)
    } else if cmd == "cut"@ {
        cut_to_ps(f)
    } else if cmd == "tr"@ {
        tr_to_ps(a)
    } else if cmd == "head"@ {
        head_tail_to_ps("head"@, f, a)
    } else if cmd == "tail"@ {
        head_tail_to_ps("tail"@, f, a)
    } else if cmd == "wc"@ {
        wc_to_ps(f, a)
    } else if cmd == "systemctl"@ {
        systemctl_to_ps(a)
    } else if cmd == "chmod"@ {
        chmod_to_icacls(a)
    } else if cmd == "chown"@ {
        chown_to_icacls(a)
    } else if cmd == "ln"@ {
        ln_to_ps(f, a)
    } else if cmd == "xargs"@ {
        xargs_to_ps(a)
    } else if cmd == "du"@ {
        Some(du_to_ps(f, a))
    } else if cmd == "sleep"@ {
        sleep_to_ps(a)
    } else if cmd == "whoami"@ {
        Some("$env:USERNAME"@)
    } else if cmd == "ping"@ {
        ping_to_ps(a)
    } else if cmd == "less"@ || cmd == "more"@ {
        Some(less_to_ps(f, a))
    } else if cmd == "rmdir"@ {
        Some(rmdir_to_ps(f, a))
    } else if cmd == "netstat"@ {
        Some(netstat_to_ps(f))
    } else if cmd == "gzip"@ {
        gzip_to_ps(a)
    } else if cmd == "gunzip"@ {
        gunzip_to_ps(a)
    } else if cmd == "dig"@ {
        dig_to_ps(f, a)
    } else if cmd == "sudo"@ {
        sudo_to_ps(a)
    } else if cmd == "nl"@ {
        Some(nl_to_ps(a))
    } else if cmd == "uptime"@ {
        Some(uptime_ps())
    } else {
        None
    }
}

fn translate_unix_to_ps(cmd: &str, flags: &[String], args: &[String]) -> (r: Option<String>)
    ensures
        opt_view(r) == unix_to_ps(cmd@, views(flags@), views(args@)),
{
    if same(cmd, "find") {
        Some(translate_find_unix_to_ps(flags, args))
    } else if same(cmd, "sed") {
        translate_sed_unix_to_ps(flags, args)
    } else if same(cmd, "awk") {
        translate_awk_unix_to_ps(flags, args)
    } else if same(cmd, "cut") {
        translate_cut_unix_to_ps(flags, args)
    } else if same(cmd, "tr") {
        translate_tr_unix_to_ps(flags, args)
    } else if same(cmd, "head") {
        translate_head_tail_unix_to_ps("head", flags, args)
    } else if same(cmd, "tail") {
        translate_head_tail_unix_to_ps("tail", flags, args)
    } else if same(cmd, "wc") {
        translate_wc_unix_to_ps(flags, args)
    } else if same(cmd, "systemctl") {
        translate_systemctl_unix_to_ps(args)
    } else if same(cmd, "chmod") {
        translate_chmod_unix_to_ps(flags, args)
    } else if same(cmd, "chown") {
        translate_chown_unix_to_ps(args)
    } else if same(cmd, "ln") {
        translate_ln_unix_to_ps(flags, args)
    } else if same(cmd, "xargs") {
        translate_xargs_unix_to_ps(flags, args)
    } else if same(cmd, "du") {
        translate_du_unix_to_ps(flags, args)
    } else if same(cmd, "sleep") {
        translate_sleep_unix_to_ps(args)
    } else if same(cmd, "whoami") {
        Some(owned("$env:USERNAME"))
    } else if same(cmd, "ping") {
        translate_ping_unix_to_ps(args)
    } else if same(cmd, "less") || same(cmd, "more") {
        translate_less_unix_to_ps(flags, args)
    } else if same(cmd, "rmdir") {
        translate_rmdir_unix_to_ps(flags, args)
    } else if same(cmd, "netstat") {
        translate_netstat_unix_to_ps(flags)
    } else if same(cmd, "gzip") {
        translate_gzip_unix_to_ps(flags, args)
    } else if same(cmd, "gunzip") {
        translate_gunzip_unix_to_ps(flags, args)
    } else if same(cmd, "dig") {
        translate_dig_unix_to_ps(flags, args)
    } else if same(cmd, "sudo") {
        translate_sudo_unix_to_ps(args)
    } else if same(cmd, "nl") {
        translate_nl_unix_to_ps(args)
    } else if same(cmd, "uptime") {
        Some(owned("(Get-Date) - (Get-CimInstance Win32_OperatingSystem).LastBootUpTime"))
    } else {
        None
    }
}

} // verus!
