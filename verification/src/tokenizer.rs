//! Shell command tokenizer.
//!
//! Splits a shell command into typed tokens (commands, flags, arguments,
//! operators), keeping the character positions of each token and respecting
//! quoting. Unix (bash/zsh/fish), PowerShell and CMD conventions are covered,
//! including backtick-escaped operators, command substitution, here-documents,
//! process substitution and `${...}` expansion.
//!
//! Positions are character positions in the command.

use vstd::prelude::*;
use crate::text::{
    all_digits, ascii_space, chars_of, contains_char, digit, is_ascii_space, is_digit, match_at,
    has_infix, has_prefix, kept_from, lemma_trimmed_keeps_part, lemma_trimmed_within, matches_at,
    owned, push_char, same, starts_with_char, string_of, trim, trimmed,
};

verus! {

/// A raw token produced by the initial scan.
#[derive(Debug, Clone, PartialEq, Eq)]
pub struct Token {
    pub value: String,
    pub start: usize,
    /// exclusive
    pub end: usize,
    /// `'` or `"` when the token is quoted
    pub quote_type: Option<char>,
}

/// A token with its original text and its reconstructed value.
#[derive(Debug, Clone, PartialEq, Eq)]
pub struct EnhancedToken {
    pub value: String,
    pub start: usize,
    pub end: usize,
    pub original_text: String,
    pub reconstructed_value: String,
    pub needs_reconstruction: bool,
    pub quote_type: Option<char>,
}

/// The role a token plays in a shell command.
#[derive(Debug, Clone, Copy, PartialEq, Eq, Structural)]
pub enum TokenRole {
    Cmd,
    Flag,
    Arg,
    Op,
}

/// A token with its role.
#[derive(Debug, Clone, PartialEq, Eq)]
pub struct RoleToken {
    pub value: String,
    pub start: usize,
    pub end: usize,
    pub original_text: String,
    pub reconstructed_value: String,
    pub needs_reconstruction: bool,
    pub quote_type: Option<char>,
    pub role: TokenRole,
}

impl TokenRole {
    /// The lower-case name of the role, as it is displayed.
    pub fn name(&self) -> (r: &'static str)
        ensures
            r@ == role_name(*self),
    {
        match self {
            TokenRole::Cmd => "cmd",
            TokenRole::Flag => "flag",
            TokenRole::Arg => "arg",
            TokenRole::Op => "op",
        }
    }
}

pub open spec fn role_name(r: TokenRole) -> Seq<char> {
    match r {
        TokenRole::Cmd => "cmd"@,
        TokenRole::Flag => "flag"@,
        TokenRole::Arg => "arg"@,
        TokenRole::Op => "op"@,
    }
}

// ---------------------------------------------------------------------------
// Abstract views
// ---------------------------------------------------------------------------

pub struct TokenV {
    pub value: Seq<char>,
    pub start: int,
    pub end: int,
    pub quote: Option<char>,
}

pub struct EnhV {
    pub value: Seq<char>,
    pub start: int,
    pub end: int,
    pub original: Seq<char>,
    pub rebuilt: Seq<char>,
    pub needs: bool,
    pub quote: Option<char>,
}

pub struct RoleV {
    pub token: EnhV,
    pub role: TokenRole,
}

impl View for Token {
    type V = TokenV;

    open spec fn view(&self) -> TokenV {
        TokenV {
            value: self.value@,
            start: self.start as int,
            end: self.end as int,
            quote: self.quote_type,
        }
    }
}

impl View for EnhancedToken {
    type V = EnhV;

    open spec fn view(&self) -> EnhV {
        EnhV {
            value: self.value@,
            start: self.start as int,
            end: self.end as int,
            original: self.original_text@,
            rebuilt: self.reconstructed_value@,
            needs: self.needs_reconstruction,
            quote: self.quote_type,
        }
    }
}

impl View for RoleToken {
    type V = RoleV;

    open spec fn view(&self) -> RoleV {
        RoleV {
            token: EnhV {
                value: self.value@,
                start: self.start as int,
                end: self.end as int,
                original: self.original_text@,
                rebuilt: self.reconstructed_value@,
                needs: self.needs_reconstruction,
                quote: self.quote_type,
            },
            role: self.role,
        }
    }
}

pub open spec fn token_views(ts: Seq<Token>) -> Seq<TokenV> {
    ts.map_values(|t: Token| t@)
}

pub open spec fn enh_views(ts: Seq<EnhancedToken>) -> Seq<EnhV> {
    ts.map_values(|t: EnhancedToken| t@)
}

pub open spec fn role_views(ts: Seq<RoleToken>) -> Seq<RoleV> {
    ts.map_values(|t: RoleToken| t@)
}

// ---------------------------------------------------------------------------
// Character classes and operators
// ---------------------------------------------------------------------------

pub open spec fn is_op_start(c: char) -> bool {
    c == '<' || c == '>' || c == '|' || c == '&' || c == ';' || c == '(' || c == ')' || c == '{'
        || c == '}'
}

fn is_operator_start(c: char) -> (r: bool)
    ensures
        r == is_op_start(c),
{
    c == '<' || c == '>' || c == '|' || c == '&' || c == ';' || c == '(' || c == ')' || c == '{'
        || c == '}'
}

/// The first shell operator, in the order `&& || |& << >> | ; < > ( ) { }`,
/// that the command shows at position `i`.
pub open spec fn first_op(cs: Seq<char>, i: int) -> Option<Seq<char>> {
    if matches_at(cs, i, "&&"@) {
        Some("&&"@)
    } else if matches_at(cs, i, "||"@) {
        Some("||"@)
    } else if matches_at(cs, i, "|&"@) {
        Some("|&"@)
    } else if matches_at(cs, i, "<<"@) {
        Some("<<"@)
    } else if matches_at(cs, i, ">>"@) {
        Some(">>"@)
    } else if matches_at(cs, i, "|"@) {
        Some("|"@)
    } else if matches_at(cs, i, ";"@) {
        Some(";"@)
    } else if matches_at(cs, i, "<"@) {
        Some("<"@)
    } else if matches_at(cs, i, ">"@) {
        Some(">"@)
    } else if matches_at(cs, i, "("@) {
        Some("("@)
    } else if matches_at(cs, i, ")"@) {
        Some(")"@)
    } else if matches_at(cs, i, "{"@) {
        Some("{"@)
    } else if matches_at(cs, i, "}"@) {
        Some("}"@)
    } else {
        None
    }
}

fn lit_at(cs: &Vec<char>, i: usize, lit: &str) -> (r: bool)
    ensures
        r == matches_at(cs@, i as int, lit@),
{
    let ls = chars_of(lit);
    match_at(cs, i, &ls)
}

/// The operator at position `i`, if one starts there.
fn extract_operator_at(cs: &Vec<char>, i: usize) -> (r: Option<&'static str>)
    ensures
        r matches Some(op) ==> first_op(cs@, i as int) == Some(op@),
        r is None ==> first_op(cs@, i as int) is None,
{
    if lit_at(cs, i, "&&") {
        Some("&&")
    } else if lit_at(cs, i, "||") {
        Some("||")
    } else if lit_at(cs, i, "|&") {
        Some("|&")
    } else if lit_at(cs, i, "<<") {
        Some("<<")
    } else if lit_at(cs, i, ">>") {
        Some(">>")
    } else if lit_at(cs, i, "|") {
        Some("|")
    } else if lit_at(cs, i, ";") {
        Some(";")
    } else if lit_at(cs, i, "<") {
        Some("<")
    } else if lit_at(cs, i, ">") {
        Some(">")
    } else if lit_at(cs, i, "(") {
        Some("(")
    } else if lit_at(cs, i, ")") {
        Some(")")
    } else if lit_at(cs, i, "{") {
        Some("{")
    } else if lit_at(cs, i, "}") {
        Some("}")
    } else {
        None
    }
}

// ---------------------------------------------------------------------------
// The scan
// ---------------------------------------------------------------------------

/// The first position at or after `i` that is not ASCII white space.
pub open spec fn skip_space(cs: Seq<char>, i: int) -> int
    decreases cs.len() - i,
{
    if 0 <= i < cs.len() && is_ascii_space(cs[i]) {
        skip_space(cs, i + 1)
    } else {
        i
    }
}

/// The first position at or after `i` that holds the quote `q` (or the end).
pub open spec fn quote_close(cs: Seq<char>, i: int, q: char) -> int
    decreases cs.len() - i,
{
    if 0 <= i < cs.len() && cs[i] != q {
        quote_close(cs, i + 1, q)
    } else {
        i
    }
}

/// The end of a plain word: the first white space or operator character.
pub open spec fn word_end(cs: Seq<char>, i: int) -> int
    decreases cs.len() - i,
{
    if 0 <= i < cs.len() && !is_ascii_space(cs[i]) && !is_op_start(cs[i]) {
        word_end(cs, i + 1)
    } else {
        i
    }
}

/// Where the token that starts at `s` ends, before the rule that every
/// token takes at least one character.
pub open spec fn raw_end(cs: Seq<char>, s: int) -> int {
    let n = cs.len() as int;
    let c = cs[s];
    if c == '\'' || c == '"' {
        let k = quote_close(cs, s + 1, c);
        if k < n {
            k + 1
        } else {
            n
        }
    } else if c == '\\' && s + 1 < n && is_op_start(cs[s + 1]) {
        s + 2
    } else if c == '`' && s + 1 < n && is_op_start(cs[s + 1]) {
        if (cs[s + 1] == '&' && s + 2 < n && cs[s + 2] == '`' && s + 3 < n && cs[s + 3] == '&')
            || (cs[s + 1] == '|' && s + 2 < n && cs[s + 2] == '`' && s + 3 < n && cs[s + 3]
            == '|') {
            s + 4
        } else {
            s + 2
        }
    } else {
        match first_op(cs, s) {
            Some(op) => s + op.len(),
            None => word_end(cs, s),
        }
    }
}

/// Where the token that starts at `s` ends (exclusive).
pub open spec fn scan_end(cs: Seq<char>, s: int) -> int {
    let e = raw_end(cs, s);
    if e == s {
        s + 1
    } else {
        e
    }
}

pub open spec fn quote_of(cs: Seq<char>, s: int) -> Option<char> {
    if cs[s] == '\'' || cs[s] == '"' {
        Some(cs[s])
    } else {
        None
    }
}

/// The tokens of `cs` from position `i` on.
pub open spec fn tokens_from(cs: Seq<char>, i: int) -> Seq<TokenV>
    decreases cs.len() - i,
{
    let s = skip_space(cs, i);
    if 0 <= i <= s < cs.len() {
        let e = scan_end(cs, s);
        if s < e <= cs.len() {
            seq![TokenV { value: cs.subrange(s, e), start: s, end: e, quote: quote_of(cs, s) }]
                + tokens_from(cs, e)
        } else {
            Seq::empty()
        }
    } else {
        Seq::empty()
    }
}

/// The tokens of a command.
pub open spec fn tokens(cs: Seq<char>) -> Seq<TokenV> {
    tokens_from(cs, 0)
}

proof fn lemma_skip_space(cs: Seq<char>, i: int)
    requires
        0 <= i <= cs.len(),
    ensures
        i <= skip_space(cs, i) <= cs.len(),
        forall|q: int| i <= q < skip_space(cs, i) ==> is_ascii_space(#[trigger] cs[q]),
        skip_space(cs, i) < cs.len() ==> !is_ascii_space(cs[skip_space(cs, i)]),
    decreases cs.len() - i,
{
    if i < cs.len() && is_ascii_space(cs[i]) {
        lemma_skip_space(cs, i + 1);
    }
}

proof fn lemma_quote_close(cs: Seq<char>, i: int, q: char)
    requires
        0 <= i <= cs.len(),
    ensures
        i <= quote_close(cs, i, q) <= cs.len(),
        quote_close(cs, i, q) < cs.len() ==> cs[quote_close(cs, i, q)] == q,
    decreases cs.len() - i,
{
    if i < cs.len() && cs[i] != q {
        lemma_quote_close(cs, i + 1, q);
    }
}

proof fn lemma_word_end(cs: Seq<char>, i: int)
    requires
        0 <= i <= cs.len(),
    ensures
        i <= word_end(cs, i) <= cs.len(),
    decreases cs.len() - i,
{
    if i < cs.len() && !is_ascii_space(cs[i]) && !is_op_start(cs[i]) {
        lemma_word_end(cs, i + 1);
    }
}

proof fn lemma_scan_end(cs: Seq<char>, s: int)
    requires
        0 <= s < cs.len(),
    ensures
        s < scan_end(cs, s) <= cs.len(),
{
    let c = cs[s];
    if c == '\'' || c == '"' {
        lemma_quote_close(cs, s + 1, c);
    } else if c == '\\' && s + 1 < cs.len() && is_op_start(cs[s + 1]) {
    } else if c == '`' && s + 1 < cs.len() && is_op_start(cs[s + 1]) {
    } else {
        match first_op(cs, s) {
            Some(op) => {},
            None => lemma_word_end(cs, s),
        }
    }
}

fn skip_spaces(cs: &Vec<char>, i: usize) -> (r: usize)
    requires
        i <= cs.len(),
    ensures
        r == skip_space(cs@, i as int),
{
    let mut k = i;
    while k < cs.len() && ascii_space(cs[k])
        invariant
            i <= k <= cs.len(),
            skip_space(cs@, i as int) == skip_space(cs@, k as int),
        decreases cs.len() - k,
    {
        k += 1;
    }
    k
}

fn quote_end(cs: &Vec<char>, i: usize, q: char) -> (r: usize)
    requires
        i <= cs.len(),
    ensures
        r == quote_close(cs@, i as int, q),
{
    let mut k = i;
    while k < cs.len() && cs[k] != q
        invariant
            i <= k <= cs.len(),
            quote_close(cs@, i as int, q) == quote_close(cs@, k as int, q),
        decreases cs.len() - k,
    {
        k += 1;
    }
    k
}

fn plain_end(cs: &Vec<char>, i: usize) -> (r: usize)
    requires
        i <= cs.len(),
    ensures
        r == word_end(cs@, i as int),
{
    let mut k = i;
    while k < cs.len() && !ascii_space(cs[k]) && !is_operator_start(cs[k])
        invariant
            i <= k <= cs.len(),
            word_end(cs@, i as int) == word_end(cs@, k as int),
        decreases cs.len() - k,
    {
        k += 1;
    }
    k
}

fn token_end(cs: &Vec<char>, s: usize) -> (e: usize)
    requires
        s < cs.len(),
    ensures
        e == scan_end(cs@, s as int),
{
    let n = cs.len();
    let c = cs[s];
    let e = if c == '\'' || c == '"' {
        let k = quote_end(cs, s + 1, c);
        if k < n {
            k + 1
        } else {
            n
        }
    } else if c == '\\' && s + 1 < n && is_operator_start(cs[s + 1]) {
        s + 2
    } else if c == '`' && s + 1 < n && is_operator_start(cs[s + 1]) {
        if (cs[s + 1] == '&' && s + 2 < n && cs[s + 2] == '`' && s + 3 < n && cs[s + 3] == '&')
            || (cs[s + 1] == '|' && s + 2 < n && cs[s + 2] == '`' && s + 3 < n && cs[s + 3]
            == '|') {
            s + 4
        } else {
            s + 2
        }
    } else {
        match extract_operator_at(cs, s) {
            Some(op) => {
                let ops = chars_of(op);
                s + ops.len()
            },
            None => plain_end(cs, s),
        }
    };
    if e == s {
        s + 1
    } else {
        e
    }
}

/// Tokenize a command into `Token`s with their positions.
///
/// Handles quoted strings (`'...'`, `"..."`), backslash-escaped operators
/// (`\&&`), PowerShell backtick-escaped operators (`` `&`& ``) and the shell
/// operators `&& || |& << >> | ; < > ( ) { }`.
pub fn tokenize_with_pos(cmd: &str) -> (r: Vec<Token>)
    ensures
        token_views(r@) == tokens(cmd@),
{
    let cs = chars_of(cmd);
    let n = cs.len();
    let mut out: Vec<Token> = Vec::new();
    let mut i: usize = 0;
    while i < n
        invariant
            i <= n == cs@.len(),
            cs@ == cmd@,
            tokens(cs@) == token_views(out@) + tokens_from(cs@, i as int),
        decreases n - i,
    {
        proof {
            lemma_skip_space(cs@, i as int);
        }
        let s = skip_spaces(&cs, i);
        if s >= n {
            assert(tokens_from(cs@, i as int) =~= Seq::<TokenV>::empty());
            assert(token_views(out@) + tokens_from(cs@, i as int) =~= token_views(out@));
            assert(tokens_from(cs@, n as int) =~= Seq::<TokenV>::empty());
            assert(token_views(out@) =~= token_views(out@) + tokens_from(cs@, n as int));
            i = n;
        } else {
            proof {
                lemma_scan_end(cs@, s as int);
            }
            let e = token_end(&cs, s);
            let value = string_of(&cs, s, e);
            let q = if cs[s] == '\'' || cs[s] == '"' {
                Some(cs[s])
            } else {
                None
            };
            let t = Token { value, start: s, end: e, quote_type: q };
            let ghost before = out@;
            out.push(t);
            proof {
                assert(token_views(out@) =~= token_views(before).push(t@));
                assert(tokens_from(cs@, i as int) == seq![t@] + tokens_from(cs@, e as int));
                assert(token_views(before) + (seq![t@] + tokens_from(cs@, e as int))
                    =~= token_views(before).push(t@) + tokens_from(cs@, e as int));
            }
            i = e;
        }
    }
    proof {
        lemma_skip_space(cs@, n as int);
        assert(tokens_from(cs@, n as int) =~= Seq::<TokenV>::empty());
        assert(token_views(out@) + tokens_from(cs@, n as int) =~= token_views(out@));
    }
    out
}

// ---------------------------------------------------------------------------
// Ordering of positions
// ---------------------------------------------------------------------------

/// Tokens lie inside `[0, n]` and follow each other without overlapping.
pub open spec fn ordered(ts: Seq<EnhV>, n: int) -> bool {
    &&& forall|k: int| 0 <= k < ts.len() ==> 0 <= #[trigger] ts[k].start <= ts[k].end <= n
    &&& forall|k: int, l: int|
        0 <= k < l < ts.len() ==> #[trigger] ts[k].end <= #[trigger] ts[l].start
}

pub open spec fn nonempty_values(ts: Seq<EnhV>) -> bool {
    forall|k: int| 0 <= k < ts.len() ==> (#[trigger] ts[k]).value.len() > 0
}

/// The total number of characters in the values of `ts`.
pub open spec fn total_len(ts: Seq<EnhV>) -> int
    decreases ts.len(),
{
    if ts.len() == 0 {
        0
    } else {
        ts[0].value.len() + total_len(ts.drop_first())
    }
}

proof fn lemma_total_len_add(a: Seq<EnhV>, b: Seq<EnhV>)
    ensures
        total_len(a + b) == total_len(a) + total_len(b),
    decreases a.len(),
{
    if a.len() > 0 {
        assert((a + b).drop_first() =~= a.drop_first() + b);
        lemma_total_len_add(a.drop_first(), b);
    } else {
        assert(a + b =~= b);
    }
}

proof fn lemma_total_len_nonneg(a: Seq<EnhV>)
    ensures
        total_len(a) >= 0,
        nonempty_values(a) ==> total_len(a) >= a.len(),
    decreases a.len(),
{
    if a.len() > 0 {
        lemma_total_len_nonneg(a.drop_first());
        if nonempty_values(a) {
            assert(nonempty_values(a.drop_first())) by {
                assert forall|k: int| 0 <= k < a.drop_first().len() implies (
                #[trigger] a.drop_first()[k]).value.len() > 0 by {
                    assert(a.drop_first()[k] == a[k + 1]);
                }
            }
            assert(a[0].value.len() > 0);
        }
    }
}

/// `total_len` over a range of `ts` is at most `total_len(ts)`.
proof fn lemma_total_len_range(ts: Seq<EnhV>, a: int, b: int)
    requires
        0 <= a <= b <= ts.len(),
    ensures
        total_len(ts.subrange(a, b)) <= total_len(ts),
{
    assert(ts =~= ts.subrange(0, a) + ts.subrange(a, b) + ts.subrange(b, ts.len() as int));
    lemma_total_len_add(ts.subrange(0, a) + ts.subrange(a, b), ts.subrange(b, ts.len() as int));
    lemma_total_len_add(ts.subrange(0, a), ts.subrange(a, b));
    lemma_total_len_nonneg(ts.subrange(0, a));
    lemma_total_len_nonneg(ts.subrange(b, ts.len() as int));
}

// ---------------------------------------------------------------------------
// Enhanced tokens: reconstruction of shell constructs
// ---------------------------------------------------------------------------

pub open spec fn basic_enhanced(t: TokenV, cs: Seq<char>) -> EnhV {
    EnhV {
        value: t.value,
        start: t.start,
        end: t.end,
        original: cs.subrange(t.start, t.end),
        rebuilt: t.value,
        needs: false,
        quote: t.quote,
    }
}

pub open spec fn to_enhanced(ts: Seq<TokenV>, cs: Seq<char>) -> Seq<EnhV> {
    ts.map_values(|t: TokenV| basic_enhanced(t, cs))
}

/// The values of `ts[a..b]`, each followed by a space.
pub open spec fn spaced_values(ts: Seq<EnhV>, a: int, b: int) -> Seq<char>
    decreases b - a,
{
    if a < b {
        spaced_values(ts, a, b - 1) + ts[b - 1].value.push(' ')
    } else {
        Seq::empty()
    }
}

/// The token that replaces `ts[a..b]`; its text in the command is filled in
/// once all passes have run (`with_command_text`).
pub open spec fn merged(
    ts: Seq<EnhV>,
    a: int,
    b: int,
    value: Seq<char>,
    rebuilt: Seq<char>,
) -> EnhV {
    EnhV {
        value,
        start: ts[a].start,
        end: ts[b - 1].end,
        original: Seq::empty(),
        rebuilt,
        needs: false,
        quote: None,
    }
}

/// Scanning from `j` with parenthesis depth `d`: where the depth drops to 0
/// (or the tokens end), and the depth there.
pub open spec fn paren_close(ts: Seq<EnhV>, j: int, d: int) -> (int, int)
    decreases ts.len() - j,
{
    if 0 <= j < ts.len() && d > 0 {
        let d2 = if ts[j].value == "("@ {
            d + 1
        } else if ts[j].value == ")"@ {
            d - 1
        } else {
            d
        };
        paren_close(ts, j + 1, d2)
    } else {
        (j, d)
    }
}

/// The number of times `c` occurs in `s`.
pub open spec fn count_char(s: Seq<char>, c: char) -> int
    decreases s.len(),
{
    if s.len() == 0 {
        0
    } else {
        count_char(s.drop_last(), c) + if s.last() == c {
            1int
        } else {
            0int
        }
    }
}

pub open spec fn brace_delta(s: Seq<char>) -> int {
    count_char(s, '{') - count_char(s, '}')
}

/// Scanning on from `j` with brace depth `d`: the last token of a `${...}`.
pub open spec fn brace_close(ts: Seq<EnhV>, j: int, d: int) -> (int, int)
    decreases ts.len() - j,
{
    if 0 <= j && j + 1 < ts.len() && d > 0 {
        brace_close(ts, j + 1, d + brace_delta(ts[j + 1].value))
    } else {
        (j, d)
    }
}

/// Characters of a redirection such as `>`, `2>`, `2>&1`, `&>>`.
pub open spec fn is_redirect_char(c: char) -> bool {
    c == '>' || c == '<' || c == '&'
}

/// A redirection token (`>`, `>>`, `<`, `2>`, `2>&1`, `&>`, ...):
/// redirection characters, digits only after a leading digit, and at least
/// one redirection character.
pub open spec fn is_redirection(s: Seq<char>) -> bool {
    &&& s.len() > 0
    &&& forall|k: int| 0 <= k < s.len() ==> is_digit(#[trigger] s[k]) || is_redirect_char(s[k])
    &&& forall|k: int| 0 < k < s.len() && is_digit(#[trigger] s[k]) ==> is_digit(s[0])
    &&& exists|k: int| 0 <= k < s.len() && is_redirect_char(#[trigger] s[k])
}

/// A redirection that a file-descriptor number may be joined to: one that
/// points somewhere, with a `<` or `>` (so the connectors `&&` and `&` are
/// never joined to a number).
pub open spec fn is_fd_redirection(s: Seq<char>) -> bool {
    is_redirection(s) && (s.contains('<') || s.contains('>'))
}

/// The passes of the reconstruction, in the order they run.
#[derive(Clone, Copy, PartialEq, Eq, Structural)]
pub enum Pass {
    CommandSub,
    HereDoc,
    ProcessSub,
    FunctionDef,
    EnvVar,
    Redirect,
    EscapedOp,
}

/// `$( ... )` and `<( ... )`: the opening token `head`, then `(`, up to the
/// matching `)`.
pub open spec fn subst_step(ts: Seq<EnhV>, i: int, head: Seq<char>, opener: Seq<char>, trim: bool) -> (
    EnhV,
    int,
) {
    if ts[i].value == head && i + 1 < ts.len() && ts[i + 1].value == "("@ {
        let (j, d) = paren_close(ts, i + 2, 1);
        if d == 0 && i + 2 < j {
            let body = opener + spaced_values(ts, i + 2, j - 1);
            let rebuilt = if trim {
                trimmed(body).push(')')
            } else {
                body.push(')')
            };
            (merged(ts, i, j, opener, rebuilt), j)
        } else {
            (ts[i], i + 1)
        }
    } else {
        (ts[i], i + 1)
    }
}

pub open spec fn here_doc_step(ts: Seq<EnhV>, i: int) -> (EnhV, int) {
    if ts[i].value == "<"@ && i + 1 < ts.len() && ts[i + 1].value == "<"@ {
        if i + 2 < ts.len() {
            (merged(ts, i, i + 3, "<<"@, "<<"@ + ts[i + 2].value), i + 3)
        } else {
            (merged(ts, i, i + 2, "<<"@, "<<"@), i + 2)
        }
    } else {
        (ts[i], i + 1)
    }
}

pub open spec fn function_def_step(ts: Seq<EnhV>, i: int) -> (EnhV, int) {
    if ts[i].value == "("@ && i + 1 < ts.len() && ts[i + 1].value == ")"@ {
        (merged(ts, i, i + 2, "()"@, "()"@), i + 2)
    } else {
        (ts[i], i + 1)
    }
}

pub open spec fn env_var_step(ts: Seq<EnhV>, i: int) -> (EnhV, int) {
    if ts[i].value == "$"@ && i + 1 < ts.len() && ts[i + 1].value.len() > 0 && ts[i
        + 1].value[0] == '{' {
        let (j, d) = brace_close(ts, i + 1, brace_delta(ts[i + 1].value));
        let rebuilt = trimmed("${"@ + spaced_values(ts, i + 2, j)).push('}');
        (merged(ts, i, j + 1, "${"@, rebuilt), j + 1)
    } else {
        (ts[i], i + 1)
    }
}

pub open spec fn redirect_step(ts: Seq<EnhV>, i: int) -> (EnhV, int) {
    if all_digits(ts[i].value) && i + 1 < ts.len() && is_fd_redirection(ts[i + 1].value) {
        let v = ts[i].value + ts[i + 1].value;
        (merged(ts, i, i + 2, v, v), i + 2)
    } else {
        (ts[i], i + 1)
    }
}

pub open spec fn escaped_step(ts: Seq<EnhV>, i: int) -> (EnhV, int) {
    if ts[i].value.len() > 0 && ts[i].value[0] == '\\' && i + 1 < ts.len() && ts[i
        + 1].value.len() > 0 && is_op_start(ts[i + 1].value[0]) {
        let v = ts[i].value + ts[i + 1].value;
        (merged(ts, i, i + 2, v, v), i + 2)
    } else {
        (ts[i], i + 1)
    }
}

/// One step of pass `p` at index `i`: the token it emits and where it goes on.
pub open spec fn step(p: Pass, ts: Seq<EnhV>, i: int) -> (EnhV, int) {
    match p {
        Pass::CommandSub => subst_step(ts, i, "$"@, "$("@, true),
        Pass::HereDoc => here_doc_step(ts, i),
        Pass::ProcessSub => subst_step(ts, i, "<"@, "<("@, false),
        Pass::FunctionDef => function_def_step(ts, i),
        Pass::EnvVar => env_var_step(ts, i),
        Pass::Redirect => redirect_step(ts, i),
        Pass::EscapedOp => escaped_step(ts, i),
    }
}

pub open spec fn pass_from(p: Pass, ts: Seq<EnhV>, i: int) -> Seq<EnhV>
    decreases ts.len() - i,
{
    if 0 <= i < ts.len() {
        let (t, j) = step(p, ts, i);
        if i < j <= ts.len() {
            seq![t] + pass_from(p, ts, j)
        } else {
            Seq::empty()
        }
    } else {
        Seq::empty()
    }
}

pub open spec fn run_pass(p: Pass, ts: Seq<EnhV>) -> Seq<EnhV> {
    pass_from(p, ts, 0)
}

/// All passes, in order.
pub open spec fn reconstruct(ts: Seq<EnhV>) -> Seq<EnhV> {
    let a = run_pass(Pass::CommandSub, ts);
    let b = run_pass(Pass::HereDoc, a);
    let c = run_pass(Pass::ProcessSub, b);
    let d = run_pass(Pass::FunctionDef, c);
    let e = run_pass(Pass::EnvVar, d);
    let f = run_pass(Pass::Redirect, e);
    run_pass(Pass::EscapedOp, f)
}

/// Each token with its original text: the command's characters between its
/// `start` and its `end`.
pub open spec fn with_command_text(ts: Seq<EnhV>, cs: Seq<char>) -> Seq<EnhV> {
    ts.map_values(
        |t: EnhV|
            EnhV {
                value: t.value,
                start: t.start,
                end: t.end,
                original: cs.subrange(t.start, t.end),
                rebuilt: t.rebuilt,
                needs: t.needs,
                quote: t.quote,
            },
    )
}

/// The enhanced tokens of a command.
pub open spec fn enhanced(cs: Seq<char>) -> Seq<EnhV> {
    with_command_text(reconstruct(to_enhanced(tokens(cs), cs)), cs)
}

// ---------------------------------------------------------------------------
// Shape of the passes
// ---------------------------------------------------------------------------

/// What every step of every pass does: it consumes `ts[i..j]` (at least one
/// token) and emits one token that spans them, whose value is not empty and
/// not longer than the values it replaces.
pub open spec fn step_shape(ts: Seq<EnhV>, i: int, t: EnhV, j: int) -> bool {
    &&& i < j <= ts.len()
    &&& t.start == ts[i].start
    &&& t.end == ts[j - 1].end
    &&& 0 < t.value.len() <= total_len(ts.subrange(i, j))
}

proof fn lemma_total_len_one(ts: Seq<EnhV>, i: int)
    requires
        0 <= i < ts.len(),
    ensures
        total_len(ts.subrange(i, i + 1)) == ts[i].value.len(),
{
    let s = ts.subrange(i, i + 1);
    assert(s.drop_first() =~= Seq::<EnhV>::empty());
    assert(total_len(s.drop_first()) == 0);
}

proof fn lemma_total_len_two(ts: Seq<EnhV>, i: int)
    requires
        0 <= i && i + 1 < ts.len(),
    ensures
        total_len(ts.subrange(i, i + 2)) == ts[i].value.len() + ts[i + 1].value.len(),
{
    let s = ts.subrange(i, i + 2);
    assert(s.drop_first() =~= ts.subrange(i + 1, i + 2));
    lemma_total_len_one(ts, i + 1);
}

/// A range of at least two non-empty values holds at least two characters.
proof fn lemma_total_len_at_least_two(ts: Seq<EnhV>, i: int, j: int)
    requires
        nonempty_values(ts),
        0 <= i && i + 2 <= j <= ts.len(),
    ensures
        total_len(ts.subrange(i, j)) >= 2,
{
    let s = ts.subrange(i, j);
    assert(nonempty_values(s)) by {
        assert forall|k: int| 0 <= k < s.len() implies (#[trigger] s[k]).value.len() > 0 by {
            assert(s[k] == ts[i + k]);
        }
    }
    lemma_total_len_nonneg(s);
}

proof fn lemma_paren_close(ts: Seq<EnhV>, j: int, d: int)
    requires
        0 <= j <= ts.len(),
    ensures
        j <= paren_close(ts, j, d).0 <= ts.len(),
    decreases ts.len() - j,
{
    if j < ts.len() && d > 0 {
        let d2 = if ts[j].value == "("@ {
            d + 1
        } else if ts[j].value == ")"@ {
            d - 1
        } else {
            d
        };
        lemma_paren_close(ts, j + 1, d2);
    }
}

proof fn lemma_brace_close(ts: Seq<EnhV>, j: int, d: int)
    requires
        0 <= j < ts.len(),
    ensures
        j <= brace_close(ts, j, d).0 < ts.len(),
    decreases ts.len() - j,
{
    if j + 1 < ts.len() && d > 0 {
        lemma_brace_close(ts, j + 1, d + brace_delta(ts[j + 1].value));
    }
}

proof fn lemma_step_shape(p: Pass, ts: Seq<EnhV>, i: int)
    requires
        nonempty_values(ts),
        0 <= i < ts.len(),
    ensures
        step_shape(ts, i, step(p, ts, i).0, step(p, ts, i).1),
{
    let (t, j) = step(p, ts, i);
    assert(ts[i].value.len() > 0);
    lemma_total_len_one(ts, i);
    reveal_strlit("$(");
    reveal_strlit("<(");
    reveal_strlit("<<");
    reveal_strlit("()");
    reveal_strlit("${");
    match p {
        Pass::CommandSub | Pass::ProcessSub => {
            if i + 1 < ts.len() {
                lemma_paren_close(ts, i + 2, 1);
            }
            if j > i + 1 {
                lemma_total_len_at_least_two(ts, i, j);
            }
        },
        Pass::HereDoc | Pass::FunctionDef => {
            if j > i + 1 {
                lemma_total_len_at_least_two(ts, i, j);
            }
        },
        Pass::EnvVar => {
            if i + 1 < ts.len() {
                lemma_brace_close(ts, i + 1, brace_delta(ts[i + 1].value));
            }
            if j > i + 1 {
                lemma_total_len_at_least_two(ts, i, j);
            }
        },
        Pass::Redirect | Pass::EscapedOp => {
            if j > i + 1 {
                lemma_total_len_two(ts, i);
            }
        },
    }
}

proof fn lemma_pass_shape(p: Pass, ts: Seq<EnhV>, n: int, i: int)
    requires
        ordered(ts, n),
        nonempty_values(ts),
        0 <= i <= ts.len(),
    ensures
        ordered(pass_from(p, ts, i), n),
        nonempty_values(pass_from(p, ts, i)),
        total_len(pass_from(p, ts, i)) <= total_len(ts.subrange(i, ts.len() as int)),
        i < ts.len() ==> forall|k: int|
            0 <= k < pass_from(p, ts, i).len() ==> #[trigger] pass_from(p, ts, i)[k].start
                >= ts[i].start,
    decreases ts.len() - i,
{
    let out = pass_from(p, ts, i);
    if i < ts.len() {
        lemma_step_shape(p, ts, i);
        let (t, j) = step(p, ts, i);
        let rest = pass_from(p, ts, j);
        lemma_pass_shape(p, ts, n, j);
        assert(out == seq![t] + rest);
        assert(out[0] == t);
        assert(0 <= ts[j - 1].start);
        assert(ts[j - 1].end <= n);
        assert(ts[i].start <= t.end) by {
            if i < j - 1 {
                assert(ts[i].end <= ts[j - 1].start);
            }
        }
        if j < ts.len() {
            assert(t.end <= ts[j].start) by {
                assert(ts[j - 1].end <= ts[j].start);
            }
        }
        assert forall|k: int, l: int| 0 <= k < l < out.len() implies #[trigger] out[k].end
            <= #[trigger] out[l].start by {
            if k == 0 {
                assert(out[l] == rest[l - 1]);
            } else {
                assert(out[k] == rest[k - 1]);
                assert(out[l] == rest[l - 1]);
            }
        }
        assert forall|k: int| 0 <= k < out.len() implies 0 <= #[trigger] out[k].start
            <= out[k].end <= n by {
            if k > 0 {
                assert(out[k] == rest[k - 1]);
            }
        }
        assert forall|k: int| 0 <= k < out.len() implies (#[trigger] out[k]).value.len() > 0 by {
            if k > 0 {
                assert(out[k] == rest[k - 1]);
            }
        }
        assert forall|k: int| 0 <= k < out.len() implies #[trigger] out[k].start
            >= ts[i].start by {
            if k > 0 {
                assert(out[k] == rest[k - 1]);
                if j < ts.len() {
                    assert(ts[i].start <= ts[j].start) by {
                        assert(ts[i].end <= ts[j].start);
                    }
                }
            }
        }
        assert(out.drop_first() =~= rest);
        assert(ts.subrange(i, ts.len() as int) =~= ts.subrange(i, j) + ts.subrange(
            j,
            ts.len() as int,
        ));
        lemma_total_len_add(ts.subrange(i, j), ts.subrange(j, ts.len() as int));
    } else {
        assert(out =~= Seq::<EnhV>::empty());
        lemma_total_len_nonneg(ts.subrange(i, ts.len() as int));
    }
}

/// Whether position `p` lies inside one of the tokens.
pub open spec fn in_some_token(ts: Seq<TokenV>, p: int) -> bool {
    exists|k: int| 0 <= k < ts.len() && ts[k].start <= p < #[trigger] ts[k].end
}

proof fn lemma_tokens_from_cover(cs: Seq<char>, i: int)
    requires
        0 <= i <= cs.len(),
    ensures
        forall|k: int|
            0 <= k < tokens_from(cs, i).len() ==> i <= (#[trigger] tokens_from(cs, i)[k]).start
                < tokens_from(cs, i)[k].end <= cs.len() && tokens_from(cs, i)[k].value
                == cs.subrange(tokens_from(cs, i)[k].start, tokens_from(cs, i)[k].end),
        forall|k: int, l: int|
            0 <= k < l < tokens_from(cs, i).len() ==> (#[trigger] tokens_from(cs, i)[k]).end
                <= (#[trigger] tokens_from(cs, i)[l]).start,
        forall|p: int|
            i <= p < cs.len() && !in_some_token(tokens_from(cs, i), p) ==> is_ascii_space(
                #[trigger] cs[p],
            ),
    decreases cs.len() - i,
{
    let ts = tokens_from(cs, i);
    lemma_skip_space(cs, i);
    let s = skip_space(cs, i);
    if s < cs.len() {
        lemma_scan_end(cs, s);
        let e = scan_end(cs, s);
        let t = TokenV { value: cs.subrange(s, e), start: s, end: e, quote: quote_of(cs, s) };
        lemma_tokens_from_cover(cs, e);
        let rest = tokens_from(cs, e);
        assert(ts == seq![t] + rest);
        assert forall|k: int| 0 < k < ts.len() implies #[trigger] ts[k] == rest[k - 1] by {}
        assert forall|k: int, l: int| 0 <= k < l < ts.len() implies (#[trigger] ts[k]).end
            <= (#[trigger] ts[l]).start by {
            assert(ts[l] == rest[l - 1]);
            if k > 0 {
                assert(ts[k] == rest[k - 1]);
            }
        }
        assert forall|p: int| i <= p < cs.len() && !in_some_token(ts, p) implies is_ascii_space(
            #[trigger] cs[p],
        ) by {
            if p >= e {
                if in_some_token(rest, p) {
                    let k = choose|k: int| 0 <= k < rest.len() && rest[k].start <= p < #[trigger] rest[k].end;
                    assert(ts[k + 1] == rest[k]);
                    assert(in_some_token(ts, p));
                }
            } else if p >= s {
                assert(ts[0] == t);
                assert(ts[0].start <= p < ts[0].end);
                assert(in_some_token(ts, p));
            }
        }
    } else {
        assert(ts =~= Seq::<TokenV>::empty());
    }
}

/// The raw tokens lie inside the command, in order, each non-empty and equal
/// to the command's characters between its `start` and its `end`; every
/// character outside them is ASCII white space.
pub proof fn lemma_tokens_cover_command(cs: Seq<char>)
    ensures
        forall|k: int|
            0 <= k < tokens(cs).len() ==> 0 <= (#[trigger] tokens(cs)[k]).start
                < tokens(cs)[k].end <= cs.len() && tokens(cs)[k].value == cs.subrange(
                tokens(cs)[k].start,
                tokens(cs)[k].end,
            ),
        forall|k: int, l: int|
            0 <= k < l < tokens(cs).len() ==> (#[trigger] tokens(cs)[k]).end
                <= (#[trigger] tokens(cs)[l]).start,
        forall|p: int|
            0 <= p < cs.len() && !in_some_token(tokens(cs), p) ==> is_ascii_space(#[trigger] cs[p]),
{
    lemma_tokens_from_cover(cs, 0);
}

/// A command has no tokens exactly when it is blank (ASCII white space only).
pub proof fn lemma_no_tokens_iff_blank(cs: Seq<char>)
    ensures
        tokens(cs).len() == 0 <==> forall|p: int| 0 <= p < cs.len() ==> is_ascii_space(#[trigger] cs[p]),
{
    lemma_tokens_from_cover(cs, 0);
    lemma_skip_space(cs, 0);
    if tokens(cs).len() == 0 {
        assert forall|p: int| 0 <= p < cs.len() implies is_ascii_space(#[trigger] cs[p]) by {
            assert(!in_some_token(tokens(cs), p));
        }
    } else {
        assert(!is_ascii_space(cs[skip_space(cs, 0)]));
    }
}

proof fn lemma_basic_shape(cs: Seq<char>, i: int)
    requires
        0 <= i <= cs.len(),
    ensures
        ordered(to_enhanced(tokens_from(cs, i), cs), cs.len() as int),
        nonempty_values(to_enhanced(tokens_from(cs, i), cs)),
        total_len(to_enhanced(tokens_from(cs, i), cs)) <= cs.len() - i,
        forall|k: int|
            0 <= k < to_enhanced(tokens_from(cs, i), cs).len() ==> #[trigger] to_enhanced(
                tokens_from(cs, i),
                cs,
            )[k].start >= i,
    decreases cs.len() - i,
{
    let out = to_enhanced(tokens_from(cs, i), cs);
    lemma_skip_space(cs, i);
    let s = skip_space(cs, i);
    if s < cs.len() {
        lemma_scan_end(cs, s);
        let e = scan_end(cs, s);
        let t = TokenV { value: cs.subrange(s, e), start: s, end: e, quote: quote_of(cs, s) };
        lemma_basic_shape(cs, e);
        let rest = to_enhanced(tokens_from(cs, e), cs);
        assert(tokens_from(cs, i) == seq![t] + tokens_from(cs, e));
        assert(out =~= seq![basic_enhanced(t, cs)] + rest);
        assert forall|k: int, l: int| 0 <= k < l < out.len() implies #[trigger] out[k].end
            <= #[trigger] out[l].start by {
            assert(out[l] == rest[l - 1]);
            if k > 0 {
                assert(out[k] == rest[k - 1]);
            }
        }
        assert forall|k: int| 0 <= k < out.len() implies 0 <= #[trigger] out[k].start
            <= out[k].end <= cs.len() by {
            if k > 0 {
                assert(out[k] == rest[k - 1]);
            }
        }
        assert forall|k: int| 0 <= k < out.len() implies (#[trigger] out[k]).value.len() > 0 by {
            if k > 0 {
                assert(out[k] == rest[k - 1]);
            }
        }
        assert forall|k: int| 0 <= k < out.len() implies #[trigger] out[k].start >= i by {
            if k > 0 {
                assert(out[k] == rest[k - 1]);
            }
        }
        assert(out.drop_first() =~= rest);
    } else {
        assert(out =~= Seq::<EnhV>::empty());
    }
}

/// The tokens of the enhanced tokenizer lie inside the command, in order,
/// without overlapping, and none of them is empty.
pub proof fn lemma_enhanced_ordered(cs: Seq<char>)
    ensures
        ordered(enhanced(cs), cs.len() as int),
        nonempty_values(enhanced(cs)),
{
    lemma_enhanced_shape(cs);
    let r = reconstruct(to_enhanced(tokens(cs), cs));
    let e = enhanced(cs);
    assert forall|k: int| 0 <= k < e.len() implies #[trigger] e[k].start == r[k].start && e[k].end
        == r[k].end && e[k].value == r[k].value by {}
}

proof fn lemma_enhanced_shape(cs: Seq<char>)
    ensures
        ordered(reconstruct(to_enhanced(tokens(cs), cs)), cs.len() as int),
        nonempty_values(reconstruct(to_enhanced(tokens(cs), cs))),
        total_len(reconstruct_until_env(to_enhanced(tokens(cs), cs))) <= cs.len(),
        ordered(reconstruct_until_env(to_enhanced(tokens(cs), cs)), cs.len() as int),
        nonempty_values(reconstruct_until_env(to_enhanced(tokens(cs), cs))),
{
    let n = cs.len() as int;
    let t0 = to_enhanced(tokens(cs), cs);
    lemma_basic_shape(cs, 0);
    let a = run_pass(Pass::CommandSub, t0);
    lemma_pass_shape(Pass::CommandSub, t0, n, 0);
    assert(t0.subrange(0, t0.len() as int) =~= t0);
    let b = run_pass(Pass::HereDoc, a);
    lemma_pass_shape(Pass::HereDoc, a, n, 0);
    assert(a.subrange(0, a.len() as int) =~= a);
    let c = run_pass(Pass::ProcessSub, b);
    lemma_pass_shape(Pass::ProcessSub, b, n, 0);
    assert(b.subrange(0, b.len() as int) =~= b);
    let d = run_pass(Pass::FunctionDef, c);
    lemma_pass_shape(Pass::FunctionDef, c, n, 0);
    assert(c.subrange(0, c.len() as int) =~= c);
    let e = run_pass(Pass::EnvVar, d);
    lemma_pass_shape(Pass::EnvVar, d, n, 0);
    let f = run_pass(Pass::Redirect, e);
    lemma_pass_shape(Pass::Redirect, e, n, 0);
    lemma_pass_shape(Pass::EscapedOp, f, n, 0);
}

/// The first four passes, whose result the `${...}` pass reads.
pub open spec fn reconstruct_until_env(ts: Seq<EnhV>) -> Seq<EnhV> {
    let a = run_pass(Pass::CommandSub, ts);
    let b = run_pass(Pass::HereDoc, a);
    let c = run_pass(Pass::ProcessSub, b);
    run_pass(Pass::FunctionDef, c)
}

// ---------------------------------------------------------------------------
// The passes, executable
// ---------------------------------------------------------------------------

fn copy_enhanced(t: &EnhancedToken) -> (r: EnhancedToken)
    ensures
        r@ == t@,
{
    EnhancedToken {
        value: t.value.clone(),
        start: t.start,
        end: t.end,
        original_text: t.original_text.clone(),
        reconstructed_value: t.reconstructed_value.clone(),
        needs_reconstruction: t.needs_reconstruction,
        quote_type: t.quote_type,
    }
}

fn spaced_values_of(ts: &Vec<EnhancedToken>, a: usize, b: usize) -> (r: String)
    requires
        b <= ts.len(),
    ensures
        r@ == spaced_values(enh_views(ts@), a as int, b as int),
{
    let ghost v = enh_views(ts@);
    let mut r = String::new();
    if a >= b {
        return r;
    }
    let mut k = a;
    while k < b
        invariant
            a <= k <= b <= ts.len(),
            v == enh_views(ts@),
            r@ == spaced_values(v, a as int, k as int),
        decreases b - k,
    {
        let ghost before = r@;
        r.append(ts[k].value.as_str());
        push_char(&mut r, ' ');
        assert(v[k as int] == ts@[k as int]@);
        assert(r@ =~= before + v[k as int].value.push(' '));
        k += 1;
    }
    r
}

fn merged_of(
    ts: &Vec<EnhancedToken>,
    a: usize,
    b: usize,
    value: String,
    rebuilt: String,
) -> (r: EnhancedToken)
    requires
        a < b <= ts.len(),
    ensures
        r@ == merged(enh_views(ts@), a as int, b as int, value@, rebuilt@),
{
    proof {
        assert(enh_views(ts@)[a as int] == ts@[a as int]@);
        assert(enh_views(ts@)[b - 1] == ts@[b - 1]@);
    }
    EnhancedToken {
        value,
        start: ts[a].start,
        end: ts[b - 1].end,
        original_text: String::new(),
        reconstructed_value: rebuilt,
        needs_reconstruction: false,
        quote_type: None,
    }
}

fn value_is(ts: &Vec<EnhancedToken>, i: usize, lit: &str) -> (r: bool)
    requires
        i < ts.len(),
    ensures
        r == (enh_views(ts@)[i as int].value == lit@),
{
    same(ts[i].value.as_str(), lit)
}

fn paren_scan(ts: &Vec<EnhancedToken>, j0: usize) -> (r: (usize, usize))
    requires
        1 <= j0 <= ts.len(),
    ensures
        (r.0 as int, r.1 as int) == paren_close(enh_views(ts@), j0 as int, 1),
{
    let ghost v = enh_views(ts@);
    let mut j = j0;
    let mut d: usize = 1;
    while j < ts.len() && d > 0
        invariant
            1 <= j0 <= j <= ts.len(),
            v == enh_views(ts@),
            d <= 1 + j - j0,
            paren_close(v, j0 as int, 1) == paren_close(v, j as int, d as int),
        decreases ts.len() - j,
    {
        if value_is(ts, j, "(") {
            d = d + 1;
        } else if value_is(ts, j, ")") {
            d = d - 1;
        }
        j += 1;
    }
    (j, d)
}

fn count_in(s: &str, c: char) -> (r: usize)
    ensures
        r as int == count_char(s@, c),
        r <= s@.len(),
{
    let cs = chars_of(s);
    let mut r: usize = 0;
    let mut k: usize = 0;
    while k < cs.len()
        invariant
            k <= cs.len(),
            cs@ == s@,
            r <= k,
            r as int == count_char(cs@.take(k as int), c),
        decreases cs.len() - k,
    {
        assert(cs@.take(k + 1).drop_last() =~= cs@.take(k as int));
        if cs[k] == c {
            r += 1;
        }
        k += 1;
    }
    assert(cs@.take(cs.len() as int) =~= cs@);
    r
}

/// The brace depth after scanning `${...}` from token `j0`: where it ends.
fn brace_scan(ts: &Vec<EnhancedToken>, j0: usize) -> (r: usize)
    requires
        j0 < ts.len(),
        total_len(enh_views(ts@)) <= usize::MAX,
    ensures
        r as int == brace_close(
            enh_views(ts@),
            j0 as int,
            brace_delta(enh_views(ts@)[j0 as int].value),
        ).0,
{
    let ghost v = enh_views(ts@);
    assert(v[j0 as int] == ts@[j0 as int]@);
    let opens = count_in(ts[j0].value.as_str(), '{');
    let closes = count_in(ts[j0].value.as_str(), '}');
    let mut d: i128 = opens as i128 - closes as i128;
    let mut j = j0;
    proof {
        lemma_total_len_one(v, j0 as int);
        lemma_total_len_range(v, j0 as int, j0 + 1);
    }
    while j + 1 < ts.len() && d > 0
        invariant
            j0 <= j < ts.len(),
            v == enh_views(ts@),
            total_len(v) <= usize::MAX,
            total_len(v.subrange(j0 as int, j + 1)) <= total_len(v),
            -total_len(v.subrange(j0 as int, j + 1)) <= d <= total_len(v.subrange(
                j0 as int,
                j + 1,
            )),
            brace_close(v, j0 as int, brace_delta(v[j0 as int].value)) == brace_close(
                v,
                j as int,
                d as int,
            ),
        decreases ts.len() - j,
    {
        assert(v[j + 1] == ts@[j + 1]@);
        let o = count_in(ts[j + 1].value.as_str(), '{');
        let c = count_in(ts[j + 1].value.as_str(), '}');
        proof {
            assert(v.subrange(j0 as int, j + 2) =~= v.subrange(j0 as int, j + 1) + v.subrange(
                j + 1,
                j + 2,
            ));
            lemma_total_len_add(v.subrange(j0 as int, j + 1), v.subrange(j + 1, j + 2));
            lemma_total_len_one(v, j + 1);
            lemma_total_len_range(v, j0 as int, j + 2);
        }
        d = d + o as i128 - c as i128;
        j += 1;
    }
    j
}

fn subst_exec(ts: &Vec<EnhancedToken>, i: usize, head: &str, opener: &str, trim_it: bool) -> (r: (
    EnhancedToken,
    usize,
))
    requires
        i < ts.len(),
    ensures
        (r.0@, r.1 as int) == subst_step(enh_views(ts@), i as int, head@, opener@, trim_it),
{
    let ghost v = enh_views(ts@);
    assert(v[i as int] == ts@[i as int]@);
    if value_is(ts, i, head) && i + 1 < ts.len() && value_is(ts, i + 1, "(") {
        let (j, d) = paren_scan(ts, i + 2);
        proof {
            lemma_paren_close(v, i + 2, 1);
        }
        if d == 0 && i + 2 < j {
            let mut body = owned(opener);
            let inner = spaced_values_of(ts, i + 2, j - 1);
            body.append(inner.as_str());
            let mut rebuilt = if trim_it {
                trim(body.as_str())
            } else {
                body
            };
            push_char(&mut rebuilt, ')');
            proof {
                lemma_paren_close(v, i + 2, 1);
            }
            let t = merged_of(ts, i, j, owned(opener), rebuilt);
            return (t, j);
        }
    }
    (copy_enhanced(&ts[i]), i + 1)
}

fn here_doc_exec(ts: &Vec<EnhancedToken>, i: usize) -> (r: (EnhancedToken, usize))
    requires
        i < ts.len(),
    ensures
        (r.0@, r.1 as int) == here_doc_step(enh_views(ts@), i as int),
{
    let ghost v = enh_views(ts@);
    assert(v[i as int] == ts@[i as int]@);
    if value_is(ts, i, "<") && i + 1 < ts.len() && value_is(ts, i + 1, "<") {
        if i + 2 < ts.len() {
            let mut rebuilt = owned("<<");
            rebuilt.append(ts[i + 2].value.as_str());
            assert(v[i + 2] == ts@[i + 2]@);
            let t = merged_of(ts, i, i + 3, owned("<<"), rebuilt);
            return (t, i + 3);
        } else {
            let t = merged_of(ts, i, i + 2, owned("<<"), owned("<<"));
            return (t, i + 2);
        }
    }
    (copy_enhanced(&ts[i]), i + 1)
}

fn function_def_exec(ts: &Vec<EnhancedToken>, i: usize) -> (r: (EnhancedToken, usize))
    requires
        i < ts.len(),
    ensures
        (r.0@, r.1 as int) == function_def_step(enh_views(ts@), i as int),
{
    let ghost v = enh_views(ts@);
    assert(v[i as int] == ts@[i as int]@);
    if value_is(ts, i, "(") && i + 1 < ts.len() && value_is(ts, i + 1, ")") {
        let t = merged_of(ts, i, i + 2, owned("()"), owned("()"));
        return (t, i + 2);
    }
    (copy_enhanced(&ts[i]), i + 1)
}

fn env_var_exec(ts: &Vec<EnhancedToken>, i: usize) -> (r: (EnhancedToken, usize))
    requires
        i < ts.len(),
        total_len(enh_views(ts@)) <= usize::MAX,
    ensures
        (r.0@, r.1 as int) == env_var_step(enh_views(ts@), i as int),
{
    let ghost v = enh_views(ts@);
    assert(v[i as int] == ts@[i as int]@);
    if value_is(ts, i, "$") && i + 1 < ts.len() && starts_with_char(ts[i + 1].value.as_str(), '{') {
        assert(v[i + 1] == ts@[i + 1]@);
        let j = brace_scan(ts, i + 1);
        proof {
            lemma_brace_close(v, i + 1, brace_delta(v[i + 1].value));
        }
        let mut body = owned("${");
        let inner = spaced_values_of(ts, i + 2, j);
        body.append(inner.as_str());
        let mut rebuilt = trim(body.as_str());
        push_char(&mut rebuilt, '}');
        let t = merged_of(ts, i, j + 1, owned("${"), rebuilt);
        return (t, j + 1);
    }
    (copy_enhanced(&ts[i]), i + 1)
}

fn redirect_char(c: char) -> (r: bool)
    ensures
        r == is_redirect_char(c),
{
    c == '>' || c == '<' || c == '&'
}

fn is_redirection_token(s: &str) -> (r: bool)
    ensures
        r == is_redirection(s@),
{
    let cs = chars_of(s);
    if cs.len() == 0 {
        return false;
    }
    let mut has_digit_prefix = false;
    let mut k: usize = 0;
    while k < cs.len()
        invariant
            cs@ == s@,
            cs.len() > 0,
            k <= cs.len(),
            has_digit_prefix == (k > 0 && is_digit(cs@[0])),
            forall|m: int| 0 <= m < k ==> is_digit(#[trigger] cs@[m]) || is_redirect_char(cs@[m]),
            forall|m: int| 0 < m < k && is_digit(#[trigger] cs@[m]) ==> is_digit(cs@[0]),
        decreases cs.len() - k,
    {
        let c = cs[k];
        if digit(c) {
            if k == 0 {
                has_digit_prefix = true;
            } else if !has_digit_prefix {
                return false;
            }
        } else if redirect_char(c) {
        } else {
            return false;
        }
        if k == 0 && !digit(c) {
            has_digit_prefix = false;
        }
        k += 1;
    }
    let mut m: usize = 0;
    while m < cs.len()
        invariant
            cs@ == s@,
            cs.len() > 0,
            forall|q: int|
                0 <= q < cs.len() ==> is_digit(#[trigger] cs@[q]) || is_redirect_char(cs@[q]),
            forall|q: int| 0 < q < cs.len() && is_digit(#[trigger] cs@[q]) ==> is_digit(cs@[0]),
            m <= cs.len(),
            forall|q: int| 0 <= q < m ==> !is_redirect_char(#[trigger] cs@[q]),
        decreases cs.len() - m,
    {
        if redirect_char(cs[m]) {
            assert(is_redirect_char(cs@[m as int]));
            return true;
        }
        m += 1;
    }
    false
}

fn all_digits_exec(s: &str) -> (r: bool)
    ensures
        r == all_digits(s@),
{
    let cs = chars_of(s);
    let mut k: usize = 0;
    while k < cs.len()
        invariant
            cs@ == s@,
            k <= cs.len(),
            forall|m: int| 0 <= m < k ==> is_digit(#[trigger] cs@[m]),
        decreases cs.len() - k,
    {
        if !digit(cs[k]) {
            return false;
        }
        k += 1;
    }
    true
}

fn redirect_exec(ts: &Vec<EnhancedToken>, i: usize) -> (r: (EnhancedToken, usize))
    requires
        i < ts.len(),
    ensures
        (r.0@, r.1 as int) == redirect_step(enh_views(ts@), i as int),
{
    let ghost v = enh_views(ts@);
    assert(v[i as int] == ts@[i as int]@);
    if all_digits_exec(ts[i].value.as_str()) && i + 1 < ts.len() && is_redirection_token(
        ts[i + 1].value.as_str(),
    ) && (contains_char(ts[i + 1].value.as_str(), '<') || contains_char(
        ts[i + 1].value.as_str(),
        '>',
    )) {
        assert(v[i + 1] == ts@[i + 1]@);
        let mut combined = ts[i].value.clone();
        combined.append(ts[i + 1].value.as_str());
        let t = merged_of(ts, i, i + 2, combined.clone(), combined);
        return (t, i + 2);
    }
    (copy_enhanced(&ts[i]), i + 1)
}

fn escaped_exec(ts: &Vec<EnhancedToken>, i: usize) -> (r: (EnhancedToken, usize))
    requires
        i < ts.len(),
    ensures
        (r.0@, r.1 as int) == escaped_step(enh_views(ts@), i as int),
{
    let ghost v = enh_views(ts@);
    assert(v[i as int] == ts@[i as int]@);
    if starts_with_char(ts[i].value.as_str(), '\\') && i + 1 < ts.len() {
        assert(v[i + 1] == ts@[i + 1]@);
        let next = chars_of(ts[i + 1].value.as_str());
        if next.len() > 0 && is_operator_start(next[0]) {
            let mut combined = ts[i].value.clone();
            combined.append(ts[i + 1].value.as_str());
            let t = merged_of(ts, i, i + 2, combined.clone(), combined);
            return (t, i + 2);
        }
    }
    (copy_enhanced(&ts[i]), i + 1)
}

fn step_exec(p: Pass, ts: &Vec<EnhancedToken>, i: usize) -> (r: (EnhancedToken, usize))
    requires
        i < ts.len(),
        p == Pass::EnvVar ==> total_len(enh_views(ts@)) <= usize::MAX,
    ensures
        (r.0@, r.1 as int) == step(p, enh_views(ts@), i as int),
{
    match p {
        Pass::CommandSub => subst_exec(ts, i, "$", "$(", true),
        Pass::HereDoc => here_doc_exec(ts, i),
        Pass::ProcessSub => subst_exec(ts, i, "<", "<(", false),
        Pass::FunctionDef => function_def_exec(ts, i),
        Pass::EnvVar => env_var_exec(ts, i),
        Pass::Redirect => redirect_exec(ts, i),
        Pass::EscapedOp => escaped_exec(ts, i),
    }
}

fn run_pass_exec(p: Pass, ts: &Vec<EnhancedToken>) -> (out: Vec<EnhancedToken>)
    requires
        nonempty_values(enh_views(ts@)),
        p == Pass::EnvVar ==> total_len(enh_views(ts@)) <= usize::MAX,
    ensures
        enh_views(out@) == run_pass(p, enh_views(ts@)),
{
    let ghost v = enh_views(ts@);
    let mut out: Vec<EnhancedToken> = Vec::new();
    let mut i: usize = 0;
    while i < ts.len()
        invariant
            i <= ts.len(),
            v == enh_views(ts@),
            nonempty_values(v),
            p == Pass::EnvVar ==> total_len(v) <= usize::MAX,
            run_pass(p, v) == enh_views(out@) + pass_from(p, v, i as int),
        decreases ts.len() - i,
    {
        proof {
            lemma_step_shape(p, v, i as int);
        }
        let (t, j) = step_exec(p, ts, i);
        let ghost before = out@;
        out.push(t);
        proof {
            assert(enh_views(out@) =~= enh_views(before).push(t@));
            assert(pass_from(p, v, i as int) == seq![t@] + pass_from(p, v, j as int));
            assert(enh_views(before) + (seq![t@] + pass_from(p, v, j as int)) =~= enh_views(
                before,
            ).push(t@) + pass_from(p, v, j as int));
        }
        i = j;
    }
    assert(pass_from(p, v, i as int) =~= Seq::<EnhV>::empty());
    assert(enh_views(out@) + pass_from(p, v, i as int) =~= enh_views(out@));
    out
}

/// Enhanced tokenization: the tokens of `tokenize_with_pos`, with the
/// constructs `$(...)`, `<< DELIM`, `<(...)`, `()`, `${...}`, `2>`-style
/// redirections and backslash-escaped operators each gathered into one token.
pub fn tokenize_with_pos_enhanced(cmd: &str) -> (r: Vec<EnhancedToken>)
    ensures
        enh_views(r@) == enhanced(cmd@),
{
    let basic = tokenize_with_pos(cmd);
    let cs = chars_of(cmd);
    let ghost bv = to_enhanced(token_views(basic@), cs@);
    proof {
        lemma_basic_shape(cs@, 0);
    }
    let mut enh: Vec<EnhancedToken> = Vec::new();
    let mut k: usize = 0;
    while k < basic.len()
        invariant
            k <= basic.len(),
            cs@ == cmd@,
            bv == to_enhanced(token_views(basic@), cs@),
            token_views(basic@) == tokens(cmd@),
            ordered(bv, cs@.len() as int),
            enh_views(enh@) == bv.take(k as int),
        decreases basic.len() - k,
    {
        let t = &basic[k];
        assert(bv[k as int] == basic_enhanced(basic@[k as int]@, cs@));
        assert(0 <= bv[k as int].start);
        let original_text = string_of(&cs, t.start, t.end);
        let e = EnhancedToken {
            value: t.value.clone(),
            start: t.start,
            end: t.end,
            original_text,
            reconstructed_value: t.value.clone(),
            needs_reconstruction: false,
            quote_type: t.quote_type,
        };
        let ghost before = enh@;
        enh.push(e);
        assert(token_views(basic@)[k as int] == basic@[k as int]@);
        assert(e@ == bv[k as int]);
        assert(enh_views(enh@) =~= enh_views(before).push(e@));
        assert(enh_views(enh@) =~= bv.take(k + 1));
        k += 1;
    }
    assert(bv.take(k as int) =~= bv);
    let ghost n = cs@.len() as int;
    proof {
        assert(bv.subrange(0, bv.len() as int) =~= bv);
        lemma_pass_shape(Pass::CommandSub, bv, n, 0);
    }
    let a = run_pass_exec(Pass::CommandSub, &enh);
    proof {
        let av = enh_views(a@);
        assert(av.subrange(0, av.len() as int) =~= av);
        lemma_pass_shape(Pass::HereDoc, av, n, 0);
    }
    let b = run_pass_exec(Pass::HereDoc, &a);
    proof {
        let bv2 = enh_views(b@);
        assert(bv2.subrange(0, bv2.len() as int) =~= bv2);
        lemma_pass_shape(Pass::ProcessSub, bv2, n, 0);
    }
    let c = run_pass_exec(Pass::ProcessSub, &b);
    proof {
        let cv = enh_views(c@);
        assert(cv.subrange(0, cv.len() as int) =~= cv);
        lemma_pass_shape(Pass::FunctionDef, cv, n, 0);
    }
    let d = run_pass_exec(Pass::FunctionDef, &c);
    proof {
        let dv = enh_views(d@);
        assert(dv.subrange(0, dv.len() as int) =~= dv);
        lemma_pass_shape(Pass::EnvVar, dv, n, 0);
        lemma_enhanced_shape(cs@);
        assert(dv == reconstruct_until_env(bv));
        assert(total_len(dv) <= cs@.len());
    }
    let e = run_pass_exec(Pass::EnvVar, &d);
    proof {
        lemma_pass_shape(Pass::Redirect, enh_views(e@), n, 0);
    }
    let f = run_pass_exec(Pass::Redirect, &e);
    let g = run_pass_exec(Pass::EscapedOp, &f);
    proof {
        lemma_enhanced_shape(cmd@);
    }
    let ghost gv = enh_views(g@);
    let mut out: Vec<EnhancedToken> = Vec::new();
    let mut k: usize = 0;
    while k < g.len()
        invariant
            k <= g.len(),
            cs@ == cmd@,
            gv == enh_views(g@),
            gv == reconstruct(to_enhanced(tokens(cmd@), cmd@)),
            ordered(gv, cs@.len() as int),
            enh_views(out@) == with_command_text(gv.take(k as int), cs@),
        decreases g.len() - k,
    {
        let t = &g[k];
        assert(gv[k as int] == t@);
        assert(0 <= gv[k as int].start);
        let e = EnhancedToken {
            value: t.value.clone(),
            start: t.start,
            end: t.end,
            original_text: string_of(&cs, t.start, t.end),
            reconstructed_value: t.reconstructed_value.clone(),
            needs_reconstruction: t.needs_reconstruction,
            quote_type: t.quote_type,
        };
        let ghost before = out@;
        out.push(e);
        assert(enh_views(out@) =~= with_command_text(gv.take(k + 1), cs@)) by {
            assert(enh_views(out@) =~= enh_views(before).push(e@));
        }
        k += 1;
    }
    assert(gv.take(k as int) =~= gv);
    out
}

// ---------------------------------------------------------------------------
// Roles
// ---------------------------------------------------------------------------

/// The operators that separate commands: `&& || | ; |&`.
pub open spec fn is_list_op(v: Seq<char>) -> bool {
    v == "&&"@ || v == "||"@ || v == "|"@ || v == ";"@ || v == "|&"@
}

/// A flag: unquoted, starting with `-`, longer than `-` itself.
pub open spec fn is_flag_text(v: Seq<char>, quote: Option<char>) -> bool {
    v.len() > 1 && v[0] == '-' && quote is None
}

/// The role of a token with text `v`, and whether a command is expected
/// next, when `expect` says whether a command is expected here.
pub open spec fn role_of(v: Seq<char>, quote: Option<char>, expect: bool) -> (TokenRole, bool) {
    if is_list_op(v) {
        (TokenRole::Op, true)
    } else if is_redirection(v) {
        (TokenRole::Arg, expect)
    } else if expect {
        (TokenRole::Cmd, false)
    } else if is_flag_text(v, quote) {
        (TokenRole::Flag, false)
    } else {
        (TokenRole::Arg, false)
    }
}

pub open spec fn roles_from(ts: Seq<EnhV>, i: int, expect: bool) -> Seq<RoleV>
    decreases ts.len() - i,
{
    if 0 <= i < ts.len() {
        let (role, next) = role_of(ts[i].rebuilt, ts[i].quote, expect);
        seq![RoleV { token: ts[i], role }] + roles_from(ts, i + 1, next)
    } else {
        Seq::empty()
    }
}

/// The tokens with their roles; the first token is expected to be a command.
pub open spec fn with_roles(ts: Seq<EnhV>) -> Seq<RoleV> {
    roles_from(ts, 0, true)
}

proof fn lemma_roles_from(ts: Seq<EnhV>, i: int, e: bool)
    requires
        0 <= i <= ts.len(),
    ensures
        roles_from(ts, i, e).len() == ts.len() - i,
        forall|k: int| 0 <= k < ts.len() - i ==> (#[trigger] roles_from(ts, i, e)[k]).token == ts[i + k],
    decreases ts.len() - i,
{
    if i < ts.len() {
        let (role, next) = role_of(ts[i].rebuilt, ts[i].quote, e);
        lemma_roles_from(ts, i + 1, next);
        let rest = roles_from(ts, i + 1, next);
        assert forall|k: int| 0 <= k < ts.len() - i implies (#[trigger] roles_from(ts, i, e)[k]).token
            == ts[i + k] by {
            if k > 0 {
                assert(roles_from(ts, i, e)[k] == rest[k - 1]);
            }
        }
    }
}

/// Tagging roles keeps the tokens: the `k`-th tagged token is the `k`-th
/// token.
pub proof fn lemma_with_roles_tokens(ts: Seq<EnhV>)
    ensures
        with_roles(ts).len() == ts.len(),
        forall|k: int| 0 <= k < ts.len() ==> (#[trigger] with_roles(ts)[k]).token == ts[k],
{
    lemma_roles_from(ts, 0, true);
}

proof fn lemma_step_keeps_or_merges(p: Pass, ts: Seq<EnhV>, i: int)
    requires
        0 <= i < ts.len(),
    ensures
        step(p, ts, i) == (ts[i], i + 1) || step(p, ts, i).1 >= i + 2,
{
    if p == Pass::EnvVar && ts[i].value == "$"@ && i + 1 < ts.len() && ts[i + 1].value.len() > 0
        && ts[i + 1].value[0] == '{' {
        lemma_brace_close(ts, i + 1, brace_delta(ts[i + 1].value));
    }
}

proof fn lemma_pass_from_keeps(p: Pass, ts: Seq<EnhV>, i: int)
    requires
        0 <= i <= ts.len(),
    ensures
        pass_from(p, ts, i).len() <= ts.len() - i,
        pass_from(p, ts, i).len() == ts.len() - i ==> pass_from(p, ts, i) == ts.subrange(
            i,
            ts.len() as int,
        ),
    decreases ts.len() - i,
{
    if i < ts.len() {
        lemma_step_keeps_or_merges(p, ts, i);
        let (t, j) = step(p, ts, i);
        if i < j <= ts.len() {
            lemma_pass_from_keeps(p, ts, j);
            if pass_from(p, ts, i).len() == ts.len() - i {
                assert(j == i + 1 && t == ts[i]);
                assert(pass_from(p, ts, i) =~= ts.subrange(i, ts.len() as int));
            }
        }
    } else {
        assert(ts.subrange(i, ts.len() as int) =~= Seq::<EnhV>::empty());
    }
}

proof fn lemma_run_pass_keeps(p: Pass, ts: Seq<EnhV>)
    ensures
        run_pass(p, ts).len() <= ts.len(),
        run_pass(p, ts).len() == ts.len() ==> run_pass(p, ts) == ts,
{
    lemma_pass_from_keeps(p, ts, 0);
    assert(ts.subrange(0, ts.len() as int) =~= ts);
}

proof fn lemma_reconstruct_keeps(ts: Seq<EnhV>)
    ensures
        reconstruct(ts).len() <= ts.len(),
        reconstruct(ts).len() == ts.len() ==> reconstruct(ts) == ts,
{
    let a = run_pass(Pass::CommandSub, ts);
    let b = run_pass(Pass::HereDoc, a);
    let c = run_pass(Pass::ProcessSub, b);
    let d = run_pass(Pass::FunctionDef, c);
    let e = run_pass(Pass::EnvVar, d);
    let f = run_pass(Pass::Redirect, e);
    lemma_run_pass_keeps(Pass::CommandSub, ts);
    lemma_run_pass_keeps(Pass::HereDoc, a);
    lemma_run_pass_keeps(Pass::ProcessSub, b);
    lemma_run_pass_keeps(Pass::FunctionDef, c);
    lemma_run_pass_keeps(Pass::EnvVar, d);
    lemma_run_pass_keeps(Pass::Redirect, e);
    lemma_run_pass_keeps(Pass::EscapedOp, f);
}

proof fn lemma_roles_depend_on_text(ts1: Seq<EnhV>, ts2: Seq<EnhV>, i: int, e: bool)
    requires
        ts1.len() == ts2.len(),
        0 <= i <= ts1.len(),
        forall|k: int|
            0 <= k < ts1.len() ==> (#[trigger] ts1[k]).rebuilt == ts2[k].rebuilt && ts1[k].quote
                == ts2[k].quote,
    ensures
        forall|k: int|
            0 <= k < ts1.len() - i ==> (#[trigger] roles_from(ts1, i, e)[k]).role == roles_from(
                ts2,
                i,
                e,
            )[k].role,
    decreases ts1.len() - i,
{
    lemma_roles_from(ts1, i, e);
    lemma_roles_from(ts2, i, e);
    if i < ts1.len() {
        assert(ts1[i].rebuilt == ts2[i].rebuilt && ts1[i].quote == ts2[i].quote);
        let next = role_of(ts1[i].rebuilt, ts1[i].quote, e).1;
        lemma_roles_depend_on_text(ts1, ts2, i + 1, next);
        assert forall|k: int| 0 <= k < ts1.len() - i implies (#[trigger] roles_from(ts1, i, e)[k]).role
            == roles_from(ts2, i, e)[k].role by {
            if k > 0 {
                assert(roles_from(ts1, i, e)[k] == roles_from(ts1, i + 1, next)[k - 1]);
                assert(roles_from(ts2, i, e)[k] == roles_from(ts2, i + 1, next)[k - 1]);
            }
        }
    }
}

/// Where the enhanced tokenizer merged nothing (it gives as many tokens as
/// the raw one), tokenizing with roles agrees with tagging the raw tokens:
/// the same values, positions, quotes and roles.
pub proof fn lemma_roles_agree_without_merges(cs: Seq<char>)
    requires
        enhanced(cs).len() == tokens(cs).len(),
    ensures
        ({
            let a = with_roles(enhanced(cs));
            let b = with_roles(tokens(cs).map_values(|t: TokenV| plain_enhanced(t)));
            &&& a.len() == b.len()
            &&& forall|k: int|
                0 <= k < a.len() ==> (#[trigger] a[k]).role == b[k].role && a[k].token.value
                    == b[k].token.value && a[k].token.start == b[k].token.start && a[k].token.end
                    == b[k].token.end && a[k].token.quote == b[k].token.quote
                    && a[k].token.rebuilt == b[k].token.rebuilt
        }),
{
    let t0 = to_enhanced(tokens(cs), cs);
    let p = tokens(cs).map_values(|t: TokenV| plain_enhanced(t));
    lemma_reconstruct_keeps(t0);
    let e = enhanced(cs);
    assert(reconstruct(t0) == t0);
    assert forall|k: int| 0 <= k < e.len() implies (#[trigger] e[k]).rebuilt == p[k].rebuilt
        && e[k].quote == p[k].quote && e[k].value == p[k].value && e[k].start == p[k].start
        && e[k].end == p[k].end by {}
    lemma_with_roles_tokens(e);
    lemma_with_roles_tokens(p);
    lemma_roles_depend_on_text(e, p, 0, true);
}

/// Whether a command is expected at token `k` when tagging from the start.
pub open spec fn expect_before(ts: Seq<EnhV>, k: int) -> bool
    decreases k,
{
    if k <= 0 {
        true
    } else {
        role_of(ts[k - 1].rebuilt, ts[k - 1].quote, expect_before(ts, k - 1)).1
    }
}

proof fn lemma_roles_from_at(ts: Seq<EnhV>, i: int)
    requires
        0 <= i <= ts.len(),
    ensures
        roles_from(ts, i, expect_before(ts, i)).len() == ts.len() - i,
        forall|k: int|
            i <= k < ts.len() ==> #[trigger] roles_from(ts, i, expect_before(ts, i))[k - i]
                == (RoleV {
                token: ts[k],
                role: role_of(ts[k].rebuilt, ts[k].quote, expect_before(ts, k)).0,
            }),
    decreases ts.len() - i,
{
    if i < ts.len() {
        lemma_roles_from_at(ts, i + 1);
        let r = roles_from(ts, i, expect_before(ts, i));
        let rest = roles_from(ts, i + 1, expect_before(ts, i + 1));
        assert(role_of(ts[i].rebuilt, ts[i].quote, expect_before(ts, i)).1 == expect_before(
            ts,
            i + 1,
        ));
        assert forall|k: int| i < k < ts.len() implies #[trigger] r[k - i] == rest[k - (i + 1)] by {}
    }
}

/// Token `j` was tagged as a command.
pub open spec fn cmd_at(rs: Seq<RoleV>, j: int) -> bool {
    rs[j].role == TokenRole::Cmd
}

/// Token `m` was tagged as an operator.
pub open spec fn op_at(rs: Seq<RoleV>, m: int) -> bool {
    rs[m].role == TokenRole::Op
}

/// No command has been tagged since the last operator before token `k` (or
/// since the start).
pub open spec fn no_cmd_since_op(rs: Seq<RoleV>, k: int) -> bool {
    forall|j: int|
        0 <= j < k && #[trigger] cmd_at(rs, j) ==> exists|m: int| j < m < k && #[trigger] op_at(rs, m)
}

proof fn lemma_role_of_next(v: Seq<char>, q: Option<char>, e: bool)
    ensures
        role_of(v, q, e).1 == if role_of(v, q, e).0 == TokenRole::Op {
            true
        } else if role_of(v, q, e).0 == TokenRole::Cmd {
            false
        } else {
            e
        },
{
}

proof fn lemma_no_cmd_step(rs: Seq<RoleV>, k: int)
    requires
        0 < k <= rs.len(),
    ensures
        no_cmd_since_op(rs, k) == if rs[k - 1].role == TokenRole::Op {
            true
        } else if rs[k - 1].role == TokenRole::Cmd {
            false
        } else {
            no_cmd_since_op(rs, k - 1)
        },
{
    if rs[k - 1].role == TokenRole::Op {
        assert forall|j: int| 0 <= j < k && #[trigger] cmd_at(rs, j) implies exists|m: int|
            j < m < k && #[trigger] op_at(rs, m) by {
            assert(op_at(rs, k - 1));
        }
    } else if rs[k - 1].role == TokenRole::Cmd {
        assert(cmd_at(rs, k - 1));
    } else {
        assert(!op_at(rs, k - 1));
        assert(!cmd_at(rs, k - 1));
        if no_cmd_since_op(rs, k - 1) {
            assert forall|j: int| 0 <= j < k && #[trigger] cmd_at(rs, j) implies exists|m: int|
                j < m < k && #[trigger] op_at(rs, m) by {
                let m = choose|m: int| j < m < k - 1 && #[trigger] op_at(rs, m);
                assert(op_at(rs, m));
            }
        }
        if no_cmd_since_op(rs, k) {
            assert forall|j: int| 0 <= j < k - 1 && #[trigger] cmd_at(rs, j) implies exists|m: int|
                j < m < k - 1 && #[trigger] op_at(rs, m) by {
                let m = choose|m: int| j < m < k && #[trigger] op_at(rs, m);
                assert(op_at(rs, m));
            }
        }
    }
}

proof fn lemma_expect_is_no_cmd(ts: Seq<EnhV>, k: int)
    requires
        0 <= k <= ts.len(),
    ensures
        expect_before(ts, k) == no_cmd_since_op(with_roles(ts), k),
    decreases k,
{
    let rs = with_roles(ts);
    if k > 0 {
        lemma_expect_is_no_cmd(ts, k - 1);
        lemma_roles_from_at(ts, 0);
        assert(rs[k - 1] == roles_from(ts, 0, expect_before(ts, 0))[(k - 1) - 0]);
        lemma_role_of_next(ts[k - 1].rebuilt, ts[k - 1].quote, expect_before(ts, k - 1));
        lemma_no_cmd_step(rs, k);
    }
}

/// The roles in closed form: a token is an operator exactly when it is one
/// of `&& || | ; |&`; otherwise a redirection is an argument; otherwise the
/// token is the command exactly when no command has been tagged since the
/// last operator (or the start); otherwise it is a flag exactly when it is
/// unquoted, starts with `-` and is longer than `-`; otherwise an argument.
pub proof fn lemma_roles_closed_form(ts: Seq<EnhV>)
    ensures
        with_roles(ts).len() == ts.len(),
        forall|k: int|
            0 <= k < ts.len() ==> {
                let v = ts[k].rebuilt;
                let role = (#[trigger] with_roles(ts)[k]).role;
                &&& (role == TokenRole::Op <==> is_list_op(v))
                &&& (!is_list_op(v) && is_redirection(v) ==> role == TokenRole::Arg)
                &&& (!is_list_op(v) && !is_redirection(v) ==> (role == TokenRole::Cmd
                    <==> no_cmd_since_op(with_roles(ts), k)))
                &&& (!is_list_op(v) && !is_redirection(v) && !no_cmd_since_op(with_roles(ts), k)
                    ==> (role == TokenRole::Flag <==> is_flag_text(v, ts[k].quote)))
            },
{
    lemma_roles_from_at(ts, 0);
    assert forall|k: int| 0 <= k < ts.len() implies {
        let v = ts[k].rebuilt;
        let role = (#[trigger] with_roles(ts)[k]).role;
        &&& (role == TokenRole::Op <==> is_list_op(v))
        &&& (!is_list_op(v) && is_redirection(v) ==> role == TokenRole::Arg)
        &&& (!is_list_op(v) && !is_redirection(v) ==> (role == TokenRole::Cmd
            <==> no_cmd_since_op(with_roles(ts), k)))
        &&& (!is_list_op(v) && !is_redirection(v) && !no_cmd_since_op(with_roles(ts), k)
            ==> (role == TokenRole::Flag <==> is_flag_text(v, ts[k].quote)))
    } by {
        assert(with_roles(ts)[k] == roles_from(ts, 0, expect_before(ts, 0))[k - 0]);
        lemma_expect_is_no_cmd(ts, k);
    }
}

/// A raw token seen as an enhanced token whose texts are all its value.
pub open spec fn plain_enhanced(t: TokenV) -> EnhV {
    EnhV {
        value: t.value,
        start: t.start,
        end: t.end,
        original: t.value,
        rebuilt: t.value,
        needs: false,
        quote: t.quote,
    }
}

fn list_op(v: &str) -> (r: bool)
    ensures
        r == is_list_op(v@),
{
    same(v, "&&") || same(v, "||") || same(v, "|") || same(v, ";") || same(v, "|&")
}

fn role_exec(v: &str, quote: Option<char>, expect: bool) -> (r: (TokenRole, bool))
    ensures
        r == role_of(v@, quote, expect),
{
    if list_op(v) {
        (TokenRole::Op, true)
    } else if is_redirection_token(v) {
        (TokenRole::Arg, expect)
    } else if expect {
        (TokenRole::Cmd, false)
    } else {
        let cs = chars_of(v);
        if cs.len() > 1 && cs[0] == '-' && quote.is_none() {
            (TokenRole::Flag, false)
        } else {
            (TokenRole::Arg, false)
        }
    }
}

fn assign_roles_from_enhanced(ts: &Vec<EnhancedToken>) -> (out: Vec<RoleToken>)
    ensures
        role_views(out@) == with_roles(enh_views(ts@)),
{
    let ghost v = enh_views(ts@);
    let mut out: Vec<RoleToken> = Vec::new();
    let mut expect = true;
    let mut i: usize = 0;
    while i < ts.len()
        invariant
            i <= ts.len(),
            v == enh_views(ts@),
            with_roles(v) == role_views(out@) + roles_from(v, i as int, expect),
        decreases ts.len() - i,
    {
        let t = &ts[i];
        assert(v[i as int] == t@);
        let (role, next) = role_exec(t.reconstructed_value.as_str(), t.quote_type, expect);
        let rt = RoleToken {
            value: t.value.clone(),
            start: t.start,
            end: t.end,
            original_text: t.original_text.clone(),
            reconstructed_value: t.reconstructed_value.clone(),
            needs_reconstruction: t.needs_reconstruction,
            quote_type: t.quote_type,
            role,
        };
        let ghost before = out@;
        out.push(rt);
        proof {
            assert(role_views(out@) =~= role_views(before).push(rt@));
            assert(roles_from(v, i as int, expect) == seq![rt@] + roles_from(v, i + 1, next));
            assert(role_views(before) + (seq![rt@] + roles_from(v, i + 1, next)) =~= role_views(
                before,
            ).push(rt@) + roles_from(v, i + 1, next));
        }
        expect = next;
        i += 1;
    }
    assert(roles_from(v, i as int, expect) =~= Seq::<RoleV>::empty());
    assert(role_views(out@) + roles_from(v, i as int, expect) =~= role_views(out@));
    out
}

/// Assign a role to each token: `Cmd`, `Flag`, `Arg` or `Op`.
///
/// Operators `&& || | ; |&` are `Op` and make the next token a command;
/// redirections are `Arg`; the first other token after the start or an
/// operator is `Cmd`; after it, unquoted tokens that start with `-` and are
/// longer than one character are `Flag`, the rest `Arg`.
pub fn tag_token_roles(tokens: &[Token]) -> (r: Vec<RoleToken>)
    ensures
        role_views(r@) == with_roles(token_views(tokens@).map_values(|t: TokenV| plain_enhanced(t))),
{
    let ghost pv = token_views(tokens@).map_values(|t: TokenV| plain_enhanced(t));
    let mut enh: Vec<EnhancedToken> = Vec::new();
    let mut k: usize = 0;
    while k < tokens.len()
        invariant
            k <= tokens.len(),
            pv == token_views(tokens@).map_values(|t: TokenV| plain_enhanced(t)),
            enh_views(enh@) == pv.take(k as int),
        decreases tokens.len() - k,
    {
        let t = &tokens[k];
        let e = EnhancedToken {
            value: t.value.clone(),
            start: t.start,
            end: t.end,
            original_text: t.value.clone(),
            reconstructed_value: t.value.clone(),
            needs_reconstruction: false,
            quote_type: t.quote_type,
        };
        let ghost before = enh@;
        enh.push(e);
        assert(token_views(tokens@)[k as int] == tokens@[k as int]@);
        assert(e@ == pv[k as int]);
        assert(enh_views(enh@) =~= enh_views(before).push(e@));
        assert(enh_views(enh@) =~= pv.take(k + 1));
        k += 1;
    }
    assert(pv.take(k as int) =~= pv);
    assign_roles_from_enhanced(&enh)
}

/// Enhanced tokenization followed by role assignment.
pub fn tokenize_with_pos_enhanced_and_roles(cmd: &str) -> (r: Vec<RoleToken>)
    ensures
        role_views(r@) == with_roles(enhanced(cmd@)),
{
    let enhanced = tokenize_with_pos_enhanced(cmd);
    assign_roles_from_enhanced(&enhanced)
}


proof fn lemma_matches_at_extend(s: Seq<char>, m: int, p: Seq<char>, x: Seq<char>)
    requires
        matches_at(s, m, p),
    ensures
        matches_at(s + x, m, p),
        matches_at(x + s, x.len() + m, p),
{
    assert((s + x).subrange(m, m + p.len()) =~= s.subrange(m, m + p.len()));
    assert((x + s).subrange(x.len() + m, x.len() + m + p.len()) =~= s.subrange(m, m + p.len()));
}

/// Where the depth drops to 0, the last token scanned is a `)`.
proof fn lemma_paren_close_ends(ts: Seq<EnhV>, j: int, d: int)
    requires
        0 <= j <= ts.len(),
        d > 0,
        paren_close(ts, j, d).1 == 0,
    ensures
        j < paren_close(ts, j, d).0,
        ts[paren_close(ts, j, d).0 - 1].value == ")"@,
    decreases ts.len() - j,
{
    if j < ts.len() {
        let d2 = if ts[j].value == "("@ {
            d + 1
        } else if ts[j].value == ")"@ {
            d - 1
        } else {
            d
        };
        if d2 > 0 {
            lemma_paren_close_ends(ts, j + 1, d2);
        } else {
            assert(paren_close(ts, j + 1, d2) == (j + 1, d2));
        }
    }
}

/// Every value of `ts[a..b]` occurs in `spaced_values(ts, a, b)`.
proof fn lemma_spaced_values_holds(ts: Seq<EnhV>, a: int, b: int, k: int)
    requires
        a <= k < b,
    ensures
        has_infix(spaced_values(ts, a, b), ts[k].value),
    decreases b - a,
{
    let before = spaced_values(ts, a, b - 1);
    let last = ts[b - 1].value.push(' ');
    if k == b - 1 {
        assert((before + last).subrange(before.len() as int, (before.len() + ts[k].value.len()) as int)
            =~= ts[k].value);
        assert(matches_at(before + last, before.len() as int, ts[k].value));
    } else {
        lemma_spaced_values_holds(ts, a, b - 1, k);
        let m = choose|m: int| matches_at(before, m, ts[k].value);
        lemma_matches_at_extend(before, m, ts[k].value, last);
    }
}

/// A process substitution `<( t1 ... tn )` becomes one token whose value is
/// `<(` and whose rebuilt text starts with `<(`, ends with `)` and holds the
/// value of every token between the parentheses; the tokens it replaces run
/// from the `<` to the matching `)`.
pub proof fn lemma_process_substitution_keeps_body(ts: Seq<EnhV>, i: int)
    requires
        0 <= i < ts.len(),
        step(Pass::ProcessSub, ts, i).1 > i + 1,
    ensures
        ({
            let (t, j) = step(Pass::ProcessSub, ts, i);
            &&& j <= ts.len()
            &&& ts[i].value == "<"@ && ts[i + 1].value == "("@ && ts[j - 1].value == ")"@
            &&& t.value == "<("@
            &&& has_prefix(t.rebuilt, "<("@)
            &&& t.rebuilt.len() > 2 && t.rebuilt.last() == ')'
            &&& forall|k: int| i + 2 <= k < j - 1 ==> has_infix(t.rebuilt, #[trigger] ts[k].value)
        }),
{
    let (t, j) = step(Pass::ProcessSub, ts, i);
    lemma_paren_close(ts, i + 2, 1);
    lemma_paren_close_ends(ts, i + 2, 1);
    reveal_strlit("<(");
    assert("<("@.len() == 2);
    assert(t.value == "<("@);
    assert(j <= ts.len());
    assert(ts[j - 1].value == ")"@);
    let inner = spaced_values(ts, i + 2, j - 1);
    let body = "<("@ + inner;
    assert(t.rebuilt == body.push(')'));
    assert(body.push(')') =~= "<("@ + (inner + seq![')']));
    assert(t.rebuilt.subrange(0, 2) =~= "<("@);
    assert forall|k: int| i + 2 <= k < j - 1 implies has_infix(t.rebuilt, #[trigger] ts[k].value) by {
        lemma_spaced_values_holds(ts, i + 2, j - 1, k);
        let m = choose|m: int| matches_at(inner, m, ts[k].value);
        lemma_matches_at_extend(inner, m, ts[k].value, seq![')']);
        lemma_matches_at_extend(inner + seq![')'], m, ts[k].value, "<("@);
    }
}

/// A command substitution `$( t1 ... tn )` becomes one token whose value is
/// `$(` and whose rebuilt text starts with `$(`, ends with `)` and holds every
/// token between the parentheses that is not blank, trimmed; the tokens it
/// replaces run from the `$` to the matching `)`.
pub proof fn lemma_command_substitution_keeps_body(ts: Seq<EnhV>, i: int)
    requires
        0 <= i < ts.len(),
        step(Pass::CommandSub, ts, i).1 > i + 1,
    ensures
        ({
            let (t, j) = step(Pass::CommandSub, ts, i);
            &&& j <= ts.len()
            &&& ts[i].value == "$"@ && ts[i + 1].value == "("@ && ts[j - 1].value == ")"@
            &&& t.value == "$("@
            &&& has_prefix(t.rebuilt, "$("@)
            &&& t.rebuilt.len() > 2 && t.rebuilt.last() == ')'
            &&& forall|k: int|
                i + 2 <= k < j - 1 && trimmed(ts[k].value).len() > 0 ==> has_infix(
                    t.rebuilt,
                    trimmed(#[trigger] ts[k].value),
                )
        }),
{
    let (t, j) = step(Pass::CommandSub, ts, i);
    lemma_paren_close(ts, i + 2, 1);
    lemma_paren_close_ends(ts, i + 2, 1);
    reveal_strlit("$(");
    assert("$("@.len() == 2);
    let inner = spaced_values(ts, i + 2, j - 1);
    let body = "$("@ + inner;
    let e = Seq::<char>::empty();
    assert(t.rebuilt == trimmed(body).push(')'));
    assert(body.subrange(0, 2) =~= "$("@);
    assert("$("@[0] == '$' && "$("@[1] == '(');
    lemma_trimmed_keeps_part(body, 0, "$("@);
    assert(kept_from(body, true, e, 0) == 0);
    let tb = trimmed(body);
    assert(tb.push(')').subrange(0, 2) =~= tb.subrange(0, 2));
    assert forall|k: int|
        i + 2 <= k < j - 1 && trimmed(ts[k].value).len() > 0 implies has_infix(
            t.rebuilt,
            trimmed(#[trigger] ts[k].value),
        ) by {
        let v = ts[k].value;
        let tv = trimmed(v);
        lemma_spaced_values_holds(ts, i + 2, j - 1, k);
        let m = choose|m: int| matches_at(inner, m, v);
        lemma_matches_at_extend(inner, m, v, "$("@);
        lemma_trimmed_within(v);
        let lo = kept_from(v, true, e, 0);
        assert(body.subrange(2 + m + lo, 2 + m + lo + tv.len()) =~= v.subrange(lo, lo + tv.len()));
        lemma_trimmed_keeps_part(body, 2 + m + lo, tv);
        let n = 2 + m + lo - kept_from(body, true, e, 0);
        lemma_matches_at_extend(tb, n, tv, seq![')']);
        assert(tb + seq![')'] =~= tb.push(')'));
    }
}

} // verus!
