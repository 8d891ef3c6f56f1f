//! Character-level text helpers shared by the tokenizer, the translators and
//! the registry.
//!
//! Every helper works on the character sequence of a string (`s@`), and states
//! its result over the spec functions defined here.

use vstd::prelude::*;

verus! {

// ---------------------------------------------------------------------------
// Character classes
// ---------------------------------------------------------------------------

/// The characters accepted by `char::is_ascii_whitespace`.
pub open spec fn is_ascii_space(c: char) -> bool {
    c == ' ' || c == '\t' || c == '\n' || c == '\x0C' || c == '\r'
}

/// Unicode `White_Space`, the class accepted by `char::is_whitespace`.
pub open spec fn is_white_space(c: char) -> bool {
    let u = c as u32;
    (0x09 <= u && u <= 0x0D) || u == 0x20 || u == 0x85 || u == 0xA0 || u == 0x1680 || (0x2000
        <= u && u <= 0x200A) || u == 0x2028 || u == 0x2029 || u == 0x202F || u == 0x205F || u
        == 0x3000
}

pub open spec fn is_digit(c: char) -> bool {
    '0' <= c && c <= '9'
}

pub open spec fn is_alpha(c: char) -> bool {
    ('a' <= c && c <= 'z') || ('A' <= c && c <= 'Z')
}

pub fn ascii_space(c: char) -> (r: bool)
    ensures
        r == is_ascii_space(c),
{
    c == ' ' || c == '\t' || c == '\n' || c == '\x0C' || c == '\r'
}

pub fn white_space(c: char) -> (r: bool)
    ensures
        r == is_white_space(c),
{
    let u = c as u32;
    (0x09 <= u && u <= 0x0D) || u == 0x20 || u == 0x85 || u == 0xA0 || u == 0x1680 || (0x2000
        <= u && u <= 0x200A) || u == 0x2028 || u == 0x2029 || u == 0x202F || u == 0x205F || u
        == 0x3000
}

pub fn digit(c: char) -> (r: bool)
    ensures
        r == is_digit(c),
{
    '0' <= c && c <= '9'
}

pub fn alpha(c: char) -> (r: bool)
    ensures
        r == is_alpha(c),
{
    ('a' <= c && c <= 'z') || ('A' <= c && c <= 'Z')
}

// ---------------------------------------------------------------------------
// Conversions between strings and character vectors
// ---------------------------------------------------------------------------

/// `String::push`: the string grows by one character at its end.
#[verifier::external_body]
pub(crate) fn push_char(s: &mut String, c: char)
    ensures
        final(s)@ == old(s)@.push(c),
{
    s.push(c);
}

/// A name for what `str::to_lowercase` returns (Unicode lowercase mapping).
pub uninterp spec fn lowercase(s: Seq<char>) -> Seq<char>;

/// Every character is ASCII.
pub open spec fn all_ascii(s: Seq<char>) -> bool {
    forall|i: int| 0 <= i < s.len() ==> (#[trigger] s[i] as u32) < 128
}

/// An ASCII character in lower case: `A`-`Z` become `a`-`z`, the others
/// stay.
pub open spec fn ascii_lower_char(c: char) -> char {
    if 'A' <= c && c <= 'Z' {
        ((c as u32) + 32) as char
    } else {
        c
    }
}

pub open spec fn ascii_lower(s: Seq<char>) -> Seq<char> {
    s.map_values(|c: char| ascii_lower_char(c))
}

/// Lowering ASCII text keeps it ASCII, and lowering it again changes
/// nothing.
pub proof fn lemma_ascii_lower_idempotent(s: Seq<char>)
    ensures
        all_ascii(s) ==> all_ascii(ascii_lower(s)),
        ascii_lower(ascii_lower(s)) == ascii_lower(s),
{
    let l = ascii_lower(s);
    assert forall|i: int| 0 <= i < s.len() implies ascii_lower_char(#[trigger] l[i]) == l[i] && (
    (s[i] as u32) < 128 ==> (l[i] as u32) < 128) by {
        let c = s[i];
        if 'A' <= c && c <= 'Z' {
            assert(65 <= (c as u32) <= 90);
            assert(((c as u32) + 32) as char as u32 == (c as u32) + 32);
        }
    }
    assert(ascii_lower(l) =~= l);
}

/// `str::to_lowercase`; its result is named by `lowercase` and depends only on
/// the characters of the argument. Of the Unicode case mapping it applies,
/// only its effect on ASCII text is stated: the letters `A`-`Z` become
/// `a`-`z` and every other ASCII character stays.
#[verifier::external_body]
pub(crate) fn to_lowercase(s: &str) -> (r: String)
    ensures
        r@ == lowercase(s@),
        all_ascii(s@) ==> r@ == ascii_lower(s@),
{
    s.to_lowercase()
}

pub fn chars_of(s: &str) -> (v: Vec<char>)
    ensures
        v@ == s@,
{
    let mut v: Vec<char> = Vec::new();
    for c in it: s.chars()
        invariant
            v@ == it.seq().take(it.index() as int),
            it.seq() == s@,
    {
        v.push(c);
    }
    v
}

pub fn owned(s: &str) -> (r: String)
    ensures
        r@ == s@,
{
    s.to_owned()
}

/// The string made of `cs[lo..hi]`.
pub fn string_of(cs: &Vec<char>, lo: usize, hi: usize) -> (r: String)
    requires
        lo <= hi <= cs.len(),
    ensures
        r@ == cs@.subrange(lo as int, hi as int),
{
    let mut r = String::new();
    let mut i = lo;
    while i < hi
        invariant
            lo <= i <= hi <= cs.len(),
            r@ == cs@.subrange(lo as int, i as int),
        decreases hi - i,
    {
        push_char(&mut r, cs[i]);
        assert(cs@.subrange(lo as int, i + 1) =~= cs@.subrange(lo as int, i as int).push(cs@[i as int]));
        i += 1;
    }
    r
}

// ---------------------------------------------------------------------------
// Comparisons
// ---------------------------------------------------------------------------

pub fn same(a: &str, b: &str) -> (r: bool)
    ensures
        r == (a@ == b@),
{
    let x = owned(a);
    let y = owned(b);
    x == y
}

pub open spec fn has_prefix(s: Seq<char>, p: Seq<char>) -> bool {
    p.len() <= s.len() && s.subrange(0, p.len() as int) == p
}

pub open spec fn matches_at(s: Seq<char>, i: int, p: Seq<char>) -> bool {
    0 <= i && i + p.len() <= s.len() && s.subrange(i, i + p.len()) == p
}

pub open spec fn has_infix(s: Seq<char>, p: Seq<char>) -> bool {
    exists|i: int| matches_at(s, i, p)
}

/// Whether `p` occurs in `cs` at position `i`.
pub fn match_at(cs: &Vec<char>, i: usize, ps: &Vec<char>) -> (r: bool)
    ensures
        r == matches_at(cs@, i as int, ps@),
{
    if i > cs.len() || ps.len() > cs.len() - i {
        return false;
    }
    let mut k: usize = 0;
    while k < ps.len()
        invariant
            i + ps.len() <= cs.len(),
            k <= ps.len(),
            forall|j: int| 0 <= j < k ==> cs@[i + j] == ps@[j],
        decreases ps.len() - k,
    {
        if cs[i + k] != ps[k] {
            assert(cs@.subrange(i as int, i + ps@.len())[k as int] != ps@[k as int]);
            return false;
        }
        k += 1;
    }
    assert(cs@.subrange(i as int, i + ps@.len()) =~= ps@);
    true
}

pub fn starts_with(s: &str, p: &str) -> (r: bool)
    ensures
        r == has_prefix(s@, p@),
{
    let cs = chars_of(s);
    let ps = chars_of(p);
    match_at(&cs, 0, &ps)
}

pub fn starts_with_char(s: &str, c: char) -> (r: bool)
    ensures
        r == (s@.len() > 0 && s@[0] == c),
{
    let cs = chars_of(s);
    cs.len() > 0 && cs[0] == c
}

/// `str::contains` with a string pattern.
pub fn contains_vec(cs: &Vec<char>, ps: &Vec<char>) -> (r: bool)
    ensures
        r == has_infix(cs@, ps@),
{
    if ps.len() > cs.len() {
        assert forall|i: int| !matches_at(cs@, i, ps@) by {}
        return false;
    }
    let last = cs.len() - ps.len();
    let mut i: usize = 0;
    while i <= last
        invariant
            last + ps.len() == cs.len(),
            forall|j: int| 0 <= j < i ==> !matches_at(cs@, j, ps@),
        decreases last + 1 - i,
    {
        if match_at(cs, i, ps) {
            return true;
        }
        if i == last {
            assert forall|j: int| !matches_at(cs@, j, ps@) by {
                if 0 <= j && j < i {
                } else if j > last {
                }
            }
            return false;
        }
        i += 1;
    }
    false
}

pub fn contains(s: &str, p: &str) -> (r: bool)
    ensures
        r == has_infix(s@, p@),
{
    let cs = chars_of(s);
    let ps = chars_of(p);
    contains_vec(&cs, &ps)
}

pub fn contains_char(s: &str, c: char) -> (r: bool)
    ensures
        r == s@.contains(c),
{
    let cs = chars_of(s);
    let mut i: usize = 0;
    while i < cs.len()
        invariant
            cs@ == s@,
            i <= cs.len(),
            forall|j: int| 0 <= j < i ==> cs@[j] != c,
        decreases cs.len() - i,
    {
        if cs[i] == c {
            return true;
        }
        i += 1;
    }
    false
}

// ---------------------------------------------------------------------------
// Trimming
// ---------------------------------------------------------------------------

/// Whether trimming removes `c`: white space when `ws` holds, otherwise the
/// characters listed in `cset`.
pub open spec fn trims(c: char, ws: bool, cset: Seq<char>) -> bool {
    if ws {
        is_white_space(c)
    } else {
        cset.contains(c)
    }
}

pub open spec fn kept_from(s: Seq<char>, ws: bool, cset: Seq<char>, i: int) -> int
    decreases s.len() - i,
{
    if 0 <= i < s.len() && trims(s[i], ws, cset) {
        kept_from(s, ws, cset, i + 1)
    } else {
        i
    }
}

pub open spec fn kept_until(s: Seq<char>, ws: bool, cset: Seq<char>, k: int) -> int
    decreases k,
{
    if 0 < k <= s.len() && trims(s[k - 1], ws, cset) {
        kept_until(s, ws, cset, k - 1)
    } else {
        k
    }
}

/// `s` without its leading and trailing characters of the class.
pub open spec fn stripped(s: Seq<char>, ws: bool, cset: Seq<char>) -> Seq<char> {
    let lo = kept_from(s, ws, cset, 0);
    let hi = kept_until(s, ws, cset, s.len() as int);
    if lo < hi {
        s.subrange(lo, hi)
    } else {
        Seq::empty()
    }
}

/// `str::trim`.
pub open spec fn trimmed(s: Seq<char>) -> Seq<char> {
    stripped(s, true, Seq::empty())
}

/// `str::trim_matches` with a set of characters.
pub open spec fn trimmed_of(s: Seq<char>, cset: Seq<char>) -> Seq<char> {
    stripped(s, false, cset)
}

proof fn lemma_kept_from_stops(s: Seq<char>, ws: bool, cset: Seq<char>, i: int)
    requires
        0 <= i <= s.len(),
    ensures
        i <= kept_from(s, ws, cset, i) <= s.len(),
        kept_from(s, ws, cset, i) < s.len() ==> !trims(s[kept_from(s, ws, cset, i)], ws, cset),
    decreases s.len() - i,
{
    if i < s.len() && trims(s[i], ws, cset) {
        lemma_kept_from_stops(s, ws, cset, i + 1);
    }
}

proof fn lemma_kept_until_stops(s: Seq<char>, ws: bool, cset: Seq<char>, k: int)
    requires
        0 <= k <= s.len(),
    ensures
        0 <= kept_until(s, ws, cset, k) <= k,
        kept_until(s, ws, cset, k) > 0 ==> !trims(s[kept_until(s, ws, cset, k) - 1], ws, cset),
    decreases k,
{
    if 0 < k && trims(s[k - 1], ws, cset) {
        lemma_kept_until_stops(s, ws, cset, k - 1);
    }
}

/// Text that neither starts nor ends with white space is its own trim.
pub proof fn lemma_trimmed_fixed(s: Seq<char>)
    requires
        s.len() > 0 ==> !is_white_space(s[0]) && !is_white_space(s.last()),
    ensures
        trimmed(s) == s,
{
    let e = Seq::<char>::empty();
    if s.len() > 0 {
        assert(kept_from(s, true, e, 0) == 0);
        assert(kept_until(s, true, e, s.len() as int) == s.len());
        assert(s.subrange(0, s.len() as int) =~= s);
    } else {
        assert(s =~= Seq::<char>::empty());
    }
}

/// Trimming twice trims no more than once.
pub proof fn lemma_trimmed_idempotent(s: Seq<char>)
    ensures
        trimmed(trimmed(s)) == trimmed(s),
{
    let e = Seq::<char>::empty();
    lemma_kept_from_stops(s, true, e, 0);
    lemma_kept_until_stops(s, true, e, s.len() as int);
    let t = trimmed(s);
    let lo = kept_from(s, true, e, 0);
    let hi = kept_until(s, true, e, s.len() as int);
    if lo < hi {
        assert(t[0] == s[lo]);
        assert(t.last() == s[hi - 1]);
    }
    lemma_trimmed_fixed(t);
}

proof fn lemma_kept_from_before(s: Seq<char>, ws: bool, cset: Seq<char>, i: int, q: int)
    requires
        0 <= i <= q < s.len(),
        !trims(s[q], ws, cset),
    ensures
        kept_from(s, ws, cset, i) <= q,
    decreases s.len() - i,
{
    if trims(s[i], ws, cset) {
        lemma_kept_from_before(s, ws, cset, i + 1, q);
    }
}

proof fn lemma_kept_until_after(s: Seq<char>, ws: bool, cset: Seq<char>, k: int, q: int)
    requires
        0 < q <= k <= s.len(),
        !trims(s[q - 1], ws, cset),
    ensures
        kept_until(s, ws, cset, k) >= q,
    decreases k,
{
    if trims(s[k - 1], ws, cset) {
        lemma_kept_until_after(s, ws, cset, k - 1, q);
    }
}

/// A text that is not blank once trimmed is its trimmed form surrounded by
/// white space: the trimmed form occurs in it, and starts and ends with a
/// character that is not white space.
pub proof fn lemma_trimmed_within(s: Seq<char>)
    requires
        trimmed(s).len() > 0,
    ensures
        matches_at(s, kept_from(s, true, Seq::empty(), 0), trimmed(s)),
        !is_white_space(trimmed(s)[0]),
        !is_white_space(trimmed(s).last()),
{
    let e = Seq::<char>::empty();
    lemma_kept_from_stops(s, true, e, 0);
    lemma_kept_until_stops(s, true, e, s.len() as int);
    let lo = kept_from(s, true, e, 0);
    let hi = kept_until(s, true, e, s.len() as int);
    assert(trimmed(s)[0] == s[lo]);
    assert(trimmed(s).last() == s[hi - 1]);
}

/// Trimming keeps every part of a text that starts and ends with a character
/// that is not white space, shifted by the white space trimmed at the front.
pub proof fn lemma_trimmed_keeps_part(s: Seq<char>, m: int, p: Seq<char>)
    requires
        matches_at(s, m, p),
        p.len() > 0,
        !is_white_space(p[0]),
        !is_white_space(p.last()),
    ensures
        matches_at(trimmed(s), m - kept_from(s, true, Seq::empty(), 0), p),
{
    let e = Seq::<char>::empty();
    lemma_kept_from_stops(s, true, e, 0);
    lemma_kept_until_stops(s, true, e, s.len() as int);
    assert(s[m] == p[0]);
    assert(s[m + p.len() - 1] == p[p.len() - 1]);
    lemma_kept_from_before(s, true, e, 0, m);
    lemma_kept_until_after(s, true, e, s.len() as int, m + p.len());
    let lo = kept_from(s, true, e, 0);
    let hi = kept_until(s, true, e, s.len() as int);
    assert(s[m] == p[0]);
    assert(s[m + p.len() - 1] == p[p.len() - 1]);
    assert(trimmed(s) == s.subrange(lo, hi));
    assert(trimmed(s).subrange(m - lo, m - lo + p.len()) =~= s.subrange(m, m + p.len()));
}

fn trims_exec(c: char, ws: bool, cset: &Vec<char>) -> (r: bool)
    ensures
        r == trims(c, ws, cset@),
{
    if ws {
        white_space(c)
    } else {
        let mut i: usize = 0;
        while i < cset.len()
            invariant
                !ws,
                i <= cset.len(),
                forall|j: int| 0 <= j < i ==> cset@[j] != c,
            decreases cset.len() - i,
        {
            if cset[i] == c {
                assert(cset@[i as int] == c);
                return true;
            }
            i += 1;
        }
        false
    }
}

fn strip_vec(cs: &Vec<char>, ws: bool, cset: &Vec<char>) -> (r: String)
    ensures
        r@ == stripped(cs@, ws, cset@),
{
    let mut lo: usize = 0;
    while lo < cs.len() && trims_exec(cs[lo], ws, cset)
        invariant
            lo <= cs.len(),
            kept_from(cs@, ws, cset@, 0) == kept_from(cs@, ws, cset@, lo as int),
        decreases cs.len() - lo,
    {
        lo += 1;
    }
    let mut hi: usize = cs.len();
    while hi > 0 && trims_exec(cs[hi - 1], ws, cset)
        invariant
            hi <= cs.len(),
            kept_until(cs@, ws, cset@, cs@.len() as int) == kept_until(cs@, ws, cset@, hi as int),
        decreases hi,
    {
        hi -= 1;
    }
    if lo < hi {
        string_of(cs, lo, hi)
    } else {
        String::new()
    }
}

pub fn trim(s: &str) -> (r: String)
    ensures
        r@ == trimmed(s@),
{
    let cs = chars_of(s);
    let none: Vec<char> = Vec::new();
    strip_vec(&cs, true, &none)
}

pub fn trim_of(s: &str, cset: &str) -> (r: String)
    ensures
        r@ == trimmed_of(s@, cset@),
{
    let cs = chars_of(s);
    let set = chars_of(cset);
    strip_vec(&cs, false, &set)
}

// ---------------------------------------------------------------------------
// Joining
// ---------------------------------------------------------------------------

/// The characters of an optional string.
pub open spec fn opt_view(o: Option<String>) -> Option<Seq<char>> {
    match o {
        Some(s) => Some(s@),
        None => None,
    }
}

pub open spec fn views(v: Seq<String>) -> Seq<Seq<char>> {
    v.map_values(|s: String| s@)
}

/// `[String]::join`.
pub open spec fn joined(parts: Seq<Seq<char>>, sep: Seq<char>) -> Seq<char>
    decreases parts.len(),
{
    if parts.len() == 0 {
        Seq::empty()
    } else if parts.len() == 1 {
        parts[0]
    } else {
        joined(parts.drop_last(), sep) + sep + parts.last()
    }
}

/// The parts `v[from..]` joined by `sep`.
pub fn join_from(v: &[String], from: usize, sep: &str) -> (r: String)
    requires
        from <= v@.len(),
    ensures
        r@ == joined(views(v@).skip(from as int), sep@),
{
    let ghost parts = views(v@).skip(from as int);
    let mut r = String::new();
    if from == v.len() {
        assert(parts =~= Seq::<Seq<char>>::empty());
        return r;
    }
    let mut i = from;
    while i < v.len()
        invariant
            from < v.len(),
            from <= i <= v.len(),
            parts == views(v@).skip(from as int),
            r@ == joined(parts.take(i - from), sep@),
        decreases v.len() - i,
    {
        let ghost before = r@;
        if i > from {
            r.append(sep);
        }
        r.append(v[i].as_str());
        proof {
            let t = parts.take(i + 1 - from);
            assert(t.drop_last() =~= parts.take(i - from));
            assert(t.last() == v@[i as int]@);
            if i == from {
                assert(parts.take(0) =~= Seq::<Seq<char>>::empty());
            }
        }
        i += 1;
    }
    assert(parts.take(v.len() - from) =~= parts);
    r
}

pub fn join(v: &[String], sep: &str) -> (r: String)
    ensures
        r@ == joined(views(v@), sep@),
{
    let r = join_from(v, 0, sep);
    assert(views(v@).skip(0) =~= views(v@));
    r
}

/// Whether some element of `v` is `lit`.
pub fn any_is(v: &[String], lit: &str) -> (r: bool)
    ensures
        r == views(v@).contains(lit@),
{
    let mut i: usize = 0;
    while i < v.len()
        invariant
            i <= v.len(),
            forall|j: int| 0 <= j < i ==> v@[j]@ != lit@,
        decreases v.len() - i,
    {
        if same(v[i].as_str(), lit) {
            assert(views(v@)[i as int] == lit@);
            return true;
        }
        i += 1;
    }
    assert forall|j: int| 0 <= j < views(v@).len() implies views(v@)[j] != lit@ by {}
    false
}

// ---------------------------------------------------------------------------
// Numbers
// ---------------------------------------------------------------------------

pub open spec fn all_digits(s: Seq<char>) -> bool {
    forall|i: int| 0 <= i < s.len() ==> is_digit(#[trigger] s[i])
}

pub open spec fn digit_value(c: char) -> nat {
    (c as u32 - '0' as u32) as nat
}

pub open spec fn digits_value(s: Seq<char>) -> nat
    decreases s.len(),
{
    if s.len() == 0 {
        0
    } else {
        digits_value(s.drop_last()) * 10 + digit_value(s.last())
    }
}

/// What `str::parse::<usize>` accepts, and the value it returns: an optional
/// `+`, then at least one ASCII digit, the value not above `usize::MAX`.
pub open spec fn parsed_usize(s: Seq<char>) -> Option<nat> {
    let d = if s.len() > 0 && s[0] == '+' {
        s.drop_first()
    } else {
        s
    };
    if d.len() > 0 && all_digits(d) && digits_value(d) <= usize::MAX {
        Some(digits_value(d))
    } else {
        None
    }
}

proof fn lemma_digits_monotone(s: Seq<char>, i: int)
    requires
        0 <= i <= s.len(),
        all_digits(s),
    ensures
        digits_value(s.take(i)) <= digits_value(s),
    decreases s.len() - i,
{
    if i < s.len() {
        lemma_digits_monotone(s, i + 1);
        let t = s.take(i + 1);
        assert(t.drop_last() =~= s.take(i));
        let a = digits_value(s.take(i));
        assert(digits_value(t) == a * 10 + digit_value(t.last()));
        assert(a <= a * 10 + digit_value(t.last())) by (nonlinear_arith);
    } else {
        assert(s.take(i) =~= s);
    }
}

pub fn parse_usize(s: &str) -> (r: Option<usize>)
    ensures
        r matches Some(n) ==> parsed_usize(s@) == Some(n as nat),
        r is None ==> parsed_usize(s@) is None,
{
    let cs = chars_of(s);
    let mut start: usize = 0;
    if cs.len() > 0 && cs[0] == '+' {
        start = 1;
    }
    let ghost d = if s@.len() > 0 && s@[0] == '+' {
        s@.drop_first()
    } else {
        s@
    };
    assert(d =~= cs@.skip(start as int));
    if start >= cs.len() {
        return None;
    }
    let mut acc: usize = 0;
    let mut i = start;
    while i < cs.len()
        invariant
            start <= i <= cs.len(),
            start < cs.len(),
            cs@ == s@,
            d == (if s@.len() > 0 && s@[0] == '+' {
                s@.drop_first()
            } else {
                s@
            }),
            d == cs@.skip(start as int),
            all_digits(d.take(i - start)),
            acc as nat == digits_value(d.take(i - start)),
        decreases cs.len() - i,
    {
        let c = cs[i];
        if !digit(c) {
            assert(d[i - start] == c);
            assert(!all_digits(d));
            return None;
        }
        let dv = (c as u32 - '0' as u32) as usize;
        assert(dv < 10);
        let ghost t = d.take(i + 1 - start);
        assert(t.drop_last() =~= d.take(i - start));
        assert(t.last() == c);
        assert(all_digits(t)) by {
            assert forall|j: int| 0 <= j < t.len() implies is_digit(#[trigger] t[j]) by {
                if j < t.len() - 1 {
                    assert(t[j] == d.take(i - start)[j]);
                }
            }
        }
        if acc > (usize::MAX - dv) / 10 {
            proof {
                assert(acc * 10 + dv > usize::MAX) by (nonlinear_arith)
                    requires
                        acc > (usize::MAX - dv) / 10,
                        dv < 10,
                ;
                assert(digits_value(t) == acc * 10 + dv);
                if all_digits(d) {
                    lemma_digits_monotone(d, i + 1 - start);
                }
            }
            return None;
        }
        assert(acc * 10 + dv <= usize::MAX) by (nonlinear_arith)
            requires
                acc <= (usize::MAX - dv) / 10,
                dv < 10,
        ;
        acc = acc * 10 + dv;
        i += 1;
    }
    assert(d.take(cs.len() - start) =~= d);
    Some(acc)
}

pub open spec fn digit_char(d: nat) -> char {
    if d == 0 {
        '0'
    } else if d == 1 {
        '1'
    } else if d == 2 {
        '2'
    } else if d == 3 {
        '3'
    } else if d == 4 {
        '4'
    } else if d == 5 {
        '5'
    } else if d == 6 {
        '6'
    } else if d == 7 {
        '7'
    } else if d == 8 {
        '8'
    } else {
        '9'
    }
}

/// The decimal form of `n`, as `format!("{}", n)` writes it.
pub open spec fn decimal(n: nat) -> Seq<char>
    decreases n,
{
    if n < 10 {
        seq![digit_char(n)]
    } else {
        decimal(n / 10).push(digit_char(n % 10))
    }
}

fn digit_to_char(d: u128) -> (c: char)
    ensures
        c == digit_char(d as nat),
{
    if d == 0 {
        '0'
    } else if d == 1 {
        '1'
    } else if d == 2 {
        '2'
    } else if d == 3 {
        '3'
    } else if d == 4 {
        '4'
    } else if d == 5 {
        '5'
    } else if d == 6 {
        '6'
    } else if d == 7 {
        '7'
    } else if d == 8 {
        '8'
    } else {
        '9'
    }
}

pub fn push_decimal(out: &mut String, n: usize)
    ensures
        final(out)@ == old(out)@ + decimal(n as nat),
{
    push_decimal_wide(out, n as u128);
}

/// `push_decimal` for a `u128`, wide enough for one more than any `usize`.
pub fn push_decimal_wide(out: &mut String, n: u128)
    ensures
        final(out)@ == old(out)@ + decimal(n as nat),
    decreases n,
{
    if n >= 10 {
        push_decimal_wide(out, n / 10);
    }
    push_char(out, digit_to_char(n % 10));
    assert(decimal(n as nat) == if n < 10 {
        seq![digit_char(n as nat)]
    } else {
        decimal((n / 10) as nat).push(digit_char((n % 10) as nat))
    });
}

// ---------------------------------------------------------------------------
// Replacing
// ---------------------------------------------------------------------------

/// `str::replace` with a non-empty pattern: every leftmost, non-overlapping
/// occurrence of `pat` becomes `rep`.
pub open spec fn replaced(s: Seq<char>, pat: Seq<char>, rep: Seq<char>) -> Seq<char>
    decreases s.len(),
{
    if s.len() == 0 {
        Seq::empty()
    } else if pat.len() > 0 && has_prefix(s, pat) {
        rep + replaced(s.skip(pat.len() as int), pat, rep)
    } else {
        seq![s[0]] + replaced(s.drop_first(), pat, rep)
    }
}

pub fn replace(s: &str, pat: &str, rep: &str) -> (r: String)
    requires
        pat@.len() > 0,
    ensures
        r@ == replaced(s@, pat@, rep@),
{
    let cs = chars_of(s);
    let ps = chars_of(pat);
    let mut r = String::new();
    let mut i: usize = 0;
    assert(cs@.skip(0) =~= cs@);
    while i < cs.len()
        invariant
            cs@ == s@,
            ps@ == pat@,
            ps@.len() > 0,
            i <= cs.len(),
            r@ + replaced(cs@.skip(i as int), pat@, rep@) == replaced(s@, pat@, rep@),
        decreases cs.len() - i,
    {
        let ghost rest = cs@.skip(i as int);
        let ghost before = r@;
        if match_at(&cs, i, &ps) {
            assert(rest.subrange(0, ps@.len() as int) =~= cs@.subrange(i as int, i + ps@.len()));
            assert(rest.skip(ps@.len() as int) =~= cs@.skip(i + ps@.len()));
            r.append(rep);
            assert((before + rep@) + replaced(rest.skip(ps@.len() as int), pat@, rep@) =~= before
                + (rep@ + replaced(rest.skip(ps@.len() as int), pat@, rep@)));
            i = i + ps.len();
        } else {
            assert(!has_prefix(rest, pat@)) by {
                if has_prefix(rest, pat@) {
                    assert(rest.subrange(0, ps@.len() as int) =~= cs@.subrange(
                        i as int,
                        i + ps@.len(),
                    ));
                }
            }
            assert(rest.drop_first() =~= cs@.skip(i + 1));
            push_char(&mut r, cs[i]);
            assert(r@ + replaced(rest.drop_first(), pat@, rep@) =~= before + (seq![cs@[i as int]]
                + replaced(rest.drop_first(), pat@, rep@)));
            i = i + 1;
        }
    }
    assert(cs@.skip(i as int) =~= Seq::<char>::empty());
    assert(r@ =~= r@ + replaced(cs@.skip(i as int), pat@, rep@));
    r
}

// ---------------------------------------------------------------------------
// Searching and building
// ---------------------------------------------------------------------------

/// The first position at or after `i` that holds `c` (or the length).
pub open spec fn find_char_from(s: Seq<char>, c: char, i: int) -> int
    decreases s.len() - i,
{
    if 0 <= i < s.len() && s[i] != c {
        find_char_from(s, c, i + 1)
    } else {
        i
    }
}

pub proof fn lemma_find_char_from(s: Seq<char>, c: char, i: int)
    requires
        0 <= i <= s.len(),
    ensures
        i <= find_char_from(s, c, i) <= s.len(),
        find_char_from(s, c, i) < s.len() ==> s[find_char_from(s, c, i)] == c,
        forall|k: int| i <= k < find_char_from(s, c, i) ==> s[k] != c,
    decreases s.len() - i,
{
    if i < s.len() && s[i] != c {
        lemma_find_char_from(s, c, i + 1);
    }
}

pub fn find_char(cs: &Vec<char>, c: char, from: usize) -> (r: usize)
    requires
        from <= cs.len(),
    ensures
        r == find_char_from(cs@, c, from as int),
{
    let mut k = from;
    while k < cs.len() && cs[k] != c
        invariant
            from <= k <= cs.len(),
            find_char_from(cs@, c, from as int) == find_char_from(cs@, c, k as int),
        decreases cs.len() - k,
    {
        k += 1;
    }
    k
}

/// The length of the UTF-8 encoding of `s`, which `str::len` returns.
pub open spec fn utf8_len(s: Seq<char>) -> usize {
    vstd::utf8::encode_utf8(s).len() as usize
}

pub fn byte_len(s: &str) -> (r: usize)
    ensures
        r == utf8_len(s@),
{
    s.len()
}

pub fn cat2(a: &str, b: &str) -> (r: String)
    ensures
        r@ == a@ + b@,
{
    let mut r = owned(a);
    r.append(b);
    r
}

pub fn cat3(a: &str, b: &str, c: &str) -> (r: String)
    ensures
        r@ == a@ + b@ + c@,
{
    let mut r = cat2(a, b);
    r.append(c);
    r
}

pub fn cat4(a: &str, b: &str, c: &str, d: &str) -> (r: String)
    ensures
        r@ == a@ + b@ + c@ + d@,
{
    let mut r = cat3(a, b, c);
    r.append(d);
    r
}

pub fn cat5(a: &str, b: &str, c: &str, d: &str, e: &str) -> (r: String)
    ensures
        r@ == a@ + b@ + c@ + d@ + e@,
{
    let mut r = cat4(a, b, c, d);
    r.append(e);
    r
}

} // verus!
