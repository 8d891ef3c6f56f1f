//! The registry of command mappings between the three dialects.
//!
//! Every mapping names one command in Unix, PowerShell and CMD, and lists its
//! flags as groups that mean the same thing in the three dialects; all six
//! directions of translation read the same data. Lookups follow the index the
//! registry would build by inserting every mapping in order: where two
//! mappings share a name, the later one wins.

pub mod data;
pub mod dynamic;
pub mod reverse;

use vstd::prelude::*;
use crate::text::{
    all_ascii, ascii_lower, lemma_ascii_lower_idempotent, lowercase, same, to_lowercase,
};

verus! {

/// A shell dialect: one of the three command languages.
#[derive(Debug, Clone, Copy, PartialEq, Eq, Hash, Structural)]
pub enum Dialect {
    Unix,
    PowerShell,
    Cmd,
}

/// The dialect that a user-given name (already lower-cased) stands for.
pub open spec fn dialect_named(l: Seq<char>) -> Option<Dialect> {
    if l == "unix"@ || l == "bash"@ || l == "sh"@ || l == "ash"@ || l == "dash"@ || l == "zsh"@
        || l == "fish"@ || l == "ksh"@ || l == "tcsh"@ {
        Some(Dialect::Unix)
    } else if l == "powershell"@ || l == "ps"@ || l == "pwsh"@ {
        Some(Dialect::PowerShell)
    } else if l == "cmd"@ || l == "dos"@ || l == "batch"@ {
        Some(Dialect::Cmd)
    } else {
        None
    }
}

pub open spec fn dialect_name(d: Dialect) -> Seq<char> {
    match d {
        Dialect::Unix => "Unix"@,
        Dialect::PowerShell => "PowerShell"@,
        Dialect::Cmd => "CMD"@,
    }
}

impl Dialect {
    /// All the dialects.
    pub fn all() -> (r: [Dialect; 3])
        ensures
            r@ == seq![Dialect::Unix, Dialect::PowerShell, Dialect::Cmd],
    {
        [Dialect::Unix, Dialect::PowerShell, Dialect::Cmd]
    }

    /// Parse a user-given dialect name, ignoring case: shell names such as
    /// `bash` or `zsh` stand for Unix, `ps`/`pwsh` for PowerShell, `dos` and
    /// `batch` for CMD.
    pub fn from_str(s: &str) -> (r: Option<Dialect>)
        ensures
            r == dialect_named(lowercase(s@)),
            all_ascii(s@) ==> r == dialect_named(ascii_lower(s@)),
    {
        Dialect::from_lowercase(to_lowercase(s).as_str())
    }

    /// The dialect that a name already in lower case stands for.
    pub fn from_lowercase(l: &str) -> (r: Option<Dialect>)
        ensures
            r == dialect_named(l@),
    {
        if same(l, "unix") || same(l, "bash") || same(l, "sh") || same(l, "ash") || same(l, "dash")
            || same(l, "zsh") || same(l, "fish") || same(l, "ksh") || same(l, "tcsh") {
            Some(Dialect::Unix)
        } else if same(l, "powershell") || same(l, "ps") || same(l, "pwsh") {
            Some(Dialect::PowerShell)
        } else if same(l, "cmd") || same(l, "dos") || same(l, "batch") {
            Some(Dialect::Cmd)
        } else {
            None
        }
    }

    /// The same as `Dialect::from_str`.
    pub fn parse(s: &str) -> (r: Option<Dialect>)
        ensures
            r == dialect_named(lowercase(s@)),
            all_ascii(s@) ==> r == dialect_named(ascii_lower(s@)),
    {
        Dialect::from_str(s)
    }

    /// Human-readable name of the dialect.
    pub fn name(&self) -> (r: &'static str)
        ensures
            r@ == dialect_name(*self),
    {
        match self {
            Dialect::Unix => "Unix",
            Dialect::PowerShell => "PowerShell",
            Dialect::Cmd => "CMD",
        }
    }
}

/// The name of every dialect parses back to it: it is ASCII, and its lower
/// case names the dialect.
pub proof fn lemma_dialect_name_parses_back(d: Dialect)
    ensures
        all_ascii(dialect_name(d)),
        dialect_named(ascii_lower(dialect_name(d))) == Some(d),
{
    reveal_strlit("Unix");
    reveal_strlit("PowerShell");
    reveal_strlit("CMD");
    reveal_strlit("unix");
    reveal_strlit("powershell");
    reveal_strlit("cmd");
    reveal_strlit("bash");
    reveal_strlit("sh");
    reveal_strlit("ash");
    reveal_strlit("dash");
    reveal_strlit("zsh");
    reveal_strlit("fish");
    reveal_strlit("ksh");
    reveal_strlit("tcsh");
    reveal_strlit("ps");
    reveal_strlit("pwsh");
    assert("unix"@.len() == 4 && "bash"@.len() == 4 && "sh"@.len() == 2 && "ash"@.len() == 3);
    assert("dash"@.len() == 4 && "zsh"@.len() == 3 && "fish"@.len() == 4 && "ksh"@.len() == 3);
    assert("tcsh"@.len() == 4 && "ps"@.len() == 2 && "pwsh"@.len() == 4);
    assert("powershell"@.len() == 10 && "cmd"@.len() == 3);
    assert("cmd"@[0] != "ash"@[0] && "cmd"@[0] != "zsh"@[0] && "cmd"@[0] != "ksh"@[0]);
    match d {
        Dialect::Unix => {
            assert(ascii_lower("Unix"@) =~= "unix"@);
        },
        Dialect::PowerShell => {
            assert(ascii_lower("PowerShell"@) =~= "powershell"@);
        },
        Dialect::Cmd => {
            assert(ascii_lower("CMD"@) =~= "cmd"@);
        },
    }
}

/// Parsing ASCII text ignores its case: the text in lower case is ASCII
/// and, by the ASCII clause of `Dialect::from_str`, parses to the same
/// dialect as the text itself.
pub proof fn lemma_parse_ignores_ascii_case(s: Seq<char>)
    requires
        all_ascii(s),
    ensures
        all_ascii(ascii_lower(s)),
        dialect_named(ascii_lower(ascii_lower(s))) == dialect_named(ascii_lower(s)),
{
    lemma_ascii_lower_idempotent(s);
}

/// The spellings of one thing in the three dialects.
pub struct Names {
    pub unix: Seq<char>,
    pub powershell: Seq<char>,
    pub cmd: Seq<char>,
}

pub open spec fn spelled(n: Names, d: Dialect) -> Seq<char> {
    match d {
        Dialect::Unix => n.unix,
        Dialect::PowerShell => n.powershell,
        Dialect::Cmd => n.cmd,
    }
}

/// A group of flags that mean the same thing in all three dialects.
#[derive(Debug, Clone, Copy)]
pub struct FlagGroup {
    pub unix: &'static str,
    pub powershell: &'static str,
    pub cmd: &'static str,
}

impl View for FlagGroup {
    type V = Names;

    open spec fn view(&self) -> Names {
        Names { unix: self.unix@, powershell: self.powershell@, cmd: self.cmd@ }
    }
}

impl FlagGroup {
    /// The spelling of the flag in `dialect`.
    pub fn get(&self, dialect: Dialect) -> (r: &'static str)
        ensures
            r@ == spelled(self@, dialect),
    {
        match dialect {
            Dialect::Unix => self.unix,
            Dialect::PowerShell => self.powershell,
            Dialect::Cmd => self.cmd,
        }
    }
}

/// A command in the three dialects, with its flag groups, and whether it
/// needs arguments.
#[derive(Debug, Clone)]
pub struct CommandMapping {
    pub unix: &'static str,
    pub powershell: &'static str,
    pub cmd: &'static str,
    pub flags: Vec<FlagGroup>,
    pub force_args: bool,
}

pub struct MappingV {
    pub names: Names,
    pub flags: Seq<Names>,
    pub force_args: bool,
}

pub open spec fn flag_views(fs: Seq<FlagGroup>) -> Seq<Names> {
    fs.map_values(|f: FlagGroup| f@)
}

impl View for CommandMapping {
    type V = MappingV;

    open spec fn view(&self) -> MappingV {
        MappingV {
            names: Names { unix: self.unix@, powershell: self.powershell@, cmd: self.cmd@ },
            flags: flag_views(self.flags@),
            force_args: self.force_args,
        }
    }
}

pub open spec fn mapping_views(ms: Seq<CommandMapping>) -> Seq<MappingV> {
    ms.map_values(|m: CommandMapping| m@)
}

impl CommandMapping {
    /// The command name in `dialect`.
    pub fn cmd_name(&self, dialect: Dialect) -> (r: &'static str)
        ensures
            r@ == spelled(self@.names, dialect),
    {
        match dialect {
            Dialect::Unix => self.unix,
            Dialect::PowerShell => self.powershell,
            Dialect::Cmd => self.cmd,
        }
    }
}

// ---------------------------------------------------------------------------
// Lookups
// ---------------------------------------------------------------------------

/// The last of `table[..k]` whose name in `d` is the non-empty `name`.
pub open spec fn cmd_entry_before(table: Seq<MappingV>, d: Dialect, name: Seq<char>, k: int) -> Option<
    int,
>
    decreases k,
{
    if k <= 0 || k > table.len() {
        None
    } else if name.len() > 0 && spelled(table[k - 1].names, d) == name {
        Some(k - 1)
    } else {
        cmd_entry_before(table, d, name, k - 1)
    }
}

/// The mapping that `name` in dialect `d` selects: the last one so named.
pub open spec fn cmd_entry(table: Seq<MappingV>, d: Dialect, name: Seq<char>) -> Option<int> {
    cmd_entry_before(table, d, name, table.len() as int)
}

/// Among the first `f` flag groups of `m`, the last one whose spelling in `d`
/// is the non-empty `flag`, when `m` is named `name` in `d`.
pub open spec fn flag_entry_in(m: MappingV, d: Dialect, name: Seq<char>, flag: Seq<char>, f: int) -> Option<
    int,
>
    decreases f,
{
    if spelled(m.names, d) != name || f <= 0 || f > m.flags.len() {
        None
    } else if flag.len() > 0 && spelled(m.flags[f - 1], d) == flag {
        Some(f - 1)
    } else {
        flag_entry_in(m, d, name, flag, f - 1)
    }
}

/// The last (mapping, group) pair among `table[..k]` that the key
/// (`d`, `name`, `flag`) selects.
pub open spec fn flag_entry_before(
    table: Seq<MappingV>,
    d: Dialect,
    name: Seq<char>,
    flag: Seq<char>,
    k: int,
) -> Option<(int, int)>
    decreases k,
{
    if k <= 0 || k > table.len() {
        None
    } else {
        match flag_entry_in(table[k - 1], d, name, flag, table[k - 1].flags.len() as int) {
            Some(f) => Some((k - 1, f)),
            None => flag_entry_before(table, d, name, flag, k - 1),
        }
    }
}

pub open spec fn flag_entry(table: Seq<MappingV>, d: Dialect, name: Seq<char>, flag: Seq<char>) -> Option<
    (int, int),
> {
    flag_entry_before(table, d, name, flag, table.len() as int)
}

/// The flag group that (`d`, `name`, `flag`) selects.
pub open spec fn flag_group_of(table: Seq<MappingV>, d: Dialect, name: Seq<char>, flag: Seq<char>) -> Option<
    Names,
> {
    match flag_entry(table, d, name, flag) {
        Some((k, f)) => Some(table[k].flags[f]),
        None => None,
    }
}

/// The spelling in `target` of `flag` of command `name` in `source`: none
/// when the flag is unknown or has no spelling in `target`.
pub open spec fn translated_flag(
    table: Seq<MappingV>,
    source: Dialect,
    name: Seq<char>,
    flag: Seq<char>,
    target: Dialect,
) -> Option<Seq<char>> {
    match flag_group_of(table, source, name, flag) {
        Some(g) => if spelled(g, target).len() == 0 {
            None
        } else {
            Some(spelled(g, target))
        },
        None => None,
    }
}

/// The keys of the command index, in the order the mappings are inserted:
/// each non-empty name with its dialect.
pub open spec fn index_keys(table: Seq<MappingV>) -> Seq<(Dialect, Seq<char>)>
    decreases table.len(),
{
    if table.len() == 0 {
        Seq::empty()
    } else {
        let m = table.last();
        let k = index_keys(table.drop_last());
        let k1 = if m.names.unix.len() > 0 {
            k.push((Dialect::Unix, m.names.unix))
        } else {
            k
        };
        let k2 = if m.names.powershell.len() > 0 {
            k1.push((Dialect::PowerShell, m.names.powershell))
        } else {
            k1
        };
        if m.names.cmd.len() > 0 {
            k2.push((Dialect::Cmd, m.names.cmd))
        } else {
            k2
        }
    }
}

/// A command found by name in a dialect is so named there: the lookup never
/// answers with a mapping of another name, and never for the empty name.
pub proof fn lemma_found_command_is_named(table: Seq<MappingV>, d: Dialect, name: Seq<char>)
    ensures
        cmd_entry(table, d, name) matches Some(k) ==> 0 <= k < table.len() && name.len() > 0
            && spelled(table[k].names, d) == name,
{
    lemma_cmd_entry_before(table, d, name, table.len() as int);
}

proof fn lemma_cmd_entry_before(table: Seq<MappingV>, d: Dialect, name: Seq<char>, k: int)
    ensures
        cmd_entry_before(table, d, name, k) matches Some(j) ==> 0 <= j < k <= table.len()
            && name.len() > 0 && spelled(table[j].names, d) == name,
        0 <= k <= table.len() ==> forall|j: int|
            0 <= j < k && name.len() > 0 && spelled(#[trigger] table[j].names, d) == name
                ==> (cmd_entry_before(table, d, name, k) matches Some(i) && j <= i),
    decreases k,
{
    if k > 0 && k <= table.len() {
        lemma_cmd_entry_before(table, d, name, k - 1);
    }
}

/// Where two mappings share a name in a dialect, the later one wins: the
/// mapping a name selects is the last one of that name.
pub proof fn lemma_last_mapping_wins(table: Seq<MappingV>, d: Dialect, name: Seq<char>, k: int)
    requires
        0 <= k < table.len(),
        name.len() > 0,
        spelled(table[k].names, d) == name,
    ensures
        cmd_entry(table, d, name) matches Some(j) && k <= j && spelled(table[j].names, d) == name,
{
    lemma_cmd_entry_before(table, d, name, table.len() as int);
}

proof fn lemma_flag_entry_in(m: MappingV, d: Dialect, name: Seq<char>, flag: Seq<char>, f: int)
    ensures
        flag_entry_in(m, d, name, flag, f) matches Some(g) ==> 0 <= g < f <= m.flags.len()
            && spelled(m.names, d) == name && flag.len() > 0 && spelled(m.flags[g], d) == flag,
    decreases f,
{
    if spelled(m.names, d) == name && f > 0 && f <= m.flags.len() {
        lemma_flag_entry_in(m, d, name, flag, f - 1);
    }
}

proof fn lemma_flag_entry_before(
    table: Seq<MappingV>,
    d: Dialect,
    name: Seq<char>,
    flag: Seq<char>,
    k: int,
)
    ensures
        flag_entry_before(table, d, name, flag, k) matches Some((i, g)) ==> 0 <= i < k
            <= table.len() && 0 <= g < table[i].flags.len() && spelled(table[i].names, d) == name
            && flag.len() > 0 && spelled(table[i].flags[g], d) == flag,
    decreases k,
{
    if k > 0 && k <= table.len() {
        lemma_flag_entry_in(table[k - 1], d, name, flag, table[k - 1].flags.len() as int);
        lemma_flag_entry_before(table, d, name, flag, k - 1);
    }
}

/// A translated flag comes from one flag group of a mapping of that command
/// name: the group spells the flag as given in the source and the answer in
/// the target, and the answer is not empty.
pub proof fn lemma_translated_flag_from_group(
    table: Seq<MappingV>,
    source: Dialect,
    name: Seq<char>,
    flag: Seq<char>,
    target: Dialect,
)
    ensures
        translated_flag(table, source, name, flag, target) matches Some(t) ==> exists|k: int, g: int|
            0 <= k < table.len() && 0 <= g < table[k].flags.len() && spelled(
                #[trigger] table[k].names,
                source,
            ) == name && spelled(#[trigger] table[k].flags[g], source) == flag && spelled(
                table[k].flags[g],
                target,
            ) == t && t.len() > 0,
{
    lemma_flag_entry_before(table, source, name, flag, table.len() as int);
    if let Some((k, g)) = flag_entry(table, source, name, flag) {
        assert(spelled(table[k].names, source) == name);
        assert(spelled(table[k].flags[g], source) == flag);
    }
}

proof fn lemma_flag_entry_in_found(m: MappingV, d: Dialect, name: Seq<char>, flag: Seq<char>, f: int, g: int)
    requires
        spelled(m.names, d) == name,
        0 <= g < f <= m.flags.len(),
        flag.len() > 0,
        spelled(m.flags[g], d) == flag,
    ensures
        flag_entry_in(m, d, name, flag, f) is Some,
    decreases f,
{
    if g < f - 1 && !(spelled(m.flags[f - 1], d) == flag) {
        lemma_flag_entry_in_found(m, d, name, flag, f - 1, g);
    }
}

proof fn lemma_flag_entry_before_found(
    table: Seq<MappingV>,
    d: Dialect,
    name: Seq<char>,
    flag: Seq<char>,
    k: int,
    j: int,
)
    requires
        0 <= j < k <= table.len(),
        flag_entry_in(table[j], d, name, flag, table[j].flags.len() as int) is Some,
    ensures
        flag_entry_before(table, d, name, flag, k) is Some,
    decreases k,
{
    if j < k - 1 && flag_entry_in(table[k - 1], d, name, flag, table[k - 1].flags.len() as int)
        is None {
        lemma_flag_entry_before_found(table, d, name, flag, k - 1, j);
    }
}

/// A translated flag is known in the target dialect: under the target name
/// of the mapping it came from, looking the translated flag up finds a group
/// that spells it so.
pub proof fn lemma_translated_flag_known_back(
    table: Seq<MappingV>,
    source: Dialect,
    name: Seq<char>,
    flag: Seq<char>,
    target: Dialect,
)
    ensures
        translated_flag(table, source, name, flag, target) matches Some(t) ==> (flag_entry(
            table,
            source,
            name,
            flag,
        ) matches Some((k, g)) && flag_group_of(table, target, spelled(table[k].names, target), t)
            matches Some(back) && spelled(back, target) == t),
{
    lemma_flag_entry_before(table, source, name, flag, table.len() as int);
    if let Some(t) = translated_flag(table, source, name, flag, target) {
        let (k, g) = flag_entry(table, source, name, flag).unwrap();
        let tname = spelled(table[k].names, target);
        lemma_flag_entry_in_found(table[k], target, tname, t, table[k].flags.len() as int, g);
        lemma_flag_entry_before_found(table, target, tname, t, table.len() as int, k);
        lemma_flag_entry_before(table, target, tname, t, table.len() as int);
    }
}

/// Group `g` of mapping `k` is a key for (`d`, `name`, `flag`).
pub open spec fn flag_key_at(table: Seq<MappingV>, d: Dialect, name: Seq<char>, flag: Seq<char>, k: int, g: int) -> bool {
    &&& 0 <= k < table.len()
    &&& 0 <= g < table[k].flags.len()
    &&& spelled(table[k].names, d) == name
    &&& flag.len() > 0
    &&& spelled(table[k].flags[g], d) == flag
}

proof fn lemma_flag_entry_in_last(m: MappingV, d: Dialect, name: Seq<char>, flag: Seq<char>, f: int)
    requires
        0 <= f <= m.flags.len(),
    ensures
        forall|g2: int|
            0 <= g2 < f && spelled(m.names, d) == name && flag.len() > 0 && spelled(
                #[trigger] m.flags[g2],
                d,
            ) == flag ==> (flag_entry_in(m, d, name, flag, f) matches Some(g) && g2 <= g),
    decreases f,
{
    if f > 0 {
        lemma_flag_entry_in_last(m, d, name, flag, f - 1);
    }
}

proof fn lemma_flag_entry_before_last(
    table: Seq<MappingV>,
    d: Dialect,
    name: Seq<char>,
    flag: Seq<char>,
    k: int,
)
    requires
        0 <= k <= table.len(),
    ensures
        forall|k2: int, g2: int|
            k2 < k && #[trigger] flag_key_at(table, d, name, flag, k2, g2) ==> (flag_entry_before(
                table,
                d,
                name,
                flag,
                k,
            ) matches Some((k1, g1)) && (k2 < k1 || (k2 == k1 && g2 <= g1))),
    decreases k,
{
    if k > 0 {
        lemma_flag_entry_before_last(table, d, name, flag, k - 1);
        let m = table[k - 1];
        lemma_flag_entry_in_last(m, d, name, flag, m.flags.len() as int);
        lemma_flag_entry_in(m, d, name, flag, m.flags.len() as int);
        assert forall|k2: int, g2: int|
            k2 < k && #[trigger] flag_key_at(table, d, name, flag, k2, g2) implies (flag_entry_before(
            table,
            d,
            name,
            flag,
            k,
        ) matches Some((k1, g1)) && (k2 < k1 || (k2 == k1 && g2 <= g1))) by {
            if k2 == k - 1 {
                assert(spelled(m.flags[g2], d) == flag);
            } else {
                assert(flag_key_at(table, d, name, flag, k2, g2));
                if flag_entry_in(m, d, name, flag, m.flags.len() as int) is None {
                    assert(flag_entry_before(table, d, name, flag, k) == flag_entry_before(
                        table,
                        d,
                        name,
                        flag,
                        k - 1,
                    ));
                }
            }
        }
    }
}

/// The flag lookup finds the last key that matches: a group found for
/// (`d`, `name`, `flag`) spells the flag in `d` and belongs to a mapping so
/// named in `d`; a matching group, where there is one, is always found; and
/// the one found comes after every other match, by mapping and then by
/// group.
pub proof fn lemma_flag_lookup_finds_last(table: Seq<MappingV>, d: Dialect, name: Seq<char>, flag: Seq<char>)
    ensures
        flag_entry(table, d, name, flag) matches Some((k, g)) ==> flag_key_at(table, d, name, flag, k, g)
            && flag_group_of(table, d, name, flag) == Some(table[k].flags[g]),
        forall|k2: int, g2: int|
            #[trigger] flag_key_at(table, d, name, flag, k2, g2) ==> (flag_entry(
                table,
                d,
                name,
                flag,
            ) matches Some((k1, g1)) && (k2 < k1 || (k2 == k1 && g2 <= g1))),
{
    lemma_flag_entry_before(table, d, name, flag, table.len() as int);
    lemma_flag_entry_before_last(table, d, name, flag, table.len() as int);
}

/// Lookup indices over the static command mappings.
pub struct MappingRegistry {
    mappings: Vec<CommandMapping>,
}

impl View for MappingRegistry {
    type V = Seq<MappingV>;

    closed spec fn view(&self) -> Seq<MappingV> {
        mapping_views(self.mappings@)
    }
}

impl MappingRegistry {
    /// The registry of all the static command mappings.
    pub fn new() -> (r: Self)
        ensures
            r@ == data::table(),
    {
        MappingRegistry { mappings: data::all_mappings() }
    }

    /// The mapping of command `cmd_name` in dialect `source`.
    pub fn lookup_cmd(&self, source: Dialect, cmd_name: &str) -> (r: Option<&CommandMapping>)
        ensures
            r matches Some(m) ==> cmd_entry(self@, source, cmd_name@) matches Some(k) && m@
                == self@[k],
            r is None ==> cmd_entry(self@, source, cmd_name@) is None,
    {
        let mut k = self.mappings.len();
        while k > 0
            invariant
                k <= self.mappings.len(),
                cmd_entry(self@, source, cmd_name@) == cmd_entry_before(
                    self@,
                    source,
                    cmd_name@,
                    k as int,
                ),
            decreases k,
        {
            let m = &self.mappings[k - 1];
            assert(self@[k - 1] == m@);
            if !cmd_name.is_empty() && same(m.cmd_name(source), cmd_name) {
                return Some(m);
            }
            k -= 1;
        }
        None
    }

    /// The flag group that `flag` of command `cmd_name` in `source` belongs to.
    pub fn lookup_flag(&self, source: Dialect, cmd_name: &str, flag: &str) -> (r: Option<
        &FlagGroup,
    >)
        ensures
            r matches Some(g) ==> flag_group_of(self@, source, cmd_name@, flag@) == Some(g@),
            r is None ==> flag_group_of(self@, source, cmd_name@, flag@) is None,
    {
        let mut k = self.mappings.len();
        while k > 0
            invariant
                k <= self.mappings.len(),
                flag_entry(self@, source, cmd_name@, flag@) == flag_entry_before(
                    self@,
                    source,
                    cmd_name@,
                    flag@,
                    k as int,
                ),
            decreases k,
        {
            let m = &self.mappings[k - 1];
            let ghost mv = self@[k - 1];
            assert(mv == m@);
            if same(m.cmd_name(source), cmd_name) {
                let mut f = m.flags.len();
                while f > 0
                    invariant
                        0 < k <= self.mappings.len(),
                        mv == self@[k - 1],
                        flag_entry(self@, source, cmd_name@, flag@) == flag_entry_before(
                            self@,
                            source,
                            cmd_name@,
                            flag@,
                            k as int,
                        ),
                        f <= m.flags.len(),
                        mv == m@,
                        spelled(mv.names, source) == cmd_name@,
                        flag_entry_in(mv, source, cmd_name@, flag@, mv.flags.len() as int)
                            == flag_entry_in(mv, source, cmd_name@, flag@, f as int),
                    decreases f,
                {
                    let g = &m.flags[f - 1];
                    assert(mv.flags[f - 1] == g@);
                    if !flag.is_empty() && same(g.get(source), flag) {
                        assert(flag_entry(self@, source, cmd_name@, flag@) == Some(
                            ((k - 1) as int, (f - 1) as int),
                        ));
                        return Some(g);
                    }
                    f -= 1;
                }
            }
            k -= 1;
        }
        None
    }

    /// `flag` of command `cmd_name`, from `source` to `target`; `None` when
    /// the flag is not known in this direction.
    pub fn translate_flag(&self, source: Dialect, cmd_name: &str, flag: &str, target: Dialect) -> (r:
        Option<&'static str>)
        ensures
            r matches Some(t) ==> translated_flag(self@, source, cmd_name@, flag@, target) == Some(
                t@,
            ),
            r is None ==> translated_flag(self@, source, cmd_name@, flag@, target) is None,
    {
        match self.lookup_flag(source, cmd_name, flag) {
            Some(fg) => {
                let result = fg.get(target);
                if result.is_empty() {
                    None
                } else {
                    Some(result)
                }
            },
            None => None,
        }
    }

    /// Whether a command is known in a dialect.
    pub fn is_known(&self, source: Dialect, cmd_name: &str) -> (r: bool)
        ensures
            r == (cmd_entry(self@, source, cmd_name@) is Some),
    {
        self.lookup_cmd(source, cmd_name).is_some()
    }

    /// The number of distinct (dialect, command name) entries of the index,
    /// divided by three.
    pub fn command_count(&self) -> (r: usize)
        ensures
            r == index_keys(self@).to_set().len() / 3,
    {
        let mut seen: Vec<(Dialect, &'static str)> = Vec::new();
        let mut count: usize = 0;
        let mut k: usize = 0;
        proof {
            assert(self@.take(0) =~= Seq::<MappingV>::empty());
            assert(key_views(seen@) =~= Seq::<(Dialect, Seq<char>)>::empty());
            assert(key_views(seen@).to_set() =~= Set::<(Dialect, Seq<char>)>::empty());
        }
        while k < self.mappings.len()
            invariant
                k <= self.mappings.len(),
                key_views(seen@) == index_keys(self@.take(k as int)),
                count == key_views(seen@).to_set().len(),
            decreases self.mappings.len() - k,
        {
            let m = &self.mappings[k];
            assert(self@[k as int] == m@);
            assert(self@.take(k + 1).drop_last() =~= self@.take(k as int));
            note_key(&mut seen, &mut count, Dialect::Unix, m.unix);
            note_key(&mut seen, &mut count, Dialect::PowerShell, m.powershell);
            note_key(&mut seen, &mut count, Dialect::Cmd, m.cmd);
            k += 1;
        }
        assert(self@.take(k as int) =~= self@);
        count / 3
    }
}

impl Default for MappingRegistry {
    fn default() -> (r: Self)
        ensures
            r@ == data::table(),
    {
        MappingRegistry::new()
    }
}

pub open spec fn key_views(ks: Seq<(Dialect, &'static str)>) -> Seq<(Dialect, Seq<char>)> {
    ks.map_values(|k: (Dialect, &'static str)| (k.0, k.1@))
}

fn note_key(seen: &mut Vec<(Dialect, &'static str)>, count: &mut usize, d: Dialect, name: &'static str)
    requires
        *old(count) == key_views(old(seen)@).to_set().len(),
    ensures
        key_views(final(seen)@) == if name@.len() > 0 {
            key_views(old(seen)@).push((d, name@))
        } else {
            key_views(old(seen)@)
        },
        *final(count) == key_views(final(seen)@).to_set().len(),
{
    broadcast use vstd::set::group_set_axioms, vstd::seq_lib::seq_to_set_is_finite;

    if name.is_empty() {
        return;
    }
    let ghost ks = key_views(seen@);
    let mut found = false;
    let mut i: usize = 0;
    while i < seen.len()
        invariant
            i <= seen.len(),
            ks == key_views(seen@),
            found == exists|j: int| 0 <= j < i && ks[j] == (d, name@),
        decreases seen.len() - i,
    {
        if seen[i].0 == d && same(seen[i].1, name) {
            assert(ks[i as int] == (d, name@));
            found = true;
        }
        i += 1;
    }
    proof {
        ks.lemma_cardinality_of_set();
        ks.lemma_push_to_set_commute((d, name@));
        if found {
            let j = choose|j: int| 0 <= j < seen@.len() && ks[j] == (d, name@);
            assert(ks.to_set().contains(ks[j]));
        } else {
            assert(!ks.to_set().contains((d, name@)));
        }
    }
    seen.push((d, name));
    assert(key_views(seen@) =~= ks.push((d, name@)));
    let total = seen.len();
    if !found {
        assert(*count < total);
        *count = *count + 1;
    }
}

} // verus!
