//! Project commands: reading and setting configuration keys, and the
//! decisions of the project analysis (the order in which files are
//! reported, what each file contributes to the script image, the totals,
//! and the space left in the script partition).

use vstd::prelude::*;
use vstd::string::StrSliceExecFns;
use vstd::string::StringExecFns;
use crate::text::{
    comma_parts, dec_text, dec_u32, join_strings, joined, parse_u32, split_commas, str_trim, str_views, string_views,
    trimmed, u32_text,
};

verus! {

broadcast use vstd::seq_lib::to_multiset_insert, vstd::seq_lib::to_multiset_build;

/// Is the file the entry script (`main.lua` or `main.luac`)?
pub open spec fn is_main_script(s: Seq<char>) -> bool {
    s == seq!['m', 'a', 'i', 'n', '.', 'l', 'u', 'a'] || s == seq!['m', 'a', 'i', 'n', '.', 'l', 'u', 'a', 'c']
}

/// Lexicographic order of strings by code point (for UTF-8 text this is
/// the byte order that `str` compares by).
pub open spec fn lex_lt(a: Seq<char>, b: Seq<char>) -> bool
    decreases a.len(),
{
    if a.len() == 0 {
        b.len() > 0
    } else if b.len() == 0 {
        false
    } else if a[0] != b[0] {
        (a[0] as u32) < (b[0] as u32)
    } else {
        lex_lt(a.drop_first(), b.drop_first())
    }
}

/// The report order: the entry script first, then by name.
pub open spec fn name_before(a: Seq<char>, b: Seq<char>) -> bool {
    (is_main_script(a) && !is_main_script(b)) || (is_main_script(a) == is_main_script(b) && lex_lt(a, b))
}

/// No name comes after a later one.
pub open spec fn in_report_order(s: Seq<String>) -> bool {
    forall|i: int, j: int| 0 <= i < j < s.len() ==> !name_before(#[trigger] s[j]@, #[trigger] s[i]@)
}

proof fn lemma_lex_lt_transitive(a: Seq<char>, b: Seq<char>, c: Seq<char>)
    requires
        lex_lt(a, b),
        lex_lt(b, c),
    ensures
        lex_lt(a, c),
    decreases a.len(),
{
    if a.len() > 0 && a[0] == b[0] && b[0] == c[0] {
        lemma_lex_lt_transitive(a.drop_first(), b.drop_first(), c.drop_first());
    }
}

/// The report order is transitive.
pub proof fn lemma_name_before_transitive(a: Seq<char>, b: Seq<char>, c: Seq<char>)
    requires
        name_before(a, b),
        name_before(b, c),
    ensures
        name_before(a, c),
{
    if is_main_script(a) == is_main_script(b) && is_main_script(b) == is_main_script(c) {
        lemma_lex_lt_transitive(a, b, c);
    }
}

/// No string comes before itself.
pub proof fn lemma_lex_lt_irreflexive(a: Seq<char>)
    ensures
        !lex_lt(a, a),
    decreases a.len(),
{
    if a.len() > 0 {
        lemma_lex_lt_irreflexive(a.drop_first());
    }
}

/// Compares two strings by code point.
pub fn str_less(a: &str, b: &str) -> (r: bool)
    ensures
        r == lex_lt(a@, b@),
{
    let n = a.unicode_len();
    let m = b.unicode_len();
    let mut i: usize = 0;
    assert(a@.skip(0) =~= a@);
    assert(b@.skip(0) =~= b@);
    while i < n && i < m
        invariant
            n == a@.len(),
            m == b@.len(),
            i <= n,
            i <= m,
            lex_lt(a@, b@) == lex_lt(a@.skip(i as int), b@.skip(i as int)),
        decreases n - i,
    {
        let x = a.get_char(i);
        let y = b.get_char(i);
        if x != y {
            return (x as u32) < (y as u32);
        }
        assert(a@.skip(i as int).drop_first() =~= a@.skip(i + 1));
        assert(b@.skip(i as int).drop_first() =~= b@.skip(i + 1));
        i = i + 1;
    }
    i == n && i < m
}

/// Is `s` the entry script?
pub fn is_main_name(s: &str) -> (r: bool)
    ensures
        r == is_main_script(s@),
{
    let o = s.to_owned();
    let r = o == "main.lua".to_owned() || o == "main.luac".to_owned();
    proof {
        reveal_strlit("main.lua");
        reveal_strlit("main.luac");
        assert("main.lua"@ =~= seq!['m', 'a', 'i', 'n', '.', 'l', 'u', 'a']);
        assert("main.luac"@ =~= seq!['m', 'a', 'i', 'n', '.', 'l', 'u', 'a', 'c']);
    }
    r
}

/// Does `a` come before `b` in the report?
pub fn report_before(a: &str, b: &str) -> (r: bool)
    ensures
        r == name_before(a@, b@),
{
    let ma = is_main_name(a);
    let mb = is_main_name(b);
    if ma && !mb {
        true
    } else if ma == mb {
        str_less(a, b)
    } else {
        false
    }
}

/// The file names in report order (a sorted permutation of `names`): the
/// entry script first, the others by name.
pub fn analysis_order(names: &Vec<String>) -> (r: Vec<String>)
    ensures
        r@.to_multiset() == names@.to_multiset(),
        in_report_order(r@),
{
    let mut r: Vec<String> = Vec::new();
    let mut k: usize = 0;
    assert(names@.take(0) =~= Seq::<String>::empty());
    while k < names.len()
        invariant
            k <= names@.len(),
            r@.to_multiset() == names@.take(k as int).to_multiset(),
            in_report_order(r@),
        decreases names@.len() - k,
    {
        let x = names[k].clone();
        let mut p: usize = 0;
        while p < r.len() && !report_before(x.as_str(), r[p].as_str())
            invariant
                p <= r@.len(),
                in_report_order(r@),
                forall|q: int| 0 <= q < p ==> !name_before(x@, #[trigger] r@[q]@),
            decreases r@.len() - p,
        {
            p = p + 1;
        }
        let ghost old_r = r@;
        proof {
            if p < old_r.len() {
                assert(name_before(x@, old_r[p as int]@));
            }
        }
        r.insert(p, x);
        proof {
            assert(r@ == old_r.insert(p as int, x));
            assert forall|i: int, j: int| 0 <= i < j < r@.len() implies !name_before(#[trigger] r@[j]@, #[trigger] r@[i]@) by {
                if i < p && j == p {
                } else if i == p && j > p {
                    assert(r@[j] == old_r[j - 1]);
                    if p < j - 1 {
                        assert(!name_before(old_r[j - 1]@, old_r[p as int]@));
                    } else {
                        lemma_name_before_irreflexive(old_r[p as int]@);
                    }
                    if name_before(old_r[j - 1]@, x@) {
                        lemma_name_before_transitive(old_r[j - 1]@, x@, old_r[p as int]@);
                    }
                } else if j < p {
                    assert(r@[i] == old_r[i] && r@[j] == old_r[j]);
                } else if i > p {
                    assert(r@[i] == old_r[i - 1] && r@[j] == old_r[j - 1]);
                } else {
                    assert(i < p && j > p);
                    assert(r@[i] == old_r[i] && r@[j] == old_r[j - 1]);
                }
            }
            assert(names@.take(k + 1) =~= names@.take(k as int).push(names@[k as int]));
        }
        k = k + 1;
    }
    assert(names@.take(names@.len() as int) =~= names@);
    r
}

proof fn lemma_name_before_irreflexive(a: Seq<char>)
    ensures
        !name_before(a, a),
{
    lemma_lex_lt_irreflexive(a);
}

/// What a file adds to the built image.
#[derive(Debug, Clone, Copy, PartialEq, Eq, Structural)]
pub struct FileAnalysis {
    /// Size of the file on disk.
    pub raw_size: usize,
    /// Size in the image; None when the file did not compile.
    pub built_size: Option<usize>,
    /// Reachable from the entry script (or all files included).
    pub included: bool,
    /// The file has a syntax error.
    pub has_error: bool,
}

/// The built size of a file: a Lua source that compiled counts its
/// bytecode when bytecode is used and its source otherwise, one that did
/// not compile has none; any other file counts as it is.
pub fn built_size(is_lua_source: bool, compiled_len: Option<usize>, use_luac: bool, raw_size: usize) -> (r: Option<usize>)
    ensures
        r == if !is_lua_source {
            Some(raw_size)
        } else {
            match compiled_len {
                Some(n) => Some(if use_luac { n } else { raw_size }),
                None => None,
            }
        },
{
    if !is_lua_source {
        Some(raw_size)
    } else {
        match compiled_len {
            Some(n) => Some(if use_luac { n } else { raw_size }),
            None => None,
        }
    }
}

/// The status column of a file.
pub open spec fn status_spec(f: FileAnalysis) -> &'static str {
    if f.has_error {
        "✗ error"
    } else if f.included {
        "✓"
    } else {
        "— excluded"
    }
}

/// The status column of a file: an error wins over inclusion.
pub fn file_status(f: &FileAnalysis) -> (r: &'static str)
    ensures
        r == status_spec(*f),
{
    if f.has_error {
        "✗ error"
    } else if f.included {
        "✓"
    } else {
        "— excluded"
    }
}

/// Raw bytes of the included files.
pub open spec fn included_raw(s: Seq<FileAnalysis>) -> int
    decreases s.len(),
{
    if s.len() == 0 {
        0
    } else {
        included_raw(s.drop_last()) + if s.last().included { s.last().raw_size as int } else { 0 }
    }
}

/// Built bytes of the included files (a file without a built size counts
/// its raw size).
pub open spec fn included_built(s: Seq<FileAnalysis>) -> int
    decreases s.len(),
{
    if s.len() == 0 {
        0
    } else {
        included_built(s.drop_last()) + if s.last().included {
            match s.last().built_size {
                Some(b) => b as int,
                None => s.last().raw_size as int,
            }
        } else {
            0
        }
    }
}

proof fn lemma_included_prefix(s: Seq<FileAnalysis>, k: int)
    requires
        0 <= k <= s.len(),
    ensures
        0 <= included_raw(s.take(k)) <= included_raw(s),
        0 <= included_built(s.take(k)) <= included_built(s),
    decreases s.len(),
{
    if s.len() > 0 {
        if k == s.len() {
            assert(s.take(k) =~= s);
            lemma_included_prefix(s.drop_last(), k - 1);
            assert(s.drop_last().take(k - 1) =~= s.drop_last());
        } else {
            lemma_included_prefix(s.drop_last(), k);
            assert(s.drop_last().take(k) =~= s.take(k));
        }
    }
}

/// The totals row: raw and built bytes of the included files.
pub fn included_totals(results: &[FileAnalysis]) -> (r: (usize, usize))
    requires
        included_raw(results@) <= usize::MAX,
        included_built(results@) <= usize::MAX,
    ensures
        r.0 == included_raw(results@),
        r.1 == included_built(results@),
{
    let mut raw: usize = 0;
    let mut built: usize = 0;
    let mut k: usize = 0;
    assert(results@.take(0) =~= Seq::<FileAnalysis>::empty());
    while k < results.len()
        invariant
            k <= results@.len(),
            included_raw(results@) <= usize::MAX,
            included_built(results@) <= usize::MAX,
            raw == included_raw(results@.take(k as int)),
            built == included_built(results@.take(k as int)),
        decreases results@.len() - k,
    {
        let f = results[k];
        assert(results@.take(k + 1).drop_last() =~= results@.take(k as int));
        assert(results@.take(k + 1).last() == f);
        proof {
            lemma_included_prefix(results@, k + 1);
        }
        if f.included {
            raw = raw + f.raw_size;
            built = built + match f.built_size {
                Some(b) => b,
                None => f.raw_size,
            };
        }
        k = k + 1;
    }
    assert(results@.take(results@.len() as int) =~= results@);
    (raw, built)
}

/// `s` with every ".lua" replaced by ".luac", scanning left to right.
pub open spec fn lua_to_luac(s: Seq<char>) -> Seq<char>
    decreases s.len(),
{
    if s.len() < 4 {
        s
    } else if s[0] == '.' && s[1] == 'l' && s[2] == 'u' && s[3] == 'a' {
        seq!['.', 'l', 'u', 'a', 'c'] + lua_to_luac(s.skip(4))
    } else {
        seq![s[0]] + lua_to_luac(s.skip(1))
    }
}

/// The image entry name of a compiled Lua source.
pub fn luadb_entry_name(name: &str) -> (r: String)
    ensures
        r@ == lua_to_luac(name@),
{
    let n = name.unicode_len();
    let mut out = String::new();
    let mut i: usize = 0;
    assert(name@.skip(0) =~= name@);
    while n - i >= 4
        invariant
            n == name@.len(),
            i <= n,
            out@ + lua_to_luac(name@.skip(i as int)) == lua_to_luac(name@),
        decreases n - i,
    {
        let ghost rest = name@.skip(i as int);
        if name.get_char(i) == '.' && name.get_char(i + 1) == 'l' && name.get_char(i + 2) == 'u' && name.get_char(
            i + 3,
        ) == 'a' {
            assert(rest.skip(4) =~= name@.skip(i + 4));
            out.append(".luac");
            proof {
                reveal_strlit(".luac");
                assert(".luac"@ =~= seq!['.', 'l', 'u', 'a', 'c']);
            }
            i = i + 4;
        } else {
            assert(rest.skip(1) =~= name@.skip(i + 1));
            let c = name.substring_char(i, i + 1);
            assert(c@ =~= seq![rest[0]]);
            out.append(c);
            i = i + 1;
        }
    }
    let tail = name.substring_char(i, n);
    assert(tail@ =~= name@.skip(i as int));
    out.append(tail);
    out
}

/// The partition line: bytes left and whether the image overflows it.
pub fn partition_space(image_size: usize, partition_size: usize) -> (r: (usize, bool))
    ensures
        r.0 == if partition_size >= image_size { partition_size - image_size } else { 0 },
        r.1 == (image_size > partition_size),
{
    (partition_size.saturating_sub(image_size), image_size > partition_size)
}

/// Is a file with this name among `names`?
pub open spec fn name_listed(names: Seq<String>, name: Seq<char>) -> bool {
    exists|j: int| 0 <= j < names.len() && (#[trigger] names[j])@ == name
}

/// The files not reachable from the entry script, in their order.
pub open spec fn unreachable_spec(files: Seq<String>, reachable: Seq<String>) -> Seq<String>
    decreases files.len(),
{
    if files.len() == 0 {
        seq![]
    } else if name_listed(reachable, files.last()@) {
        unreachable_spec(files.drop_last(), reachable)
    } else {
        unreachable_spec(files.drop_last(), reachable).push(files.last())
    }
}

fn is_listed(names: &[String], name: &String) -> (r: bool)
    ensures
        r == name_listed(names@, name@),
{
    let mut j: usize = 0;
    while j < names.len()
        invariant
            j <= names@.len(),
            forall|k: int| 0 <= k < j ==> (#[trigger] names@[k])@ != name@,
        decreases names@.len() - j,
    {
        if names[j] == *name {
            return true;
        }
        j = j + 1;
    }
    false
}

/// The files the dependency graph does not reach (they can be excluded).
pub fn unreachable_files(files: &[String], reachable: &[String]) -> (r: Vec<String>)
    ensures
        r@ == unreachable_spec(files@, reachable@),
{
    let mut r: Vec<String> = Vec::new();
    let mut i: usize = 0;
    assert(files@.take(0) =~= Seq::<String>::empty());
    while i < files.len()
        invariant
            i <= files@.len(),
            r@ == unreachable_spec(files@.take(i as int), reachable@),
        decreases files@.len() - i,
    {
        assert(files@.take(i + 1).drop_last() =~= files@.take(i as int));
        assert(files@.take(i + 1).last() == files@[i as int]);
        if !is_listed(reachable, &files[i]) {
            r.push(files[i].clone());
        }
        i = i + 1;
    }
    assert(files@.take(files@.len() as int) =~= files@);
    r
}

/// The settings of a project file.
#[derive(Debug, Clone, PartialEq, Eq)]
pub struct ProjectConfig {
    pub name: String,
    pub chip: String,
    pub version: String,
    pub description: Option<String>,
    pub script_dirs: Vec<String>,
    pub script_files: Vec<String>,
    pub output_dir: String,
    pub use_luac: bool,
    pub bitw: u32,
    pub luac_debug: bool,
    pub ignore_deps: bool,
    pub soc_file: Option<String>,
    pub port: Option<String>,
    pub baud: Option<u32>,
}

/// A setting of the project file, as `project config` names it.
#[derive(Debug, Clone, Copy, PartialEq, Eq, Structural)]
pub enum ConfigKey {
    /// "project.name"
    Name,
    /// "project.chip"
    Chip,
    /// "project.version"
    Version,
    /// "project.description"
    Description,
    /// "build.script_dir" or "build.script_dirs"
    ScriptDirs,
    /// "build.script_files"
    ScriptFiles,
    /// "build.output_dir"
    OutputDir,
    /// "build.use_luac"
    UseLuac,
    /// "build.bitw"
    Bitw,
    /// "build.luac_debug"
    LuacDebug,
    /// "build.ignore_deps"
    IgnoreDeps,
    /// "flash.soc_file"
    SocFile,
    /// "flash.port"
    Port,
    /// "flash.baud"
    Baud,
}

/// Why a configuration key cannot be read or set.
#[derive(Debug, Clone, Copy, PartialEq, Eq, Structural)]
pub enum ConfigError {
    /// No setting has this key.
    UnknownKey,
    /// The value does not parse as the setting's type.
    InvalidValue,
}

/// The setting a key names.
pub open spec fn config_key_spec(key: Seq<char>) -> Option<ConfigKey> {
    if key == "project.name"@ {
        Some(ConfigKey::Name)
    } else if key == "project.chip"@ {
        Some(ConfigKey::Chip)
    } else if key == "project.version"@ {
        Some(ConfigKey::Version)
    } else if key == "project.description"@ {
        Some(ConfigKey::Description)
    } else if key == "build.script_dir"@ || key == "build.script_dirs"@ {
        Some(ConfigKey::ScriptDirs)
    } else if key == "build.script_files"@ {
        Some(ConfigKey::ScriptFiles)
    } else if key == "build.output_dir"@ {
        Some(ConfigKey::OutputDir)
    } else if key == "build.use_luac"@ {
        Some(ConfigKey::UseLuac)
    } else if key == "build.bitw"@ {
        Some(ConfigKey::Bitw)
    } else if key == "build.luac_debug"@ {
        Some(ConfigKey::LuacDebug)
    } else if key == "build.ignore_deps"@ {
        Some(ConfigKey::IgnoreDeps)
    } else if key == "flash.soc_file"@ {
        Some(ConfigKey::SocFile)
    } else if key == "flash.port"@ {
        Some(ConfigKey::Port)
    } else if key == "flash.baud"@ {
        Some(ConfigKey::Baud)
    } else {
        None
    }
}

fn key_is(key: &str, k: &str) -> (r: bool)
    ensures
        r == (key@ == k@),
{
    key.to_owned() == k.to_owned()
}

/// Looks a key up.
pub fn config_key(key: &str) -> (r: Option<ConfigKey>)
    ensures
        r == config_key_spec(key@),
{
    if key_is(key, "project.name") {
        Some(ConfigKey::Name)
    } else if key_is(key, "project.chip") {
        Some(ConfigKey::Chip)
    } else if key_is(key, "project.version") {
        Some(ConfigKey::Version)
    } else if key_is(key, "project.description") {
        Some(ConfigKey::Description)
    } else if key_is(key, "build.script_dir") || key_is(key, "build.script_dirs") {
        Some(ConfigKey::ScriptDirs)
    } else if key_is(key, "build.script_files") {
        Some(ConfigKey::ScriptFiles)
    } else if key_is(key, "build.output_dir") {
        Some(ConfigKey::OutputDir)
    } else if key_is(key, "build.use_luac") {
        Some(ConfigKey::UseLuac)
    } else if key_is(key, "build.bitw") {
        Some(ConfigKey::Bitw)
    } else if key_is(key, "build.luac_debug") {
        Some(ConfigKey::LuacDebug)
    } else if key_is(key, "build.ignore_deps") {
        Some(ConfigKey::IgnoreDeps)
    } else if key_is(key, "flash.soc_file") {
        Some(ConfigKey::SocFile)
    } else if key_is(key, "flash.port") {
        Some(ConfigKey::Port)
    } else if key_is(key, "flash.baud") {
        Some(ConfigKey::Baud)
    } else {
        None
    }
}

/// `true` or `false` as text.
pub open spec fn bool_text(b: bool) -> Seq<char> {
    if b {
        "true"@
    } else {
        "false"@
    }
}

/// An optional text, empty when absent.
pub open spec fn text_or_empty(s: Option<String>) -> Seq<char> {
    match s {
        Some(t) => t@,
        None => Seq::empty(),
    }
}

/// The value `project config <key>` shows: texts as they are, lists joined
/// with ", ", flags as true/false, numbers in decimal, absent values empty.
pub open spec fn config_value_spec(c: ProjectConfig, k: ConfigKey) -> Seq<char> {
    match k {
        ConfigKey::Name => c.name@,
        ConfigKey::Chip => c.chip@,
        ConfigKey::Version => c.version@,
        ConfigKey::Description => text_or_empty(c.description),
        ConfigKey::ScriptDirs => joined(string_views(c.script_dirs@), ", "@),
        ConfigKey::ScriptFiles => joined(string_views(c.script_files@), ", "@),
        ConfigKey::OutputDir => c.output_dir@,
        ConfigKey::UseLuac => bool_text(c.use_luac),
        ConfigKey::Bitw => dec_text(c.bitw as nat),
        ConfigKey::LuacDebug => bool_text(c.luac_debug),
        ConfigKey::IgnoreDeps => bool_text(c.ignore_deps),
        ConfigKey::SocFile => text_or_empty(c.soc_file),
        ConfigKey::Port => text_or_empty(c.port),
        ConfigKey::Baud => match c.baud {
            Some(b) => dec_text(b as nat),
            None => Seq::empty(),
        },
    }
}

fn bool_string(b: bool) -> (r: String)
    ensures
        r@ == bool_text(b),
{
    if b {
        "true".to_owned()
    } else {
        "false".to_owned()
    }
}

fn opt_string(s: &Option<String>) -> (r: String)
    ensures
        r@ == text_or_empty(*s),
{
    match s {
        Some(t) => t.clone(),
        None => String::new(),
    }
}

/// The value of a configuration key (see `config_value_spec`).
pub fn get_config_value(c: &ProjectConfig, key: &str) -> (r: Result<String, ConfigError>)
    ensures
        match config_key_spec(key@) {
            Some(k) => r is Ok && r->Ok_0@ == config_value_spec(*c, k),
            None => r == Err::<String, ConfigError>(ConfigError::UnknownKey),
        },
{
    let k = match config_key(key) {
        Some(k) => k,
        None => return Err(ConfigError::UnknownKey),
    };
    let v = match k {
        ConfigKey::Name => c.name.clone(),
        ConfigKey::Chip => c.chip.clone(),
        ConfigKey::Version => c.version.clone(),
        ConfigKey::Description => opt_string(&c.description),
        ConfigKey::ScriptDirs => join_strings(c.script_dirs.as_slice(), ", "),
        ConfigKey::ScriptFiles => join_strings(c.script_files.as_slice(), ", "),
        ConfigKey::OutputDir => c.output_dir.clone(),
        ConfigKey::UseLuac => bool_string(c.use_luac),
        ConfigKey::Bitw => u32_text(c.bitw),
        ConfigKey::LuacDebug => bool_string(c.luac_debug),
        ConfigKey::IgnoreDeps => bool_string(c.ignore_deps),
        ConfigKey::SocFile => opt_string(&c.soc_file),
        ConfigKey::Port => opt_string(&c.port),
        ConfigKey::Baud => match c.baud {
            Some(b) => u32_text(b),
            None => String::new(),
        },
    };
    Ok(v)
}

/// `bool::from_str`: exactly "true" or "false".
pub open spec fn bool_from_text(s: Seq<char>) -> Option<bool> {
    if s == "true"@ {
        Some(true)
    } else if s == "false"@ {
        Some(false)
    } else {
        None
    }
}

fn parse_bool(s: &str) -> (r: Option<bool>)
    ensures
        r == bool_from_text(s@),
{
    if key_is(s, "true") {
        Some(true)
    } else if key_is(s, "false") {
        Some(false)
    } else {
        None
    }
}

/// A comma-separated list, each piece trimmed.
pub open spec fn list_setting(value: Seq<char>) -> Seq<Seq<char>> {
    comma_parts(value).map_values(|p: Seq<char>| trimmed(p))
}

fn split_list(value: &str) -> (r: Vec<String>)
    ensures
        string_views(r@) == list_setting(value@),
{
    let parts = split_commas(value);
    let ghost views = str_views(parts@);
    let mut r: Vec<String> = Vec::new();
    let mut i: usize = 0;
    while i < parts.len()
        invariant
            i <= parts@.len(),
            views == str_views(parts@),
            views == comma_parts(value@),
            string_views(r@) == views.subrange(0, i as int).map_values(|p: Seq<char>| trimmed(p)),
        decreases parts@.len() - i,
    {
        let t = str_trim(parts[i]);
        let ghost before = r@;
        r.push(t.to_owned());
        assert(string_views(r@) =~= string_views(before).push(trimmed(parts@[i as int]@)));
        assert(views.subrange(0, i + 1).map_values(|p: Seq<char>| trimmed(p)) =~= views.subrange(0, i as int).map_values(
            |p: Seq<char>| trimmed(p),
        ).push(trimmed(views[i as int])));
        i = i + 1;
    }
    assert(views.subrange(0, parts@.len() as int) =~= views);
    r
}

/// Does the value parse as the setting's type? Texts and lists always do,
/// flags must be "true"/"false", numbers decimal `u32`s.
pub open spec fn value_accepted(k: ConfigKey, value: Seq<char>) -> bool {
    match k {
        ConfigKey::UseLuac | ConfigKey::LuacDebug | ConfigKey::IgnoreDeps => bool_from_text(value) is Some,
        ConfigKey::Bitw | ConfigKey::Baud => dec_u32(value) is Some,
        _ => true,
    }
}

/// `n` is `o` after setting `k` to `value`: the setting holds the value
/// (texts as given, lists split at commas and trimmed, flags and numbers
/// parsed), and nothing else changed.
pub open spec fn config_after_set(o: ProjectConfig, n: ProjectConfig, k: ConfigKey, value: Seq<char>) -> bool {
    match k {
        ConfigKey::Name => n == ProjectConfig { name: n.name, ..o } && n.name@ == value,
        ConfigKey::Chip => n == ProjectConfig { chip: n.chip, ..o } && n.chip@ == value,
        ConfigKey::Version => n == ProjectConfig { version: n.version, ..o } && n.version@ == value,
        ConfigKey::Description => n == ProjectConfig { description: n.description, ..o } && n.description is Some
            && text_or_empty(n.description) == value,
        ConfigKey::ScriptDirs => n == ProjectConfig { script_dirs: n.script_dirs, ..o } && string_views(n.script_dirs@)
            == list_setting(value),
        ConfigKey::ScriptFiles => n == ProjectConfig { script_files: n.script_files, ..o } && string_views(
            n.script_files@,
        ) == list_setting(value),
        ConfigKey::OutputDir => n == ProjectConfig { output_dir: n.output_dir, ..o } && n.output_dir@ == value,
        ConfigKey::UseLuac => n == ProjectConfig { use_luac: bool_from_text(value)->0, ..o },
        ConfigKey::Bitw => n == ProjectConfig { bitw: dec_u32(value)->0, ..o },
        ConfigKey::LuacDebug => n == ProjectConfig { luac_debug: bool_from_text(value)->0, ..o },
        ConfigKey::IgnoreDeps => n == ProjectConfig { ignore_deps: bool_from_text(value)->0, ..o },
        ConfigKey::SocFile => n == ProjectConfig { soc_file: n.soc_file, ..o } && n.soc_file is Some && text_or_empty(
            n.soc_file,
        ) == value,
        ConfigKey::Port => n == ProjectConfig { port: n.port, ..o } && n.port is Some && text_or_empty(n.port) == value,
        ConfigKey::Baud => n == ProjectConfig { baud: Some(dec_u32(value)->0), ..o },
    }
}

/// Sets a configuration key (see `config_after_set`); an unknown key or a
/// value that does not parse changes nothing.
pub fn set_config_value(c: &mut ProjectConfig, key: &str, value: &str) -> (r: Result<(), ConfigError>)
    ensures
        match config_key_spec(key@) {
            None => r == Err::<(), ConfigError>(ConfigError::UnknownKey) && *final(c) == *old(c),
            Some(k) => if value_accepted(k, value@) {
                r is Ok && config_after_set(*old(c), *final(c), k, value@)
            } else {
                r == Err::<(), ConfigError>(ConfigError::InvalidValue) && *final(c) == *old(c)
            },
        },
{
    let k = match config_key(key) {
        Some(k) => k,
        None => return Err(ConfigError::UnknownKey),
    };
    match k {
        ConfigKey::Name => c.name = value.to_owned(),
        ConfigKey::Chip => c.chip = value.to_owned(),
        ConfigKey::Version => c.version = value.to_owned(),
        ConfigKey::Description => c.description = Some(value.to_owned()),
        ConfigKey::ScriptDirs => c.script_dirs = split_list(value),
        ConfigKey::ScriptFiles => c.script_files = split_list(value),
        ConfigKey::OutputDir => c.output_dir = value.to_owned(),
        ConfigKey::UseLuac | ConfigKey::LuacDebug | ConfigKey::IgnoreDeps => {
            let b = match parse_bool(value) {
                Some(b) => b,
                None => return Err(ConfigError::InvalidValue),
            };
            match k {
                ConfigKey::UseLuac => c.use_luac = b,
                ConfigKey::LuacDebug => c.luac_debug = b,
                _ => c.ignore_deps = b,
            }
        },
        ConfigKey::Bitw | ConfigKey::Baud => {
            let v = match parse_u32(value) {
                Some(v) => v,
                None => return Err(ConfigError::InvalidValue),
            };
            match k {
                ConfigKey::Bitw => c.bitw = v,
                _ => c.baud = Some(v),
            }
        },
        ConfigKey::SocFile => c.soc_file = Some(value.to_owned()),
        ConfigKey::Port => c.port = Some(value.to_owned()),
    }
    Ok(())
}

/// Reading a setting back after writing it: a text setting shows the value
/// written, and so does a flag written as "true" or "false".
pub proof fn lemma_config_set_then_get(o: ProjectConfig, n: ProjectConfig, k: ConfigKey, value: Seq<char>)
    requires
        value_accepted(k, value),
        config_after_set(o, n, k, value),
        !(k is ScriptDirs || k is ScriptFiles || k is Bitw || k is Baud),
    ensures
        config_value_spec(n, k) == value,
{
}

/// Writing a setting leaves every other setting as it read before.
pub proof fn lemma_config_set_keeps_others(o: ProjectConfig, n: ProjectConfig, k: ConfigKey, other: ConfigKey, value: Seq<char>)
    requires
        config_after_set(o, n, k, value),
        other != k,
    ensures
        config_value_spec(n, other) == config_value_spec(o, other),
{
}

proof fn lemma_key_project_name()
    ensures
        config_key_spec("project.name"@) == Some(ConfigKey::Name),
{
    reveal_strlit("project.name");
}

proof fn lemma_key_project_chip()
    ensures
        config_key_spec("project.chip"@) == Some(ConfigKey::Chip),
{
    reveal_strlit("project.chip");
    reveal_strlit("project.name");
    assert("project.name"@[8] != "project.chip"@[8]);
}

proof fn lemma_key_project_version()
    ensures
        config_key_spec("project.version"@) == Some(ConfigKey::Version),
{
    reveal_strlit("project.version");
    reveal_strlit("project.name");
    assert("project.name"@.len() != "project.version"@.len());
    reveal_strlit("project.chip");
    assert("project.chip"@.len() != "project.version"@.len());
}

proof fn lemma_key_project_description()
    ensures
        config_key_spec("project.description"@) == Some(ConfigKey::Description),
{
    reveal_strlit("project.description");
    reveal_strlit("project.name");
    assert("project.name"@.len() != "project.description"@.len());
    reveal_strlit("project.chip");
    assert("project.chip"@.len() != "project.description"@.len());
    reveal_strlit("project.version");
    assert("project.version"@.len() != "project.description"@.len());
}

proof fn lemma_key_build_script_dir()
    ensures
        config_key_spec("build.script_dir"@) == Some(ConfigKey::ScriptDirs),
{
    reveal_strlit("build.script_dir");
    reveal_strlit("project.name");
    assert("project.name"@.len() != "build.script_dir"@.len());
    reveal_strlit("project.chip");
    assert("project.chip"@.len() != "build.script_dir"@.len());
    reveal_strlit("project.version");
    assert("project.version"@.len() != "build.script_dir"@.len());
    reveal_strlit("project.description");
    assert("project.description"@.len() != "build.script_dir"@.len());
}

proof fn lemma_key_build_script_dirs()
    ensures
        config_key_spec("build.script_dirs"@) == Some(ConfigKey::ScriptDirs),
{
    reveal_strlit("build.script_dirs");
    reveal_strlit("project.name");
    assert("project.name"@.len() != "build.script_dirs"@.len());
    reveal_strlit("project.chip");
    assert("project.chip"@.len() != "build.script_dirs"@.len());
    reveal_strlit("project.version");
    assert("project.version"@.len() != "build.script_dirs"@.len());
    reveal_strlit("project.description");
    assert("project.description"@.len() != "build.script_dirs"@.len());
    reveal_strlit("build.script_dir");
    assert("build.script_dir"@.len() != "build.script_dirs"@.len());
}

proof fn lemma_key_build_script_files()
    ensures
        config_key_spec("build.script_files"@) == Some(ConfigKey::ScriptFiles),
{
    reveal_strlit("build.script_files");
    reveal_strlit("project.name");
    assert("project.name"@.len() != "build.script_files"@.len());
    reveal_strlit("project.chip");
    assert("project.chip"@.len() != "build.script_files"@.len());
    reveal_strlit("project.version");
    assert("project.version"@.len() != "build.script_files"@.len());
    reveal_strlit("project.description");
    assert("project.description"@.len() != "build.script_files"@.len());
    reveal_strlit("build.script_dir");
    assert("build.script_dir"@.len() != "build.script_files"@.len());
    reveal_strlit("build.script_dirs");
    assert("build.script_dirs"@.len() != "build.script_files"@.len());
}

proof fn lemma_key_build_output_dir()
    ensures
        config_key_spec("build.output_dir"@) == Some(ConfigKey::OutputDir),
{
    reveal_strlit("build.output_dir");
    reveal_strlit("project.name");
    assert("project.name"@.len() != "build.output_dir"@.len());
    reveal_strlit("project.chip");
    assert("project.chip"@.len() != "build.output_dir"@.len());
    reveal_strlit("project.version");
    assert("project.version"@.len() != "build.output_dir"@.len());
    reveal_strlit("project.description");
    assert("project.description"@.len() != "build.output_dir"@.len());
    reveal_strlit("build.script_dir");
    assert("build.script_dir"@[6] != "build.output_dir"@[6]);
    reveal_strlit("build.script_dirs");
    assert("build.script_dirs"@.len() != "build.output_dir"@.len());
    reveal_strlit("build.script_files");
    assert("build.script_files"@.len() != "build.output_dir"@.len());
}

proof fn lemma_key_build_use_luac()
    ensures
        config_key_spec("build.use_luac"@) == Some(ConfigKey::UseLuac),
{
    reveal_strlit("build.use_luac");
    reveal_strlit("project.name");
    assert("project.name"@.len() != "build.use_luac"@.len());
    reveal_strlit("project.chip");
    assert("project.chip"@.len() != "build.use_luac"@.len());
    reveal_strlit("project.version");
    assert("project.version"@.len() != "build.use_luac"@.len());
    reveal_strlit("project.description");
    assert("project.description"@.len() != "build.use_luac"@.len());
    reveal_strlit("build.script_dir");
    assert("build.script_dir"@.len() != "build.use_luac"@.len());
    reveal_strlit("build.script_dirs");
    assert("build.script_dirs"@.len() != "build.use_luac"@.len());
    reveal_strlit("build.script_files");
    assert("build.script_files"@.len() != "build.use_luac"@.len());
    reveal_strlit("build.output_dir");
    assert("build.output_dir"@.len() != "build.use_luac"@.len());
}

proof fn lemma_key_build_bitw()
    ensures
        config_key_spec("build.bitw"@) == Some(ConfigKey::Bitw),
{
    reveal_strlit("build.bitw");
    reveal_strlit("project.name");
    assert("project.name"@.len() != "build.bitw"@.len());
    reveal_strlit("project.chip");
    assert("project.chip"@.len() != "build.bitw"@.len());
    reveal_strlit("project.version");
    assert("project.version"@.len() != "build.bitw"@.len());
    reveal_strlit("project.description");
    assert("project.description"@.len() != "build.bitw"@.len());
    reveal_strlit("build.script_dir");
    assert("build.script_dir"@.len() != "build.bitw"@.len());
    reveal_strlit("build.script_dirs");
    assert("build.script_dirs"@.len() != "build.bitw"@.len());
    reveal_strlit("build.script_files");
    assert("build.script_files"@.len() != "build.bitw"@.len());
    reveal_strlit("build.output_dir");
    assert("build.output_dir"@.len() != "build.bitw"@.len());
    reveal_strlit("build.use_luac");
    assert("build.use_luac"@.len() != "build.bitw"@.len());
}

proof fn lemma_key_build_luac_debug()
    ensures
        config_key_spec("build.luac_debug"@) == Some(ConfigKey::LuacDebug),
{
    reveal_strlit("build.luac_debug");
    reveal_strlit("project.name");
    assert("project.name"@.len() != "build.luac_debug"@.len());
    reveal_strlit("project.chip");
    assert("project.chip"@.len() != "build.luac_debug"@.len());
    reveal_strlit("project.version");
    assert("project.version"@.len() != "build.luac_debug"@.len());
    reveal_strlit("project.description");
    assert("project.description"@.len() != "build.luac_debug"@.len());
    reveal_strlit("build.script_dir");
    assert("build.script_dir"@[6] != "build.luac_debug"@[6]);
    reveal_strlit("build.script_dirs");
    assert("build.script_dirs"@.len() != "build.luac_debug"@.len());
    reveal_strlit("build.script_files");
    assert("build.script_files"@.len() != "build.luac_debug"@.len());
    reveal_strlit("build.output_dir");
    assert("build.output_dir"@[6] != "build.luac_debug"@[6]);
    reveal_strlit("build.use_luac");
    assert("build.use_luac"@.len() != "build.luac_debug"@.len());
    reveal_strlit("build.bitw");
    assert("build.bitw"@.len() != "build.luac_debug"@.len());
}

proof fn lemma_key_build_ignore_deps()
    ensures
        config_key_spec("build.ignore_deps"@) == Some(ConfigKey::IgnoreDeps),
{
    reveal_strlit("build.ignore_deps");
    reveal_strlit("project.name");
    assert("project.name"@.len() != "build.ignore_deps"@.len());
    reveal_strlit("project.chip");
    assert("project.chip"@.len() != "build.ignore_deps"@.len());
    reveal_strlit("project.version");
    assert("project.version"@.len() != "build.ignore_deps"@.len());
    reveal_strlit("project.description");
    assert("project.description"@.len() != "build.ignore_deps"@.len());
    reveal_strlit("build.script_dir");
    assert("build.script_dir"@.len() != "build.ignore_deps"@.len());
    reveal_strlit("build.script_dirs");
    assert("build.script_dirs"@[6] != "build.ignore_deps"@[6]);
    reveal_strlit("build.script_files");
    assert("build.script_files"@.len() != "build.ignore_deps"@.len());
    reveal_strlit("build.output_dir");
    assert("build.output_dir"@.len() != "build.ignore_deps"@.len());
    reveal_strlit("build.use_luac");
    assert("build.use_luac"@.len() != "build.ignore_deps"@.len());
    reveal_strlit("build.bitw");
    assert("build.bitw"@.len() != "build.ignore_deps"@.len());
    reveal_strlit("build.luac_debug");
    assert("build.luac_debug"@.len() != "build.ignore_deps"@.len());
}

proof fn lemma_key_flash_soc_file()
    ensures
        config_key_spec("flash.soc_file"@) == Some(ConfigKey::SocFile),
{
    reveal_strlit("flash.soc_file");
    reveal_strlit("project.name");
    assert("project.name"@.len() != "flash.soc_file"@.len());
    reveal_strlit("project.chip");
    assert("project.chip"@.len() != "flash.soc_file"@.len());
    reveal_strlit("project.version");
    assert("project.version"@.len() != "flash.soc_file"@.len());
    reveal_strlit("project.description");
    assert("project.description"@.len() != "flash.soc_file"@.len());
    reveal_strlit("build.script_dir");
    assert("build.script_dir"@.len() != "flash.soc_file"@.len());
    reveal_strlit("build.script_dirs");
    assert("build.script_dirs"@.len() != "flash.soc_file"@.len());
    reveal_strlit("build.script_files");
    assert("build.script_files"@.len() != "flash.soc_file"@.len());
    reveal_strlit("build.output_dir");
    assert("build.output_dir"@.len() != "flash.soc_file"@.len());
    reveal_strlit("build.use_luac");
    assert("build.use_luac"@[0] != "flash.soc_file"@[0]);
    reveal_strlit("build.bitw");
    assert("build.bitw"@.len() != "flash.soc_file"@.len());
    reveal_strlit("build.luac_debug");
    assert("build.luac_debug"@.len() != "flash.soc_file"@.len());
    reveal_strlit("build.ignore_deps");
    assert("build.ignore_deps"@.len() != "flash.soc_file"@.len());
}

proof fn lemma_key_flash_port()
    ensures
        config_key_spec("flash.port"@) == Some(ConfigKey::Port),
{
    reveal_strlit("flash.port");
    reveal_strlit("project.name");
    assert("project.name"@.len() != "flash.port"@.len());
    reveal_strlit("project.chip");
    assert("project.chip"@.len() != "flash.port"@.len());
    reveal_strlit("project.version");
    assert("project.version"@.len() != "flash.port"@.len());
    reveal_strlit("project.description");
    assert("project.description"@.len() != "flash.port"@.len());
    reveal_strlit("build.script_dir");
    assert("build.script_dir"@.len() != "flash.port"@.len());
    reveal_strlit("build.script_dirs");
    assert("build.script_dirs"@.len() != "flash.port"@.len());
    reveal_strlit("build.script_files");
    assert("build.script_files"@.len() != "flash.port"@.len());
    reveal_strlit("build.output_dir");
    assert("build.output_dir"@.len() != "flash.port"@.len());
    reveal_strlit("build.use_luac");
    assert("build.use_luac"@.len() != "flash.port"@.len());
    reveal_strlit("build.bitw");
    assert("build.bitw"@[0] != "flash.port"@[0]);
    reveal_strlit("build.luac_debug");
    assert("build.luac_debug"@.len() != "flash.port"@.len());
    reveal_strlit("build.ignore_deps");
    assert("build.ignore_deps"@.len() != "flash.port"@.len());
    reveal_strlit("flash.soc_file");
    assert("flash.soc_file"@.len() != "flash.port"@.len());
}

proof fn lemma_key_flash_baud()
    ensures
        config_key_spec("flash.baud"@) == Some(ConfigKey::Baud),
{
    reveal_strlit("flash.baud");
    reveal_strlit("project.name");
    assert("project.name"@.len() != "flash.baud"@.len());
    reveal_strlit("project.chip");
    assert("project.chip"@.len() != "flash.baud"@.len());
    reveal_strlit("project.version");
    assert("project.version"@.len() != "flash.baud"@.len());
    reveal_strlit("project.description");
    assert("project.description"@.len() != "flash.baud"@.len());
    reveal_strlit("build.script_dir");
    assert("build.script_dir"@.len() != "flash.baud"@.len());
    reveal_strlit("build.script_dirs");
    assert("build.script_dirs"@.len() != "flash.baud"@.len());
    reveal_strlit("build.script_files");
    assert("build.script_files"@.len() != "flash.baud"@.len());
    reveal_strlit("build.output_dir");
    assert("build.output_dir"@.len() != "flash.baud"@.len());
    reveal_strlit("build.use_luac");
    assert("build.use_luac"@.len() != "flash.baud"@.len());
    reveal_strlit("build.bitw");
    assert("build.bitw"@[0] != "flash.baud"@[0]);
    reveal_strlit("build.luac_debug");
    assert("build.luac_debug"@.len() != "flash.baud"@.len());
    reveal_strlit("build.ignore_deps");
    assert("build.ignore_deps"@.len() != "flash.baud"@.len());
    reveal_strlit("flash.soc_file");
    assert("flash.soc_file"@.len() != "flash.baud"@.len());
    reveal_strlit("flash.port");
    assert("flash.port"@[6] != "flash.baud"@[6]);
}

/// Each key names its own setting: reading a key gives that setting of the
/// project file (texts as they are, lists joined with ", ", flags as
/// true/false, numbers in decimal), and writing an accepted value to it
/// changes that setting, and no other, to the value (`project.chip` is the
/// chip, `flash.baud` the baud rate, and so on).
pub proof fn lemma_config_keys_name_their_settings(c: ProjectConfig, n: ProjectConfig, v: Seq<char>)
    ensures
        config_key_spec("project.name"@) is Some && config_value_spec(c, config_key_spec("project.name"@)->0) == c.name@,
        value_accepted(config_key_spec("project.name"@)->0, v) && config_after_set(c, n, config_key_spec("project.name"@)->0, v) ==> n.name@ == v && n == (ProjectConfig { name: n.name, ..c }),
        config_key_spec("project.chip"@) is Some && config_value_spec(c, config_key_spec("project.chip"@)->0) == c.chip@,
        value_accepted(config_key_spec("project.chip"@)->0, v) && config_after_set(c, n, config_key_spec("project.chip"@)->0, v) ==> n.chip@ == v && n == (ProjectConfig { chip: n.chip, ..c }),
        config_key_spec("project.version"@) is Some && config_value_spec(c, config_key_spec("project.version"@)->0) == c.version@,
        value_accepted(config_key_spec("project.version"@)->0, v) && config_after_set(c, n, config_key_spec("project.version"@)->0, v) ==> n.version@ == v && n == (ProjectConfig { version: n.version, ..c }),
        config_key_spec("project.description"@) is Some && config_value_spec(c, config_key_spec("project.description"@)->0) == text_or_empty(c.description),
        value_accepted(config_key_spec("project.description"@)->0, v) && config_after_set(c, n, config_key_spec("project.description"@)->0, v) ==> n.description == Some(n.description->0) && n.description->0@ == v && n == (ProjectConfig { description: n.description, ..c }),
        config_key_spec("build.script_dir"@) is Some && config_value_spec(c, config_key_spec("build.script_dir"@)->0) == joined(string_views(c.script_dirs@), ", "@),
        value_accepted(config_key_spec("build.script_dir"@)->0, v) && config_after_set(c, n, config_key_spec("build.script_dir"@)->0, v) ==> string_views(n.script_dirs@) == list_setting(v) && n == (ProjectConfig { script_dirs: n.script_dirs, ..c }),
        config_key_spec("build.script_dirs"@) is Some && config_value_spec(c, config_key_spec("build.script_dirs"@)->0) == joined(string_views(c.script_dirs@), ", "@),
        value_accepted(config_key_spec("build.script_dirs"@)->0, v) && config_after_set(c, n, config_key_spec("build.script_dirs"@)->0, v) ==> string_views(n.script_dirs@) == list_setting(v) && n == (ProjectConfig { script_dirs: n.script_dirs, ..c }),
        config_key_spec("build.script_files"@) is Some && config_value_spec(c, config_key_spec("build.script_files"@)->0) == joined(string_views(c.script_files@), ", "@),
        value_accepted(config_key_spec("build.script_files"@)->0, v) && config_after_set(c, n, config_key_spec("build.script_files"@)->0, v) ==> string_views(n.script_files@) == list_setting(v) && n == (ProjectConfig { script_files: n.script_files, ..c }),
        config_key_spec("build.output_dir"@) is Some && config_value_spec(c, config_key_spec("build.output_dir"@)->0) == c.output_dir@,
        value_accepted(config_key_spec("build.output_dir"@)->0, v) && config_after_set(c, n, config_key_spec("build.output_dir"@)->0, v) ==> n.output_dir@ == v && n == (ProjectConfig { output_dir: n.output_dir, ..c }),
        config_key_spec("build.use_luac"@) is Some && config_value_spec(c, config_key_spec("build.use_luac"@)->0) == bool_text(c.use_luac),
        value_accepted(config_key_spec("build.use_luac"@)->0, v) && config_after_set(c, n, config_key_spec("build.use_luac"@)->0, v) ==> n.use_luac == bool_from_text(v)->0 && n == (ProjectConfig { use_luac: n.use_luac, ..c }),
        config_key_spec("build.bitw"@) is Some && config_value_spec(c, config_key_spec("build.bitw"@)->0) == dec_text(c.bitw as nat),
        value_accepted(config_key_spec("build.bitw"@)->0, v) && config_after_set(c, n, config_key_spec("build.bitw"@)->0, v) ==> n.bitw == dec_u32(v)->0 && n == (ProjectConfig { bitw: n.bitw, ..c }),
        config_key_spec("build.luac_debug"@) is Some && config_value_spec(c, config_key_spec("build.luac_debug"@)->0) == bool_text(c.luac_debug),
        value_accepted(config_key_spec("build.luac_debug"@)->0, v) && config_after_set(c, n, config_key_spec("build.luac_debug"@)->0, v) ==> n.luac_debug == bool_from_text(v)->0 && n == (ProjectConfig { luac_debug: n.luac_debug, ..c }),
        config_key_spec("build.ignore_deps"@) is Some && config_value_spec(c, config_key_spec("build.ignore_deps"@)->0) == bool_text(c.ignore_deps),
        value_accepted(config_key_spec("build.ignore_deps"@)->0, v) && config_after_set(c, n, config_key_spec("build.ignore_deps"@)->0, v) ==> n.ignore_deps == bool_from_text(v)->0 && n == (ProjectConfig { ignore_deps: n.ignore_deps, ..c }),
        config_key_spec("flash.soc_file"@) is Some && config_value_spec(c, config_key_spec("flash.soc_file"@)->0) == text_or_empty(c.soc_file),
        value_accepted(config_key_spec("flash.soc_file"@)->0, v) && config_after_set(c, n, config_key_spec("flash.soc_file"@)->0, v) ==> n.soc_file == Some(n.soc_file->0) && n.soc_file->0@ == v && n == (ProjectConfig { soc_file: n.soc_file, ..c }),
        config_key_spec("flash.port"@) is Some && config_value_spec(c, config_key_spec("flash.port"@)->0) == text_or_empty(c.port),
        value_accepted(config_key_spec("flash.port"@)->0, v) && config_after_set(c, n, config_key_spec("flash.port"@)->0, v) ==> n.port == Some(n.port->0) && n.port->0@ == v && n == (ProjectConfig { port: n.port, ..c }),
        config_key_spec("flash.baud"@) is Some && config_value_spec(c, config_key_spec("flash.baud"@)->0) == match c.baud { Some(b) => dec_text(b as nat), None => Seq::empty() },
        value_accepted(config_key_spec("flash.baud"@)->0, v) && config_after_set(c, n, config_key_spec("flash.baud"@)->0, v) ==> n.baud == Some(dec_u32(v)->0) && n == (ProjectConfig { baud: n.baud, ..c }),
{
    lemma_key_project_name();
    lemma_key_project_chip();
    lemma_key_project_version();
    lemma_key_project_description();
    lemma_key_build_script_dir();
    lemma_key_build_script_dirs();
    lemma_key_build_script_files();
    lemma_key_build_output_dir();
    lemma_key_build_use_luac();
    lemma_key_build_bitw();
    lemma_key_build_luac_debug();
    lemma_key_build_ignore_deps();
    lemma_key_flash_soc_file();
    lemma_key_flash_port();
    lemma_key_flash_baud();
}

/// How an analysis ends: a LuaDB image is built, and the analysis succeeds,
/// only when no file failed the syntax check; else it fails with the number
/// of syntax errors and reports no image size.
pub fn analysis_outcome(syntax_errors: usize) -> (r: Result<(), usize>)
    ensures
        r == if syntax_errors == 0 { Ok::<(), usize>(()) } else { Err(syntax_errors) },
{
    if syntax_errors == 0 {
        Ok(())
    } else {
        Err(syntax_errors)
    }
}

} // verus!
