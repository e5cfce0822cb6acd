//! FOTA package building decisions: tool variants and configurations per
//! chip, hexadecimal fields of the firmware description, and the size
//! limit of a differential package read from the memory map.

use vstd::prelude::*;
use vstd::utf8::encode_utf8;
use vstd::string::StrSliceExecFns;
use vstd::string::StringExecFns;
use crate::chip::ChipFamily;
use crate::text::{
    lowercase, split_lines, str_ends_with, str_to_lowercase, str_trim, str_views, strip_all_prefix_spec,
    strip_all_suffix_spec, strip_prefix_str, text_lines, trim_end_char, trim_end_char_spec, trim_end_matches_str,
    trim_start_char, trim_start_char_spec, trim_start_matches_str, trimmed, hex_text, u64_hex_text,
};
use crate::bytes::{le_u32_at, read_u32_le, str_contains};
use vstd::slice::slice_subrange;

verus! {

/// Size reserved at the end of the FOTA region (96 KiB).
pub const FOTA_RESERVED: u64 = 96 * 1024;

/// The differential tool variant of a chip: "ec618" for ec618 and air8850,
/// "ec7xx" otherwise.
pub open spec fn dtools_variant(chip: Seq<char>) -> &'static str {
    if chip == "ec618"@ || chip == "air8850"@ {
        "ec618"
    } else {
        "ec7xx"
    }
}

/// The differential tool variant of a chip.
pub fn chip_dtools_variant(chip: &str) -> (r: &'static str)
    ensures
        r == dtools_variant(chip@),
{
    let c = chip.to_owned();
    if c == "ec618".to_owned() || c == "air8850".to_owned() {
        "ec618"
    } else {
        "ec7xx"
    }
}

/// The FotaToolkit configuration of a chip.
pub open spec fn fota_config(chip: Seq<char>) -> &'static str {
    if chip == "ec618"@ {
        "ec618.json"
    } else if chip == "air780ehm"@ || chip == "air8000"@ {
        "ec718hm.json"
    } else if chip == "air780epv"@ || chip == "ec718pv"@ {
        "ec718pv.json"
    } else if chip == "air780epm"@ || chip == "ec718pm"@ {
        "ec718pm.json"
    } else {
        "ec718p.json"
    }
}

/// The FotaToolkit configuration of a chip.
pub fn chip_fota_config(chip: &str) -> (r: &'static str)
    ensures
        r == fota_config(chip@),
{
    let c = chip.to_owned();
    if c == "ec618".to_owned() {
        "ec618.json"
    } else if c == "air780ehm".to_owned() || c == "air8000".to_owned() {
        "ec718hm.json"
    } else if c == "air780epv".to_owned() || c == "ec718pv".to_owned() {
        "ec718pv.json"
    } else if c == "air780epm".to_owned() || c == "ec718pm".to_owned() {
        "ec718pm.json"
    } else {
        "ec718p.json"
    }
}

/// The value of a hexadecimal digit, -1 for any other character.
pub open spec fn hex_digit_val(c: char) -> int {
    let u = c as u32;
    if 0x30 <= u <= 0x39 {
        u - 0x30
    } else if 0x61 <= u <= 0x66 {
        u - 0x61 + 10
    } else if 0x41 <= u <= 0x46 {
        u - 0x41 + 10
    } else {
        -1
    }
}

/// Every character is a hexadecimal digit.
pub open spec fn all_hex(s: Seq<char>) -> bool {
    forall|i: int| 0 <= i < s.len() ==> hex_digit_val(#[trigger] s[i]) >= 0
}

/// The number a string of hexadecimal digits denotes.
pub open spec fn hex_value(s: Seq<char>) -> int
    decreases s.len(),
{
    if s.len() == 0 {
        0
    } else {
        hex_value(s.drop_last()) * 16 + hex_digit_val(s.last())
    }
}

/// `u64::from_str_radix(s, 16)`: an optional '+', then at least one
/// hexadecimal digit, with a value that fits 64 bits.
pub open spec fn radix16_u64(s: Seq<char>) -> Option<u64> {
    let d = if s.len() > 0 && s[0] == '+' { s.subrange(1, s.len() as int) } else { s };
    if d.len() > 0 && all_hex(d) && hex_value(d) <= u64::MAX {
        Some(hex_value(d) as u64)
    } else {
        None
    }
}

/// A hexadecimal address field: trimmed, an optional "0x" or "0X", then
/// the digits.
pub open spec fn hex_addr_spec(s: Seq<char>) -> Option<u64> {
    let t = trimmed(s);
    let h = if t.len() >= 2 && t.subrange(0, 2) == "0x"@ {
        t.subrange(2, t.len() as int)
    } else if t.len() >= 2 && t.subrange(0, 2) == "0X"@ {
        t.subrange(2, t.len() as int)
    } else {
        t
    };
    radix16_u64(h)
}

proof fn lemma_hex_value_nonneg(s: Seq<char>)
    requires
        all_hex(s),
    ensures
        hex_value(s) >= 0,
    decreases s.len(),
{
    if s.len() > 0 {
        assert(hex_digit_val(s[s.len() - 1]) >= 0);
        lemma_hex_value_nonneg(s.drop_last());
    }
}

/// With all digits valid, a longer string denotes at least as much.
proof fn lemma_hex_value_prefix(s: Seq<char>, i: int)
    requires
        all_hex(s),
        0 <= i <= s.len(),
    ensures
        hex_value(s) >= hex_value(s.subrange(0, i)),
    decreases s.len() - i,
{
    if i < s.len() {
        let p = s.subrange(0, i + 1);
        assert(all_hex(p));
        assert(p.drop_last() =~= s.subrange(0, i));
        assert(hex_digit_val(p[i]) >= 0);
        lemma_hex_value_nonneg(s.subrange(0, i));
        lemma_hex_value_prefix(s, i + 1);
    } else {
        assert(s.subrange(0, i) =~= s);
    }
}

/// Parses hexadecimal digits after an optional '+' (see `radix16_u64`).
pub fn parse_radix16(s: &str) -> (r: Option<u64>)
    ensures
        r == radix16_u64(s@),
{
    let n = s.unicode_len();
    let start: usize = if n > 0 && s.get_char(0) == '+' { 1 } else { 0 };
    let ghost d = if s@.len() > 0 && s@[0] == '+' { s@.subrange(1, s@.len() as int) } else { s@ };
    assert(d =~= s@.subrange(start as int, n as int));
    if start >= n {
        return None;
    }
    let mut acc: u64 = 0;
    let mut k: usize = start;
    while k < n
        invariant
            n == s@.len(),
            start <= k <= n,
            start < n,
            d == s@.subrange(start as int, n as int),
            d == (if s@.len() > 0 && s@[0] == '+' { s@.subrange(1, s@.len() as int) } else { s@ }),
            all_hex(d.subrange(0, k - start)),
            acc == hex_value(d.subrange(0, k - start)),
        decreases n - k,
    {
        let c = s.get_char(k);
        let u = c as u32;
        let v: u64 = if u >= 0x30 && u <= 0x39 {
            (u - 0x30) as u64
        } else if u >= 0x61 && u <= 0x66 {
            (u - 0x61 + 10) as u64
        } else if u >= 0x41 && u <= 0x46 {
            (u - 0x41 + 10) as u64
        } else {
            assert(hex_digit_val(d[k - start]) < 0);
            return None;
        };
        let ghost p = d.subrange(0, k - start + 1);
        assert(p.drop_last() =~= d.subrange(0, k - start));
        assert(p.last() == c);
        assert(hex_value(p) == acc * 16 + v);
        assert(all_hex(p));
        if acc > (u64::MAX - v) / 16 {
            proof {
                assert(acc * 16 + v > u64::MAX) by (nonlinear_arith)
                    requires
                        acc > (u64::MAX - v) / 16,
                        v <= 15,
                ;
                if all_hex(d) {
                    lemma_hex_value_prefix(d, k - start + 1);
                }
            }
            return None;
        }
        assert(acc * 16 + v <= u64::MAX) by (nonlinear_arith)
            requires
                acc <= (u64::MAX - v) / 16,
                v <= 15,
        ;
        acc = acc * 16 + v;
        k = k + 1;
    }
    assert(d.subrange(0, n - start) =~= d);
    Some(acc)
}

/// Parses a hexadecimal address (see `hex_addr_spec`).
pub fn parse_hex_addr(s: &str) -> (r: Option<u64>)
    ensures
        r == hex_addr_spec(s@),
{
    let t = str_trim(s);
    let h = match strip_prefix_str(t, "0x") {
        Some(x) => x,
        None => match strip_prefix_str(t, "0X") {
            Some(x) => x,
            None => t,
        },
    };
    proof {
        reveal_strlit("0x");
        reveal_strlit("0X");
    }
    parse_radix16(h)
}

/// The FOTA region length a memory-map line defines, if it is a
/// `#define FLASH_FOTA_REGION_LEN (value)` line with a hexadecimal value.
pub open spec fn region_len_of_line(l: Seq<char>) -> Option<u64> {
    let t = trimmed(l);
    let p = "#define FLASH_FOTA_REGION_LEN"@;
    if p.len() <= t.len() && t.subrange(0, p.len() as int) == p {
        let rest = t.subrange(p.len() as int, t.len() as int);
        hex_addr_spec(trimmed(trim_end_char_spec(trim_start_char_spec(trimmed(rest), '('), ')')))
    } else {
        None
    }
}

/// The region length of the last line that defines one.
pub open spec fn last_region_len(lines: Seq<Seq<char>>) -> Option<u64>
    decreases lines.len(),
{
    if lines.len() == 0 {
        None
    } else {
        match region_len_of_line(lines.last()) {
            Some(v) => Some(v),
            None => last_region_len(lines.drop_last()),
        }
    }
}

fn region_len_line(l: &str) -> (r: Option<u64>)
    ensures
        r == region_len_of_line(l@),
{
    let t = str_trim(l);
    match strip_prefix_str(t, "#define FLASH_FOTA_REGION_LEN") {
        Some(rest) => {
            let a = str_trim(rest);
            let b = trim_start_char(a, '(');
            let c = trim_end_char(b, ')');
            let d = str_trim(c);
            parse_hex_addr(d)
        },
        None => None,
    }
}

/// The largest differential package the memory map allows: the last
/// FLASH_FOTA_REGION_LEN it defines, less the 96 KiB reserved area (zero
/// if smaller). None when no line defines it.
pub fn fota_delta_size_limit(mem_text: &str) -> (r: Option<u64>)
    ensures
        r == match last_region_len(text_lines(mem_text@)) {
            Some(v) => Some(if v >= FOTA_RESERVED { (v - FOTA_RESERVED) as u64 } else { 0u64 }),
            None => None,
        },
{
    let lines = split_lines(mem_text);
    let ghost all = str_views(lines@);
    let mut k: usize = lines.len();
    assert(all.subrange(0, k as int) =~= all);
    while k > 0
        invariant
            k <= lines@.len(),
            all == str_views(lines@),
            all == text_lines(mem_text@),
            last_region_len(all.subrange(0, k as int)) == last_region_len(all),
        decreases k,
    {
        let ghost pre = all.subrange(0, k as int);
        assert(pre.last() == lines@[k - 1]@);
        assert(pre.drop_last() =~= all.subrange(0, k - 1));
        match region_len_line(lines[k - 1]) {
            Some(v) => {
                return Some(v.saturating_sub(FOTA_RESERVED));
            },
            None => {},
        }
        k = k - 1;
    }
    None
}

/// Does a differential package of `delta_size` bytes fit the limit?
pub fn delta_fits(delta_size: u64, limit: u64) -> (r: bool)
    ensures
        r == (delta_size <= limit),
{
    delta_size <= limit
}

/// The package builder `fota build` runs for a chip family.
#[derive(Debug, Clone, Copy, PartialEq, Eq, Structural)]
pub enum FotaRoute {
    /// EC7xx / EC618: script partition only.
    Ec7xxScriptOnly,
    /// EC7xx / EC618: differential against an old package.
    Ec7xxDifferential,
    /// CCM4211: script partition only.
    Ccm4211ScriptOnly,
    /// CCM4211: full package (an old package is ignored).
    Ccm4211Full,
    /// BK72XX new format, full or script only.
    Bk72xx { script_only: bool },
    /// Air6208 / XT804: full package (and a script package).
    Air6208Full,
    /// RDA8910: script partition only.
    Rda8910ScriptOnly,
    /// RDA8910: differential against an old package.
    Rda8910Differential,
}

/// Why `fota build` refuses a request.
#[derive(Debug, Clone, Copy, PartialEq, Eq, Structural)]
pub enum FotaRouteError {
    /// A full EC7xx package was asked without an old package.
    Ec7xxNeedsOld,
    /// A full RDA8910 package was asked without an old package.
    Rda8910NeedsOld,
    /// The family has no FOTA support.
    Unsupported,
}

/// The builder for a family, given `--script-only` and whether `--old`
/// was given.
pub open spec fn fota_route_spec(family: ChipFamily, script_only: bool, has_old: bool) -> Result<FotaRoute, FotaRouteError> {
    match family {
        ChipFamily::Ec718 => if script_only {
            Ok(FotaRoute::Ec7xxScriptOnly)
        } else if has_old {
            Ok(FotaRoute::Ec7xxDifferential)
        } else {
            Err(FotaRouteError::Ec7xxNeedsOld)
        },
        ChipFamily::Ccm4211 => if script_only {
            Ok(FotaRoute::Ccm4211ScriptOnly)
        } else {
            Ok(FotaRoute::Ccm4211Full)
        },
        ChipFamily::Bk72xx => Ok(FotaRoute::Bk72xx { script_only }),
        ChipFamily::Xt804 => Ok(FotaRoute::Air6208Full),
        ChipFamily::Rda8910 => if script_only {
            Ok(FotaRoute::Rda8910ScriptOnly)
        } else if has_old {
            Ok(FotaRoute::Rda8910Differential)
        } else {
            Err(FotaRouteError::Rda8910NeedsOld)
        },
        _ => Err(FotaRouteError::Unsupported),
    }
}

/// The chip family a package builder serves.
pub open spec fn route_family(r: FotaRoute) -> ChipFamily {
    match r {
        FotaRoute::Ec7xxScriptOnly | FotaRoute::Ec7xxDifferential => ChipFamily::Ec718,
        FotaRoute::Ccm4211ScriptOnly | FotaRoute::Ccm4211Full => ChipFamily::Ccm4211,
        FotaRoute::Bk72xx { .. } => ChipFamily::Bk72xx,
        FotaRoute::Air6208Full => ChipFamily::Xt804,
        FotaRoute::Rda8910ScriptOnly | FotaRoute::Rda8910Differential => ChipFamily::Rda8910,
    }
}

/// Does the builder make a script-only package?
pub open spec fn route_script_only(r: FotaRoute) -> bool {
    match r {
        FotaRoute::Ec7xxScriptOnly | FotaRoute::Ccm4211ScriptOnly | FotaRoute::Rda8910ScriptOnly => true,
        FotaRoute::Bk72xx { script_only } => script_only,
        _ => false,
    }
}

/// Does the builder diff against an old package?
pub open spec fn route_differential(r: FotaRoute) -> bool {
    r is Ec7xxDifferential || r is Rda8910Differential
}

/// The families `fota build` supports.
pub open spec fn fota_family(f: ChipFamily) -> bool {
    f == ChipFamily::Ec718 || f == ChipFamily::Ccm4211 || f == ChipFamily::Bk72xx || f == ChipFamily::Xt804
        || f == ChipFamily::Rda8910
}

/// The builder follows the request: it serves the family asked for;
/// `--script-only` is carried unchanged by every family that has a
/// script-only package (all but XT804, whose full build also makes the
/// script package); only a build given `--old` diffs against it. A request
/// is refused exactly when the family has no FOTA support, or when a full
/// EC7xx or RDA8910 package is asked for without `--old`, which those
/// builds need.
pub proof fn lemma_fota_route_follows_request(family: ChipFamily, script_only: bool, has_old: bool)
    ensures
        match fota_route_spec(family, script_only, has_old) {
            Ok(r) => {
                &&& route_family(r) == family
                &&& family != ChipFamily::Xt804 ==> route_script_only(r) == script_only
                &&& route_differential(r) ==> has_old
                &&& fota_family(family)
            },
            Err(e) => {
                &&& e == FotaRouteError::Unsupported <==> !fota_family(family)
                &&& e == FotaRouteError::Ec7xxNeedsOld <==> (family == ChipFamily::Ec718 && !script_only && !has_old)
                &&& e == FotaRouteError::Rda8910NeedsOld <==> (family == ChipFamily::Rda8910 && !script_only
                    && !has_old)
            },
        },
        fota_route_spec(family, script_only, has_old) is Err <==> (!fota_family(family) || ((family
            == ChipFamily::Ec718 || family == ChipFamily::Rda8910) && !script_only && !has_old)),
{
}

/// Chooses the package builder.
pub fn fota_route(family: ChipFamily, script_only: bool, has_old: bool) -> (r: Result<FotaRoute, FotaRouteError>)
    ensures
        r == fota_route_spec(family, script_only, has_old),
{
    match family {
        ChipFamily::Ec718 => if script_only {
            Ok(FotaRoute::Ec7xxScriptOnly)
        } else if has_old {
            Ok(FotaRoute::Ec7xxDifferential)
        } else {
            Err(FotaRouteError::Ec7xxNeedsOld)
        },
        ChipFamily::Ccm4211 => if script_only {
            Ok(FotaRoute::Ccm4211ScriptOnly)
        } else {
            Ok(FotaRoute::Ccm4211Full)
        },
        ChipFamily::Bk72xx => Ok(FotaRoute::Bk72xx { script_only }),
        ChipFamily::Xt804 => Ok(FotaRoute::Air6208Full),
        ChipFamily::Rda8910 => if script_only {
            Ok(FotaRoute::Rda8910ScriptOnly)
        } else if has_old {
            Ok(FotaRoute::Rda8910Differential)
        } else {
            Err(FotaRouteError::Rda8910NeedsOld)
        },
        _ => Err(FotaRouteError::Unsupported),
    }
}

/// The file name suffix of a route's default output, after the chip name
/// (the Air6208 builder names its outputs after the chip itself).
pub open spec fn default_output_suffix(route: FotaRoute) -> Seq<char> {
    match route {
        FotaRoute::Ec7xxScriptOnly => "_script_fota.bin"@,
        FotaRoute::Rda8910ScriptOnly => "_script_fota.sota"@,
        FotaRoute::Rda8910Differential => "_fota.sota"@,
        FotaRoute::Air6208Full => Seq::<char>::empty(),
        _ => "_fota.bin"@,
    }
}

/// The output path of a build: the one given, else the chip name followed
/// by the route's suffix.
pub fn fota_output_path(route: FotaRoute, chip: &str, output: Option<&str>) -> (r: String)
    ensures
        r@ == match output {
            Some(o) => o@,
            None => chip@ + default_output_suffix(route),
        },
{
    match output {
        Some(o) => String::from_str(o),
        None => {
            let suffix: &str = match route {
                FotaRoute::Ec7xxScriptOnly => "_script_fota.bin",
                FotaRoute::Rda8910ScriptOnly => "_script_fota.sota",
                FotaRoute::Rda8910Differential => "_fota.sota",
                FotaRoute::Air6208Full => "",
                _ => "_fota.bin",
            };
            proof {
                reveal_strlit("_script_fota.bin");
                reveal_strlit("_script_fota.sota");
                reveal_strlit("_fota.sota");
                reveal_strlit("_fota.bin");
                reveal_strlit("");
            }
            String::from_str(chip).concat(suffix)
        },
    }
}

/// The FOTA parameters of an RDA8910 package.
#[derive(Debug, Clone, Copy, PartialEq, Eq, Structural)]
pub struct Rda8910FotaParams {
    pub magic: u32,
    pub core_addr: u32,
    pub script_addr: u32,
    pub cp_version: u32,
}

/// A field of the firmware description the RDA8910 parameters need is
/// missing or not hexadecimal.
#[derive(Debug, Clone, Copy, PartialEq, Eq, Structural)]
pub enum Rda8910ParamError {
    MissingFota,
    MissingMagic,
    InvalidMagic,
    MissingCoreAddr,
    InvalidCoreAddr,
}

/// A hexadecimal field with a default: the default when absent or not
/// hexadecimal.
pub open spec fn hex_or_zero(s: Option<Seq<char>>) -> u32 {
    match s {
        Some(t) => match hex_addr_spec(t) {
            Some(v) => v as u32,
            None => 0,
        },
        None => match hex_addr_spec("0"@) {
            Some(v) => v as u32,
            None => 0,
        },
    }
}

/// The view of an optional string.
pub open spec fn opt_view(s: Option<&str>) -> Option<Seq<char>> {
    match s {
        Some(t) => Some(t@),
        None => None,
    }
}

/// The RDA8910 parameters from the description's `fota.magic_num`,
/// `fota.cp_version`, `download.core_addr` and `download.script_addr`
/// (`has_fota`: the `fota` object exists). Values are truncated to 32 bits.
pub open spec fn rda8910_params_spec(
    has_fota: bool,
    magic: Option<Seq<char>>,
    cp_version: Option<Seq<char>>,
    core_addr: Option<Seq<char>>,
    script_addr: Option<Seq<char>>,
) -> Result<Rda8910FotaParams, Rda8910ParamError> {
    if !has_fota {
        Err(Rda8910ParamError::MissingFota)
    } else if magic is None {
        Err(Rda8910ParamError::MissingMagic)
    } else if hex_addr_spec(magic->0) is None {
        Err(Rda8910ParamError::InvalidMagic)
    } else if core_addr is None {
        Err(Rda8910ParamError::MissingCoreAddr)
    } else if hex_addr_spec(core_addr->0) is None {
        Err(Rda8910ParamError::InvalidCoreAddr)
    } else {
        Ok(Rda8910FotaParams {
            magic: hex_addr_spec(magic->0)->0 as u32,
            core_addr: hex_addr_spec(core_addr->0)->0 as u32,
            script_addr: hex_or_zero(script_addr),
            cp_version: hex_or_zero(cp_version),
        })
    }
}

fn hex_field_or_zero(s: Option<&str>) -> (r: u32)
    ensures
        r == hex_or_zero(opt_view(s)),
{
    let t = match s {
        Some(t) => t,
        None => "0",
    };
    match parse_hex_addr(t) {
        Some(v) => v as u32,
        None => 0,
    }
}

/// Reads the RDA8910 FOTA parameters.
pub fn rda8910_fota_params(
    has_fota: bool,
    magic: Option<&str>,
    cp_version: Option<&str>,
    core_addr: Option<&str>,
    script_addr: Option<&str>,
) -> (r: Result<Rda8910FotaParams, Rda8910ParamError>)
    ensures
        r == rda8910_params_spec(has_fota, opt_view(magic), opt_view(cp_version), opt_view(core_addr), opt_view(script_addr)),
{
    if !has_fota {
        return Err(Rda8910ParamError::MissingFota);
    }
    let m = match magic {
        Some(m) => m,
        None => return Err(Rda8910ParamError::MissingMagic),
    };
    let magic_v = match parse_hex_addr(m) {
        Some(v) => v as u32,
        None => return Err(Rda8910ParamError::InvalidMagic),
    };
    let cp = hex_field_or_zero(cp_version);
    let c = match core_addr {
        Some(c) => c,
        None => return Err(Rda8910ParamError::MissingCoreAddr),
    };
    let core_v = match parse_hex_addr(c) {
        Some(v) => v as u32,
        None => return Err(Rda8910ParamError::InvalidCoreAddr),
    };
    let sa = hex_field_or_zero(script_addr);
    Ok(Rda8910FotaParams { magic: magic_v, core_addr: core_v, script_addr: sa, cp_version: cp })
}

/// The RDA8910 package size limit: `(fs.total_len - 64) * 1024` bytes,
/// both steps saturating. `fs.total_len` is a JSON number (`total_num`) or,
/// failing that, a hexadecimal string (`total_text`); None when neither.
pub fn rda8910_fota_size_limit(total_num: Option<u64>, total_text: Option<&str>) -> (r: Option<u64>)
    ensures
        r == match (match total_num {
            Some(n) => Some(n),
            None => match opt_view(total_text) {
                Some(t) => hex_addr_spec(t),
                None => None,
            },
        }) {
            Some(t) => Some((if t >= 64 { if (t - 64) * 1024 <= u64::MAX { (t - 64) * 1024 } else { u64::MAX as int } } else { 0 }) as u64),
            None => None,
        },
{
    let total = match total_num {
        Some(n) => n,
        None => match total_text {
            Some(t) => match parse_hex_addr(t) {
                Some(v) => v,
                None => return None,
            },
            None => return None,
        },
    };
    let kb = total.saturating_sub(64);
    if kb > u64::MAX / 1024 {
        assert(kb * 1024 > u64::MAX) by (nonlinear_arith)
            requires
                kb > u64::MAX / 1024,
        ;
        Some(u64::MAX)
    } else {
        assert(kb * 1024 <= u64::MAX) by (nonlinear_arith)
            requires
                kb <= u64::MAX / 1024,
        ;
        Some(kb * 1024)
    }
}

/// Old and new CP versions belong to the same chip and modem type when
/// they agree above their low 12 bits.
pub fn cp_versions_compatible(old: u32, new: u32) -> (r: bool)
    ensures
        r == (old as int / 4096 == new as int / 4096),
{
    assert(old >> 12u32 == old / 4096) by (bit_vector);
    assert(new >> 12u32 == new / 4096) by (bit_vector);
    (old >> 12) == (new >> 12)
}

/// The chip variant a memory-map line enables: for a trimmed line that
/// starts with "#define TYPE_" and ends with " 1", the name between them
/// (every repetition of both stripped, then trimmed), in lower case.
pub open spec fn type_define_variant(l: Seq<char>) -> Option<Seq<char>> {
    let t = trimmed(l);
    let p = "#define TYPE_"@;
    let q = " 1"@;
    if p.len() <= t.len() && t.subrange(0, p.len() as int) == p && q.len() <= t.len() && t.subrange(
        t.len() - q.len(),
        t.len() as int,
    ) == q {
        Some(lowercase(trimmed(strip_all_suffix_spec(strip_all_prefix_spec(t, p), q))))
    } else {
        None
    }
}

/// The longest variant the lines enable, by UTF-8 byte length, the last of
/// equally long ones; empty when none does.
pub open spec fn best_variant(lines: Seq<Seq<char>>) -> Seq<char>
    decreases lines.len(),
{
    if lines.len() == 0 {
        seq![]
    } else {
        let prev = best_variant(lines.drop_last());
        match type_define_variant(lines.last()) {
            Some(v) => if encode_utf8(v).len() >= encode_utf8(prev).len() {
                v
            } else {
                prev
            },
            None => prev,
        }
    }
}

fn type_define_line(l: &str) -> (r: Option<String>)
    ensures
        match r {
            Some(v) => type_define_variant(l@) == Some(v@),
            None => type_define_variant(l@) is None,
        },
{
    let t = str_trim(l);
    proof {
        reveal_strlit("#define TYPE_");
        reveal_strlit(" 1");
    }
    match strip_prefix_str(t, "#define TYPE_") {
        Some(_) => {},
        None => return None,
    }
    if !str_ends_with(t, " 1") {
        return None;
    }
    let a = trim_start_matches_str(t, "#define TYPE_");
    let b = trim_end_matches_str(a, " 1");
    let c = str_trim(b);
    Some(str_to_lowercase(c))
}

/// The chip variant the memory map enables (such as "ec718hm"), which
/// selects the FotaToolkit configuration; empty when none.
pub fn mem_map_chip_variant(mem_text: &str) -> (r: String)
    ensures
        r@ == best_variant(text_lines(mem_text@)),
{
    let lines = split_lines(mem_text);
    let ghost all = str_views(lines@);
    let mut best = String::new();
    let mut k: usize = 0;
    assert(all.subrange(0, 0) =~= Seq::<Seq<char>>::empty());
    while k < lines.len()
        invariant
            k <= lines@.len(),
            all == str_views(lines@),
            all == text_lines(mem_text@),
            best@ == best_variant(all.subrange(0, k as int)),
        decreases lines@.len() - k,
    {
        let ghost pre = all.subrange(0, k + 1);
        assert(pre.drop_last() =~= all.subrange(0, k as int));
        assert(pre.last() == lines@[k as int]@);
        match type_define_line(lines[k]) {
            Some(v) => {
                if v.as_str().as_bytes().len() >= best.as_str().as_bytes().len() {
                    best = v;
                }
            },
            None => {},
        }
        k = k + 1;
    }
    assert(all.subrange(0, lines@.len() as int) =~= all);
    best
}

/// The FotaToolkit configuration file: the variant's own when the memory
/// map names one and the toolkit has it, else the chip's default.
pub fn ec7xx_config_name(chip: &str, variant: &str, variant_config_exists: bool) -> (r: String)
    ensures
        r@ == if variant@.len() > 0 && variant_config_exists { variant@ + ".json"@ } else { fota_config(chip@)@ },
{
    if variant.unicode_len() > 0 && variant_config_exists {
        String::from_str(variant).concat(".json")
    } else {
        String::from_str(chip_fota_config(chip))
    }
}

/// What a differential EC7xx build does after the toolkit ran.
#[derive(Debug, Clone, Copy, PartialEq, Eq, Structural)]
pub enum DeltaOutcome {
    /// The delta was made: assemble the differential package.
    UseDelta,
    /// Both packages have the same firmware core: build a script-only
    /// package instead.
    FallbackScriptOnly,
    /// Same firmware core, but `--force-par` forbids the fallback.
    RefusedSameImages,
    /// No delta and no explanation: an error.
    MissingDelta,
}

/// The next step of a differential build: use the delta file, or act on a
/// "same images" report.
pub fn ec7xx_delta_outcome(delta_exists: bool, tool_stdout: &str, tool_stderr: &str, force_par: bool) -> (r: DeltaOutcome)
    ensures
        r == if delta_exists {
            DeltaOutcome::UseDelta
        } else if text_contains_same_images(tool_stdout@) || text_contains_same_images(tool_stderr@) {
            if force_par {
                DeltaOutcome::RefusedSameImages
            } else {
                DeltaOutcome::FallbackScriptOnly
            }
        } else {
            DeltaOutcome::MissingDelta
        },
{
    if delta_exists {
        return DeltaOutcome::UseDelta;
    }
    if str_contains(tool_stdout, "same images") || str_contains(tool_stderr, "same images") {
        if force_par {
            DeltaOutcome::RefusedSameImages
        } else {
            DeltaOutcome::FallbackScriptOnly
        }
    } else {
        DeltaOutcome::MissingDelta
    }
}

/// Does the text report "same images"?
pub open spec fn text_contains_same_images(t: Seq<char>) -> bool {
    crate::bytes::text_contains(t, "same images"@)
}

/// The binpkg a differential build reads, among those of an unpacked
/// package (by file name, in directory order): with several, the first
/// that is not "luatos.binpkg"; None means the description's ROM file.
pub fn select_binpkg(names: &[String]) -> (r: Option<usize>)
    ensures
        match r {
            Some(i) => i < names@.len() && (names@.len() == 1 ==> i == 0) && (names@.len() > 1 ==> names@[i as int]@
                != "luatos.binpkg"@ && forall|j: int| 0 <= j < i ==> (#[trigger] names@[j])@ == "luatos.binpkg"@),
            None => names@.len() == 0 || (names@.len() > 1 && forall|j: int|
                0 <= j < names@.len() ==> (#[trigger] names@[j])@ == "luatos.binpkg"@),
        },
{
    if names.len() == 0 {
        return None;
    }
    if names.len() == 1 {
        return Some(0);
    }
    let mut i: usize = 0;
    while i < names.len()
        invariant
            i <= names@.len(),
            names@.len() > 1,
            forall|j: int| 0 <= j < i ==> (#[trigger] names@[j])@ == "luatos.binpkg"@,
        decreases names@.len() - i,
    {
        if !(names[i] == "luatos.binpkg".to_owned()) {
            return Some(i);
        }
        i = i + 1;
    }
    None
}

/// The addresses and settings of an Air6208 full FOTA build.
#[derive(Debug, Clone, PartialEq, Eq)]
pub struct Air6208FotaAddrs {
    /// Where the firmware image runs from (hexadecimal text).
    pub app: String,
    /// Its entry address.
    pub run: String,
    /// The FOTA area.
    pub fota: String,
    /// The script partition's offset.
    pub script_offset: String,
    /// The compression type of the packages.
    pub compress_type: u8,
    /// Where the script package goes.
    pub script_addr: String,
}

/// The first present text, else the default.
pub open spec fn text_or(a: Option<Seq<char>>, d: Seq<char>) -> Seq<char> {
    match a {
        Some(t) => t,
        None => d,
    }
}

/// The image address: `download.app_addr`, else `download.core_addr`, else
/// "8010000".
pub open spec fn air6208_app(app: Option<Seq<char>>, core: Option<Seq<char>>) -> Seq<char> {
    text_or(app, text_or(core, "8010000"@))
}

/// The entry address: `download.run_addr`, else the image address plus
/// 0x400 in lower-case hexadecimal, else "8010400".
pub open spec fn air6208_run(app: Seq<char>, run: Option<Seq<char>>) -> Seq<char> {
    text_or(
        run,
        match hex_addr_spec(app) {
            Some(a) => hex_text((a + 0x400) as nat),
            None => "8010400"@,
        },
    )
}

/// The FOTA area: `rom.fs.fota.offset`, else `download.ota_addr`, else
/// "8280000".
pub open spec fn air6208_fota(fs_fota: Option<Seq<char>>, ota: Option<Seq<char>>) -> Seq<char> {
    text_or(fs_fota, text_or(ota, "8280000"@))
}

/// The settings of an Air6208 full FOTA build from the firmware
/// description: see the spec functions above; the script offset defaults to
/// "0", the compression type (`fota.compress_type`, cut to 8 bits) to 1,
/// and the script address (`download.script_addr`) to the FOTA area.
pub fn air6208_fota_addrs(
    app: Option<&str>,
    core: Option<&str>,
    run: Option<&str>,
    fs_fota: Option<&str>,
    ota: Option<&str>,
    script_off: Option<&str>,
    script_addr: Option<&str>,
    compress: Option<u64>,
) -> (r: Air6208FotaAddrs)
    requires
        match hex_addr_spec(air6208_app(opt_view(app), opt_view(core))) {
            Some(a) => a + 0x400 <= u64::MAX,
            None => true,
        },
    ensures
        r.app@ == air6208_app(opt_view(app), opt_view(core)),
        r.run@ == air6208_run(r.app@, opt_view(run)),
        r.fota@ == air6208_fota(opt_view(fs_fota), opt_view(ota)),
        r.script_offset@ == text_or(opt_view(script_off), "0"@),
        r.compress_type == match compress {
            Some(v) => v as u8,
            None => 1u8,
        },
        r.script_addr@ == text_or(opt_view(script_addr), r.fota@),
{
    let app_s: &str = match app {
        Some(a) => a,
        None => match core {
            Some(c) => c,
            None => "8010000",
        },
    };
    let computed = match parse_hex_addr(app_s) {
        Some(a) => u64_hex_text(a + 0x400),
        None => "8010400".to_owned(),
    };
    let run_s = match run {
        Some(r) => r.to_owned(),
        None => computed,
    };
    let fota_s: &str = match fs_fota {
        Some(f) => f,
        None => match ota {
            Some(o) => o,
            None => "8280000",
        },
    };
    let script_offset = match script_off {
        Some(o) => o.to_owned(),
        None => "0".to_owned(),
    };
    let compress_type: u8 = match compress {
        Some(v) => v as u8,
        None => 1,
    };
    let script = match script_addr {
        Some(a) => a.to_owned(),
        None => fota_s.to_owned(),
    };
    Air6208FotaAddrs {
        app: app_s.to_owned(),
        run: run_s,
        fota: fota_s.to_owned(),
        script_offset,
        compress_type,
        script_addr: script,
    }
}

/// The arguments of one run of the XT804 image tool: input file, image
/// type, compression, image header address, run address, upgrade address,
/// no header/upgrade name, output base.
pub open spec fn air6208_tool_args_spec(
    input: Seq<char>,
    image_type: Seq<char>,
    compress: Seq<char>,
    header: Seq<char>,
    run: Seq<char>,
    upgrade: Seq<char>,
    out: Seq<char>,
) -> Seq<Seq<char>> {
    seq![
        "-b"@, input, "-it"@, image_type, "-fc"@, compress, "-ih"@, header, "-ra"@, run, "-ua"@, upgrade, "-nh"@, "0"@,
        "-un"@, "0"@, "-o"@, out,
    ]
}

/// Builds the argument list of one run of the XT804 image tool.
pub fn air6208_tool_args(
    input: &str,
    image_type: &str,
    compress: &str,
    header: &str,
    run: &str,
    upgrade: &str,
    out: &str,
) -> (r: Vec<String>)
    ensures
        crate::text::string_views(r@) == air6208_tool_args_spec(input@, image_type@, compress@, header@, run@, upgrade@, out@),
{
    let mut r: Vec<String> = Vec::new();
    r.push("-b".to_owned());
    r.push(input.to_owned());
    r.push("-it".to_owned());
    r.push(image_type.to_owned());
    r.push("-fc".to_owned());
    r.push(compress.to_owned());
    r.push("-ih".to_owned());
    r.push(header.to_owned());
    r.push("-ra".to_owned());
    r.push(run.to_owned());
    r.push("-ua".to_owned());
    r.push(upgrade.to_owned());
    r.push("-nh".to_owned());
    r.push("0".to_owned());
    r.push("-un".to_owned());
    r.push("0".to_owned());
    r.push("-o".to_owned());
    r.push(out.to_owned());
    assert(crate::text::string_views(r@) =~= air6208_tool_args_spec(input@, image_type@, compress@, header@, run@, upgrade@, out@));
    r
}

/// Why an intermediate image has no complete secure-boot header.
#[derive(Debug, Clone, Copy, PartialEq, Eq, Structural)]
pub enum StripError {
    /// Under 16 bytes: the header's length field is missing.
    TooSmall,
    /// Shorter than the header and the image it announces (the size
    /// expected, 64 plus the announced length).
    Truncated(u64),
}

/// Removes the secure-boot part of an intermediate image: a 64-byte header
/// and the image whose length the header gives at bytes 12..16 (little
/// endian); what follows is the firmware.
pub fn strip_secboot(img: &[u8]) -> (r: Result<Vec<u8>, StripError>)
    ensures
        img@.len() < 16 ==> r == Err::<Vec<u8>, StripError>(StripError::TooSmall),
        img@.len() >= 16 ==> ({
            let skip = 64 + le_u32_at(img@, 12);
            if img@.len() < skip {
                r == Err::<Vec<u8>, StripError>(StripError::Truncated(skip as u64))
            } else {
                r is Ok && r->Ok_0@ == img@.subrange(skip, img@.len() as int)
            }
        }),
{
    if img.len() < 16 {
        return Err(StripError::TooSmall);
    }
    let imglen = read_u32_le(img, 12);
    let skip: u64 = 64 + imglen as u64;
    if (img.len() as u64) < skip {
        return Err(StripError::Truncated(skip));
    }
    let rest = slice_subrange(img, skip as usize, img.len());
    let mut out: Vec<u8> = Vec::new();
    crate::bytes::push_all(&mut out, rest);
    assert(out@ =~= img@.subrange(skip as int, img@.len() as int));
    Ok(out)
}

/// The LZMA block length recorded in an RDA8910 sector block: the
/// little-endian 16-bit count at bytes 4..6 of the compressed data, in KiB;
/// 0 when the data is shorter than 6 bytes.
pub fn lzma_block_len(compressed: &[u8]) -> (r: u32)
    ensures
        r == if compressed@.len() >= 6 {
            (compressed@[4] + compressed@[5] * 256) * 1024
        } else {
            0
        },
{
    if compressed.len() >= 6 {
        (compressed[4] as u32 + compressed[5] as u32 * 256) * 1024
    } else {
        0
    }
}

/// A partition packed into an RDA8910 FOTA sector block.
#[derive(Debug, Clone, Copy, PartialEq, Eq, Structural)]
pub enum SectorPart {
    /// The application core, at the core address.
    Ap,
    /// The script partition, at the script address.
    Script,
}

/// Why no RDA8910 sector blocks can be packed.
#[derive(Debug, Clone, Copy, PartialEq, Eq, Structural)]
pub enum SectorPlanError {
    /// The AP was asked for and the PAC has no AP entry.
    NoApEntry,
    /// The PAC's AP entry has no data.
    NoApData,
    /// Neither an AP nor a script block is packed.
    NothingToPack,
}

/// The sector blocks of an RDA8910 FOTA package, in order: the AP when
/// `include_ap` (its entry must exist and hold data), then the script when
/// the PAC has a LUA entry with data. `ap` and `lua` say whether the PAC has
/// that entry and, if so, whether it holds data.
pub fn rda8910_sector_parts(include_ap: bool, ap: Option<bool>, lua: Option<bool>) -> (r: Result<Vec<SectorPart>, SectorPlanError>)
    ensures
        match r {
            Ok(v) => {
                &&& !(include_ap && ap != Some(true))
                &&& v@ == (if include_ap { seq![SectorPart::Ap] } else { seq![] }) + (if lua == Some(true) {
                    seq![SectorPart::Script]
                } else {
                    seq![]
                })
                &&& v@.len() > 0
            },
            Err(e) => {
                &&& include_ap ==> ap != Some(true)
                &&& !include_ap ==> lua != Some(true)
                &&& e == if include_ap && ap is None {
                    SectorPlanError::NoApEntry
                } else if include_ap {
                    SectorPlanError::NoApData
                } else {
                    SectorPlanError::NothingToPack
                }
            },
        },
{
    let mut v: Vec<SectorPart> = Vec::new();
    if include_ap {
        match ap {
            None => return Err(SectorPlanError::NoApEntry),
            Some(false) => return Err(SectorPlanError::NoApData),
            Some(true) => v.push(SectorPart::Ap),
        }
    }
    if lua == Some(true) {
        v.push(SectorPart::Script);
    }
    if v.len() == 0 {
        return Err(SectorPlanError::NothingToPack);
    }
    proof {
        let a: Seq<SectorPart> = if include_ap { seq![SectorPart::Ap] } else { seq![] };
        let b: Seq<SectorPart> = if lua == Some(true) { seq![SectorPart::Script] } else { seq![] };
        assert(v@ =~= a + b);
    }
    Ok(v)
}

} // verus!
