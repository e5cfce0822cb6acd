//! Model guides: the recommended flash and log commands per module family,
//! found by any of the family's model names.

use vstd::prelude::*;
use vstd::utf8::{encode_utf8, is_ascii_chars, is_ascii_chars_encode_utf8};
use crate::bytes::bytes_eq;
use crate::text::{str_trim, string_from_utf8_lossy, trimmed, utf8_lossy};

verus! {

/// The guide of one module family.
#[derive(Debug, Clone, Copy)]
pub struct ModelGuide {
    pub key: &'static str,
    pub aliases: &'static [&'static str],
    pub description: &'static str,
    pub flash_example: &'static str,
    pub log_example: &'static str,
    pub docs_path: &'static str,
}

/// Number of model guides.
pub const GUIDE_COUNT: usize = 5;

/// The model guide at position `i` (0 to 4).
pub open spec fn guide_spec(i: int) -> ModelGuide {
    if i == 0 {
        ModelGuide {
            key: "air1601",
            aliases: &["air1601", "air1602", "ccm4211"],
            description: "Air1601/Air1602/CCM4211（SOC 二进制日志，建议 --probe）",
            flash_example: "luatos-cli flash run --soc firmware.soc --port COM10",
            log_example: "luatos-cli log view-binary --port COM10 --baud 6000000 --probe",
            docs_path: "docs\\models\\air1601-air1602.md",
        }
    } else if i == 1 {
        ModelGuide {
            key: "air8000",
            aliases: &["air8000", "ec7xx", "air780epm", "air780ehm", "air780ehv", "air780ehg"],
            description: "Air8000/EC7xx（USB CDC，日志建议 921600，--probe）",
            flash_example: "luatos-cli flash run --soc firmware.soc --port auto",
            log_example: "luatos-cli log view-binary --port auto --probe",
            docs_path: "docs\\models\\air8000-ec7xx.md",
        }
    } else if i == 2 {
        ModelGuide {
            key: "air8101",
            aliases: &["air8101", "bk72xx"],
            description: "Air8101/BK7258（文本日志）",
            flash_example: "luatos-cli flash run --soc firmware.soc --port COM6",
            log_example: "luatos-cli log view --port COM6 --baud 921600",
            docs_path: "docs\\models\\air8101-bk72xx.md",
        }
    } else if i == 3 {
        ModelGuide {
            key: "air6208",
            aliases: &["air6208", "air101", "air103", "air601", "xt804"],
            description: "Air6208/Air101/Air103（XT804 系列）",
            flash_example: "luatos-cli flash run --soc firmware.soc --port COM7",
            log_example: "luatos-cli log view-binary --port COM7 --baud 2000000",
            docs_path: "docs\\models\\air6208-xt804.md",
        }
    } else {
        ModelGuide {
            key: "sf32",
            aliases: &["sf32", "sf32lb58", "air8101-sf32"],
            description: "SF32LB58（支持 --auto-reset）",
            flash_example: "luatos-cli flash run --soc firmware.soc --port COM13 --auto-reset",
            log_example: "luatos-cli log view --port COM13 --baud 1000000",
            docs_path: "docs\\models\\sf32lb58.md",
        }
    }
}

/// The model guide at position `i`.
pub fn model_guide(i: usize) -> (g: ModelGuide)
    requires
        i < GUIDE_COUNT,
    ensures
        g == guide_spec(i as int),
{
    if i == 0 {
        ModelGuide {
            key: "air1601",
            aliases: &["air1601", "air1602", "ccm4211"],
            description: "Air1601/Air1602/CCM4211（SOC 二进制日志，建议 --probe）",
            flash_example: "luatos-cli flash run --soc firmware.soc --port COM10",
            log_example: "luatos-cli log view-binary --port COM10 --baud 6000000 --probe",
            docs_path: "docs\\models\\air1601-air1602.md",
        }
    } else if i == 1 {
        ModelGuide {
            key: "air8000",
            aliases: &["air8000", "ec7xx", "air780epm", "air780ehm", "air780ehv", "air780ehg"],
            description: "Air8000/EC7xx（USB CDC，日志建议 921600，--probe）",
            flash_example: "luatos-cli flash run --soc firmware.soc --port auto",
            log_example: "luatos-cli log view-binary --port auto --probe",
            docs_path: "docs\\models\\air8000-ec7xx.md",
        }
    } else if i == 2 {
        ModelGuide {
            key: "air8101",
            aliases: &["air8101", "bk72xx"],
            description: "Air8101/BK7258（文本日志）",
            flash_example: "luatos-cli flash run --soc firmware.soc --port COM6",
            log_example: "luatos-cli log view --port COM6 --baud 921600",
            docs_path: "docs\\models\\air8101-bk72xx.md",
        }
    } else if i == 3 {
        ModelGuide {
            key: "air6208",
            aliases: &["air6208", "air101", "air103", "air601", "xt804"],
            description: "Air6208/Air101/Air103（XT804 系列）",
            flash_example: "luatos-cli flash run --soc firmware.soc --port COM7",
            log_example: "luatos-cli log view-binary --port COM7 --baud 2000000",
            docs_path: "docs\\models\\air6208-xt804.md",
        }
    } else {
        ModelGuide {
            key: "sf32",
            aliases: &["sf32", "sf32lb58", "air8101-sf32"],
            description: "SF32LB58（支持 --auto-reset）",
            flash_example: "luatos-cli flash run --soc firmware.soc --port COM13 --auto-reset",
            log_example: "luatos-cli log view --port COM13 --baud 1000000",
            docs_path: "docs\\models\\sf32lb58.md",
        }
    }
}


/// One byte of a normalized model name: ASCII lower case, '_' as '-'.
pub open spec fn norm_byte(b: u8) -> u8 {
    if b == 0x5F {
        0x2D
    } else if 0x41 <= b <= 0x5A {
        (b + 32) as u8
    } else {
        b
    }
}

/// The bytes of a normalized model name: trimmed, ASCII lower case, '_' as '-'.
pub open spec fn norm_bytes(s: Seq<char>) -> Seq<u8> {
    encode_utf8(trimmed(s)).map_values(|b: u8| norm_byte(b))
}

/// The bytes of the normalized form of `input`.
pub fn normalized_bytes(input: &str) -> (r: Vec<u8>)
    ensures
        r@ == norm_bytes(input@),
{
    let t = str_trim(input);
    let b = t.as_bytes();
    let mut r: Vec<u8> = Vec::new();
    let mut i: usize = 0;
    while i < b.len()
        invariant
            i <= b@.len(),
            b@ == encode_utf8(trimmed(input@)),
            r@ == b@.subrange(0, i as int).map_values(|x: u8| norm_byte(x)),
        decreases b@.len() - i,
    {
        let x = b[i];
        let y = if x == 0x5F {
            0x2D
        } else if x >= 0x41 && x <= 0x5A {
            x + 32
        } else {
            x
        };
        r.push(y);
        i = i + 1;
        assert(r@ =~= b@.subrange(0, i as int).map_values(|x: u8| norm_byte(x)));
    }
    assert(b@.subrange(0, b@.len() as int) =~= b@);
    r
}

/// A model name as guides compare it: trimmed, ASCII lower case, '_' as '-'.
pub fn normalize(input: &str) -> (r: String)
    ensures
        r@ == utf8_lossy(norm_bytes(input@)),
{
    let b = normalized_bytes(input);
    string_from_utf8_lossy(b.as_slice())
}

/// Guide `i` answers to `model`: one of its aliases normalizes the same.
pub open spec fn guide_matches(i: int, model: Seq<char>) -> bool {
    exists|k: int|
        0 <= k < guide_spec(i).aliases@.len() && norm_bytes(#[trigger] guide_spec(i).aliases@[k]@) == norm_bytes(model)
}

/// The first guide one of whose aliases matches `model` (ignoring
/// surrounding blanks, ASCII case and '_' versus '-').
pub fn find_model_guide(model: &str) -> (r: Option<ModelGuide>)
    ensures
        match r {
            Some(g) => exists|i: int|
                0 <= i < GUIDE_COUNT && g == guide_spec(i) && #[trigger] guide_matches(i, model@) && forall|j: int|
                    0 <= j < i ==> !guide_matches(j, model@),
            None => forall|i: int| 0 <= i < GUIDE_COUNT ==> !#[trigger] guide_matches(i, model@),
        },
{
    let key = normalized_bytes(model);
    let mut i: usize = 0;
    while i < GUIDE_COUNT
        invariant
            i <= GUIDE_COUNT,
            key@ == norm_bytes(model@),
            forall|j: int| 0 <= j < i ==> !#[trigger] guide_matches(j, model@),
        decreases GUIDE_COUNT - i,
    {
        let g = model_guide(i);
        let mut k: usize = 0;
        while k < g.aliases.len()
            invariant
                i < GUIDE_COUNT,
                g == guide_spec(i as int),
                forall|j: int| 0 <= j < i ==> !#[trigger] guide_matches(j, model@),
                key@ == norm_bytes(model@),
                k <= g.aliases@.len(),
                forall|m: int| 0 <= m < k ==> norm_bytes(#[trigger] g.aliases@[m]@) != norm_bytes(model@),
            decreases g.aliases@.len() - k,
        {
            let a = normalized_bytes(g.aliases[k]);
            if bytes_eq(a.as_slice(), key.as_slice()) {
                assert(guide_matches(i as int, model@));
                assert(0 <= i < GUIDE_COUNT && g == guide_spec(i as int) && guide_matches(i as int, model@) && forall|j: int|
                    0 <= j < i ==> !guide_matches(j, model@));
                return Some(g);
            }
            k = k + 1;
        }
        assert(!guide_matches(i as int, model@));
        i = i + 1;
    }
    None
}

/// `find_model_guide(model)` gives the guide whose key is `key`: the first
/// guide that matches `model` has that key.
pub open spec fn guide_found(model: Seq<char>, key: Seq<char>) -> bool {
    exists|i: int|
        0 <= i < GUIDE_COUNT && guide_spec(i).key@ == key && #[trigger] guide_matches(i, model) && forall|j: int|
            0 <= j < i ==> !guide_matches(j, model)
}

/// No alias of guide `j` normalizes to `b`.
pub open spec fn guide_misses(j: int, b: Seq<u8>) -> bool {
    forall|k: int| 0 <= k < guide_spec(j).aliases@.len() ==> norm_bytes(#[trigger] guide_spec(j).aliases@[k]@) != b
}

/// An ASCII name without surrounding blanks normalizes byte by byte.
proof fn lemma_norm_plain(s: Seq<char>)
    requires
        is_ascii_chars(s),
        trimmed(s) == s,
    ensures
        norm_bytes(s).len() == s.len(),
        forall|i: int| 0 <= i < s.len() ==> #[trigger] norm_bytes(s)[i] == norm_byte(s[i] as u8),
{
    is_ascii_chars_encode_utf8(s);
}

proof fn lemma_found_at(i: int, k: int, m: Seq<char>, n: Seq<char>)
    requires
        0 <= i < GUIDE_COUNT,
        0 <= k < guide_spec(i).aliases@.len(),
        guide_spec(i).aliases@[k]@ == n,
        norm_bytes(m) == norm_bytes(n),
        forall|j: int| 0 <= j < i ==> #[trigger] guide_misses(j, norm_bytes(n)),
    ensures
        guide_found(m, guide_spec(i).key@),
{
    assert(norm_bytes(guide_spec(i).aliases@[k]@) == norm_bytes(m));
    assert(guide_matches(i, m));
    assert forall|j: int| 0 <= j < i implies !guide_matches(j, m) by {
        assert(guide_misses(j, norm_bytes(n)));
    }
}

proof fn lemma_finds_air1601(m: Seq<char>)
    requires
        norm_bytes(m) == norm_bytes("air1601"@),
    ensures
        guide_found(m, "air1601"@),
{
    lemma_found_at(0, 0, m, "air1601"@);
}

proof fn lemma_finds_air1602(m: Seq<char>)
    requires
        norm_bytes(m) == norm_bytes("air1602"@),
    ensures
        guide_found(m, "air1601"@),
{
    lemma_found_at(0, 1, m, "air1602"@);
}

proof fn lemma_finds_ccm4211(m: Seq<char>)
    requires
        norm_bytes(m) == norm_bytes("ccm4211"@),
    ensures
        guide_found(m, "air1601"@),
{
    lemma_found_at(0, 2, m, "ccm4211"@);
}

proof fn lemma_finds_air8000(m: Seq<char>)
    requires
        norm_bytes(m) == norm_bytes("air8000"@),
    ensures
        guide_found(m, "air8000"@),
{
    assert forall|k: int| 0 <= k < guide_spec(0).aliases@.len() implies norm_bytes(#[trigger] guide_spec(0).aliases@[k]@) != norm_bytes("air8000"@) by {
        reveal_strlit("air8000");
        lemma_norm_plain("air8000"@);
        if k == 0 {
            reveal_strlit("air1601");
            lemma_norm_plain("air1601"@);
            assert(norm_bytes("air1601"@)[3] != norm_bytes("air8000"@)[3]);
        } else if k == 1 {
            reveal_strlit("air1602");
            lemma_norm_plain("air1602"@);
            assert(norm_bytes("air1602"@)[3] != norm_bytes("air8000"@)[3]);
        } else {
            assert(k == 2);
            reveal_strlit("ccm4211");
            lemma_norm_plain("ccm4211"@);
            assert(norm_bytes("ccm4211"@)[0] != norm_bytes("air8000"@)[0]);
        }
    }
    assert(guide_misses(0, norm_bytes("air8000"@)));
    lemma_found_at(1, 0, m, "air8000"@);
}

proof fn lemma_finds_ec7xx(m: Seq<char>)
    requires
        norm_bytes(m) == norm_bytes("ec7xx"@),
    ensures
        guide_found(m, "air8000"@),
{
    assert forall|k: int| 0 <= k < guide_spec(0).aliases@.len() implies norm_bytes(#[trigger] guide_spec(0).aliases@[k]@) != norm_bytes("ec7xx"@) by {
        reveal_strlit("ec7xx");
        lemma_norm_plain("ec7xx"@);
        if k == 0 {
            reveal_strlit("air1601");
            lemma_norm_plain("air1601"@);
            assert(norm_bytes("air1601"@).len() != norm_bytes("ec7xx"@).len());
        } else if k == 1 {
            reveal_strlit("air1602");
            lemma_norm_plain("air1602"@);
            assert(norm_bytes("air1602"@).len() != norm_bytes("ec7xx"@).len());
        } else {
            assert(k == 2);
            reveal_strlit("ccm4211");
            lemma_norm_plain("ccm4211"@);
            assert(norm_bytes("ccm4211"@).len() != norm_bytes("ec7xx"@).len());
        }
    }
    assert(guide_misses(0, norm_bytes("ec7xx"@)));
    lemma_found_at(1, 1, m, "ec7xx"@);
}

proof fn lemma_finds_air780epm(m: Seq<char>)
    requires
        norm_bytes(m) == norm_bytes("air780epm"@),
    ensures
        guide_found(m, "air8000"@),
{
    assert forall|k: int| 0 <= k < guide_spec(0).aliases@.len() implies norm_bytes(#[trigger] guide_spec(0).aliases@[k]@) != norm_bytes("air780epm"@) by {
        reveal_strlit("air780epm");
        lemma_norm_plain("air780epm"@);
        if k == 0 {
            reveal_strlit("air1601");
            lemma_norm_plain("air1601"@);
            assert(norm_bytes("air1601"@).len() != norm_bytes("air780epm"@).len());
        } else if k == 1 {
            reveal_strlit("air1602");
            lemma_norm_plain("air1602"@);
            assert(norm_bytes("air1602"@).len() != norm_bytes("air780epm"@).len());
        } else {
            assert(k == 2);
            reveal_strlit("ccm4211");
            lemma_norm_plain("ccm4211"@);
            assert(norm_bytes("ccm4211"@).len() != norm_bytes("air780epm"@).len());
        }
    }
    assert(guide_misses(0, norm_bytes("air780epm"@)));
    lemma_found_at(1, 2, m, "air780epm"@);
}

proof fn lemma_finds_air780ehm(m: Seq<char>)
    requires
        norm_bytes(m) == norm_bytes("air780ehm"@),
    ensures
        guide_found(m, "air8000"@),
{
    assert forall|k: int| 0 <= k < guide_spec(0).aliases@.len() implies norm_bytes(#[trigger] guide_spec(0).aliases@[k]@) != norm_bytes("air780ehm"@) by {
        reveal_strlit("air780ehm");
        lemma_norm_plain("air780ehm"@);
        if k == 0 {
            reveal_strlit("air1601");
            lemma_norm_plain("air1601"@);
            assert(norm_bytes("air1601"@).len() != norm_bytes("air780ehm"@).len());
        } else if k == 1 {
            reveal_strlit("air1602");
            lemma_norm_plain("air1602"@);
            assert(norm_bytes("air1602"@).len() != norm_bytes("air780ehm"@).len());
        } else {
            assert(k == 2);
            reveal_strlit("ccm4211");
            lemma_norm_plain("ccm4211"@);
            assert(norm_bytes("ccm4211"@).len() != norm_bytes("air780ehm"@).len());
        }
    }
    assert(guide_misses(0, norm_bytes("air780ehm"@)));
    lemma_found_at(1, 3, m, "air780ehm"@);
}

proof fn lemma_finds_air780ehv(m: Seq<char>)
    requires
        norm_bytes(m) == norm_bytes("air780ehv"@),
    ensures
        guide_found(m, "air8000"@),
{
    assert forall|k: int| 0 <= k < guide_spec(0).aliases@.len() implies norm_bytes(#[trigger] guide_spec(0).aliases@[k]@) != norm_bytes("air780ehv"@) by {
        reveal_strlit("air780ehv");
        lemma_norm_plain("air780ehv"@);
        if k == 0 {
            reveal_strlit("air1601");
            lemma_norm_plain("air1601"@);
            assert(norm_bytes("air1601"@).len() != norm_bytes("air780ehv"@).len());
        } else if k == 1 {
            reveal_strlit("air1602");
            lemma_norm_plain("air1602"@);
            assert(norm_bytes("air1602"@).len() != norm_bytes("air780ehv"@).len());
        } else {
            assert(k == 2);
            reveal_strlit("ccm4211");
            lemma_norm_plain("ccm4211"@);
            assert(norm_bytes("ccm4211"@).len() != norm_bytes("air780ehv"@).len());
        }
    }
    assert(guide_misses(0, norm_bytes("air780ehv"@)));
    lemma_found_at(1, 4, m, "air780ehv"@);
}

proof fn lemma_finds_air780ehg(m: Seq<char>)
    requires
        norm_bytes(m) == norm_bytes("air780ehg"@),
    ensures
        guide_found(m, "air8000"@),
{
    assert forall|k: int| 0 <= k < guide_spec(0).aliases@.len() implies norm_bytes(#[trigger] guide_spec(0).aliases@[k]@) != norm_bytes("air780ehg"@) by {
        reveal_strlit("air780ehg");
        lemma_norm_plain("air780ehg"@);
        if k == 0 {
            reveal_strlit("air1601");
            lemma_norm_plain("air1601"@);
            assert(norm_bytes("air1601"@).len() != norm_bytes("air780ehg"@).len());
        } else if k == 1 {
            reveal_strlit("air1602");
            lemma_norm_plain("air1602"@);
            assert(norm_bytes("air1602"@).len() != norm_bytes("air780ehg"@).len());
        } else {
            assert(k == 2);
            reveal_strlit("ccm4211");
            lemma_norm_plain("ccm4211"@);
            assert(norm_bytes("ccm4211"@).len() != norm_bytes("air780ehg"@).len());
        }
    }
    assert(guide_misses(0, norm_bytes("air780ehg"@)));
    lemma_found_at(1, 5, m, "air780ehg"@);
}

proof fn lemma_finds_air8101(m: Seq<char>)
    requires
        norm_bytes(m) == norm_bytes("air8101"@),
    ensures
        guide_found(m, "air8101"@),
{
    assert forall|k: int| 0 <= k < guide_spec(0).aliases@.len() implies norm_bytes(#[trigger] guide_spec(0).aliases@[k]@) != norm_bytes("air8101"@) by {
        reveal_strlit("air8101");
        lemma_norm_plain("air8101"@);
        if k == 0 {
            reveal_strlit("air1601");
            lemma_norm_plain("air1601"@);
            assert(norm_bytes("air1601"@)[3] != norm_bytes("air8101"@)[3]);
        } else if k == 1 {
            reveal_strlit("air1602");
            lemma_norm_plain("air1602"@);
            assert(norm_bytes("air1602"@)[3] != norm_bytes("air8101"@)[3]);
        } else {
            assert(k == 2);
            reveal_strlit("ccm4211");
            lemma_norm_plain("ccm4211"@);
            assert(norm_bytes("ccm4211"@)[0] != norm_bytes("air8101"@)[0]);
        }
    }
    assert(guide_misses(0, norm_bytes("air8101"@)));
    assert forall|k: int| 0 <= k < guide_spec(1).aliases@.len() implies norm_bytes(#[trigger] guide_spec(1).aliases@[k]@) != norm_bytes("air8101"@) by {
        reveal_strlit("air8101");
        lemma_norm_plain("air8101"@);
        if k == 0 {
            reveal_strlit("air8000");
            lemma_norm_plain("air8000"@);
            assert(norm_bytes("air8000"@)[4] != norm_bytes("air8101"@)[4]);
        } else if k == 1 {
            reveal_strlit("ec7xx");
            lemma_norm_plain("ec7xx"@);
            assert(norm_bytes("ec7xx"@).len() != norm_bytes("air8101"@).len());
        } else if k == 2 {
            reveal_strlit("air780epm");
            lemma_norm_plain("air780epm"@);
            assert(norm_bytes("air780epm"@).len() != norm_bytes("air8101"@).len());
        } else if k == 3 {
            reveal_strlit("air780ehm");
            lemma_norm_plain("air780ehm"@);
            assert(norm_bytes("air780ehm"@).len() != norm_bytes("air8101"@).len());
        } else if k == 4 {
            reveal_strlit("air780ehv");
            lemma_norm_plain("air780ehv"@);
            assert(norm_bytes("air780ehv"@).len() != norm_bytes("air8101"@).len());
        } else {
            assert(k == 5);
            reveal_strlit("air780ehg");
            lemma_norm_plain("air780ehg"@);
            assert(norm_bytes("air780ehg"@).len() != norm_bytes("air8101"@).len());
        }
    }
    assert(guide_misses(1, norm_bytes("air8101"@)));
    lemma_found_at(2, 0, m, "air8101"@);
}

proof fn lemma_finds_bk72xx(m: Seq<char>)
    requires
        norm_bytes(m) == norm_bytes("bk72xx"@),
    ensures
        guide_found(m, "air8101"@),
{
    assert forall|k: int| 0 <= k < guide_spec(0).aliases@.len() implies norm_bytes(#[trigger] guide_spec(0).aliases@[k]@) != norm_bytes("bk72xx"@) by {
        reveal_strlit("bk72xx");
        lemma_norm_plain("bk72xx"@);
        if k == 0 {
            reveal_strlit("air1601");
            lemma_norm_plain("air1601"@);
            assert(norm_bytes("air1601"@).len() != norm_bytes("bk72xx"@).len());
        } else if k == 1 {
            reveal_strlit("air1602");
            lemma_norm_plain("air1602"@);
            assert(norm_bytes("air1602"@).len() != norm_bytes("bk72xx"@).len());
        } else {
            assert(k == 2);
            reveal_strlit("ccm4211");
            lemma_norm_plain("ccm4211"@);
            assert(norm_bytes("ccm4211"@).len() != norm_bytes("bk72xx"@).len());
        }
    }
    assert(guide_misses(0, norm_bytes("bk72xx"@)));
    assert forall|k: int| 0 <= k < guide_spec(1).aliases@.len() implies norm_bytes(#[trigger] guide_spec(1).aliases@[k]@) != norm_bytes("bk72xx"@) by {
        reveal_strlit("bk72xx");
        lemma_norm_plain("bk72xx"@);
        if k == 0 {
            reveal_strlit("air8000");
            lemma_norm_plain("air8000"@);
            assert(norm_bytes("air8000"@).len() != norm_bytes("bk72xx"@).len());
        } else if k == 1 {
            reveal_strlit("ec7xx");
            lemma_norm_plain("ec7xx"@);
            assert(norm_bytes("ec7xx"@).len() != norm_bytes("bk72xx"@).len());
        } else if k == 2 {
            reveal_strlit("air780epm");
            lemma_norm_plain("air780epm"@);
            assert(norm_bytes("air780epm"@).len() != norm_bytes("bk72xx"@).len());
        } else if k == 3 {
            reveal_strlit("air780ehm");
            lemma_norm_plain("air780ehm"@);
            assert(norm_bytes("air780ehm"@).len() != norm_bytes("bk72xx"@).len());
        } else if k == 4 {
            reveal_strlit("air780ehv");
            lemma_norm_plain("air780ehv"@);
            assert(norm_bytes("air780ehv"@).len() != norm_bytes("bk72xx"@).len());
        } else {
            assert(k == 5);
            reveal_strlit("air780ehg");
            lemma_norm_plain("air780ehg"@);
            assert(norm_bytes("air780ehg"@).len() != norm_bytes("bk72xx"@).len());
        }
    }
    assert(guide_misses(1, norm_bytes("bk72xx"@)));
    lemma_found_at(2, 1, m, "bk72xx"@);
}

proof fn lemma_finds_air6208(m: Seq<char>)
    requires
        norm_bytes(m) == norm_bytes("air6208"@),
    ensures
        guide_found(m, "air6208"@),
{
    assert forall|k: int| 0 <= k < guide_spec(0).aliases@.len() implies norm_bytes(#[trigger] guide_spec(0).aliases@[k]@) != norm_bytes("air6208"@) by {
        reveal_strlit("air6208");
        lemma_norm_plain("air6208"@);
        if k == 0 {
            reveal_strlit("air1601");
            lemma_norm_plain("air1601"@);
            assert(norm_bytes("air1601"@)[3] != norm_bytes("air6208"@)[3]);
        } else if k == 1 {
            reveal_strlit("air1602");
            lemma_norm_plain("air1602"@);
            assert(norm_bytes("air1602"@)[3] != norm_bytes("air6208"@)[3]);
        } else {
            assert(k == 2);
            reveal_strlit("ccm4211");
            lemma_norm_plain("ccm4211"@);
            assert(norm_bytes("ccm4211"@)[0] != norm_bytes("air6208"@)[0]);
        }
    }
    assert(guide_misses(0, norm_bytes("air6208"@)));
    assert forall|k: int| 0 <= k < guide_spec(1).aliases@.len() implies norm_bytes(#[trigger] guide_spec(1).aliases@[k]@) != norm_bytes("air6208"@) by {
        reveal_strlit("air6208");
        lemma_norm_plain("air6208"@);
        if k == 0 {
            reveal_strlit("air8000");
            lemma_norm_plain("air8000"@);
            assert(norm_bytes("air8000"@)[3] != norm_bytes("air6208"@)[3]);
        } else if k == 1 {
            reveal_strlit("ec7xx");
            lemma_norm_plain("ec7xx"@);
            assert(norm_bytes("ec7xx"@).len() != norm_bytes("air6208"@).len());
        } else if k == 2 {
            reveal_strlit("air780epm");
            lemma_norm_plain("air780epm"@);
            assert(norm_bytes("air780epm"@).len() != norm_bytes("air6208"@).len());
        } else if k == 3 {
            reveal_strlit("air780ehm");
            lemma_norm_plain("air780ehm"@);
            assert(norm_bytes("air780ehm"@).len() != norm_bytes("air6208"@).len());
        } else if k == 4 {
            reveal_strlit("air780ehv");
            lemma_norm_plain("air780ehv"@);
            assert(norm_bytes("air780ehv"@).len() != norm_bytes("air6208"@).len());
        } else {
            assert(k == 5);
            reveal_strlit("air780ehg");
            lemma_norm_plain("air780ehg"@);
            assert(norm_bytes("air780ehg"@).len() != norm_bytes("air6208"@).len());
        }
    }
    assert(guide_misses(1, norm_bytes("air6208"@)));
    assert forall|k: int| 0 <= k < guide_spec(2).aliases@.len() implies norm_bytes(#[trigger] guide_spec(2).aliases@[k]@) != norm_bytes("air6208"@) by {
        reveal_strlit("air6208");
        lemma_norm_plain("air6208"@);
        if k == 0 {
            reveal_strlit("air8101");
            lemma_norm_plain("air8101"@);
            assert(norm_bytes("air8101"@)[3] != norm_bytes("air6208"@)[3]);
        } else {
            assert(k == 1);
            reveal_strlit("bk72xx");
            lemma_norm_plain("bk72xx"@);
            assert(norm_bytes("bk72xx"@).len() != norm_bytes("air6208"@).len());
        }
    }
    assert(guide_misses(2, norm_bytes("air6208"@)));
    lemma_found_at(3, 0, m, "air6208"@);
}

proof fn lemma_finds_air101(m: Seq<char>)
    requires
        norm_bytes(m) == norm_bytes("air101"@),
    ensures
        guide_found(m, "air6208"@),
{
    assert forall|k: int| 0 <= k < guide_spec(0).aliases@.len() implies norm_bytes(#[trigger] guide_spec(0).aliases@[k]@) != norm_bytes("air101"@) by {
        reveal_strlit("air101");
        lemma_norm_plain("air101"@);
        if k == 0 {
            reveal_strlit("air1601");
            lemma_norm_plain("air1601"@);
            assert(norm_bytes("air1601"@).len() != norm_bytes("air101"@).len());
        } else if k == 1 {
            reveal_strlit("air1602");
            lemma_norm_plain("air1602"@);
            assert(norm_bytes("air1602"@).len() != norm_bytes("air101"@).len());
        } else {
            assert(k == 2);
            reveal_strlit("ccm4211");
            lemma_norm_plain("ccm4211"@);
            assert(norm_bytes("ccm4211"@).len() != norm_bytes("air101"@).len());
        }
    }
    assert(guide_misses(0, norm_bytes("air101"@)));
    assert forall|k: int| 0 <= k < guide_spec(1).aliases@.len() implies norm_bytes(#[trigger] guide_spec(1).aliases@[k]@) != norm_bytes("air101"@) by {
        reveal_strlit("air101");
        lemma_norm_plain("air101"@);
        if k == 0 {
            reveal_strlit("air8000");
            lemma_norm_plain("air8000"@);
            assert(norm_bytes("air8000"@).len() != norm_bytes("air101"@).len());
        } else if k == 1 {
            reveal_strlit("ec7xx");
            lemma_norm_plain("ec7xx"@);
            assert(norm_bytes("ec7xx"@).len() != norm_bytes("air101"@).len());
        } else if k == 2 {
            reveal_strlit("air780epm");
            lemma_norm_plain("air780epm"@);
            assert(norm_bytes("air780epm"@).len() != norm_bytes("air101"@).len());
        } else if k == 3 {
            reveal_strlit("air780ehm");
            lemma_norm_plain("air780ehm"@);
            assert(norm_bytes("air780ehm"@).len() != norm_bytes("air101"@).len());
        } else if k == 4 {
            reveal_strlit("air780ehv");
            lemma_norm_plain("air780ehv"@);
            assert(norm_bytes("air780ehv"@).len() != norm_bytes("air101"@).len());
        } else {
            assert(k == 5);
            reveal_strlit("air780ehg");
            lemma_norm_plain("air780ehg"@);
            assert(norm_bytes("air780ehg"@).len() != norm_bytes("air101"@).len());
        }
    }
    assert(guide_misses(1, norm_bytes("air101"@)));
    assert forall|k: int| 0 <= k < guide_spec(2).aliases@.len() implies norm_bytes(#[trigger] guide_spec(2).aliases@[k]@) != norm_bytes("air101"@) by {
        reveal_strlit("air101");
        lemma_norm_plain("air101"@);
        if k == 0 {
            reveal_strlit("air8101");
            lemma_norm_plain("air8101"@);
            assert(norm_bytes("air8101"@).len() != norm_bytes("air101"@).len());
        } else {
            assert(k == 1);
            reveal_strlit("bk72xx");
            lemma_norm_plain("bk72xx"@);
            assert(norm_bytes("bk72xx"@)[0] != norm_bytes("air101"@)[0]);
        }
    }
    assert(guide_misses(2, norm_bytes("air101"@)));
    lemma_found_at(3, 1, m, "air101"@);
}

proof fn lemma_finds_air103(m: Seq<char>)
    requires
        norm_bytes(m) == norm_bytes("air103"@),
    ensures
        guide_found(m, "air6208"@),
{
    assert forall|k: int| 0 <= k < guide_spec(0).aliases@.len() implies norm_bytes(#[trigger] guide_spec(0).aliases@[k]@) != norm_bytes("air103"@) by {
        reveal_strlit("air103");
        lemma_norm_plain("air103"@);
        if k == 0 {
            reveal_strlit("air1601");
            lemma_norm_plain("air1601"@);
            assert(norm_bytes("air1601"@).len() != norm_bytes("air103"@).len());
        } else if k == 1 {
            reveal_strlit("air1602");
            lemma_norm_plain("air1602"@);
            assert(norm_bytes("air1602"@).len() != norm_bytes("air103"@).len());
        } else {
            assert(k == 2);
            reveal_strlit("ccm4211");
            lemma_norm_plain("ccm4211"@);
            assert(norm_bytes("ccm4211"@).len() != norm_bytes("air103"@).len());
        }
    }
    assert(guide_misses(0, norm_bytes("air103"@)));
    assert forall|k: int| 0 <= k < guide_spec(1).aliases@.len() implies norm_bytes(#[trigger] guide_spec(1).aliases@[k]@) != norm_bytes("air103"@) by {
        reveal_strlit("air103");
        lemma_norm_plain("air103"@);
        if k == 0 {
            reveal_strlit("air8000");
            lemma_norm_plain("air8000"@);
            assert(norm_bytes("air8000"@).len() != norm_bytes("air103"@).len());
        } else if k == 1 {
            reveal_strlit("ec7xx");
            lemma_norm_plain("ec7xx"@);
            assert(norm_bytes("ec7xx"@).len() != norm_bytes("air103"@).len());
        } else if k == 2 {
            reveal_strlit("air780epm");
            lemma_norm_plain("air780epm"@);
            assert(norm_bytes("air780epm"@).len() != norm_bytes("air103"@).len());
        } else if k == 3 {
            reveal_strlit("air780ehm");
            lemma_norm_plain("air780ehm"@);
            assert(norm_bytes("air780ehm"@).len() != norm_bytes("air103"@).len());
        } else if k == 4 {
            reveal_strlit("air780ehv");
            lemma_norm_plain("air780ehv"@);
            assert(norm_bytes("air780ehv"@).len() != norm_bytes("air103"@).len());
        } else {
            assert(k == 5);
            reveal_strlit("air780ehg");
            lemma_norm_plain("air780ehg"@);
            assert(norm_bytes("air780ehg"@).len() != norm_bytes("air103"@).len());
        }
    }
    assert(guide_misses(1, norm_bytes("air103"@)));
    assert forall|k: int| 0 <= k < guide_spec(2).aliases@.len() implies norm_bytes(#[trigger] guide_spec(2).aliases@[k]@) != norm_bytes("air103"@) by {
        reveal_strlit("air103");
        lemma_norm_plain("air103"@);
        if k == 0 {
            reveal_strlit("air8101");
            lemma_norm_plain("air8101"@);
            assert(norm_bytes("air8101"@).len() != norm_bytes("air103"@).len());
        } else {
            assert(k == 1);
            reveal_strlit("bk72xx");
            lemma_norm_plain("bk72xx"@);
            assert(norm_bytes("bk72xx"@)[0] != norm_bytes("air103"@)[0]);
        }
    }
    assert(guide_misses(2, norm_bytes("air103"@)));
    lemma_found_at(3, 2, m, "air103"@);
}

proof fn lemma_finds_air601(m: Seq<char>)
    requires
        norm_bytes(m) == norm_bytes("air601"@),
    ensures
        guide_found(m, "air6208"@),
{
    assert forall|k: int| 0 <= k < guide_spec(0).aliases@.len() implies norm_bytes(#[trigger] guide_spec(0).aliases@[k]@) != norm_bytes("air601"@) by {
        reveal_strlit("air601");
        lemma_norm_plain("air601"@);
        if k == 0 {
            reveal_strlit("air1601");
            lemma_norm_plain("air1601"@);
            assert(norm_bytes("air1601"@).len() != norm_bytes("air601"@).len());
        } else if k == 1 {
            reveal_strlit("air1602");
            lemma_norm_plain("air1602"@);
            assert(norm_bytes("air1602"@).len() != norm_bytes("air601"@).len());
        } else {
            assert(k == 2);
            reveal_strlit("ccm4211");
            lemma_norm_plain("ccm4211"@);
            assert(norm_bytes("ccm4211"@).len() != norm_bytes("air601"@).len());
        }
    }
    assert(guide_misses(0, norm_bytes("air601"@)));
    assert forall|k: int| 0 <= k < guide_spec(1).aliases@.len() implies norm_bytes(#[trigger] guide_spec(1).aliases@[k]@) != norm_bytes("air601"@) by {
        reveal_strlit("air601");
        lemma_norm_plain("air601"@);
        if k == 0 {
            reveal_strlit("air8000");
            lemma_norm_plain("air8000"@);
            assert(norm_bytes("air8000"@).len() != norm_bytes("air601"@).len());
        } else if k == 1 {
            reveal_strlit("ec7xx");
            lemma_norm_plain("ec7xx"@);
            assert(norm_bytes("ec7xx"@).len() != norm_bytes("air601"@).len());
        } else if k == 2 {
            reveal_strlit("air780epm");
            lemma_norm_plain("air780epm"@);
            assert(norm_bytes("air780epm"@).len() != norm_bytes("air601"@).len());
        } else if k == 3 {
            reveal_strlit("air780ehm");
            lemma_norm_plain("air780ehm"@);
            assert(norm_bytes("air780ehm"@).len() != norm_bytes("air601"@).len());
        } else if k == 4 {
            reveal_strlit("air780ehv");
            lemma_norm_plain("air780ehv"@);
            assert(norm_bytes("air780ehv"@).len() != norm_bytes("air601"@).len());
        } else {
            assert(k == 5);
            reveal_strlit("air780ehg");
            lemma_norm_plain("air780ehg"@);
            assert(norm_bytes("air780ehg"@).len() != norm_bytes("air601"@).len());
        }
    }
    assert(guide_misses(1, norm_bytes("air601"@)));
    assert forall|k: int| 0 <= k < guide_spec(2).aliases@.len() implies norm_bytes(#[trigger] guide_spec(2).aliases@[k]@) != norm_bytes("air601"@) by {
        reveal_strlit("air601");
        lemma_norm_plain("air601"@);
        if k == 0 {
            reveal_strlit("air8101");
            lemma_norm_plain("air8101"@);
            assert(norm_bytes("air8101"@).len() != norm_bytes("air601"@).len());
        } else {
            assert(k == 1);
            reveal_strlit("bk72xx");
            lemma_norm_plain("bk72xx"@);
            assert(norm_bytes("bk72xx"@)[0] != norm_bytes("air601"@)[0]);
        }
    }
    assert(guide_misses(2, norm_bytes("air601"@)));
    lemma_found_at(3, 3, m, "air601"@);
}

proof fn lemma_finds_xt804(m: Seq<char>)
    requires
        norm_bytes(m) == norm_bytes("xt804"@),
    ensures
        guide_found(m, "air6208"@),
{
    assert forall|k: int| 0 <= k < guide_spec(0).aliases@.len() implies norm_bytes(#[trigger] guide_spec(0).aliases@[k]@) != norm_bytes("xt804"@) by {
        reveal_strlit("xt804");
        lemma_norm_plain("xt804"@);
        if k == 0 {
            reveal_strlit("air1601");
            lemma_norm_plain("air1601"@);
            assert(norm_bytes("air1601"@).len() != norm_bytes("xt804"@).len());
        } else if k == 1 {
            reveal_strlit("air1602");
            lemma_norm_plain("air1602"@);
            assert(norm_bytes("air1602"@).len() != norm_bytes("xt804"@).len());
        } else {
            assert(k == 2);
            reveal_strlit("ccm4211");
            lemma_norm_plain("ccm4211"@);
            assert(norm_bytes("ccm4211"@).len() != norm_bytes("xt804"@).len());
        }
    }
    assert(guide_misses(0, norm_bytes("xt804"@)));
    assert forall|k: int| 0 <= k < guide_spec(1).aliases@.len() implies norm_bytes(#[trigger] guide_spec(1).aliases@[k]@) != norm_bytes("xt804"@) by {
        reveal_strlit("xt804");
        lemma_norm_plain("xt804"@);
        if k == 0 {
            reveal_strlit("air8000");
            lemma_norm_plain("air8000"@);
            assert(norm_bytes("air8000"@).len() != norm_bytes("xt804"@).len());
        } else if k == 1 {
            reveal_strlit("ec7xx");
            lemma_norm_plain("ec7xx"@);
            assert(norm_bytes("ec7xx"@)[0] != norm_bytes("xt804"@)[0]);
        } else if k == 2 {
            reveal_strlit("air780epm");
            lemma_norm_plain("air780epm"@);
            assert(norm_bytes("air780epm"@).len() != norm_bytes("xt804"@).len());
        } else if k == 3 {
            reveal_strlit("air780ehm");
            lemma_norm_plain("air780ehm"@);
            assert(norm_bytes("air780ehm"@).len() != norm_bytes("xt804"@).len());
        } else if k == 4 {
            reveal_strlit("air780ehv");
            lemma_norm_plain("air780ehv"@);
            assert(norm_bytes("air780ehv"@).len() != norm_bytes("xt804"@).len());
        } else {
            assert(k == 5);
            reveal_strlit("air780ehg");
            lemma_norm_plain("air780ehg"@);
            assert(norm_bytes("air780ehg"@).len() != norm_bytes("xt804"@).len());
        }
    }
    assert(guide_misses(1, norm_bytes("xt804"@)));
    assert forall|k: int| 0 <= k < guide_spec(2).aliases@.len() implies norm_bytes(#[trigger] guide_spec(2).aliases@[k]@) != norm_bytes("xt804"@) by {
        reveal_strlit("xt804");
        lemma_norm_plain("xt804"@);
        if k == 0 {
            reveal_strlit("air8101");
            lemma_norm_plain("air8101"@);
            assert(norm_bytes("air8101"@).len() != norm_bytes("xt804"@).len());
        } else {
            assert(k == 1);
            reveal_strlit("bk72xx");
            lemma_norm_plain("bk72xx"@);
            assert(norm_bytes("bk72xx"@).len() != norm_bytes("xt804"@).len());
        }
    }
    assert(guide_misses(2, norm_bytes("xt804"@)));
    lemma_found_at(3, 4, m, "xt804"@);
}

proof fn lemma_finds_sf32(m: Seq<char>)
    requires
        norm_bytes(m) == norm_bytes("sf32"@),
    ensures
        guide_found(m, "sf32"@),
{
    assert forall|k: int| 0 <= k < guide_spec(0).aliases@.len() implies norm_bytes(#[trigger] guide_spec(0).aliases@[k]@) != norm_bytes("sf32"@) by {
        reveal_strlit("sf32");
        lemma_norm_plain("sf32"@);
        if k == 0 {
            reveal_strlit("air1601");
            lemma_norm_plain("air1601"@);
            assert(norm_bytes("air1601"@).len() != norm_bytes("sf32"@).len());
        } else if k == 1 {
            reveal_strlit("air1602");
            lemma_norm_plain("air1602"@);
            assert(norm_bytes("air1602"@).len() != norm_bytes("sf32"@).len());
        } else {
            assert(k == 2);
            reveal_strlit("ccm4211");
            lemma_norm_plain("ccm4211"@);
            assert(norm_bytes("ccm4211"@).len() != norm_bytes("sf32"@).len());
        }
    }
    assert(guide_misses(0, norm_bytes("sf32"@)));
    assert forall|k: int| 0 <= k < guide_spec(1).aliases@.len() implies norm_bytes(#[trigger] guide_spec(1).aliases@[k]@) != norm_bytes("sf32"@) by {
        reveal_strlit("sf32");
        lemma_norm_plain("sf32"@);
        if k == 0 {
            reveal_strlit("air8000");
            lemma_norm_plain("air8000"@);
            assert(norm_bytes("air8000"@).len() != norm_bytes("sf32"@).len());
        } else if k == 1 {
            reveal_strlit("ec7xx");
            lemma_norm_plain("ec7xx"@);
            assert(norm_bytes("ec7xx"@).len() != norm_bytes("sf32"@).len());
        } else if k == 2 {
            reveal_strlit("air780epm");
            lemma_norm_plain("air780epm"@);
            assert(norm_bytes("air780epm"@).len() != norm_bytes("sf32"@).len());
        } else if k == 3 {
            reveal_strlit("air780ehm");
            lemma_norm_plain("air780ehm"@);
            assert(norm_bytes("air780ehm"@).len() != norm_bytes("sf32"@).len());
        } else if k == 4 {
            reveal_strlit("air780ehv");
            lemma_norm_plain("air780ehv"@);
            assert(norm_bytes("air780ehv"@).len() != norm_bytes("sf32"@).len());
        } else {
            assert(k == 5);
            reveal_strlit("air780ehg");
            lemma_norm_plain("air780ehg"@);
            assert(norm_bytes("air780ehg"@).len() != norm_bytes("sf32"@).len());
        }
    }
    assert(guide_misses(1, norm_bytes("sf32"@)));
    assert forall|k: int| 0 <= k < guide_spec(2).aliases@.len() implies norm_bytes(#[trigger] guide_spec(2).aliases@[k]@) != norm_bytes("sf32"@) by {
        reveal_strlit("sf32");
        lemma_norm_plain("sf32"@);
        if k == 0 {
            reveal_strlit("air8101");
            lemma_norm_plain("air8101"@);
            assert(norm_bytes("air8101"@).len() != norm_bytes("sf32"@).len());
        } else {
            assert(k == 1);
            reveal_strlit("bk72xx");
            lemma_norm_plain("bk72xx"@);
            assert(norm_bytes("bk72xx"@).len() != norm_bytes("sf32"@).len());
        }
    }
    assert(guide_misses(2, norm_bytes("sf32"@)));
    assert forall|k: int| 0 <= k < guide_spec(3).aliases@.len() implies norm_bytes(#[trigger] guide_spec(3).aliases@[k]@) != norm_bytes("sf32"@) by {
        reveal_strlit("sf32");
        lemma_norm_plain("sf32"@);
        if k == 0 {
            reveal_strlit("air6208");
            lemma_norm_plain("air6208"@);
            assert(norm_bytes("air6208"@).len() != norm_bytes("sf32"@).len());
        } else if k == 1 {
            reveal_strlit("air101");
            lemma_norm_plain("air101"@);
            assert(norm_bytes("air101"@).len() != norm_bytes("sf32"@).len());
        } else if k == 2 {
            reveal_strlit("air103");
            lemma_norm_plain("air103"@);
            assert(norm_bytes("air103"@).len() != norm_bytes("sf32"@).len());
        } else if k == 3 {
            reveal_strlit("air601");
            lemma_norm_plain("air601"@);
            assert(norm_bytes("air601"@).len() != norm_bytes("sf32"@).len());
        } else {
            assert(k == 4);
            reveal_strlit("xt804");
            lemma_norm_plain("xt804"@);
            assert(norm_bytes("xt804"@).len() != norm_bytes("sf32"@).len());
        }
    }
    assert(guide_misses(3, norm_bytes("sf32"@)));
    lemma_found_at(4, 0, m, "sf32"@);
}

proof fn lemma_finds_sf32lb58(m: Seq<char>)
    requires
        norm_bytes(m) == norm_bytes("sf32lb58"@),
    ensures
        guide_found(m, "sf32"@),
{
    assert forall|k: int| 0 <= k < guide_spec(0).aliases@.len() implies norm_bytes(#[trigger] guide_spec(0).aliases@[k]@) != norm_bytes("sf32lb58"@) by {
        reveal_strlit("sf32lb58");
        lemma_norm_plain("sf32lb58"@);
        if k == 0 {
            reveal_strlit("air1601");
            lemma_norm_plain("air1601"@);
            assert(norm_bytes("air1601"@).len() != norm_bytes("sf32lb58"@).len());
        } else if k == 1 {
            reveal_strlit("air1602");
            lemma_norm_plain("air1602"@);
            assert(norm_bytes("air1602"@).len() != norm_bytes("sf32lb58"@).len());
        } else {
            assert(k == 2);
            reveal_strlit("ccm4211");
            lemma_norm_plain("ccm4211"@);
            assert(norm_bytes("ccm4211"@).len() != norm_bytes("sf32lb58"@).len());
        }
    }
    assert(guide_misses(0, norm_bytes("sf32lb58"@)));
    assert forall|k: int| 0 <= k < guide_spec(1).aliases@.len() implies norm_bytes(#[trigger] guide_spec(1).aliases@[k]@) != norm_bytes("sf32lb58"@) by {
        reveal_strlit("sf32lb58");
        lemma_norm_plain("sf32lb58"@);
        if k == 0 {
            reveal_strlit("air8000");
            lemma_norm_plain("air8000"@);
            assert(norm_bytes("air8000"@).len() != norm_bytes("sf32lb58"@).len());
        } else if k == 1 {
            reveal_strlit("ec7xx");
            lemma_norm_plain("ec7xx"@);
            assert(norm_bytes("ec7xx"@).len() != norm_bytes("sf32lb58"@).len());
        } else if k == 2 {
            reveal_strlit("air780epm");
            lemma_norm_plain("air780epm"@);
            assert(norm_bytes("air780epm"@).len() != norm_bytes("sf32lb58"@).len());
        } else if k == 3 {
            reveal_strlit("air780ehm");
            lemma_norm_plain("air780ehm"@);
            assert(norm_bytes("air780ehm"@).len() != norm_bytes("sf32lb58"@).len());
        } else if k == 4 {
            reveal_strlit("air780ehv");
            lemma_norm_plain("air780ehv"@);
            assert(norm_bytes("air780ehv"@).len() != norm_bytes("sf32lb58"@).len());
        } else {
            assert(k == 5);
            reveal_strlit("air780ehg");
            lemma_norm_plain("air780ehg"@);
            assert(norm_bytes("air780ehg"@).len() != norm_bytes("sf32lb58"@).len());
        }
    }
    assert(guide_misses(1, norm_bytes("sf32lb58"@)));
    assert forall|k: int| 0 <= k < guide_spec(2).aliases@.len() implies norm_bytes(#[trigger] guide_spec(2).aliases@[k]@) != norm_bytes("sf32lb58"@) by {
        reveal_strlit("sf32lb58");
        lemma_norm_plain("sf32lb58"@);
        if k == 0 {
            reveal_strlit("air8101");
            lemma_norm_plain("air8101"@);
            assert(norm_bytes("air8101"@).len() != norm_bytes("sf32lb58"@).len());
        } else {
            assert(k == 1);
            reveal_strlit("bk72xx");
            lemma_norm_plain("bk72xx"@);
            assert(norm_bytes("bk72xx"@).len() != norm_bytes("sf32lb58"@).len());
        }
    }
    assert(guide_misses(2, norm_bytes("sf32lb58"@)));
    assert forall|k: int| 0 <= k < guide_spec(3).aliases@.len() implies norm_bytes(#[trigger] guide_spec(3).aliases@[k]@) != norm_bytes("sf32lb58"@) by {
        reveal_strlit("sf32lb58");
        lemma_norm_plain("sf32lb58"@);
        if k == 0 {
            reveal_strlit("air6208");
            lemma_norm_plain("air6208"@);
            assert(norm_bytes("air6208"@).len() != norm_bytes("sf32lb58"@).len());
        } else if k == 1 {
            reveal_strlit("air101");
            lemma_norm_plain("air101"@);
            assert(norm_bytes("air101"@).len() != norm_bytes("sf32lb58"@).len());
        } else if k == 2 {
            reveal_strlit("air103");
            lemma_norm_plain("air103"@);
            assert(norm_bytes("air103"@).len() != norm_bytes("sf32lb58"@).len());
        } else if k == 3 {
            reveal_strlit("air601");
            lemma_norm_plain("air601"@);
            assert(norm_bytes("air601"@).len() != norm_bytes("sf32lb58"@).len());
        } else {
            assert(k == 4);
            reveal_strlit("xt804");
            lemma_norm_plain("xt804"@);
            assert(norm_bytes("xt804"@).len() != norm_bytes("sf32lb58"@).len());
        }
    }
    assert(guide_misses(3, norm_bytes("sf32lb58"@)));
    lemma_found_at(4, 1, m, "sf32lb58"@);
}

proof fn lemma_finds_air8101_sf32(m: Seq<char>)
    requires
        norm_bytes(m) == norm_bytes("air8101-sf32"@),
    ensures
        guide_found(m, "sf32"@),
{
    assert forall|k: int| 0 <= k < guide_spec(0).aliases@.len() implies norm_bytes(#[trigger] guide_spec(0).aliases@[k]@) != norm_bytes("air8101-sf32"@) by {
        reveal_strlit("air8101-sf32");
        lemma_norm_plain("air8101-sf32"@);
        if k == 0 {
            reveal_strlit("air1601");
            lemma_norm_plain("air1601"@);
            assert(norm_bytes("air1601"@).len() != norm_bytes("air8101-sf32"@).len());
        } else if k == 1 {
            reveal_strlit("air1602");
            lemma_norm_plain("air1602"@);
            assert(norm_bytes("air1602"@).len() != norm_bytes("air8101-sf32"@).len());
        } else {
            assert(k == 2);
            reveal_strlit("ccm4211");
            lemma_norm_plain("ccm4211"@);
            assert(norm_bytes("ccm4211"@).len() != norm_bytes("air8101-sf32"@).len());
        }
    }
    assert(guide_misses(0, norm_bytes("air8101-sf32"@)));
    assert forall|k: int| 0 <= k < guide_spec(1).aliases@.len() implies norm_bytes(#[trigger] guide_spec(1).aliases@[k]@) != norm_bytes("air8101-sf32"@) by {
        reveal_strlit("air8101-sf32");
        lemma_norm_plain("air8101-sf32"@);
        if k == 0 {
            reveal_strlit("air8000");
            lemma_norm_plain("air8000"@);
            assert(norm_bytes("air8000"@).len() != norm_bytes("air8101-sf32"@).len());
        } else if k == 1 {
            reveal_strlit("ec7xx");
            lemma_norm_plain("ec7xx"@);
            assert(norm_bytes("ec7xx"@).len() != norm_bytes("air8101-sf32"@).len());
        } else if k == 2 {
            reveal_strlit("air780epm");
            lemma_norm_plain("air780epm"@);
            assert(norm_bytes("air780epm"@).len() != norm_bytes("air8101-sf32"@).len());
        } else if k == 3 {
            reveal_strlit("air780ehm");
            lemma_norm_plain("air780ehm"@);
            assert(norm_bytes("air780ehm"@).len() != norm_bytes("air8101-sf32"@).len());
        } else if k == 4 {
            reveal_strlit("air780ehv");
            lemma_norm_plain("air780ehv"@);
            assert(norm_bytes("air780ehv"@).len() != norm_bytes("air8101-sf32"@).len());
        } else {
            assert(k == 5);
            reveal_strlit("air780ehg");
            lemma_norm_plain("air780ehg"@);
            assert(norm_bytes("air780ehg"@).len() != norm_bytes("air8101-sf32"@).len());
        }
    }
    assert(guide_misses(1, norm_bytes("air8101-sf32"@)));
    assert forall|k: int| 0 <= k < guide_spec(2).aliases@.len() implies norm_bytes(#[trigger] guide_spec(2).aliases@[k]@) != norm_bytes("air8101-sf32"@) by {
        reveal_strlit("air8101-sf32");
        lemma_norm_plain("air8101-sf32"@);
        if k == 0 {
            reveal_strlit("air8101");
            lemma_norm_plain("air8101"@);
            assert(norm_bytes("air8101"@).len() != norm_bytes("air8101-sf32"@).len());
        } else {
            assert(k == 1);
            reveal_strlit("bk72xx");
            lemma_norm_plain("bk72xx"@);
            assert(norm_bytes("bk72xx"@).len() != norm_bytes("air8101-sf32"@).len());
        }
    }
    assert(guide_misses(2, norm_bytes("air8101-sf32"@)));
    assert forall|k: int| 0 <= k < guide_spec(3).aliases@.len() implies norm_bytes(#[trigger] guide_spec(3).aliases@[k]@) != norm_bytes("air8101-sf32"@) by {
        reveal_strlit("air8101-sf32");
        lemma_norm_plain("air8101-sf32"@);
        if k == 0 {
            reveal_strlit("air6208");
            lemma_norm_plain("air6208"@);
            assert(norm_bytes("air6208"@).len() != norm_bytes("air8101-sf32"@).len());
        } else if k == 1 {
            reveal_strlit("air101");
            lemma_norm_plain("air101"@);
            assert(norm_bytes("air101"@).len() != norm_bytes("air8101-sf32"@).len());
        } else if k == 2 {
            reveal_strlit("air103");
            lemma_norm_plain("air103"@);
            assert(norm_bytes("air103"@).len() != norm_bytes("air8101-sf32"@).len());
        } else if k == 3 {
            reveal_strlit("air601");
            lemma_norm_plain("air601"@);
            assert(norm_bytes("air601"@).len() != norm_bytes("air8101-sf32"@).len());
        } else {
            assert(k == 4);
            reveal_strlit("xt804");
            lemma_norm_plain("xt804"@);
            assert(norm_bytes("xt804"@).len() != norm_bytes("air8101-sf32"@).len());
        }
    }
    assert(guide_misses(3, norm_bytes("air8101-sf32"@)));
    lemma_found_at(4, 2, m, "air8101-sf32"@);
}

/// Every model name of a module family finds that family's guide, however
/// it is spelled as far as guides compare names (surrounding blanks, ASCII
/// case, '_' for '-'): Air1601/Air1602/CCM4211; the EC7xx modules (Air8000,
/// Air780EPM/EHM/EHV/EHG); Air8101 and BK72XX; the XT804 modules (Air6208,
/// Air101, Air103, Air601); SF32LB58.
pub proof fn lemma_model_names_find_their_guide(m: Seq<char>)
    ensures
        (norm_bytes(m) == norm_bytes("air1601"@) || norm_bytes(m) == norm_bytes("air1602"@) || norm_bytes(m) == norm_bytes("ccm4211"@)) ==> guide_found(m, "air1601"@),
        (norm_bytes(m) == norm_bytes("air8000"@) || norm_bytes(m) == norm_bytes("ec7xx"@) || norm_bytes(m) == norm_bytes("air780epm"@) || norm_bytes(m) == norm_bytes("air780ehm"@) || norm_bytes(m) == norm_bytes("air780ehv"@) || norm_bytes(m) == norm_bytes("air780ehg"@)) ==> guide_found(m, "air8000"@),
        (norm_bytes(m) == norm_bytes("air8101"@) || norm_bytes(m) == norm_bytes("bk72xx"@)) ==> guide_found(m, "air8101"@),
        (norm_bytes(m) == norm_bytes("air6208"@) || norm_bytes(m) == norm_bytes("air101"@) || norm_bytes(m) == norm_bytes("air103"@) || norm_bytes(m) == norm_bytes("air601"@) || norm_bytes(m) == norm_bytes("xt804"@)) ==> guide_found(m, "air6208"@),
        (norm_bytes(m) == norm_bytes("sf32"@) || norm_bytes(m) == norm_bytes("sf32lb58"@) || norm_bytes(m) == norm_bytes("air8101-sf32"@)) ==> guide_found(m, "sf32"@),
{
    if norm_bytes(m) == norm_bytes("air1601"@) {
        lemma_finds_air1601(m);
    }
    if norm_bytes(m) == norm_bytes("air1602"@) {
        lemma_finds_air1602(m);
    }
    if norm_bytes(m) == norm_bytes("ccm4211"@) {
        lemma_finds_ccm4211(m);
    }
    if norm_bytes(m) == norm_bytes("air8000"@) {
        lemma_finds_air8000(m);
    }
    if norm_bytes(m) == norm_bytes("ec7xx"@) {
        lemma_finds_ec7xx(m);
    }
    if norm_bytes(m) == norm_bytes("air780epm"@) {
        lemma_finds_air780epm(m);
    }
    if norm_bytes(m) == norm_bytes("air780ehm"@) {
        lemma_finds_air780ehm(m);
    }
    if norm_bytes(m) == norm_bytes("air780ehv"@) {
        lemma_finds_air780ehv(m);
    }
    if norm_bytes(m) == norm_bytes("air780ehg"@) {
        lemma_finds_air780ehg(m);
    }
    if norm_bytes(m) == norm_bytes("air8101"@) {
        lemma_finds_air8101(m);
    }
    if norm_bytes(m) == norm_bytes("bk72xx"@) {
        lemma_finds_bk72xx(m);
    }
    if norm_bytes(m) == norm_bytes("air6208"@) {
        lemma_finds_air6208(m);
    }
    if norm_bytes(m) == norm_bytes("air101"@) {
        lemma_finds_air101(m);
    }
    if norm_bytes(m) == norm_bytes("air103"@) {
        lemma_finds_air103(m);
    }
    if norm_bytes(m) == norm_bytes("air601"@) {
        lemma_finds_air601(m);
    }
    if norm_bytes(m) == norm_bytes("xt804"@) {
        lemma_finds_xt804(m);
    }
    if norm_bytes(m) == norm_bytes("sf32"@) {
        lemma_finds_sf32(m);
    }
    if norm_bytes(m) == norm_bytes("sf32lb58"@) {
        lemma_finds_sf32lb58(m);
    }
    if norm_bytes(m) == norm_bytes("air8101-sf32"@) {
        lemma_finds_air8101_sf32(m);
    }
}

} // verus!
