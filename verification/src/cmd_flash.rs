//! Decisions of the flash commands: which chip families and partition
//! operations are supported, the script image size check, and the keyword
//! verdict of a flash test over the captured boot log.

use vstd::prelude::*;
use vstd::string::{StrSliceExecFns, StringExecFns};
use crate::bytes::{str_contains, text_contains};
use crate::chip::ChipFamily;

verus! {

/// The script image does not fit its partition.
#[derive(Debug, Clone, Copy, PartialEq, Eq, Structural)]
pub struct ScriptTooLarge {
    pub image_len: usize,
    pub partition_size: usize,
    /// Bytes beyond the partition.
    pub overflow: usize,
}

/// Checks that a script image fits its partition.
pub fn check_script_size(image_len: usize, partition_size: usize) -> (r: Result<(), ScriptTooLarge>)
    ensures
        match r {
            Ok(()) => image_len <= partition_size,
            Err(e) => image_len > partition_size && e == (ScriptTooLarge {
                image_len,
                partition_size,
                overflow: (image_len - partition_size) as usize,
            }),
        },
{
    if image_len > partition_size {
        return Err(ScriptTooLarge { image_len, partition_size, overflow: image_len - partition_size });
    }
    Ok(())
}

/// Were script folders given (a non-empty list)?
pub fn script_folders_present(folders: Option<&[String]>) -> (r: bool)
    ensures
        r == match folders {
            Some(d) => d@.len() > 0,
            None => false,
        },
{
    match folders {
        Some(d) => d.len() > 0,
        None => false,
    }
}

/// The families a full flash supports.
pub fn family_flash_supported(family: ChipFamily) -> (r: bool)
    ensures
        r == (family == ChipFamily::Bk72xx || family == ChipFamily::Xt804 || family == ChipFamily::Ccm4211
            || family == ChipFamily::Ec718 || family == ChipFamily::Sf32lb58),
{
    match family {
        ChipFamily::Bk72xx | ChipFamily::Xt804 | ChipFamily::Ccm4211 | ChipFamily::Ec718 | ChipFamily::Sf32lb58 => true,
        _ => false,
    }
}

/// A partition operation of `flash`.
#[derive(Debug, Clone, Copy, PartialEq, Eq, Structural)]
pub enum PartitionOp {
    Script,
    ClearFs,
    FlashFs,
    ClearKv,
}

/// Why a partition operation is refused.
#[derive(Debug, Clone, Copy, PartialEq, Eq, Structural)]
pub enum PartitionOpError {
    /// EC718 only writes the script partition.
    Ec718ScriptOnly,
    /// SF32LB58 cannot clear or write the file system.
    Sf32FsUnsupported(PartitionOp),
    /// The family has no partition operations.
    UnsupportedChip(ChipFamily),
}

/// Which partition operations each family supports (CCM4211 has no
/// file-system write).
pub fn partition_op_supported(family: ChipFamily, op: PartitionOp) -> (r: Result<(), PartitionOpError>)
    requires
        !(family == ChipFamily::Ccm4211 && op == PartitionOp::FlashFs),
    ensures
        r == match family {
            ChipFamily::Bk72xx | ChipFamily::Xt804 | ChipFamily::Ccm4211 => Ok(()),
            ChipFamily::Ec718 => if op == PartitionOp::Script { Ok(()) } else { Err(PartitionOpError::Ec718ScriptOnly) },
            ChipFamily::Sf32lb58 => if op == PartitionOp::Script || op == PartitionOp::ClearKv {
                Ok(())
            } else {
                Err(PartitionOpError::Sf32FsUnsupported(op))
            },
            _ => Err(PartitionOpError::UnsupportedChip(family)),
        },
{
    match family {
        ChipFamily::Bk72xx | ChipFamily::Xt804 | ChipFamily::Ccm4211 => Ok(()),
        ChipFamily::Ec718 => if op == PartitionOp::Script {
            Ok(())
        } else {
            Err(PartitionOpError::Ec718ScriptOnly)
        },
        ChipFamily::Sf32lb58 => if op == PartitionOp::Script || op == PartitionOp::ClearKv {
            Ok(())
        } else {
            Err(PartitionOpError::Sf32FsUnsupported(op))
        },
        _ => Err(PartitionOpError::UnsupportedChip(family)),
    }
}

/// Some line of the log contains `kw`.
pub open spec fn found_in(lines: Seq<String>, kw: Seq<char>) -> bool {
    exists|i: int| 0 <= i < lines.len() && text_contains(#[trigger] lines[i]@, kw)
}

/// Does some line contain `kw`?
pub fn any_line_contains(lines: &[String], kw: &str) -> (r: bool)
    ensures
        r == found_in(lines@, kw@),
{
    let mut i: usize = 0;
    while i < lines.len()
        invariant
            i <= lines@.len(),
            forall|j: int| 0 <= j < i ==> !text_contains(#[trigger] lines@[j]@, kw@),
        decreases lines@.len() - i,
    {
        if str_contains(lines[i].as_str(), kw) {
            return true;
        }
        i = i + 1;
    }
    false
}

/// Keyword hits as plain values.
pub open spec fn hits_view(v: Seq<(String, bool)>) -> Seq<(Seq<char>, bool)> {
    v.map_values(|p: (String, bool)| (p.0@, p.1))
}

/// Each keyword with whether some line contains it.
pub open spec fn keyword_hits(lines: Seq<String>, kws: Seq<String>) -> Seq<(Seq<char>, bool)> {
    kws.map_values(|k: String| (k@, found_in(lines, k@)))
}

/// The keywords no line contains, in order.
pub open spec fn missing_of(lines: Seq<String>, kws: Seq<String>) -> Seq<Seq<char>>
    decreases kws.len(),
{
    if kws.len() == 0 {
        seq![]
    } else if found_in(lines, kws.last()@) {
        missing_of(lines, kws.drop_last())
    } else {
        missing_of(lines, kws.drop_last()).push(kws.last()@)
    }
}

/// The keywords found, in order.
pub open spec fn found_of(lines: Seq<String>, kws: Seq<String>) -> Seq<Seq<char>>
    decreases kws.len(),
{
    if kws.len() == 0 {
        seq![]
    } else if found_in(lines, kws.last()@) {
        found_of(lines, kws.drop_last()).push(kws.last()@)
    } else {
        found_of(lines, kws.drop_last())
    }
}

/// The views of a list of strings.
pub open spec fn string_views(v: Seq<String>) -> Seq<Seq<char>> {
    v.map_values(|s: String| s@)
}

/// Which expected keywords the log shows.
#[derive(Debug, Clone, PartialEq, Eq)]
pub struct KeywordEvaluation {
    /// Each keyword with whether it was found.
    pub results: Vec<(String, bool)>,
    /// The keywords not found, in order.
    pub missing_keywords: Vec<String>,
    /// Every keyword was found.
    pub all_passed: bool,
}

/// Each keyword with whether some line contains it.
pub fn evaluate_keyword_hits(all_lines: &[String], keywords: &[String]) -> (r: Vec<(String, bool)>)
    ensures
        hits_view(r@) == keyword_hits(all_lines@, keywords@),
{
    let mut r: Vec<(String, bool)> = Vec::new();
    let mut i: usize = 0;
    while i < keywords.len()
        invariant
            i <= keywords@.len(),
            hits_view(r@) == keyword_hits(all_lines@, keywords@.subrange(0, i as int)),
        decreases keywords@.len() - i,
    {
        let found = any_line_contains(all_lines, keywords[i].as_str());
        let kw = keywords[i].clone();
        let ghost before = r@;
        r.push((kw, found));
        proof {
            let pre = keywords@.subrange(0, i as int + 1);
            assert(hits_view(before).len() == i);
            assert forall|j: int| 0 <= j < i + 1 implies #[trigger] hits_view(r@)[j] == keyword_hits(all_lines@, pre)[j] by {
                if j < i {
                    assert(hits_view(r@)[j] == hits_view(before)[j]);
                    assert(keyword_hits(all_lines@, keywords@.subrange(0, i as int))[j] == keyword_hits(all_lines@, pre)[j]);
                }
            }
            assert(hits_view(r@) =~= keyword_hits(all_lines@, pre));
        }
        i = i + 1;
    }
    assert(keywords@.subrange(0, keywords@.len() as int) =~= keywords@);
    r
}

/// Checks every expected keyword against the log.
pub fn evaluate_keyword_results(all_lines: &[String], keywords: &[String]) -> (r: KeywordEvaluation)
    ensures
        hits_view(r.results@) == keyword_hits(all_lines@, keywords@),
        string_views(r.missing_keywords@) == missing_of(all_lines@, keywords@),
        r.all_passed == (missing_of(all_lines@, keywords@).len() == 0),
        r.all_passed == forall|i: int| 0 <= i < keywords@.len() ==> found_in(all_lines@, #[trigger] keywords@[i]@),
{
    let mut results: Vec<(String, bool)> = Vec::new();
    let mut missing: Vec<String> = Vec::new();
    let mut i: usize = 0;
    while i < keywords.len()
        invariant
            i <= keywords@.len(),
            hits_view(results@) == keyword_hits(all_lines@, keywords@.subrange(0, i as int)),
            string_views(missing@) == missing_of(all_lines@, keywords@.subrange(0, i as int)),
            (missing@.len() == 0) == forall|j: int| 0 <= j < i ==> found_in(all_lines@, #[trigger] keywords@[j]@),
        decreases keywords@.len() - i,
    {
        let ghost pre = keywords@.subrange(0, i as int + 1);
        assert(pre.drop_last() =~= keywords@.subrange(0, i as int));
        assert(pre.last() == keywords@[i as int]);
        let found = any_line_contains(all_lines, keywords[i].as_str());
        let kw = keywords[i].clone();
        let ghost before_r = results@;
        results.push((kw, found));
        proof {
            assert(hits_view(before_r).len() == i);
            assert forall|j: int| 0 <= j < i + 1 implies #[trigger] hits_view(results@)[j] == keyword_hits(all_lines@, pre)[j] by {
                if j < i {
                    assert(hits_view(results@)[j] == hits_view(before_r)[j]);
                    assert(keyword_hits(all_lines@, keywords@.subrange(0, i as int))[j] == keyword_hits(all_lines@, pre)[j]);
                }
            }
            assert(hits_view(results@) =~= keyword_hits(all_lines@, pre));
        }
        if !found {
            let kw2 = keywords[i].clone();
            let ghost before = missing@;
            missing.push(kw2);
            assert(string_views(missing@) =~= string_views(before).push(keywords@[i as int]@));
        }
        i = i + 1;
    }
    assert(keywords@.subrange(0, keywords@.len() as int) =~= keywords@);
    let all_passed = missing.len() == 0;
    KeywordEvaluation { results, missing_keywords: missing, all_passed }
}

/// The verdict of a flash test.
#[derive(Debug, Clone, PartialEq, Eq)]
pub struct FlashTestOutcome {
    /// The expected keywords.
    pub pass: KeywordEvaluation,
    /// Each fail keyword with whether it was found.
    pub fail_keyword_results: Vec<(String, bool)>,
    /// The fail keywords found, in order.
    pub matched_fail_keywords: Vec<String>,
    /// Some fail keyword was found.
    pub fast_failed: bool,
    /// Every expected keyword was found and no fail keyword.
    pub all_passed: bool,
}

/// Judges a flash test: it passes when every expected keyword occurs and
/// no fail keyword does; any fail keyword fails it at once.
pub fn evaluate_flash_test_outcome(all_lines: &[String], pass_keywords: &[String], fail_keywords: &[String]) -> (r:
    FlashTestOutcome)
    ensures
        hits_view(r.pass.results@) == keyword_hits(all_lines@, pass_keywords@),
        string_views(r.pass.missing_keywords@) == missing_of(all_lines@, pass_keywords@),
        r.pass.all_passed == (missing_of(all_lines@, pass_keywords@).len() == 0),
        hits_view(r.fail_keyword_results@) == keyword_hits(all_lines@, fail_keywords@),
        string_views(r.matched_fail_keywords@) == found_of(all_lines@, fail_keywords@),
        r.fast_failed == (found_of(all_lines@, fail_keywords@).len() > 0),
        r.all_passed == (r.pass.all_passed && !r.fast_failed),
{
    let pass = evaluate_keyword_results(all_lines, pass_keywords);
    let fail_keyword_results = evaluate_keyword_hits(all_lines, fail_keywords);
    let mut matched: Vec<String> = Vec::new();
    let mut i: usize = 0;
    assert(fail_keyword_results@.len() == hits_view(fail_keyword_results@).len());
    while i < fail_keywords.len()
        invariant
            i <= fail_keywords@.len(),
            fail_keyword_results@.len() == fail_keywords@.len(),
            hits_view(fail_keyword_results@) == keyword_hits(all_lines@, fail_keywords@),
            string_views(matched@) == found_of(all_lines@, fail_keywords@.subrange(0, i as int)),
        decreases fail_keywords@.len() - i,
    {
        let ghost pre = fail_keywords@.subrange(0, i as int + 1);
        assert(pre.drop_last() =~= fail_keywords@.subrange(0, i as int));
        assert(pre.last() == fail_keywords@[i as int]);
        assert(hits_view(fail_keyword_results@)[i as int] == (fail_keywords@[i as int]@, found_in(all_lines@, fail_keywords@[i as int]@)));
        if fail_keyword_results[i].1 {
            let kw = fail_keyword_results[i].0.clone();
            let ghost before = matched@;
            matched.push(kw);
            assert(string_views(matched@) =~= string_views(before).push(fail_keywords@[i as int]@));
        }
        i = i + 1;
    }
    assert(fail_keywords@.subrange(0, fail_keywords@.len() as int) =~= fail_keywords@);
    let fast_failed = matched.len() > 0;
    let all_passed = pass.all_passed && !fast_failed;
    FlashTestOutcome { pass, fail_keyword_results, matched_fail_keywords: matched, fast_failed, all_passed }
}

/// Version-control directories skipped when collecting script files.
pub fn is_vcs_dir(name: &str) -> (r: bool)
    ensures
        r == (crate::device::eq_ignore_ascii_case(vstd::utf8::encode_utf8(name@), vstd::utf8::encode_utf8(".git"@))
            || crate::device::eq_ignore_ascii_case(vstd::utf8::encode_utf8(name@), vstd::utf8::encode_utf8(".svn"@))
            || crate::device::eq_ignore_ascii_case(vstd::utf8::encode_utf8(name@), vstd::utf8::encode_utf8(".hg"@))),
{
    let b = name.as_bytes();
    crate::device::bytes_eq_ignore_ascii_case(b, ".git".as_bytes()) || crate::device::bytes_eq_ignore_ascii_case(
        b,
        ".svn".as_bytes(),
    ) || crate::device::bytes_eq_ignore_ascii_case(b, ".hg".as_bytes())
}

/// The families a flash test can flash before it captures the boot log.
pub fn flash_test_supported(family: ChipFamily) -> (r: bool)
    ensures
        r == (family == ChipFamily::Bk72xx || family == ChipFamily::Xt804 || family == ChipFamily::Ccm4211
            || family == ChipFamily::Ec718),
{
    match family {
        ChipFamily::Bk72xx | ChipFamily::Xt804 | ChipFamily::Ccm4211 | ChipFamily::Ec718 => true,
        _ => false,
    }
}

/// The pass keywords of a flash test: those given, else `LuatOS@`.
pub fn flash_test_keywords(given: Vec<String>) -> (r: Vec<String>)
    ensures
        string_views(r@) == if given@.len() == 0 {
            seq!["LuatOS@"@]
        } else {
            string_views(given@)
        },
{
    if given.len() == 0 {
        let mut r: Vec<String> = Vec::new();
        r.push("LuatOS@".to_owned());
        assert(string_views(r@) =~= seq!["LuatOS@"@]);
        r
    } else {
        given
    }
}

/// `l` without all its trailing carriage returns.
pub open spec fn trim_end_cr(l: Seq<char>) -> Seq<char>
    decreases l.len(),
{
    if l.len() > 0 && l.last() == '\r' {
        trim_end_cr(l.drop_last())
    } else {
        l
    }
}

/// The boot-log lines that text `s` completes after the partial line `cur`,
/// and the partial line left at its end: each '\n' ends a line, which is
/// kept without its trailing carriage returns, unless nothing is left of it.
pub open spec fn log_lines_acc(s: Seq<char>, cur: Seq<char>) -> (Seq<Seq<char>>, Seq<char>)
    decreases s.len(),
{
    if s.len() == 0 {
        (seq![], cur)
    } else if s[0] == '\n' {
        let t = trim_end_cr(cur);
        let rest = log_lines_acc(s.drop_first(), seq![]);
        (if t.len() > 0 { seq![t] + rest.0 } else { rest.0 }, rest.1)
    } else {
        log_lines_acc(s.drop_first(), cur.push(s[0]))
    }
}

/// Lines completed by a piece of a text boot log, and the partial line left.
pub struct LogLines {
    pub lines: Vec<String>,
    pub partial: String,
}

/// `l[..end]` without its trailing carriage returns, as a new string.
fn trimmed_cr_prefix(l: &str, end: usize) -> (r: String)
    requires
        end <= l@.len(),
    ensures
        r@ == trim_end_cr(l@.subrange(0, end as int)),
{
    let mut j = end;
    while j > 0 && l.get_char(j - 1) == '\r'
        invariant
            j <= end <= l@.len(),
            trim_end_cr(l@.subrange(0, end as int)) == trim_end_cr(l@.subrange(0, j as int)),
        decreases j,
    {
        assert(l@.subrange(0, j as int).drop_last() =~= l@.subrange(0, j - 1));
        j = j - 1;
    }
    l.substring_char(0, j).to_owned()
}

/// Feeds a piece of a text boot log after the partial line `partial`: the
/// lines it completes, trimmed of trailing carriage returns and without the
/// empty ones, and the partial line left.
pub fn assemble_log_lines(partial: &str, text: &str) -> (r: LogLines)
    ensures
        string_views(r.lines@) == log_lines_acc(text@, partial@).0,
        r.partial@ == log_lines_acc(text@, partial@).1,
{
    let n = text.unicode_len();
    let mut lines: Vec<String> = Vec::new();
    let mut cur: String = partial.to_owned();
    let mut start: usize = 0;
    let mut i: usize = 0;
    assert(text@.subrange(0, n as int) =~= text@);
    assert(cur@ + text@.subrange(0, 0) =~= partial@);
    while i < n
        invariant
            n == text@.len(),
            start <= i <= n,
            ({
                let tail = log_lines_acc(text@.subrange(i as int, n as int), cur@ + text@.subrange(start as int, i as int));
                &&& string_views(lines@) + tail.0 == log_lines_acc(text@, partial@).0
                &&& tail.1 == log_lines_acc(text@, partial@).1
            }),
        decreases n - i,
    {
        let c = text.get_char(i);
        let ghost rest = text@.subrange(i as int, n as int);
        let ghost cl = cur@ + text@.subrange(start as int, i as int);
        assert(rest[0] == c);
        assert(rest.drop_first() =~= text@.subrange(i + 1, n as int));
        if c == '\n' {
            let mut line = cur;
            line.append(text.substring_char(start, i));
            assert(line@ =~= cl);
            let len = line.as_str().unicode_len();
            assert(line@.subrange(0, len as int) =~= line@);
            let t = trimmed_cr_prefix(line.as_str(), len);
            let ghost before = lines@;
            if t.as_str().unicode_len() > 0 {
                lines.push(t);
                assert(string_views(lines@) =~= string_views(before).push(trim_end_cr(cl)));
            }
            cur = String::new();
            start = i + 1;
            assert(cur@ + text@.subrange(start as int, start as int) =~= Seq::<char>::empty());
        } else {
            assert(cl.push(c) =~= cur@ + text@.subrange(start as int, i + 1));
        }
        i = i + 1;
    }
    assert(text@.subrange(n as int, n as int) =~= Seq::<char>::empty());
    let mut left = cur;
    left.append(text.substring_char(start, n));
    assert(string_views(lines@) + Seq::<Seq<char>>::empty() =~= string_views(lines@));
    LogLines { lines, partial: left }
}

/// The partial line left when the capture ends: kept, trimmed of trailing
/// carriage returns, if anything had been read of it.
pub fn flush_log_line(partial: &str) -> (r: Option<String>)
    ensures
        match r {
            Some(l) => partial@.len() > 0 && l@ == trim_end_cr(partial@),
            None => partial@.len() == 0,
        },
{
    let n = partial.unicode_len();
    if n == 0 {
        None
    } else {
        assert(partial@.subrange(0, n as int) =~= partial@);
        Some(trimmed_cr_prefix(partial, n))
    }
}

} // verus!
