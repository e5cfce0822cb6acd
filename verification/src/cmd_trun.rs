//! Test-run decisions: phases, verdicts and their exit codes, and matching
//! keywords against decoded log entries.

use vstd::prelude::*;
use crate::bytes::{str_contains, text_contains};
use vstd::string::StringExecFns;

verus! {

/// A phase of a test run.
#[derive(Debug, Clone, Copy, PartialEq, Eq, Structural)]
pub enum Phase {
    Build,
    Ctx,
    Flash,
    LogCapture,
    Finalize,
}

impl Phase {
    /// The phase's name in events.
    pub fn as_str(self) -> (r: &'static str)
        ensures
            r == match self {
                Phase::Build => "build",
                Phase::Ctx => "ctx",
                Phase::Flash => "flash",
                Phase::LogCapture => "log_capture",
                Phase::Finalize => "finalize",
            },
    {
        match self {
            Phase::Build => "build",
            Phase::Ctx => "ctx",
            Phase::Flash => "flash",
            Phase::LogCapture => "log_capture",
            Phase::Finalize => "finalize",
        }
    }
}

/// The result of a test run.
#[derive(Debug, Clone, Copy, PartialEq, Eq, Structural)]
pub enum Verdict {
    Pass,
    Fail,
    Indeterminate,
    Error,
}

/// The process status that reports a verdict.
pub open spec fn verdict_code(v: Verdict) -> i32 {
    match v {
        Verdict::Pass => 0,
        Verdict::Fail => 1,
        Verdict::Indeterminate => 2,
        Verdict::Error => 3,
    }
}

impl Verdict {
    /// The verdict's name.
    pub fn as_str(&self) -> (r: &'static str)
        ensures
            r == match *self {
                Verdict::Pass => "pass",
                Verdict::Fail => "fail",
                Verdict::Indeterminate => "indeterminate",
                Verdict::Error => "error",
            },
    {
        match self {
            Verdict::Pass => "pass",
            Verdict::Fail => "fail",
            Verdict::Indeterminate => "indeterminate",
            Verdict::Error => "error",
        }
    }

    /// The process exit code of the verdict.
    pub fn exit_code(&self) -> (r: i32)
        ensures
            r == verdict_code(*self),
    {
        match self {
            Verdict::Pass => 0,
            Verdict::Fail => 1,
            Verdict::Indeterminate => 2,
            Verdict::Error => 3,
        }
    }
}

/// A run passes when every keyword was found and no fail keyword was.
pub fn derive_verdict(all_passed: bool, fast_failed: bool) -> (r: Verdict)
    ensures
        r == if all_passed && !fast_failed { Verdict::Pass } else { Verdict::Fail },
{
    if fast_failed {
        return Verdict::Fail;
    }
    if !all_passed {
        return Verdict::Fail;
    }
    Verdict::Pass
}

/// Which fields of a log entry a keyword is matched against.
#[derive(Debug, Clone, Copy, PartialEq, Eq, Structural)]
pub enum MatchField {
    /// The message only.
    Message,
    /// The raw frame text.
    Raw,
    /// Any of message, module and level.
    Any,
    /// All of message, module and level.
    All,
}

/// A decoded log entry, as keyword matching reads it.
#[derive(Debug, Clone, PartialEq, Eq)]
pub struct LogEntry {
    /// The level's short name (such as "I").
    pub level: String,
    pub module: Option<String>,
    pub message: String,
    /// The raw frame text, header included.
    pub raw: String,
}

/// The module text of an entry (empty when it has none).
pub open spec fn module_text(e: LogEntry) -> Seq<char> {
    match e.module {
        Some(m) => m@,
        None => Seq::empty(),
    }
}

/// Does `e` match `kw` in the chosen fields?
pub open spec fn entry_matches(e: LogEntry, kw: Seq<char>, field: MatchField) -> bool {
    match field {
        MatchField::Raw => text_contains(e.raw@, kw),
        MatchField::Message => text_contains(e.message@, kw),
        MatchField::Any => text_contains(e.message@, kw) || text_contains(module_text(e), kw) || text_contains(
            e.level@,
            kw,
        ),
        MatchField::All => text_contains(e.message@, kw) && text_contains(module_text(e), kw) && text_contains(
            e.level@,
            kw,
        ),
    }
}

fn entry_match(e: &LogEntry, keyword: &str, field: MatchField) -> (r: bool)
    ensures
        r == entry_matches(*e, keyword@, field),
{
    let module: &str = match &e.module {
        Some(m) => m.as_str(),
        None => "",
    };
    proof {
        reveal_strlit("");
    }
    match field {
        MatchField::Raw => str_contains(e.raw.as_str(), keyword),
        MatchField::Message => str_contains(e.message.as_str(), keyword),
        MatchField::Any => str_contains(e.message.as_str(), keyword) || str_contains(module, keyword) || str_contains(
            e.level.as_str(),
            keyword,
        ),
        MatchField::All => str_contains(e.message.as_str(), keyword) && str_contains(module, keyword) && str_contains(
            e.level.as_str(),
            keyword,
        ),
    }
}

/// Does some entry match `keyword` in the chosen fields?
pub fn match_keyword(entries: &[LogEntry], keyword: &str, field: MatchField) -> (r: bool)
    ensures
        r == exists|i: int| 0 <= i < entries@.len() && entry_matches(#[trigger] entries@[i], keyword@, field),
{
    let mut i: usize = 0;
    while i < entries.len()
        invariant
            i <= entries@.len(),
            forall|j: int| 0 <= j < i ==> !entry_matches(#[trigger] entries@[j], keyword@, field),
        decreases entries@.len() - i,
    {
        if entry_match(&entries[i], keyword, field) {
            return true;
        }
        i = i + 1;
    }
    false
}

/// Whether one keyword was found in the log.
#[derive(Debug, Clone, PartialEq, Eq)]
pub struct KeywordHit {
    pub keyword: String,
    pub found: bool,
}

/// Was `kw` found in some entry?
pub open spec fn keyword_found(entries: Seq<LogEntry>, kw: Seq<char>, field: MatchField) -> bool {
    exists|i: int| 0 <= i < entries.len() && entry_matches(#[trigger] entries[i], kw, field)
}

/// `hits` reports each keyword of `keywords`, in order, with whether it was
/// found.
pub open spec fn hits_report(hits: Seq<KeywordHit>, keywords: Seq<String>, entries: Seq<LogEntry>, field: MatchField) -> bool {
    &&& hits.len() == keywords.len()
    &&& forall|i: int|
        0 <= i < hits.len() ==> (#[trigger] hits[i]).keyword == keywords[i] && hits[i].found == keyword_found(
            entries,
            keywords[i]@,
            field,
        )
}

/// The keywords of the hits that were found, in order.
pub open spec fn found_keywords(hits: Seq<KeywordHit>) -> Seq<String>
    decreases hits.len(),
{
    if hits.len() == 0 {
        seq![]
    } else if hits.last().found {
        found_keywords(hits.drop_last()).push(hits.last().keyword)
    } else {
        found_keywords(hits.drop_last())
    }
}

/// Every hit was found.
pub open spec fn all_found(hits: Seq<KeywordHit>) -> bool {
    forall|i: int| 0 <= i < hits.len() ==> (#[trigger] hits[i]).found
}

/// Looks each keyword up in the log.
pub fn keyword_hits(entries: &[LogEntry], keywords: &[String], field: MatchField) -> (r: Vec<KeywordHit>)
    ensures
        hits_report(r@, keywords@, entries@, field),
{
    let mut r: Vec<KeywordHit> = Vec::new();
    let mut i: usize = 0;
    while i < keywords.len()
        invariant
            i <= keywords@.len(),
            r@.len() == i,
            forall|j: int|
                0 <= j < i ==> (#[trigger] r@[j]).keyword == keywords@[j] && r@[j].found == keyword_found(
                    entries@,
                    keywords@[j]@,
                    field,
                ),
        decreases keywords@.len() - i,
    {
        let found = match_keyword(entries, keywords[i].as_str(), field);
        r.push(KeywordHit { keyword: keywords[i].clone(), found });
        i = i + 1;
    }
    r
}

/// The keywords of the hits that were found.
pub fn matched_keywords(hits: &[KeywordHit]) -> (r: Vec<String>)
    ensures
        r@ == found_keywords(hits@),
{
    let mut r: Vec<String> = Vec::new();
    let mut i: usize = 0;
    assert(hits@.take(0) =~= Seq::<KeywordHit>::empty());
    while i < hits.len()
        invariant
            i <= hits@.len(),
            r@ == found_keywords(hits@.take(i as int)),
        decreases hits@.len() - i,
    {
        assert(hits@.take(i + 1).drop_last() =~= hits@.take(i as int));
        if hits[i].found {
            r.push(hits[i].keyword.clone());
        }
        i = i + 1;
    }
    assert(hits@.take(hits@.len() as int) =~= hits@);
    r
}

/// What the keyword check of a run concluded.
#[derive(Debug, Clone, PartialEq, Eq)]
pub struct KeywordVerdict {
    pub verdict: Verdict,
    /// The pass keywords, each with whether it was found.
    pub keywords: Vec<KeywordHit>,
    /// The fail keywords, each with whether it was found.
    pub fail_keywords: Vec<KeywordHit>,
    /// The fail keywords that were found.
    pub matched_fail_keywords: Vec<String>,
    /// Some fail keyword was found.
    pub fast_failed: bool,
}

/// The verdict of a run over its log: a flash-only run passes with nothing
/// checked; otherwise it passes when every keyword was found and no fail
/// keyword was.
pub fn trun_keyword_verdict(
    entries: &[LogEntry],
    keywords: &[String],
    fail_keywords: &[String],
    field: MatchField,
    flash_only: bool,
) -> (r: KeywordVerdict)
    ensures
        flash_only ==> r.verdict == Verdict::Pass && r.keywords@.len() == 0 && r.fail_keywords@.len() == 0
            && r.matched_fail_keywords@.len() == 0 && !r.fast_failed,
        !flash_only ==> {
            &&& hits_report(r.keywords@, keywords@, entries@, field)
            &&& hits_report(r.fail_keywords@, fail_keywords@, entries@, field)
            &&& r.matched_fail_keywords@ == found_keywords(r.fail_keywords@)
            &&& r.fast_failed == (r.matched_fail_keywords@.len() > 0)
            &&& r.verdict == if all_found(r.keywords@) && !r.fast_failed { Verdict::Pass } else { Verdict::Fail }
        },
{
    if flash_only {
        return KeywordVerdict {
            verdict: Verdict::Pass,
            keywords: Vec::new(),
            fail_keywords: Vec::new(),
            matched_fail_keywords: Vec::new(),
            fast_failed: false,
        };
    }
    let hits = keyword_hits(entries, keywords, field);
    let fail_hits = keyword_hits(entries, fail_keywords, field);
    let matched = matched_keywords(&fail_hits);
    let fast_failed = matched.len() > 0;
    let mut all = true;
    let mut i: usize = 0;
    while i < hits.len()
        invariant
            i <= hits@.len(),
            all == forall|j: int| 0 <= j < i ==> (#[trigger] hits@[j]).found,
        decreases hits@.len() - i,
    {
        all = all && hits[i].found;
        i = i + 1;
    }
    let verdict = derive_verdict(all && !fast_failed, fast_failed);
    KeywordVerdict { verdict, keywords: hits, fail_keywords: fail_hits, matched_fail_keywords: matched, fast_failed }
}

/// Paths of what a run produced.
#[derive(Debug, Clone, PartialEq, Eq)]
pub struct ArtifactSummary {
    pub script_bin: Option<String>,
    pub combined_soc: Option<String>,
    pub keep_dir: Option<String>,
}

/// One finding of the smart log analysis.
#[derive(Debug, Clone, PartialEq, Eq)]
pub struct SmartDiagnosticEntry {
    pub level: String,
    pub category: String,
    pub message: String,
    pub count: u32,
}

/// The final report of a test run.
#[derive(Debug, Clone, PartialEq, Eq)]
pub struct TrunOutcome {
    pub verdict: Verdict,
    /// `<category>/<name>`.
    pub testcase: String,
    pub chip: String,
    pub soc: String,
    pub port: String,
    pub test_id: String,
    pub runner_id: String,
    pub runner_mode: String,
    /// "flash_full" or "flash_script".
    pub build_path: String,
    pub keywords: Vec<KeywordHit>,
    pub fail_keywords: Vec<KeywordHit>,
    pub matched_fail_keywords: Vec<String>,
    pub fast_failed: bool,
    /// Number of log entries captured.
    pub boot_log_count: usize,
    pub smart_diagnostics: Vec<SmartDiagnosticEntry>,
    pub artifacts: ArtifactSummary,
    /// Milliseconds per phase, in the order the phases ran.
    pub phase_durations_ms: Vec<(String, u64)>,
    pub elapsed_ms: u64,
}

/// The where and how of a run, as its report names them.
pub struct TrunRunInfo {
    pub category: String,
    pub name: String,
    pub chip: String,
    pub soc: String,
    pub port: String,
    pub test_id: String,
    /// The whole firmware was flashed, not only the script partition.
    pub full: bool,
}

/// Assembles the report of a command-line run: the testcase is named by
/// its category and name, the runner is the command line ("cli-debug", no
/// runner id), and the build path tells a full flash from a script flash.
pub fn trun_outcome(
    info: TrunRunInfo,
    kv: KeywordVerdict,
    boot_log_count: usize,
    smart_diagnostics: Vec<SmartDiagnosticEntry>,
    artifacts: ArtifactSummary,
    phase_durations_ms: Vec<(String, u64)>,
    elapsed_ms: u64,
) -> (r: TrunOutcome)
    ensures
        r.testcase@ == info.category@ + "/"@ + info.name@,
        r.runner_id@ == Seq::<char>::empty(),
        r.runner_mode@ == "cli-debug"@,
        r.build_path@ == if info.full { "flash_full"@ } else { "flash_script"@ },
        r.verdict == kv.verdict,
        r.keywords == kv.keywords,
        r.fail_keywords == kv.fail_keywords,
        r.matched_fail_keywords == kv.matched_fail_keywords,
        r.fast_failed == kv.fast_failed,
        r.chip == info.chip,
        r.soc == info.soc,
        r.port == info.port,
        r.test_id == info.test_id,
        r.boot_log_count == boot_log_count,
        r.smart_diagnostics == smart_diagnostics,
        r.artifacts == artifacts,
        r.phase_durations_ms == phase_durations_ms,
        r.elapsed_ms == elapsed_ms,
{
    let TrunRunInfo { category, name, chip, soc, port, test_id, full } = info;
    let mut testcase = category;
    testcase.append("/");
    testcase.append(name.as_str());
    let build_path = if full {
        "flash_full".to_owned()
    } else {
        "flash_script".to_owned()
    };
    let KeywordVerdict { verdict, keywords, fail_keywords, matched_fail_keywords, fast_failed } = kv;
    TrunOutcome {
        verdict,
        testcase,
        chip,
        soc,
        port,
        test_id,
        runner_id: String::new(),
        runner_mode: "cli-debug".to_owned(),
        build_path,
        keywords,
        fail_keywords,
        matched_fail_keywords,
        fast_failed,
        boot_log_count,
        smart_diagnostics,
        artifacts,
        phase_durations_ms,
        elapsed_ms,
    }
}

} // verus!
