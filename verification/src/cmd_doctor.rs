//! The environment report: its checks and how many passed.

use vstd::prelude::*;

verus! {

/// The outcome of one environment check.
#[derive(Debug, Clone, PartialEq, Eq)]
pub struct CheckResult {
    pub name: String,
    pub passed: bool,
    pub detail: String,
    /// What to do about a failure.
    pub suggestion: Option<String>,
}

/// The system the tool runs on.
#[derive(Debug, Clone, PartialEq, Eq)]
pub struct PlatformInfo {
    pub os: String,
    pub arch: String,
    pub cli_version: String,
}

/// The full report.
#[derive(Debug, Clone, PartialEq, Eq)]
pub struct DoctorReport {
    pub platform: PlatformInfo,
    pub checks: Vec<CheckResult>,
    pub passed: usize,
    pub failed: usize,
}

/// How many checks passed.
pub open spec fn passed_count(checks: Seq<CheckResult>) -> nat
    decreases checks.len(),
{
    if checks.len() == 0 {
        0
    } else {
        passed_count(checks.drop_last()) + if checks.last().passed { 1nat } else { 0nat }
    }
}

proof fn lemma_passed_count_bound(checks: Seq<CheckResult>)
    ensures
        passed_count(checks) <= checks.len(),
    decreases checks.len(),
{
    if checks.len() > 0 {
        lemma_passed_count_bound(checks.drop_last());
    }
}

/// The report of the given checks: how many passed and how many failed.
pub fn doctor_report(platform: PlatformInfo, checks: Vec<CheckResult>) -> (r: DoctorReport)
    ensures
        r.platform == platform,
        r.checks@ == checks@,
        r.passed == passed_count(checks@),
        r.failed == checks@.len() - passed_count(checks@),
{
    let mut passed: usize = 0;
    let mut i: usize = 0;
    assert(checks@.take(0) =~= Seq::<CheckResult>::empty());
    while i < checks.len()
        invariant
            i <= checks@.len(),
            passed == passed_count(checks@.take(i as int)),
            passed <= i,
        decreases checks@.len() - i,
    {
        assert(checks@.take(i + 1).drop_last() =~= checks@.take(i as int));
        if checks[i].passed {
            passed = passed + 1;
        }
        i = i + 1;
    }
    assert(checks@.take(checks@.len() as int) =~= checks@);
    proof {
        lemma_passed_count_bound(checks@);
    }
    let failed = checks.len() - passed;
    DoctorReport { platform, checks, passed, failed }
}

} // verus!
