use luatos_cli::cmd_trun::{
    derive_verdict, keyword_hits, match_keyword, matched_keywords, trun_keyword_verdict, trun_outcome, ArtifactSummary, KeywordHit,
    LogEntry, MatchField, Phase, SmartDiagnosticEntry, TrunRunInfo, Verdict,
};
use luatos_cli::event::MessageLevel;
use luatos_cli::reset_args::{ResetArgs, Sf32ResetArgs, SignalLevel};
use luatos_cli::sf32lb5x::Sf32ResetConfig;

fn entry(msg: &str, module: Option<&str>, level: &str) -> LogEntry {
    LogEntry {
        level: level.to_string(),
        module: module.map(String::from),
        message: msg.into(),
        raw: format!("`R\x00\x00{}{}{}", level, module.unwrap_or(""), msg),
    }
}

#[test]
fn match_keyword_message_only() {
    let entries = vec![entry("hello world", Some("user.main"), "I")];
    assert!(match_keyword(&entries, "hello", MatchField::Message));
    assert!(!match_keyword(&entries, "user.main", MatchField::Message));
    assert!(!match_keyword(&entries, "I", MatchField::Message));
}

#[test]
fn match_keyword_raw_only() {
    let entries = vec![entry("hello", Some("user.main"), "I")];
    assert!(match_keyword(&entries, "user.main", MatchField::Raw));
    assert!(match_keyword(&entries, "hello", MatchField::Raw));
}

#[test]
fn match_keyword_any_field() {
    let entries = vec![entry("hello", Some("user.testrunner"), "I")];
    assert!(match_keyword(&entries, "hello", MatchField::Any));
    assert!(match_keyword(&entries, "testrunner", MatchField::Any));
    assert!(match_keyword(&entries, "I", MatchField::Any));
    assert!(!match_keyword(&entries, "nonexistent", MatchField::Any));
}

#[test]
fn match_keyword_all_fields() {
    let entries = vec![entry("hello", Some("user.main"), "I")];
    assert!(!match_keyword(&entries, "main", MatchField::All));
    assert!(!match_keyword(&entries, "user.main", MatchField::All));
    let triple = vec![entry("I-info", Some("user.I"), "I")];
    assert!(match_keyword(&triple, "I", MatchField::All));
}

#[test]
fn verdicts_and_exit_codes() {
    assert_eq!(derive_verdict(true, false), Verdict::Pass);
    assert_eq!(derive_verdict(true, true), Verdict::Fail);
    assert_eq!(derive_verdict(false, false), Verdict::Fail);
    assert_eq!(Verdict::Pass.exit_code(), 0);
    assert_eq!(Verdict::Error.exit_code(), 3);
    assert_eq!(Verdict::Indeterminate.as_str(), "indeterminate");
    assert_eq!(Phase::LogCapture.as_str(), "log_capture");
    assert_eq!(MessageLevel::Warn.as_str(), "warn");
}

#[test]
fn sf32_reset_args_make_config() {
    let mut args = Sf32ResetArgs {
        auto_reset: false,
        dtr_boot: SignalLevel::Low,
        sf32_rts_reset: SignalLevel::High,
        reset_ms: 120,
        sf32_boot_wait_ms: 700,
    };
    assert_eq!(args.to_reset_config(), None);
    args.auto_reset = true;
    assert_eq!(
        args.to_reset_config(),
        Some(Sf32ResetConfig { dtr_boot: false, rts_reset: true, reset_ms: 120, boot_wait_ms: 700, exit_wait_ms: 200 })
    );
    assert_eq!(Sf32ResetConfig::default().reset_ms, 100);
}

fn kw(list: &[&str]) -> Vec<String> {
    list.iter().map(|s| s.to_string()).collect()
}

#[test]
fn keyword_verdict_passes_when_all_found_and_no_fail() {
    let entries = vec![entry("boot ok", Some("main"), "I"), entry("READY", None, "I")];
    let v = trun_keyword_verdict(&entries, &kw(&["boot", "READY"]), &kw(&["panic"]), MatchField::Message, false);
    assert_eq!(v.verdict, Verdict::Pass);
    assert_eq!(v.keywords, vec![KeywordHit { keyword: "boot".into(), found: true }, KeywordHit { keyword: "READY".into(), found: true }]);
    assert_eq!(v.fail_keywords, vec![KeywordHit { keyword: "panic".into(), found: false }]);
    assert!(v.matched_fail_keywords.is_empty());
    assert!(!v.fast_failed);
}

#[test]
fn keyword_verdict_fails_on_missing_or_fail_keyword() {
    let entries = vec![entry("boot ok", Some("main"), "I"), entry("kernel panic", None, "E")];
    let v = trun_keyword_verdict(&entries, &kw(&["boot", "READY"]), &kw(&[]), MatchField::Message, false);
    assert_eq!(v.verdict, Verdict::Fail);
    assert!(!v.fast_failed);
    let v = trun_keyword_verdict(&entries, &kw(&["boot"]), &kw(&["panic", "oops", "kernel"]), MatchField::Message, false);
    assert_eq!(v.verdict, Verdict::Fail);
    assert!(v.fast_failed);
    assert_eq!(v.matched_fail_keywords, kw(&["panic", "kernel"]));
}

#[test]
fn keyword_verdict_flash_only_checks_nothing() {
    let v = trun_keyword_verdict(&[], &kw(&["never"]), &kw(&["x"]), MatchField::Raw, true);
    assert_eq!(v.verdict, Verdict::Pass);
    assert!(v.keywords.is_empty() && v.fail_keywords.is_empty() && v.matched_fail_keywords.is_empty());
    assert!(!v.fast_failed);
}

#[test]
fn keyword_hits_and_matches_keep_order() {
    let entries = vec![entry("alpha beta", None, "I")];
    let hits = keyword_hits(&entries, &kw(&["beta", "gamma", "alpha"]), MatchField::Message);
    assert_eq!(hits.iter().map(|h| h.found).collect::<Vec<_>>(), vec![true, false, true]);
    assert_eq!(matched_keywords(&hits), kw(&["beta", "alpha"]));
}

#[test]
fn reset_pulse_only_when_asked() {
    let r = ResetArgs { rts_reset: true, rts_reset_ms: 100, boot_wait_ms: 500 };
    assert_eq!(r.pulse_plan(), Some((100, 500)));
    let r = ResetArgs { rts_reset: false, ..r };
    assert_eq!(r.pulse_plan(), None);
}

#[test]
fn outcome_names_testcase_runner_and_build_path() {
    let entries = vec![entry("READY", None, "I")];
    let kv = trun_keyword_verdict(&entries, &kw(&["READY"]), &kw(&[]), MatchField::Message, false);
    let info = TrunRunInfo {
        category: "function_testcase_network".into(),
        name: "http".into(),
        chip: "air8101".into(),
        soc: "base.soc".into(),
        port: "COM6".into(),
        test_id: "t1".into(),
        full: false,
    };
    let diag = vec![SmartDiagnosticEntry { level: "warn".into(), category: "net".into(), message: "dns".into(), count: 2 }];
    let art = ArtifactSummary { script_bin: Some("script.bin".into()), combined_soc: None, keep_dir: None };
    let o = trun_outcome(info, kv, 1, diag.clone(), art.clone(), vec![("build".into(), 5)], 42);
    assert_eq!(o.testcase, "function_testcase_network/http");
    assert_eq!(o.runner_id, "");
    assert_eq!(o.runner_mode, "cli-debug");
    assert_eq!(o.build_path, "flash_script");
    assert_eq!(o.verdict, Verdict::Pass);
    assert_eq!(o.boot_log_count, 1);
    assert_eq!(o.smart_diagnostics, diag);
    assert_eq!(o.artifacts, art);
    assert_eq!(o.phase_durations_ms, vec![("build".to_string(), 5)]);
    assert_eq!(o.elapsed_ms, 42);
}
