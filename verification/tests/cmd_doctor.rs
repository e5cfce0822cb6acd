use luatos_cli::cmd_doctor::{doctor_report, CheckResult, PlatformInfo};

fn check(name: &str, passed: bool) -> CheckResult {
    CheckResult { name: name.into(), passed, detail: String::new(), suggestion: if passed { None } else { Some("fix".into()) } }
}

#[test]
fn report_counts_passed_and_failed_checks() {
    let platform = PlatformInfo { os: "linux".into(), arch: "x86_64".into(), cli_version: "0.1.0".into() };
    let checks = vec![check("serial", true), check("project", false), check("soc", true)];
    let r = doctor_report(platform.clone(), checks.clone());
    assert_eq!(r.passed, 2);
    assert_eq!(r.failed, 1);
    assert_eq!(r.checks, checks);
    assert_eq!(r.platform, platform);
    let empty = doctor_report(platform, Vec::new());
    assert_eq!((empty.passed, empty.failed), (0, 0));
}
