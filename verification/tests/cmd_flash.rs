use luatos_cli::chip::ChipFamily;
use luatos_cli::cmd_flash::{
    check_script_size, evaluate_flash_test_outcome, evaluate_keyword_results, family_flash_supported, is_vcs_dir,
    partition_op_supported, script_folders_present, PartitionOp, PartitionOpError, ScriptTooLarge,
    assemble_log_lines, flash_test_keywords, flash_test_supported, flush_log_line,
};

#[test]
fn script_folders_present_requires_non_empty_list() {
    let script = vec!["tmp-script".to_string()];
    assert!(script_folders_present(Some(&script)));
    assert!(!script_folders_present(None));
    assert!(!script_folders_present(Some(&[])));
}

#[test]
fn family_flash_supported_covers_all_known_families() {
    assert!(family_flash_supported(ChipFamily::Bk72xx));
    assert!(family_flash_supported(ChipFamily::Xt804));
    assert!(family_flash_supported(ChipFamily::Ccm4211));
    assert!(family_flash_supported(ChipFamily::Ec718));
    assert!(family_flash_supported(ChipFamily::Sf32lb58));
    assert!(!family_flash_supported(ChipFamily::Air6201));
    assert!(!family_flash_supported(ChipFamily::Unknown));
}

#[test]
fn unknown_family_is_rejected_by_flash_run_support_check() {
    assert!(!family_flash_supported(ChipFamily::Unknown));
}

#[test]
fn evaluate_keyword_results_marks_missing_keyword() {
    let all_lines = vec!["Boot OK".to_string(), "READY token".to_string()];
    let keywords = vec!["READY".to_string(), "LuatOS@".to_string()];
    let evaluated = evaluate_keyword_results(&all_lines, &keywords);
    assert!(!evaluated.all_passed);
    assert_eq!(evaluated.results, vec![("READY".to_string(), true), ("LuatOS@".to_string(), false),]);
    assert_eq!(evaluated.missing_keywords, vec!["LuatOS@".to_string()]);
}

#[test]
fn evaluate_keyword_results_passes_when_all_found() {
    let all_lines = vec!["Boot LuatOS@ READY".to_string()];
    let keywords = vec!["READY".to_string(), "LuatOS@".to_string()];
    let evaluated = evaluate_keyword_results(&all_lines, &keywords);
    assert!(evaluated.all_passed);
    assert_eq!(evaluated.missing_keywords, Vec::<String>::new());
}

#[test]
fn evaluate_flash_test_outcome_fast_fails_when_fail_keyword_matched() {
    let all_lines = vec!["panic: assert failed".to_string(), "LuatOS@ ready".to_string()];
    let pass_keywords = vec!["LuatOS@".to_string()];
    let fail_keywords = vec!["panic".to_string(), "hardfault".to_string()];
    let outcome = evaluate_flash_test_outcome(&all_lines, &pass_keywords, &fail_keywords);
    assert!(!outcome.all_passed);
    assert!(outcome.fast_failed);
    assert_eq!(outcome.matched_fail_keywords, vec!["panic".to_string()]);
}

#[test]
fn evaluate_flash_test_outcome_does_not_fast_fail_when_fail_keywords_unset() {
    let all_lines = vec!["LuatOS@ ready".to_string()];
    let pass_keywords = vec!["LuatOS@".to_string()];
    let fail_keywords = Vec::<String>::new();
    let outcome = evaluate_flash_test_outcome(&all_lines, &pass_keywords, &fail_keywords);
    assert!(outcome.all_passed);
    assert!(!outcome.fast_failed);
    assert_eq!(outcome.matched_fail_keywords, Vec::<String>::new());
}

#[test]
fn script_size_check_reports_overflow() {
    assert_eq!(check_script_size(100, 100), Ok(()));
    assert_eq!(
        check_script_size(150, 100),
        Err(ScriptTooLarge { image_len: 150, partition_size: 100, overflow: 50 })
    );
}

#[test]
fn partition_operations_per_family() {
    assert_eq!(partition_op_supported(ChipFamily::Bk72xx, PartitionOp::FlashFs), Ok(()));
    assert_eq!(partition_op_supported(ChipFamily::Ec718, PartitionOp::ClearKv), Err(PartitionOpError::Ec718ScriptOnly));
    assert_eq!(
        partition_op_supported(ChipFamily::Sf32lb58, PartitionOp::ClearFs),
        Err(PartitionOpError::Sf32FsUnsupported(PartitionOp::ClearFs))
    );
    assert_eq!(
        partition_op_supported(ChipFamily::Air6201, PartitionOp::Script),
        Err(PartitionOpError::UnsupportedChip(ChipFamily::Air6201))
    );
}

#[test]
fn vcs_directories_are_skipped() {
    assert!(is_vcs_dir(".git"));
    assert!(is_vcs_dir(".SVN"));
    assert!(!is_vcs_dir("lib"));
}

#[test]
fn flash_test_families() {
    assert!(flash_test_supported(ChipFamily::Bk72xx));
    assert!(flash_test_supported(ChipFamily::Xt804));
    assert!(flash_test_supported(ChipFamily::Ccm4211));
    assert!(flash_test_supported(ChipFamily::Ec718));
    assert!(!flash_test_supported(ChipFamily::Sf32lb58));
    assert!(!flash_test_supported(ChipFamily::Air6201));
    assert!(!flash_test_supported(ChipFamily::Unknown));
}

#[test]
fn flash_test_default_keyword() {
    assert_eq!(flash_test_keywords(vec![]), vec!["LuatOS@".to_string()]);
    assert_eq!(flash_test_keywords(vec!["READY".to_string()]), vec!["READY".to_string()]);
}

#[test]
fn text_log_lines_are_assembled_across_pieces() {
    let a = assemble_log_lines("", "boot\r\n\r\nLuat");
    assert_eq!(a.lines, vec!["boot".to_string()]);
    assert_eq!(a.partial, "Luat");
    let b = assemble_log_lines(&a.partial, "OS@ ready\r\r\npart");
    assert_eq!(b.lines, vec!["LuatOS@ ready".to_string()]);
    assert_eq!(b.partial, "part");
    assert_eq!(flush_log_line(&b.partial), Some("part".to_string()));
    assert_eq!(flush_log_line("x\r"), Some("x".to_string()));
    assert_eq!(flush_log_line("\r"), Some(String::new()));
    assert_eq!(flush_log_line(""), None);
}
