use luatos_cli::cmd_project_wizard::{
    build_config_noninteractive, find_model, find_version, is_fully_specified, manifest_cache_path, names_match, join_path, home_dir_choice,
    resolve_project_dir, ModelInfo, VersionEntry, WizardArgs, WizardError,
};

/// The models the test manifest lists (Air8101 and Air780E, by name).
fn test_models() -> Vec<ModelInfo> {
    vec![
        ModelInfo {
            name: "Air780E".into(),
            chip: "ec7xx".into(),
            bitw: 32,
            versions: vec![VersionEntry {
                version_name: "V3003".into(),
                filename: "LuatOS-SoC_V3003_Air780E.soc".into(),
                size: 3145728,
            }],
        },
        ModelInfo {
            name: "Air8101".into(),
            chip: "bk72xx".into(),
            bitw: 32,
            versions: vec![VersionEntry {
                version_name: "V2001".into(),
                filename: "LuatOS-SoC_V2001_Air8101.soc".into(),
                size: 2097152,
            }],
        },
    ]
}

fn args() -> WizardArgs {
    WizardArgs {
        project_name: Some("test-proj".into()),
        project_dir: None,
        model: Some("Air8101".into()),
        firmware_version: None,
        template: Some("helloworld".into()),
        port: None,
        soc_script: None,
        no_git: true,
        no_download: true,
    }
}

#[test]
fn manifest_cache_path_correct() {
    let p = manifest_cache_path("/home/user", "/");
    assert!(p.contains(".luatos"), "should be in .luatos: {p}");
    assert!(p.contains("manifest_cache.json"), "file name: {p}");
    assert_eq!(p, "/home/user/.luatos/manifest_cache.json");
}

#[test]
fn manifest_cache_path_uses_platform_separator() {
    assert_eq!(
        manifest_cache_path("C:\\Users\\u", "\\"),
        "C:\\Users\\u\\.luatos\\manifest_cache.json"
    );
    assert_eq!(manifest_cache_path("/home/user/", "/"), "/home/user/.luatos/manifest_cache.json");
    assert_eq!(manifest_cache_path("", "/"), ".luatos/manifest_cache.json");
}

#[test]
fn join_path_adds_one_separator() {
    assert_eq!(join_path("a", "b", "/"), "a/b");
    assert_eq!(join_path("a/", "b", "/"), "a/b");
    assert_eq!(join_path("a/", "b", "\\"), "a/b");
    assert_eq!(join_path("a\\", "b", "\\"), "a\\b");
}

#[test]
fn home_dir_falls_back_in_order() {
    assert_eq!(home_dir_choice(Some("C:\\Users\\u"), Some("/home/u"), Some("/cwd")), "C:\\Users\\u");
    assert_eq!(home_dir_choice(None, Some("/home/u"), Some("/cwd")), "/home/u");
    assert_eq!(home_dir_choice(None, None, Some("/cwd")), "/cwd");
    assert_eq!(home_dir_choice(None, None, None), ".");
}

#[test]
fn project_dir_defaults_to_named_subdir() {
    assert_eq!(resolve_project_dir(None, "demo"), "./demo");
    assert_eq!(resolve_project_dir(Some("/tmp/x"), "demo"), "/tmp/x");
}

#[test]
fn noninteractive_config_defaults() {
    let models = test_models();
    let config = build_config_noninteractive(args(), models).unwrap();
    assert_eq!(config.project_name, "test-proj");
    assert_eq!(config.model.chip, "bk72xx");
    assert_eq!(config.template_name.as_deref(), Some("helloworld"));
    assert_eq!(config.soc_script, "latest");
    assert!(!config.git_init);
    assert!(!config.download_firmware);
    assert!(!config.download_soc_script);
}

#[test]
fn noninteractive_config_picks_versions_and_downloads() {
    let mut a = args();
    a.model = Some("air8101".into());
    a.no_download = false;
    a.no_git = false;
    a.project_dir = Some("/work/p".into());
    let c = build_config_noninteractive(a.clone(), test_models()).unwrap();
    assert_eq!(c.model.name, "Air8101");
    assert_eq!(c.selected_version.as_ref().unwrap().version_name, "V2001");
    assert!(c.download_firmware);
    assert!(c.download_soc_script);
    assert!(c.git_init);
    assert_eq!(c.project_dir, "/work/p");

    a.firmware_version = Some("v9999".into());
    a.soc_script = Some("disable".into());
    let c = build_config_noninteractive(a.clone(), test_models()).unwrap();
    assert_eq!(c.selected_version, None);
    assert!(!c.download_firmware);
    assert!(!c.download_soc_script);

    a.firmware_version = Some("v2001".into());
    let c = build_config_noninteractive(a, test_models()).unwrap();
    assert_eq!(c.selected_version.unwrap().filename, "LuatOS-SoC_V2001_Air8101.soc");
}

#[test]
fn noninteractive_config_errors() {
    let mut a = args();
    a.model = Some("Air9999".into());
    assert_eq!(build_config_noninteractive(a.clone(), test_models()), Err(WizardError::UnknownModel));
    a.model = None;
    assert_eq!(build_config_noninteractive(a.clone(), test_models()), Err(WizardError::MissingModel));
    a.project_name = None;
    assert_eq!(build_config_noninteractive(a, test_models()), Err(WizardError::MissingName));
}

#[test]
fn fully_specified_needs_name_template_and_known_model() {
    let models = test_models();
    assert!(is_fully_specified(&args(), &models));
    let mut a = args();
    a.template = None;
    assert!(!is_fully_specified(&a, &models));
    let mut a = args();
    a.model = Some("nope".into());
    assert!(!is_fully_specified(&a, &models));
    assert_eq!(find_model(&models, "AIR780E"), Some(0));
    assert_eq!(find_version(&models[1].versions, "V2001"), Some(0));
    assert!(names_match("Air8101", "aIR8101"));
    assert!(!names_match("Air8101", "Air8101 "));
}
