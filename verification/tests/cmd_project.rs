use luatos_cli::cmd_project::{
    analysis_order, built_size, file_status, included_totals, is_main_name, luadb_entry_name, partition_space,
    report_before, str_less, unreachable_files, FileAnalysis, get_config_value, set_config_value, ConfigError,
    ProjectConfig, config_key, ConfigKey, analysis_outcome,
};

#[test]
fn entry_script_is_reported_first_then_by_name() {
    let names: Vec<String> = ["util.lua", "b.txt", "main.lua", "a.lua", "main.luac"].iter().map(|s| s.to_string()).collect();
    let order = analysis_order(&names);
    assert_eq!(order, vec!["main.lua", "main.luac", "a.lua", "b.txt", "util.lua"]);
}

#[test]
fn analysis_order_keeps_duplicates() {
    let names: Vec<String> = ["x", "x", "a"].iter().map(|s| s.to_string()).collect();
    assert_eq!(analysis_order(&names), vec!["a", "x", "x"]);
    assert!(analysis_order(&Vec::new()).is_empty());
}

#[test]
fn string_order_is_by_code_point() {
    assert!(str_less("a", "b"));
    assert!(str_less("ab", "abc"));
    assert!(!str_less("abc", "ab"));
    assert!(!str_less("same", "same"));
    assert!(str_less("Z", "a"));
    assert!(is_main_name("main.luac"));
    assert!(!is_main_name("main.lu"));
    assert!(report_before("main.lua", "a.lua"));
    assert!(!report_before("a.lua", "main.lua"));
}

#[test]
fn built_size_rules() {
    assert_eq!(built_size(true, Some(10), true, 100), Some(10));
    assert_eq!(built_size(true, Some(10), false, 100), Some(100));
    assert_eq!(built_size(true, None, true, 100), None);
    assert_eq!(built_size(false, None, true, 100), Some(100));
}

#[test]
fn file_status_column() {
    let mut f = FileAnalysis { raw_size: 1, built_size: None, included: true, has_error: true };
    assert_eq!(file_status(&f), "✗ error");
    f.has_error = false;
    assert_eq!(file_status(&f), "✓");
    f.included = false;
    assert_eq!(file_status(&f), "— excluded");
}

#[test]
fn totals_count_included_files_only() {
    let files = [
        FileAnalysis { raw_size: 100, built_size: Some(40), included: true, has_error: false },
        FileAnalysis { raw_size: 7, built_size: None, included: true, has_error: true },
        FileAnalysis { raw_size: 1000, built_size: Some(1000), included: false, has_error: false },
    ];
    assert_eq!(included_totals(&files), (107, 47));
    assert_eq!(included_totals(&[]), (0, 0));
}

#[test]
fn luadb_entry_name_replaces_every_lua() {
    assert_eq!(luadb_entry_name("main.lua"), "main.luac");
    assert_eq!(luadb_entry_name("a.lua.lua"), "a.luac.luac");
    assert_eq!(luadb_entry_name("lib/x.luadb"), "lib/x.luacdb");
    assert_eq!(luadb_entry_name(".lu"), ".lu");
    assert_eq!(luadb_entry_name("模块.lua"), "模块.luac");
}

#[test]
fn partition_space_saturates() {
    assert_eq!(partition_space(100, 300), (200, false));
    assert_eq!(partition_space(400, 300), (0, true));
}

#[test]
fn unreachable_files_keep_file_order() {
    let files: Vec<String> = ["main.lua", "a.lua", "b.lua", "c.lua"].iter().map(|s| s.to_string()).collect();
    let reach: Vec<String> = ["b.lua", "main.lua"].iter().map(|s| s.to_string()).collect();
    assert_eq!(unreachable_files(&files, &reach), vec!["a.lua", "c.lua"]);
    assert!(unreachable_files(&files, &files).is_empty());
    assert_eq!(unreachable_files(&files, &[]), files);
}

fn sample_config() -> ProjectConfig {
    ProjectConfig {
        name: "demo".into(),
        chip: "air8101".into(),
        version: "1.0.0".into(),
        description: None,
        script_dirs: vec!["lua".into(), "lib".into()],
        script_files: vec![],
        output_dir: "build".into(),
        use_luac: true,
        bitw: 32,
        luac_debug: false,
        ignore_deps: false,
        soc_file: Some("fw.soc".into()),
        port: None,
        baud: Some(921600),
    }
}

#[test]
fn config_get_formats_each_kind_of_setting() {
    let c = sample_config();
    assert_eq!(get_config_value(&c, "project.name"), Ok("demo".to_string()));
    assert_eq!(get_config_value(&c, "project.description"), Ok(String::new()));
    assert_eq!(get_config_value(&c, "build.script_dirs"), Ok("lua, lib".to_string()));
    assert_eq!(get_config_value(&c, "build.script_dir"), Ok("lua, lib".to_string()));
    assert_eq!(get_config_value(&c, "build.script_files"), Ok(String::new()));
    assert_eq!(get_config_value(&c, "build.use_luac"), Ok("true".to_string()));
    assert_eq!(get_config_value(&c, "build.bitw"), Ok("32".to_string()));
    assert_eq!(get_config_value(&c, "flash.baud"), Ok("921600".to_string()));
    assert_eq!(get_config_value(&c, "flash.port"), Ok(String::new()));
    assert_eq!(get_config_value(&c, "flash.nope"), Err(ConfigError::UnknownKey));
}

#[test]
fn config_set_parses_and_changes_one_setting() {
    let mut c = sample_config();
    assert_eq!(set_config_value(&mut c, "build.script_dirs", " a , b,,c "), Ok(()));
    assert_eq!(c.script_dirs, vec!["a", "b", "", "c"]);
    assert_eq!(set_config_value(&mut c, "build.bitw", "+64"), Ok(()));
    assert_eq!(c.bitw, 64);
    assert_eq!(set_config_value(&mut c, "flash.baud", "115200"), Ok(()));
    assert_eq!(c.baud, Some(115200));
    assert_eq!(set_config_value(&mut c, "build.ignore_deps", "true"), Ok(()));
    assert!(c.ignore_deps);
    assert_eq!(set_config_value(&mut c, "project.description", "hello"), Ok(()));
    assert_eq!(c.description.as_deref(), Some("hello"));
    let before = c.clone();
    assert_eq!(set_config_value(&mut c, "build.use_luac", "yes"), Err(ConfigError::InvalidValue));
    assert_eq!(set_config_value(&mut c, "build.bitw", "4294967296"), Err(ConfigError::InvalidValue));
    assert_eq!(set_config_value(&mut c, "build.bitw", "-1"), Err(ConfigError::InvalidValue));
    assert_eq!(set_config_value(&mut c, "nope", "1"), Err(ConfigError::UnknownKey));
    assert_eq!(c, before);
}

#[test]
fn config_keys_name_settings() {
    assert_eq!(config_key("build.script_dir"), Some(ConfigKey::ScriptDirs));
    assert_eq!(config_key("build.script_dirs"), Some(ConfigKey::ScriptDirs));
    assert_eq!(config_key("flash.baud"), Some(ConfigKey::Baud));
    assert_eq!(config_key("project.Name"), None);
    let mut c = sample_config();
    assert_eq!(set_config_value(&mut c, "build.luac_debug", "true"), Ok(()));
    assert_eq!(get_config_value(&c, "build.luac_debug"), Ok("true".to_string()));
    assert_eq!(set_config_value(&mut c, "flash.port", "COM9"), Ok(()));
    assert_eq!(get_config_value(&c, "flash.port"), Ok("COM9".to_string()));
    assert_eq!(get_config_value(&c, "project.name"), Ok("demo".to_string()));
}

#[test]
fn analysis_fails_on_syntax_errors() {
    assert_eq!(analysis_outcome(0), Ok(()));
    assert_eq!(analysis_outcome(3), Err(3));
}
