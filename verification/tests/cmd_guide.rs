use luatos_cli::cmd_guide::{find_model_guide, normalize};

#[test]
fn guide_alias_air1602_maps_to_air1601_family() {
    let guide = find_model_guide("Air1602").expect("expected guide");
    assert_eq!(guide.key, "air1601");
}

#[test]
fn guide_lookup_is_case_insensitive() {
    let guide = find_model_guide("air8000").expect("expected guide");
    assert_eq!(guide.key, "air8000");
}

#[test]
fn guide_lookup_normalizes_underscores_and_blanks() {
    assert_eq!(find_model_guide("  AIR8101_SF32 ").expect("guide").key, "sf32");
    assert!(find_model_guide("esp32").is_none());
    assert_eq!(normalize(" Air_780EPM "), "air-780epm");
}
