use luatos_cli::chip::ChipFamily;
use luatos_cli::cmd_fota::{
    air6208_fota_addrs, air6208_tool_args, strip_secboot, StripError,
    chip_dtools_variant, chip_fota_config, ec7xx_config_name, ec7xx_delta_outcome, mem_map_chip_variant, select_binpkg,
    DeltaOutcome, cp_versions_compatible, delta_fits, fota_delta_size_limit, fota_output_path,
    fota_route, parse_hex_addr, rda8910_fota_params, rda8910_fota_size_limit, FotaRoute, FotaRouteError, Rda8910FotaParams,
    Rda8910ParamError, lzma_block_len, rda8910_sector_parts, SectorPart, SectorPlanError,
};

#[test]
fn fota_delta_size_limit_parses_region_len() {
    let text = "#define FLASH_FOTA_REGION_LEN (0x96000)\n";
    assert_eq!(fota_delta_size_limit(text), Some(0x96000 - 96 * 1024));
}

#[test]
fn fota_delta_size_limit_uses_last_occurrence() {
    let text = "#define FLASH_FOTA_REGION_LEN (0x96000)\n#define FLASH_FOTA_REGION_LEN (0x106000)\n";
    assert_eq!(fota_delta_size_limit(text), Some(0x106000 - 96 * 1024));
}

#[test]
fn fota_delta_size_limit_returns_none_when_missing_or_malformed() {
    assert_eq!(fota_delta_size_limit(""), None);
    assert_eq!(fota_delta_size_limit("#define TYPE_EC718HM 1\n"), None);
    assert_eq!(fota_delta_size_limit("#define FLASH_FOTA_REGION_LEN (nonsense)\n"), None);
}

#[test]
fn fota_delta_size_limit_saturates_below_reserved_area() {
    let text = "#define FLASH_FOTA_REGION_LEN (0x1000)\n";
    assert_eq!(fota_delta_size_limit(text), Some(0));
}

#[test]
fn region_line_with_crlf_and_padding() {
    let text = "x\r\n   #define FLASH_FOTA_REGION_LEN   ((0x20000))  \r\n#define OTHER 1";
    assert_eq!(fota_delta_size_limit(text), Some(0x20000 - 96 * 1024));
}

#[test]
fn hex_addresses() {
    assert_eq!(parse_hex_addr("0x1A"), Some(0x1A));
    assert_eq!(parse_hex_addr(" 0Xff "), Some(0xff));
    assert_eq!(parse_hex_addr("20000000"), Some(0x2000_0000));
    assert_eq!(parse_hex_addr("+10"), Some(0x10));
    assert_eq!(parse_hex_addr(""), None);
    assert_eq!(parse_hex_addr("0x"), None);
    assert_eq!(parse_hex_addr("-1"), None);
    assert_eq!(parse_hex_addr("0xG"), None);
    assert_eq!(parse_hex_addr("ffffffffffffffff"), Some(u64::MAX));
    assert_eq!(parse_hex_addr("10000000000000000"), None);
}

#[test]
fn tool_variants_and_configs() {
    assert_eq!(chip_dtools_variant("ec618"), "ec618");
    assert_eq!(chip_dtools_variant("air8850"), "ec618");
    assert_eq!(chip_dtools_variant("ec7xx"), "ec7xx");
    assert_eq!(chip_fota_config("air8000"), "ec718hm.json");
    assert_eq!(chip_fota_config("ec718pm"), "ec718pm.json");
    assert_eq!(chip_fota_config("whatever"), "ec718p.json");
    assert!(delta_fits(10, 10));
    assert!(!delta_fits(11, 10));
}

#[test]
fn rda8910_fota_params_parsing() {
    let params = rda8910_fota_params(true, Some("da188800"), Some("8910A002"), Some("00010000"), Some("00230000")).unwrap();
    assert_eq!(params.magic, 0xDA18_8800);
    assert_eq!(params.cp_version, 0x8910_A002);
    assert_eq!(params.core_addr, 0x10000);
    assert_eq!(params.script_addr, 0x230000);
}

#[test]
fn rda8910_fota_params_errors_and_defaults() {
    assert_eq!(rda8910_fota_params(false, Some("1"), None, Some("1"), None), Err(Rda8910ParamError::MissingFota));
    assert_eq!(rda8910_fota_params(true, None, None, Some("1"), None), Err(Rda8910ParamError::MissingMagic));
    assert_eq!(rda8910_fota_params(true, Some("zz"), None, Some("1"), None), Err(Rda8910ParamError::InvalidMagic));
    assert_eq!(rda8910_fota_params(true, Some("1"), None, None, None), Err(Rda8910ParamError::MissingCoreAddr));
    assert_eq!(rda8910_fota_params(true, Some("1"), None, Some("x"), None), Err(Rda8910ParamError::InvalidCoreAddr));
    let p = rda8910_fota_params(true, Some("0x1FFFFFFFF"), Some("xyz"), Some("10"), None).unwrap();
    assert_eq!(p, Rda8910FotaParams { magic: 0xFFFF_FFFF, core_addr: 0x10, script_addr: 0, cp_version: 0 });
}

#[test]
fn rda8910_size_limit_from_total_len() {
    assert_eq!(rda8910_fota_size_limit(Some(1664), None), Some((1664 - 64) * 1024));
    assert_eq!(rda8910_fota_size_limit(None, Some("680")), Some((0x680 - 64) * 1024));
    assert_eq!(rda8910_fota_size_limit(Some(10), Some("680")), Some(0));
    assert_eq!(rda8910_fota_size_limit(None, None), None);
    assert_eq!(rda8910_fota_size_limit(None, Some("x")), None);
    assert_eq!(rda8910_fota_size_limit(Some(u64::MAX), None), Some(u64::MAX));
}

#[test]
fn cp_versions_compare_above_low_12_bits() {
    assert!(cp_versions_compatible(0x8910_A001, 0x8910_A002));
    assert!(!cp_versions_compatible(0x8810_A002, 0x8910_A002));
}

#[test]
fn fota_routes_per_family() {
    assert_eq!(fota_route(ChipFamily::Ec718, true, false), Ok(FotaRoute::Ec7xxScriptOnly));
    assert_eq!(fota_route(ChipFamily::Ec718, false, true), Ok(FotaRoute::Ec7xxDifferential));
    assert_eq!(fota_route(ChipFamily::Ec718, false, false), Err(FotaRouteError::Ec7xxNeedsOld));
    assert_eq!(fota_route(ChipFamily::Ccm4211, false, true), Ok(FotaRoute::Ccm4211Full));
    assert_eq!(fota_route(ChipFamily::Bk72xx, true, false), Ok(FotaRoute::Bk72xx { script_only: true }));
    assert_eq!(fota_route(ChipFamily::Xt804, true, true), Ok(FotaRoute::Air6208Full));
    assert_eq!(fota_route(ChipFamily::Rda8910, false, false), Err(FotaRouteError::Rda8910NeedsOld));
    assert_eq!(fota_route(ChipFamily::Rda8910, true, false), Ok(FotaRoute::Rda8910ScriptOnly));
    assert_eq!(fota_route(ChipFamily::Sf32lb58, false, true), Err(FotaRouteError::Unsupported));
}

#[test]
fn fota_output_path_defaults_to_chip_name() {
    assert_eq!(fota_output_path(FotaRoute::Ec7xxScriptOnly, "ec718p", None), "ec718p_script_fota.bin");
    assert_eq!(fota_output_path(FotaRoute::Rda8910Differential, "uis8910", None), "uis8910_fota.sota");
    assert_eq!(fota_output_path(FotaRoute::Air6208Full, "air6208", None), "air6208");
    assert_eq!(fota_output_path(FotaRoute::Ccm4211Full, "air1601", Some("x.bin")), "x.bin");
}

#[test]
fn mem_map_variant_prefers_longest_enabled_type() {
    let text = "#define TYPE_EC718 1\n  #define TYPE_EC718HM 1  \r\n#define TYPE_EC718PV 0\n#define OTHER 1\n";
    assert_eq!(mem_map_chip_variant(text), "ec718hm");
    assert_eq!(mem_map_chip_variant("#define TYPE_AB 1\n#define TYPE_CD 1\n"), "cd");
    assert_eq!(mem_map_chip_variant("#define TYPE_X 1 1\n"), "x");
    assert_eq!(mem_map_chip_variant(""), "");
    assert_eq!(mem_map_chip_variant("nothing here"), "");
}

#[test]
fn ec7xx_config_prefers_existing_variant_config() {
    assert_eq!(ec7xx_config_name("air8000", "ec718hm", true), "ec718hm.json");
    assert_eq!(ec7xx_config_name("air780epv", "ec718zz", false), "ec718pv.json");
    assert_eq!(ec7xx_config_name("ec7xx", "", true), "ec718p.json");
    assert_eq!(ec7xx_config_name("ec618", "ec718xx", false), "ec618.json");
}

#[test]
fn same_images_falls_back_unless_forced() {
    assert_eq!(ec7xx_delta_outcome(true, "same images", "", true), DeltaOutcome::UseDelta);
    assert_eq!(ec7xx_delta_outcome(false, "info: same images found", "", false), DeltaOutcome::FallbackScriptOnly);
    assert_eq!(ec7xx_delta_outcome(false, "", "same images", true), DeltaOutcome::RefusedSameImages);
    assert_eq!(ec7xx_delta_outcome(false, "boom", "", false), DeltaOutcome::MissingDelta);
}

#[test]
fn binpkg_selection_skips_luatos_binpkg_when_several() {
    let v = |l: &[&str]| l.iter().map(|s| s.to_string()).collect::<Vec<_>>();
    assert_eq!(select_binpkg(&v(&[])), None);
    assert_eq!(select_binpkg(&v(&["luatos.binpkg"])), Some(0));
    assert_eq!(select_binpkg(&v(&["luatos.binpkg", "core.binpkg"])), Some(1));
    assert_eq!(select_binpkg(&v(&["a.binpkg", "luatos.binpkg"])), Some(0));
    assert_eq!(select_binpkg(&v(&["luatos.binpkg", "luatos.binpkg"])), None);
}

#[test]
fn air6208_addresses_fall_back_in_order() {
    let a = air6208_fota_addrs(None, None, None, None, None, None, None, None);
    assert_eq!(a.app, "8010000");
    assert_eq!(a.run, "8010400");
    assert_eq!(a.fota, "8280000");
    assert_eq!(a.script_offset, "0");
    assert_eq!(a.compress_type, 1);
    assert_eq!(a.script_addr, "8280000");
    let b = air6208_fota_addrs(None, Some("80200FF"), None, Some("8300000"), Some("8290000"), Some("81E0000"), Some("81F0000"), Some(0x102));
    assert_eq!(b.app, "80200FF");
    assert_eq!(b.run, "80204ff");
    assert_eq!(b.fota, "8300000");
    assert_eq!(b.script_offset, "81E0000");
    assert_eq!(b.compress_type, 2);
    assert_eq!(b.script_addr, "81F0000");
    let c = air6208_fota_addrs(Some("zz"), Some("1"), Some("9000"), None, Some("8290000"), None, None, Some(0));
    assert_eq!(c.app, "zz");
    assert_eq!(c.run, "9000");
    assert_eq!(c.fota, "8290000");
    assert_eq!(c.compress_type, 0);
    let d = air6208_fota_addrs(Some("zz"), None, None, None, None, None, None, None);
    assert_eq!(d.run, "8010400");
}

#[test]
fn air6208_tool_argument_list() {
    let args = air6208_tool_args("rom.img", "2", "0", "20008000", "0", "0", "out/mid");
    assert_eq!(
        args,
        vec!["-b", "rom.img", "-it", "2", "-fc", "0", "-ih", "20008000", "-ra", "0", "-ua", "0", "-nh", "0", "-un", "0", "-o", "out/mid"]
    );
}

#[test]
fn secboot_header_is_stripped() {
    assert_eq!(strip_secboot(&[0u8; 15]), Err(StripError::TooSmall));
    let mut img = vec![0u8; 64 + 4 + 3];
    img[12] = 4;
    img[68] = 0xAA;
    img[69] = 0xBB;
    img[70] = 0xCC;
    assert_eq!(strip_secboot(&img), Ok(vec![0xAA, 0xBB, 0xCC]));
    img[12] = 8;
    assert_eq!(strip_secboot(&img), Err(StripError::Truncated(72)));
    let mut exact = vec![0u8; 64];
    exact[12] = 0;
    assert_eq!(strip_secboot(&exact), Ok(vec![]));
}

#[test]
fn lzma_block_length_from_header() {
    assert_eq!(lzma_block_len(&[0x5d, 0, 0, 0, 0x02, 0x01]), 0x0102 * 1024);
    assert_eq!(lzma_block_len(&[0x5d, 0, 0, 0, 0xff, 0xff, 9]), 0xffff * 1024);
    assert_eq!(lzma_block_len(&[1, 2, 3, 4, 5]), 0);
}

#[test]
fn rda8910_sector_parts_in_order() {
    assert_eq!(rda8910_sector_parts(true, Some(true), Some(true)), Ok(vec![SectorPart::Ap, SectorPart::Script]));
    assert_eq!(rda8910_sector_parts(true, Some(true), None), Ok(vec![SectorPart::Ap]));
    assert_eq!(rda8910_sector_parts(false, None, Some(true)), Ok(vec![SectorPart::Script]));
    assert_eq!(rda8910_sector_parts(true, None, Some(true)), Err(SectorPlanError::NoApEntry));
    assert_eq!(rda8910_sector_parts(true, Some(false), Some(true)), Err(SectorPlanError::NoApData));
    assert_eq!(rda8910_sector_parts(false, Some(true), Some(false)), Err(SectorPlanError::NothingToPack));
}

#[test]
fn chip_variant_longest_by_utf8_bytes() {
    let text = "#define TYPE_\u{C4}\u{C4} 1\n#define TYPE_ABC 1\n";
    assert_eq!(mem_map_chip_variant(text), "\u{E4}\u{E4}");
    let text = "#define TYPE_AB 1\n#define TYPE_CD 1\n";
    assert_eq!(mem_map_chip_variant(text), "cd");
}
