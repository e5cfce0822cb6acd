use luatos_cli::bk7258::{
    boot_log_passed, erase_frame, erase_plan, flash_mid_from_reply, flash_sr_params, link_check_reply_ok,
    port_number_digits, sector_addr, sector_count, sector_image, set_baud_frame, unprotect_write,
    write_reply_ok, write_sector_frame, SrWrite, bk7258_setup, Bk7258Setup,
};

#[test]
fn test_flash_sr_params_known_chips() {
    let (sz, cmds, mask) = flash_sr_params(0x144051);
    assert_eq!(sz, 1);
    assert_eq!(cmds, [0x05, 0xFF]);
    assert_eq!(mask, 0x007C);
}

#[test]
fn test_flash_sr_params_heuristic() {
    let (sz, _, mask) = flash_sr_params(0x1500AA);
    assert_eq!(sz, 2);
    assert_eq!(mask, 0x407C);
}

#[test]
fn erase_plan_uses_blocks_inside_range() {
    // sectors 14..50: 14, 15 single, 16..48 two blocks, 48, 49 single
    let ops = erase_plan(14 * 4096, 36);
    assert_eq!(ops, vec![(14, false), (15, false), (16, true), (32, true), (48, false), (49, false)]);
    let covered: usize = ops.iter().map(|(_, b)| if *b { 16 } else { 1 }).sum();
    assert_eq!(covered, 36);
    assert!(erase_plan(0, 0).is_empty());
    assert_eq!(erase_plan(0, 16), vec![(0, true)]);
}

#[test]
fn sector_images_are_padded_with_ff() {
    let data = vec![7u8; 4096 + 10];
    assert_eq!(sector_count(data.len()), 2);
    let s1 = sector_image(&data, 1);
    assert_eq!(s1.len(), 4096);
    assert!(s1[..10].iter().all(|&b| b == 7));
    assert!(s1[10..].iter().all(|&b| b == 0xFF));
    assert_eq!(sector_addr(0x1000, 4096), Some(0x2000));
    assert_eq!(sector_addr(0xFFFF_F000, 0x2000), None);
}

#[test]
fn command_frames() {
    assert_eq!(set_baud_frame(2_000_000, 200), vec![0x01, 0xE0, 0xFC, 0x06, 0x0F, 0x80, 0x84, 0x1E, 0x00, 200]);
    assert_eq!(erase_frame(0x11000, 0x20), vec![0x01, 0xE0, 0xFC, 0xFF, 0xF4, 0x06, 0x00, 0x0F, 0x20, 0x00, 0x10, 0x01, 0x00]);
    let f = write_sector_frame(0x2000, &[0xAB; 4096]);
    assert_eq!(f.len(), 12 + 4096);
    assert_eq!(&f[5..12], &[0x05, 0x10, 0x07, 0x00, 0x20, 0x00, 0x00]);
    assert!(link_check_reply_ok(&[0x04, 0x0E, 0x05, 0x01, 0xE0, 0xFC, 0x01, 0x00]));
    let mut r = [0u8; 15];
    r[..3].copy_from_slice(&[0x04, 0x0E, 0xFF]);
    r[11..15].copy_from_slice(&0x2000u32.to_le_bytes());
    assert!(write_reply_ok(&r, 0x2000));
    assert!(!write_reply_ok(&r, 0x3000));
    r[12] = 0x40;
    r[13] = 0x15;
    r[14] = 0x00;
    assert_eq!(flash_mid_from_reply(&r), Some(0x1540 | (0x00 << 16)));
}

#[test]
fn unprotect_clears_only_masked_bits() {
    assert_eq!(unprotect_write(false, 0x00, 0, 0x7C), SrWrite::AlreadyClear);
    assert_eq!(unprotect_write(false, 0x7C, 0, 0x7C), SrWrite::One(0x00));
    assert_eq!(unprotect_write(true, 0x7C, 0x40, 0x407C), SrWrite::Two(0x0000));
    assert_eq!(unprotect_write(true, 0x83, 0x02, 0x407C), SrWrite::AlreadyClear);
}

#[test]
fn boot_keywords_and_port_digits() {
    assert!(boot_log_passed("[I] luat: hello"));
    assert!(!boot_log_passed("nothing here"));
    assert_eq!(port_number_digits("COM12"), b"12".to_vec());
}

#[test]
fn sectors_hold_the_image_then_erased_bytes() {
    let data: Vec<u8> = (0..5000u32).map(|i| (i % 253) as u8).collect();
    let n = luatos_cli::bk7258::sector_count(data.len());
    assert_eq!(n, 2);
    let mut written: Vec<u8> = Vec::new();
    for i in 0..n {
        written.extend(luatos_cli::bk7258::sector_image(&data, i));
    }
    let mut expected = data.clone();
    expected.resize(8192, 0xFF);
    assert_eq!(written, expected);
}

#[test]
fn native_setup_defaults_and_baud_switch() {
    let s = bk7258_setup(None, 2_000_000, None, None);
    assert_eq!(s, Bk7258Setup { flash_baud: 2_000_000, switch_baud: true, bl_addr: 0, script_addr: 0x200000 });
    let s = bk7258_setup(Some(115_200), 2_000_000, Some(0x1000), Some(0x1_0030_0000));
    assert_eq!(s, Bk7258Setup { flash_baud: 115_200, switch_baud: false, bl_addr: 0x1000, script_addr: 0x0030_0000 });
}
