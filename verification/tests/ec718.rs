use luatos_cli::ec718::{data_transfer_new, data_transfer_next, DataPiece, DataTransfer};
use luatos_cli::ec718::{
    append_script_entry, build_dl_frame, build_image_head, build_lpc_frame, crc8_maxim, detect_port_type,
    diag_boot_frame, entries_with_data, entry_to_burn_type, find_ec718_cmd_port, guard_len, lpc_burn_one_args,
    lpc_burn_status_ok, lpc_sys_reset_ack, parse_binpkg, self_def_check1, BinpkgEntry, BinpkgError, BinpkgResult,
    BurnImageType, Cmd, Ec718PortType, ImgHead, LpcCmd, Rsp, SyncType, AIMG_IDENTIFIER, CMD_DOWNLOAD_DATA,
    CMD_GET_VERSION, IMG_HEAD_SIZE, LOG_PID, LOG_VID, LPC_BURN_ONE, STYPE_AP_FLASH, STYPE_CP_FLASH,
};
use luatos_cli::ports::{SerialPortInfo, SerialPortType, UsbPortInfo};

#[test]
fn test_crc8_maxim() {
    let data = [0x04, 0x00, 0x00];
    let crc = crc8_maxim(&data);
    assert_ne!(crc, 0);
}

#[test]
fn test_self_def_check1() {
    let ck = self_def_check1(0x32, 0, 0xcd, 0x32, 100, &[1, 2, 3]);
    assert_eq!(ck.len(), 4);
    assert_eq!(ck, (0x32u32 + 0xcd + 0x32 + 100 + 6).to_le_bytes());
}

#[test]
fn crc8_maxim_check_value() {
    assert_eq!(crc8_maxim(b"123456789"), 0xA1);
}

#[test]
fn test_img_head_build() {
    let data = vec![0xAA; 1024];
    let mut hd = ImgHead::new();
    hd.set_body_id(AIMG_IDENTIFIER);
    hd.set_img_size(data.len() as u32);
    hd.set_burn_addr(0x24000);
    hd.set_baudrate_ctrl(921600);
    hd.set_hashtype(0xee);
    hd.set_rsvd0(1);
    hd.finalize_hash();
    let packed = hd.pack();
    assert_eq!(packed.len(), IMG_HEAD_SIZE);
}

#[test]
fn image_head_fields() {
    let data = vec![0xAA; 1024];
    let h = build_image_head(&data, BurnImageType::Ap, 0x24000, 921600, 1);
    assert_eq!(h.len(), IMG_HEAD_SIZE);
    assert_eq!(&h[0..4], &0x10000001u32.to_le_bytes());
    assert_eq!(&h[64..68], &AIMG_IDENTIFIER.to_le_bytes());
    assert_eq!(&h[68..72], &0x24000u32.to_le_bytes());
    assert_eq!(&h[72..76], &0x04010000u32.to_le_bytes());
    assert_eq!(&h[76..80], &1024u32.to_le_bytes());
    assert_eq!(h[20], 0xEE);
    assert_eq!(&h[22..24], &(9216u16 + 0x8000).to_le_bytes());
    assert_eq!(&h[24..28], &1u32.to_le_bytes());
    assert_ne!(&h[32..64], &[0u8; 32]);
    assert_ne!(&h[96..128], &[0u8; 32]);
}

#[test]
fn dl_frames_by_mode() {
    let mut c = Cmd::new(CMD_GET_VERSION);
    let f = build_dl_frame(&mut c, &[], true);
    assert_eq!(f, vec![0x20, 0, 0xcd, 0x32, 0, 0, 0, 0]);
    let mut d = Cmd::new(CMD_DOWNLOAD_DATA);
    d.len = 3;
    let f = build_dl_frame(&mut d, &[1, 2, 3], true);
    assert_eq!(f.len(), 8 + 3 + 4);
    assert_eq!(&f[11..], &self_def_check1(0x32, 0, 0xcd, 0x32, 3, &[1, 2, 3]));
    let mut a = Cmd::new(CMD_DOWNLOAD_DATA);
    a.len = 4;
    let before = a.pack();
    let f = build_dl_frame(&mut a, &[9, 9, 9, 9], false);
    assert_eq!(a.len, guard_len(4));
    assert_eq!(&f[4..8], &guard_len(4).to_le_bytes());
    let mut orig = before.clone();
    orig.extend_from_slice(&[9, 9, 9, 9]);
    assert_eq!(&f[12..16], &crc32fast::hash(&orig).to_le_bytes());
}

#[test]
fn guarded_length_keeps_low_bits() {
    assert_eq!(guard_len(0), 0);
    let g = guard_len(0x10000);
    assert_eq!(g & 0x00FF_FFFF, 0x10000);
    assert_eq!((g >> 24) as u8, crc8_maxim(&[0x00, 0x00, 0x01]));
}

#[test]
fn lpc_frames_and_replies() {
    let mut c = LpcCmd::new(LPC_BURN_ONE);
    let args = lpc_burn_one_args(BurnImageType::Cp, STYPE_CP_FLASH);
    assert_eq!(args, vec![0x49, 0x42, 0x50, 0x43, 0x01, 0xE1]);
    let f = build_lpc_frame(&mut c, &args);
    assert_eq!(f.len(), 8 + 6 + 4);
    assert_eq!(lpc_burn_one_args(BurnImageType::Ap, STYPE_AP_FLASH).len(), 4);
    assert!(lpc_burn_status_ok(&[0, 0, 0, 0]));
    assert!(!lpc_burn_status_ok(&[0, 0, 0, 1]));
    assert!(lpc_sys_reset_ack(b"ZzZzZzZz"));
    let r = Rsp::unpack(&[1, 2, 3, 4, 5, 6, 7]);
    assert_eq!((r.state, r.len), (5, 6));
    assert_eq!(SyncType::Lpc.handshake_value(), 0x2b02d3cd);
    assert_eq!(Ec718PortType::Usb.baudrate(), 921600);
}

fn entry_meta(name: &str, addr: u32, size: u32, hash: &str, itype: &str) -> Vec<u8> {
    let mut m = vec![0u8; 364];
    m[..name.len()].copy_from_slice(name.as_bytes());
    m[64..68].copy_from_slice(&addr.to_le_bytes());
    m[68..72].copy_from_slice(&0x1000u32.to_le_bytes());
    m[76..80].copy_from_slice(&size.to_le_bytes());
    m[80..80 + hash.len()].copy_from_slice(hash.as_bytes());
    m[336..336 + itype.len()].copy_from_slice(itype.as_bytes());
    m
}

#[test]
fn binpkg_legacy_and_pkgmode() {
    assert_eq!(parse_binpkg(&[0u8; 10]).err(), Some(BinpkgError::TooSmall(10)));
    let mut legacy = vec![0u8; 0x34];
    legacy.extend(entry_meta("ap", 0x24000, 3, "ABCD", "AP"));
    legacy.extend([7, 8, 9]);
    legacy.extend(entry_meta("cp", 0x900000, 50, "", "CP"));
    legacy.extend([1, 2]);
    let r = parse_binpkg(&legacy).unwrap();
    assert_eq!(r.chip, "unknown");
    assert_eq!(r.entries.len(), 2);
    assert_eq!(r.entries[0].name, "ap");
    assert_eq!(r.entries[0].hash, "abcd");
    assert_eq!(r.entries[0].data, Some(vec![7, 8, 9]));
    assert_eq!(r.entries[1].data, None);

    let mut pk = vec![0u8; 0x1D8];
    pk[0x38..0x3F].copy_from_slice(b"pkgmode");
    pk[0x190..0x195].copy_from_slice(b"EC718");
    pk.extend(entry_meta("bootloader", 0x4000, 1, "", "AP"));
    pk.push(5);
    let r = parse_binpkg(&pk).unwrap();
    assert_eq!(r.chip, "EC718");
    assert_eq!(r.entries.len(), 1);
    assert_eq!(r.entries[0].data, Some(vec![5]));
}

fn entry(name: &str, itype: &str, addr: u32) -> BinpkgEntry {
    BinpkgEntry {
        name: name.into(),
        addr,
        flash_size: 0,
        image_size: 0,
        hash: String::new(),
        image_type: itype.into(),
        data: None,
    }
}

#[test]
fn burn_types_by_name_and_type() {
    assert_eq!(entry_to_burn_type(&entry("BootLoader", "AP", 0x4000)), Some((BurnImageType::Bootloader, 0, 0x4000)));
    assert_eq!(entry_to_burn_type(&entry("cp-image", "x", 0x900000)), Some((BurnImageType::Cp, 0, 0x100000)));
    assert_eq!(entry_to_burn_type(&entry("script", "", 0x300000)), Some((BurnImageType::Ap, 0, 0x300000)));
    assert_eq!(entry_to_burn_type(&entry("rfcal", "", 0x100)), Some((BurnImageType::FlexFile, 1, 0x100)));
    assert_eq!(entry_to_burn_type(&entry("other", "", 0x100)), Some((BurnImageType::Ap, 0, 0x100)));
}

#[test]
fn script_entry_appended_only_with_address() {
    let mut r = BinpkgResult { chip: "x".into(), entries: vec![] };
    append_script_entry(&mut r, Some(vec![1, 2]), 0);
    assert!(r.entries.is_empty());
    append_script_entry(&mut r, Some(vec![1, 2]), 0x300000);
    assert_eq!(r.entries.len(), 1);
    assert_eq!(r.entries[0].name, "script");
    assert_eq!(r.entries[0].image_type, "AP");
    assert_eq!(r.entries[0].image_size, 2);
    assert_eq!(entries_with_data(&r.entries), vec![0]);
}

#[test]
fn ec718_ports() {
    let ports = vec![
        SerialPortInfo {
            port_name: "COM7".into(),
            port_type: SerialPortType::UsbPort(UsbPortInfo { vid: LOG_VID, pid: LOG_PID, interface: Some(4) }),
        },
        SerialPortInfo {
            port_name: "COM8".into(),
            port_type: SerialPortType::UsbPort(UsbPortInfo { vid: LOG_VID, pid: LOG_PID, interface: Some(2) }),
        },
    ];
    assert_eq!(find_ec718_cmd_port(&ports), Some("COM8".to_string()));
    assert_eq!(find_ec718_cmd_port(&ports[..1]), Some("COM7".to_string()));
    assert_eq!(detect_port_type(&ports, "COM7"), Ec718PortType::Usb);
    assert_eq!(detect_port_type(&ports, "COM1"), Ec718PortType::Uart);
    assert_eq!(diag_boot_frame(), [0x7E, 0x00, 0x02, 0x7E]);
}

#[test]
fn data_transfer_follows_the_offered_sizes() {
    let t = data_transfer_new(10000);
    assert_eq!(t, DataTransfer { offset: 0, remain: 10000, counter: 0 });
    let (p, t) = data_transfer_next(&t, 4096);
    assert_eq!(p, DataPiece { start: 0, end: 4096, index: 0, last: false });
    let (p, t) = data_transfer_next(&t, 4096);
    assert_eq!(p, DataPiece { start: 4096, end: 8192, index: 1, last: false });
    let (p, t) = data_transfer_next(&t, 4096);
    assert_eq!(p, DataPiece { start: 8192, end: 10000, index: 2, last: true });
    assert_eq!(t.remain, 0);
    let w = DataTransfer { offset: 0, remain: 5, counter: 255 };
    let (_, w) = data_transfer_next(&w, 1);
    assert_eq!(w.counter, 0);
}

fn crc32_bitwise(data: &[u8]) -> u32 {
    let mut crc: u32 = 0xFFFF_FFFF;
    for &b in data {
        crc ^= b as u32;
        for _ in 0..8 {
            crc = if crc & 1 != 0 { (crc >> 1) ^ 0xEDB8_8320 } else { crc >> 1 };
        }
    }
    crc ^ 0xFFFF_FFFF
}

#[test]
fn agboot_frame_crc_is_the_bitwise_crc32() {
    assert_eq!(crc32_bitwise(b"123456789"), 0xCBF4_3926);
    assert_eq!(crc32fast::hash(b"123456789"), 0xCBF4_3926);
    let mut a = Cmd::new(CMD_DOWNLOAD_DATA);
    a.len = 5;
    let mut orig = a.pack();
    orig.extend_from_slice(b"hello");
    let f = build_dl_frame(&mut a, b"hello", false);
    assert_eq!(&f[13..17], &crc32_bitwise(&orig).to_le_bytes());
}
