use luatos_cli::rda8910::{
    apply_script_overlay, at_ok_received, choose_script_addr, describe_reply, diag_reboot_frame, fdl_checksum,
    fdl_frame, fdl_start_args, find_download_port, find_rda8910_log_port, host_fast_reboot_frame,
    is_download_port, is_running_port, pad_even, parse_pac, pdl_header, pdl_mid_payload, port_interface_is,
    port_is_log, reboot_targets, valid_flash_addr, writable_entries, HdlcReceiver, PacError, PdlReplyReceiver,
    BSL_CMD_MIDST_DATA, BSL_CMD_START_DATA, DOWNLOAD_PID, DOWNLOAD_VID, HDLC_ESCAPE, HDLC_FLAG,
    PAC_FILE_HEADER_SIZE, PAC_HEADER_SIZE, PAC_MAGIC, RUNNING_PID, RUNNING_PID_ALT, RUNNING_VID, dec_utf16le,
};
use luatos_cli::ports::{SerialPortInfo, SerialPortType, UsbPortInfo};

fn build_minimal_pac(files: &[(&str, &str, u32, &[u8])]) -> Vec<u8> {
    let n = files.len();
    let data_offset = PAC_HEADER_SIZE + n * PAC_FILE_HEADER_SIZE;
    let mut data = Vec::new();
    let mut cursor = data_offset;
    let mut bodies = Vec::new();
    for (id, name, addr, content) in files {
        let mut fh = vec![0u8; PAC_FILE_HEADER_SIZE];
        fh[0..4].copy_from_slice(&(PAC_FILE_HEADER_SIZE as u32).to_le_bytes());
        for (i, &b) in id.as_bytes().iter().enumerate() {
            fh[4 + i * 2] = b;
        }
        for (i, &b) in name.as_bytes().iter().enumerate() {
            fh[516 + i * 2] = b;
        }
        let size = content.len() as u32;
        fh[1540..1544].copy_from_slice(&size.to_le_bytes());
        fh[1544..1548].copy_from_slice(&1u32.to_le_bytes());
        fh[1548..1552].copy_from_slice(&1u32.to_le_bytes());
        fh[1552..1556].copy_from_slice(&(cursor as u32).to_le_bytes());
        fh[1564..1568].copy_from_slice(&addr.to_le_bytes());
        bodies.push((fh, content.to_vec()));
        cursor += content.len();
    }
    let mut header = vec![0u8; PAC_HEADER_SIZE];
    for (i, &b) in b"BP_R1.0.0".iter().enumerate() {
        header[i * 2] = b;
    }
    let pac_size = (data_offset + bodies.iter().map(|(_, c)| c.len()).sum::<usize>()) as u32;
    header[48..52].copy_from_slice(&pac_size.to_le_bytes());
    header[1076..1080].copy_from_slice(&(n as u32).to_le_bytes());
    header[1080..1084].copy_from_slice(&(PAC_HEADER_SIZE as u32).to_le_bytes());
    header[2116..2120].copy_from_slice(&PAC_MAGIC.to_le_bytes());
    data.extend_from_slice(&header);
    for (fh, content) in bodies {
        data.extend_from_slice(&fh);
        data.extend_from_slice(&content);
    }
    data
}

/// A PAC with every file-entry header first and the contents after them.
fn build_pac_multi(files: &[(&str, &str, u32, &[u8])]) -> Vec<u8> {
    let n = files.len();
    let mut content_at = PAC_HEADER_SIZE + n * PAC_FILE_HEADER_SIZE;
    let mut header = vec![0u8; PAC_HEADER_SIZE];
    header[1076..1080].copy_from_slice(&(n as u32).to_le_bytes());
    header[1080..1084].copy_from_slice(&(PAC_HEADER_SIZE as u32).to_le_bytes());
    header[2116..2120].copy_from_slice(&PAC_MAGIC.to_le_bytes());
    let mut heads = Vec::new();
    let mut bodies = Vec::new();
    for (id, name, addr, content) in files {
        let mut fh = vec![0u8; PAC_FILE_HEADER_SIZE];
        for (i, &b) in id.as_bytes().iter().enumerate() {
            fh[4 + i * 2] = b;
        }
        for (i, &b) in name.as_bytes().iter().enumerate() {
            fh[516 + i * 2] = b;
        }
        fh[1540..1544].copy_from_slice(&(content.len() as u32).to_le_bytes());
        fh[1552..1556].copy_from_slice(&(content_at as u32).to_le_bytes());
        fh[1564..1568].copy_from_slice(&addr.to_le_bytes());
        content_at += content.len();
        heads.extend(fh);
        bodies.extend_from_slice(content);
    }
    let mut data = header;
    data.extend(heads);
    data.extend(bodies);
    data
}

fn usb(vid: u16, pid: u16, interface: Option<u8>) -> SerialPortType {
    SerialPortType::UsbPort(UsbPortInfo { vid, pid, interface })
}

fn port(name: &str, t: SerialPortType) -> SerialPortInfo {
    SerialPortInfo { port_name: name.to_string(), port_type: t }
}

#[test]
fn fdl_checksum_known_frame() {
    assert_eq!(fdl_checksum(&[0x00, 0x80, 0x00, 0x00]), 0x7FFF);
}

#[test]
fn hdlc_escape_and_frame_roundtrip() {
    let data = [0x01, HDLC_FLAG, 0x02, HDLC_ESCAPE, 0x03];
    let frame = fdl_frame(BSL_CMD_MIDST_DATA, &data);
    assert_eq!(frame.first(), Some(&HDLC_FLAG));
    assert_eq!(frame.last(), Some(&HDLC_FLAG));
    let mut rx = HdlcReceiver::new();
    let mut got = None;
    for &b in &frame {
        if let Some(pkt) = rx.feed(b) {
            got = Some(pkt);
        }
    }
    assert_eq!(got, Some((BSL_CMD_MIDST_DATA, data.to_vec())));
}

#[test]
fn fdl_frame_data_roundtrip() {
    let data = [0x10, 0x20, 0x30];
    let frame = fdl_frame(BSL_CMD_START_DATA, &data);
    let mut rx = HdlcReceiver::new();
    let mut got = None;
    for &b in &frame {
        if let Some(pkt) = rx.feed(b) {
            got = Some(pkt);
        }
    }
    assert_eq!(got, Some((BSL_CMD_START_DATA, data.to_vec())));
}

#[test]
fn fdl_frame_with_corrupt_checksum_is_dropped() {
    let mut frame = fdl_frame(BSL_CMD_START_DATA, &[0x10, 0x20]);
    let n = frame.len();
    frame[n - 2] ^= 0x01;
    let mut rx = HdlcReceiver::new();
    assert!(frame.iter().all(|&b| rx.feed(b).is_none()));
}

#[test]
fn parse_pac_minimal_roundtrip() {
    let content = vec![0xAA; 64];
    let data = build_minimal_pac(&[("HOST_FDL", "fdl1.img", 0x8000C0, &content)]);
    let pac = parse_pac(&data).expect("parse");
    assert_eq!(pac.version, "BP_R1.0.0");
    assert_eq!(pac.files.len(), 1);
    let f = &pac.files[0];
    assert_eq!(f.id, "HOST_FDL");
    assert_eq!(f.name, "fdl1.img");
    assert_eq!(f.addr, 0x8000C0);
    assert_eq!(f.data.as_deref(), Some(content.as_slice()));
}

#[test]
fn parse_pac_rejects_bad_magic() {
    let mut data = build_minimal_pac(&[]);
    data[2116] ^= 0xFF;
    assert!(parse_pac(&data).is_err());
}

#[test]
fn parse_pac_rejects_too_small() {
    assert!(parse_pac(&[0u8; 16]).is_err());
    assert_eq!(parse_pac(&[0u8; 16]).err(), Some(PacError::TooSmall(16)));
}

#[test]
fn parse_pac_reports_truncated_file_header() {
    let content = vec![0x11; 8];
    let mut data = build_pac_multi(&[("AP", "ap.img", 0x6001_0000, &content)]);
    data.truncate(PAC_HEADER_SIZE + 100);
    assert_eq!(parse_pac(&data).err(), Some(PacError::FileHeaderOutOfBounds(PAC_HEADER_SIZE as u64)));
}

#[test]
fn pac_find_returns_first_matching_id() {
    let a = vec![1u8; 4];
    let b = vec![2u8; 4];
    let data = build_pac_multi(&[("AP", "one", 0x6000_0000, &a), ("AP", "two", 0x6001_0000, &b)]);
    let pac = parse_pac(&data).unwrap();
    assert_eq!(pac.files[1].name, "two");
    assert_eq!(pac.files[1].data.as_deref(), Some(b.as_slice()));
    assert_eq!(pac.find("AP").unwrap().name, "one");
    assert!(pac.find("PS").is_none());
}

#[test]
fn reboot_frames_match_documented_bytes() {
    let host_fast = host_fast_reboot_frame();
    assert_eq!(&host_fast, &[0xAD, 0x00, 0x04, 0xFD, 0x03, 0x44, 0x52, 0xE8]);
    let diag = diag_reboot_frame();
    assert_eq!(diag.first(), Some(&0x7E));
    assert_eq!(diag.last(), Some(&0x7E));
    assert!(diag.windows(2).any(|w| w == [0x05, 0x42]));
}

#[test]
fn at_ok_received_detects_ok_but_not_error() {
    assert!(at_ok_received(b"\r\nOK\r\n"));
    assert!(at_ok_received(b"AT\r\nOK\r\n"));
    assert!(!at_ok_received(b"\r\nERROR\r\n"));
    assert!(!at_ok_received(b""));
}

#[test]
fn apply_script_overlay_replaces_lua_entry() {
    let content = vec![0xAA; 64];
    let data = build_minimal_pac(&[("LUA", "script.bin", 0x6023_0000, &content)]);
    let mut pac = parse_pac(&data).expect("parse");
    let overlay = vec![0xBB; 128];
    assert!(apply_script_overlay(&mut pac, &overlay));
    let lua = pac.find("LUA").expect("LUA entry");
    assert_eq!(lua.data.as_deref(), Some(overlay.as_slice()));
    assert_eq!(lua.size as usize, overlay.len());
    assert_eq!(lua.addr, 0x6023_0000);
}

#[test]
fn apply_script_overlay_returns_false_without_lua_entry() {
    let content = vec![0xAA; 64];
    let data = build_minimal_pac(&[("AP", "csdk.img", 0x6001_0000, &content)]);
    let mut pac = parse_pac(&data).expect("parse");
    assert!(!apply_script_overlay(&mut pac, b"x"));
}

#[test]
fn is_download_port_matches_known_vid_pid() {
    assert!(is_download_port(&usb(DOWNLOAD_VID, DOWNLOAD_PID, None)));
    assert!(!is_download_port(&usb(DOWNLOAD_VID, 0xb001, None)));
    assert!(!is_download_port(&SerialPortType::Unknown));
}

#[test]
fn is_running_port_matches_known_vid_pid() {
    assert!(is_running_port(&usb(RUNNING_VID, RUNNING_PID, None)));
    assert!(!is_running_port(&usb(DOWNLOAD_VID, DOWNLOAD_PID, None)));
}

#[test]
fn port_interface_is_matches_interface_number() {
    let make = |iface| port("/dev/ttyUSBX", usb(RUNNING_VID, RUNNING_PID, iface));
    assert!(port_interface_is(&make(Some(6)), 6));
    assert!(!port_interface_is(&make(Some(3)), 6));
    assert!(!port_interface_is(&make(None), 6));
}

#[test]
fn port_is_log_matches_luatools_py3_layout() {
    let make = |pid: u16, iface: Option<u8>| port("/dev/ttyUSBX", usb(RUNNING_VID, pid, iface));
    assert!(port_is_log(&make(RUNNING_PID, Some(6))));
    assert!(!port_is_log(&make(RUNNING_PID, Some(2))));
    assert!(!port_is_log(&make(RUNNING_PID, Some(3))));
    assert!(port_is_log(&make(RUNNING_PID_ALT, Some(2))));
    assert!(!port_is_log(&make(RUNNING_PID_ALT, Some(3))));
    assert!(!port_is_log(&make(RUNNING_PID, None)));
}

#[test]
fn port_selection_over_enumerated_ports() {
    let ports = vec![
        port("COM3", usb(RUNNING_VID, RUNNING_PID, Some(3))),
        port("COM4", usb(RUNNING_VID, RUNNING_PID, Some(6))),
        port("COM9", usb(DOWNLOAD_VID, DOWNLOAD_PID, None)),
    ];
    assert_eq!(find_download_port(&ports), Some("COM9".to_string()));
    assert_eq!(find_rda8910_log_port(&ports), Some("COM4".to_string()));
    let (hf, diag) = reboot_targets(&ports);
    assert_eq!(hf, vec!["COM4".to_string()]);
    assert_eq!(diag, vec!["COM3".to_string()]);
    let bare = vec![port("COM5", usb(RUNNING_VID, RUNNING_PID_ALT, None))];
    let (hf, diag) = reboot_targets(&bare);
    assert_eq!(hf, vec!["COM5".to_string()]);
    assert_eq!(diag, vec!["COM5".to_string()]);
}

#[test]
fn reply_descriptions() {
    assert_eq!(describe_reply(0x80), "ACK 成功");
    assert_eq!(describe_reply(0x8B), "数据校验错误");
    assert_eq!(describe_reply(0x77), "未知应答");
}

#[test]
fn pdl_and_fdl_payloads() {
    assert_eq!(pdl_header(12), vec![0xAE, 12, 0, 0, 0, 0xFF, 0, 0]);
    assert_eq!(pdl_mid_payload(3, &[9, 9]), vec![5, 0, 0, 0, 3, 0, 0, 0, 2, 0, 0, 0, 9, 9]);
    assert_eq!(fdl_start_args(0x810000, 0x210), vec![0x00, 0x81, 0x00, 0x00, 0x00, 0x00, 0x02, 0x10]);
    assert_eq!(pad_even(&[1, 2, 3]), vec![1, 2, 3, 0]);
    assert_eq!(pad_even(&[1, 2]), vec![1, 2]);
}

#[test]
fn pdl_reply_receiver_skips_noise() {
    let mut rx = PdlReplyReceiver::new();
    let reply = [0xAE, 8, 0, 0, 0, 0xFF, 0, 0, 0, 0, 0, 0];
    assert_eq!(rx.feed(0x11), None);
    let mut got = None;
    for &b in &reply {
        if let Some(r) = rx.feed(b) {
            got = Some(r);
        }
    }
    assert_eq!(got, Some((0xFF, 0)));
}

#[test]
fn flash_targets_and_script_address() {
    assert!(valid_flash_addr(0x6023_0000));
    assert!(valid_flash_addr(0xFE00_0002));
    assert!(!valid_flash_addr(0x0080_00C0));
    assert_eq!(choose_script_addr(Some(0x6023_0000), 0x230000), Some(0x6023_0000));
    assert_eq!(choose_script_addr(None, 0x230000), Some(0x6023_0000));
    assert_eq!(choose_script_addr(None, 0xF000_0000), None);
}

#[test]
fn writable_entries_pick_ap_ps_lua_with_data() {
    let a = vec![1u8; 10];
    let data = build_pac_multi(&[
        ("HOST_FDL", "fdl1", 0x8000C0, &a),
        ("AP", "ap", 0x6001_0000, &a),
        ("LUA", "lua", 0x6023_0000, &a),
    ]);
    let pac = parse_pac(&data).unwrap();
    let (idx, total) = writable_entries(&pac.files);
    assert_eq!(idx, vec![1, 2]);
    assert_eq!(total, 20);
}

#[test]
fn utf16_fields_decode_pairs_and_replace_lone_surrogates() {
    let units: [u16; 6] = [0x41, 0xD83D, 0xDE00, 0xD800, 0x42, 0xDC00];
    let mut b: Vec<u8> = units.iter().flat_map(|u| u.to_le_bytes()).collect();
    b.extend_from_slice(&[0, 0, 0x43, 0]);
    assert_eq!(dec_utf16le(&b), "A\u{1F600}\u{FFFD}B\u{FFFD}");
    assert_eq!(dec_utf16le(&[0x41, 0, 0x42]), "A");
}

#[test]
fn fdl_frame_yields_only_at_closing_flag() {
    let cases: [(u16, Vec<u8>); 2] = [
        (BSL_CMD_MIDST_DATA, vec![0x01, HDLC_FLAG, 0x02, HDLC_ESCAPE, 0x03]),
        (BSL_CMD_START_DATA, vec![0x10, 0x20, 0x30]),
    ];
    for (t, data) in cases {
        let frame = fdl_frame(t, &data);
        let mut rx = HdlcReceiver::new();
        let (last, head) = frame.split_last().unwrap();
        for &b in head {
            assert_eq!(rx.feed(b), None);
        }
        assert_eq!(rx.feed(*last), Some((t, data.clone())));
    }
}
