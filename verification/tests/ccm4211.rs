use luatos_cli::ccm4211::{
    build_isp_frame, build_log_probe, build_soc_frame, build_soc_header, crc16_modbus, isp_execute_params,
    isp_take_ack, isp_write_ram_base, next_sn, soc_escape, soc_md5_matches, SocFrameParser,
    soc_download_plan, download_block_len, ccm4211_image_addrs, SocDownloadStep,
};

#[test]
fn test_crc16_modbus() {
    let data = b"123456789";
    let crc = crc16_modbus(data);
    assert_eq!(crc, 0xBB3D, "CRC16 (poly=0xA001, init=0) of '123456789'");
}

#[test]
fn test_crc16_empty() {
    assert_eq!(crc16_modbus(&[]), 0x0000);
}

#[test]
fn test_soc_escape() {
    assert_eq!(soc_escape(&[0x01, 0x02, 0x03]), vec![0x01, 0x02, 0x03]);
    assert_eq!(soc_escape(&[0xA5]), vec![0xA6, 0x01]);
    assert_eq!(soc_escape(&[0xA6]), vec![0xA6, 0x02]);
    assert_eq!(soc_escape(&[0x00, 0xA5, 0xA6, 0xFF]), vec![0x00, 0xA6, 0x01, 0xA6, 0x02, 0xFF]);
}

#[test]
fn test_build_soc_header() {
    let header = build_soc_header(9, 0, 0, 1);
    assert_eq!(header.len(), 24);
    assert_eq!(u32::from_le_bytes(header[16..20].try_into().unwrap()), 9);
    assert_eq!(u16::from_le_bytes(header[20..22].try_into().unwrap()), 1);
}

#[test]
fn test_build_soc_frame_cmd9() {
    let frame = build_soc_frame(9, 0, &[], 1);
    assert_eq!(frame[0], 0xA5);
    assert_eq!(*frame.last().unwrap(), 0xA5);
    let expected = vec![
        0xA5, 0x00, 0x00, 0x00, 0x00, 0x00, 0x00, 0x00, 0x00, 0x00, 0x00, 0x00, 0x00, 0x00, 0x00, 0x00, 0x00, 0x09,
        0x00, 0x00, 0x00, 0x01, 0x00, 0x00, 0x00, 0xC1, 0x96, 0xA5,
    ];
    assert_eq!(frame, expected, "Frame should match captured packet");
}

#[test]
fn test_build_soc_frame_cmd0a() {
    let frame = build_soc_frame(0x0A, 0x14700000, &0x14700000_u32.to_le_bytes(), 2);
    let expected = vec![
        0xA5, 0x00, 0x00, 0x00, 0x00, 0x00, 0x00, 0x00, 0x00, 0x00, 0x00, 0x70, 0x14, 0x04, 0x00, 0x00, 0x00, 0x0A,
        0x00, 0x00, 0x00, 0x02, 0x00, 0x00, 0x00, 0x00, 0x00, 0x70, 0x14, 0xEB, 0x12, 0xA5,
    ];
    assert_eq!(frame, expected, "Frame should match captured CMD 0x0A packet");
}

#[test]
fn test_build_soc_frame_with_escape() {
    let frame = build_soc_frame(0x0C, 0, &[0x00], 4);
    let expected = vec![
        0xA5, 0x00, 0x00, 0x00, 0x00, 0x00, 0x00, 0x00, 0x00, 0x00, 0x00, 0x00, 0x00, 0x01, 0x00, 0x00, 0x00, 0x0C,
        0x00, 0x00, 0x00, 0x04, 0x00, 0x00, 0x00, 0x00, 0xA6, 0x02, 0x41, 0xA5,
    ];
    assert_eq!(frame, expected, "Frame should match captured CMD 0x0C with escape");
}

#[test]
fn test_soc_frame_roundtrip() {
    let frame = build_soc_frame(9, 0x14700000, &[1, 2, 3, 4], 42);
    let mut parser = SocFrameParser::new();
    let responses = parser.feed(&frame);
    assert_eq!(responses.len(), 1);
    assert_eq!(responses[0].cmd, 9);
    assert_eq!(responses[0].address, 0x14700000);
    assert_eq!(responses[0].data, vec![1, 2, 3, 4]);
    assert_eq!(responses[0].sn, 42);
}

#[test]
fn test_soc_frame_parser_partial() {
    let frame = build_soc_frame(11, 0, &[0xA5, 0xA6, 0x00, 0xFF], 1);
    let mut parser = SocFrameParser::new();
    let mid = frame.len() / 2;
    let r1 = parser.feed(&frame[..mid]);
    assert!(r1.is_empty());
    let r2 = parser.feed(&frame[mid..]);
    assert_eq!(r2.len(), 1);
    assert_eq!(r2[0].data, vec![0xA5, 0xA6, 0x00, 0xFF]);
}

#[test]
fn soc_frame_split_byte_by_byte_gives_same_response() {
    let frame = build_soc_frame(12, 0x1000, &[0xA5, 0x01, 0xA6], 7);
    let mut whole = SocFrameParser::new();
    let all = whole.feed(&frame);
    let mut bytewise = SocFrameParser::new();
    let mut pieces = Vec::new();
    for b in &frame {
        pieces.extend(bytewise.feed(&[*b]));
    }
    assert_eq!(all.len(), 1);
    assert_eq!(pieces.len(), 1);
    assert_eq!(all[0].cmd, pieces[0].cmd);
    assert_eq!(all[0].data, pieces[0].data);
    assert_eq!(all[0].sn, 7);
}

#[test]
fn soc_frame_with_bad_crc_is_dropped() {
    let mut frame = build_soc_frame(9, 0, &[1, 2], 3);
    let n = frame.len();
    frame[n - 2] ^= 0x01;
    let mut parser = SocFrameParser::new();
    assert!(parser.feed(&frame).is_empty());
}

#[test]
fn log_probe_is_base_info_frame_sn1() {
    assert_eq!(build_log_probe(), build_soc_frame(1, 0, &[], 1));
}

#[test]
fn isp_frame_layout() {
    assert_eq!(build_isp_frame(0x10, 0, 0, 3, Some(&[0x00, 0x01, 0x24])), vec![0x52, 0x10, 0, 0, 0, 3, 0x00, 0x01, 0x24]);
    assert_eq!(build_isp_frame(0x14, 0, 0, 0x24, None), vec![0x52, 0x14, 0, 0, 0x00, 0x24]);
}

#[test]
fn isp_ack_skips_junk_and_waits_for_data() {
    let mut buf = vec![0x55, 0x72, 0x31, 0x72, 0x14, 0x00, 0x02, 0xAA];
    assert_eq!(isp_take_ack(&mut buf, 0x14), None);
    assert_eq!(buf, vec![0x72, 0x14, 0x00, 0x02, 0xAA]);
    buf.push(0xBB);
    assert_eq!(isp_take_ack(&mut buf, 0x14), Some(vec![0xAA, 0xBB]));
}

#[test]
fn serial_numbers_skip_zero() {
    assert_eq!(next_sn(1), 2);
    assert_eq!(next_sn(0xFFFF), 1);
}

#[test]
fn ram_write_base_advances_by_two() {
    assert_eq!(isp_write_ram_base(0), 0x30);
    assert_eq!(isp_write_ram_base(1), 0x32);
    assert_eq!(isp_write_ram_base(104), 0x00);
    assert_eq!(isp_execute_params(&[0, 1, 2, 3, 4, 5, 6]), (5, 4));
}

#[test]
fn md5_check_compares_digest_bytes() {
    let abc_md5 = [
        0x90, 0x01, 0x50, 0x98, 0x3c, 0xd2, 0x4f, 0xb0, 0xd6, 0x96, 0x3f, 0x7d, 0x28, 0xe1, 0x7f, 0x72,
    ];
    assert!(soc_md5_matches(&abc_md5, b"abc"));
    assert!(!soc_md5_matches(b"abc", b"abc"));
    assert!(!soc_md5_matches(&abc_md5, b"abd"));
}

#[test]
fn download_plan_splits_blocks_and_sections() {
    let plan = soc_download_plan(0x1000, 7000, 4096);
    assert_eq!(
        plan,
        vec![
            SocDownloadStep::Start { addr: 0x1000, len: 4096 },
            SocDownloadStep::Data { start: 0, end: 3072 },
            SocDownloadStep::Data { start: 3072, end: 4096 },
            SocDownloadStep::End,
            SocDownloadStep::Start { addr: 0x2000, len: 2904 },
            SocDownloadStep::Data { start: 4096, end: 7000 },
            SocDownloadStep::End,
        ]
    );
}

#[test]
fn download_plan_of_empty_image_is_empty() {
    assert!(soc_download_plan(0x1000, 0, 4096).is_empty());
}

#[test]
fn download_block_len_reads_le_word() {
    assert_eq!(download_block_len(&[0x00, 0x10, 0x00, 0x00, 0xff]), 4096);
    assert_eq!(download_block_len(&[0x00, 0x10]), 0);
}

#[test]
fn image_addresses_default_when_absent() {
    assert_eq!(ccm4211_image_addrs(None, None, 0x14200000), (0x10000000, 0x14000000, 0x14200000));
    assert_eq!(ccm4211_image_addrs(Some(1), Some(2), 3), (1, 2, 3));
}
