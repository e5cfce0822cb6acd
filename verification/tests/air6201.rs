use luatos_cli::air6201::{
    chunk_packet, command_frame, flash_id_from, ok_line_received, parse_response, partition_by_name,
    write_error_detail, CMD_WRITE,
};

#[test]
fn partitions_by_name_any_case() {
    assert_eq!(partition_by_name("Script").unwrap().addr, 0);
    assert_eq!(partition_by_name("FSKV").unwrap().size, 65536);
    assert_eq!(partition_by_name("lfs").unwrap().id, 2);
    assert!(partition_by_name("boot").is_none());
}

#[test]
fn request_and_response_frames() {
    assert_eq!(command_frame(0x03, &[1]), vec![0xAA, 0x03, 0x00, 0x01, 0x01, 0x55]);
    let p = chunk_packet(0x1000, &[9, 9]);
    assert_eq!(p, vec![0, 0, 0x10, 0, 0, 0, 0, 2, 9, 9]);
    let resp = parse_response(&[0x00, 0x13, 0xAA, CMD_WRITE, 0x00, 0x00, 0x02, 7, 8, 0x55]).unwrap();
    assert_eq!((resp.cmd, resp.status, resp.data.clone(), resp.eof_ok), (CMD_WRITE, 0, vec![7, 8], true));
    assert!(parse_response(&[0xAA, CMD_WRITE, 0x00, 0x00, 0x05, 1]).is_none());
    assert!(ok_line_received(b"xxOK\r\n"));
    assert!(!ok_line_received(b"OK\r"));
    assert_eq!(flash_id_from(0, &[0x85, 0x60, 0x16]), Some(0x856016));
    let mut d = vec![0u8; 12];
    d[8] = 0xEE;
    d[9] = 0xFE;
    d[10] = 0x03;
    assert_eq!(write_error_detail(&d), Some(("SPI失败", 0x03)));
}
