use luatos_cli::xt804::{
    crc16_ccitt, get_baud_cmd, sync_step, verify_image, xmodem_block_count, xmodem_frame, xmodem_on_reply,
    ImageError, XmodemStep, IMAGE_MAGIC, XMODEM_STX, xmodem_frames};

#[test]
fn test_crc16_ccitt() {
    let data = b"123456789";
    let crc = crc16_ccitt(data);
    assert_eq!(crc, 0x31C3);
}

#[test]
fn test_crc16_ccitt_empty() {
    assert_eq!(crc16_ccitt(&[]), 0x0000);
}

#[test]
fn test_verify_image_valid() {
    let mut data = vec![0u8; 512];
    data[0..4].copy_from_slice(&IMAGE_MAGIC.to_le_bytes());
    assert!(verify_image(&data).is_ok());
}

#[test]
fn test_verify_image_bad_magic() {
    let data = vec![0u8; 512];
    assert!(verify_image(&data).is_err());
    assert_eq!(verify_image(&data), Err(ImageError::BadMagic(0)));
}

#[test]
fn test_verify_image_too_small() {
    let data = vec![0u8; 100];
    assert!(verify_image(&data).is_err());
    assert_eq!(verify_image(&data), Err(ImageError::TooSmall(100)));
}

#[test]
fn test_baud_cmd_lookup() {
    const CMD_BAUD_115200: [u8; 13] = [0x21, 0x0a, 0x00, 0x97, 0x4b, 0x31, 0x00, 0x00, 0x00, 0x00, 0xc2, 0x01, 0x00];
    const CMD_BAUD_921600: [u8; 13] = [0x21, 0x0a, 0x00, 0x5d, 0x63, 0x31, 0x00, 0x00, 0x00, 0x00, 0x10, 0x0e, 0x00];
    const CMD_BAUD_2000000: [u8; 13] = [0x21, 0x0a, 0x00, 0xef, 0x2a, 0x31, 0x00, 0x00, 0x00, 0x80, 0x84, 0x1e, 0x00];
    assert_eq!(get_baud_cmd(2000000), CMD_BAUD_2000000);
    assert_eq!(get_baud_cmd(921600), CMD_BAUD_921600);
    assert_eq!(get_baud_cmd(115200), CMD_BAUD_115200);
    assert_eq!(get_baud_cmd(9600), CMD_BAUD_115200);
}

#[test]
fn test_xmodem_frame_structure() {
    let data = [0x55u8; 1024];
    let crc = crc16_ccitt(&data);
    let block_num: u8 = 1;
    let frame = xmodem_frame(block_num, &data);
    assert_eq!(frame.len(), 3 + 1024 + 2);
    assert_eq!(frame[0], XMODEM_STX);
    assert_eq!(frame[1], 1);
    assert_eq!(frame[2], 254);
    assert_eq!(frame[1027], (crc >> 8) as u8);
    assert_eq!(frame[1028], (crc & 0xFF) as u8);
}

#[test]
fn short_block_is_padded_with_zeros() {
    let frame = xmodem_frame(2, &[1, 2, 3]);
    assert_eq!(frame.len(), 1029);
    assert_eq!(&frame[3..6], &[1, 2, 3]);
    assert!(frame[6..1027].iter().all(|&b| b == 0));
    let mut block = vec![0u8; 1024];
    block[..3].copy_from_slice(&[1, 2, 3]);
    let crc = crc16_ccitt(&block);
    assert_eq!(&frame[1027..], &crc.to_be_bytes());
}

#[test]
fn xmodem_decisions() {
    assert_eq!(xmodem_block_count(0), 0);
    assert_eq!(xmodem_block_count(1025), 2);
    assert_eq!(xmodem_on_reply(Some(0x06), 0), XmodemStep::Sent);
    assert_eq!(xmodem_on_reply(Some(0x15), 5), XmodemStep::Retry);
    assert_eq!(xmodem_on_reply(Some(0x15), 99), XmodemStep::MaxRetries);
    assert_eq!(xmodem_on_reply(Some(0x18), 1), XmodemStep::Cancelled);
    assert_eq!(xmodem_on_reply(None, 1), XmodemStep::Retry);
}

#[test]
fn readiness_needs_three_in_a_row() {
    let mut c = 0;
    for b in b"CxCPC" {
        c = sync_step(c, *b);
    }
    assert_eq!(c, 3);
    assert_eq!(sync_step(2, b'x'), 0);
}

#[test]
fn xmodem_frames_carry_the_image_in_order() {
    let data: Vec<u8> = (0..1500u32).map(|i| (i % 251) as u8).collect();
    let frames = xmodem_frames(&data);
    assert_eq!(frames.len(), 2);
    assert_eq!(frames[0], xmodem_frame(1, &data[..1024]));
    assert_eq!(frames[1], xmodem_frame(2, &data[1024..]));
    let mut carried: Vec<u8> = Vec::new();
    for f in &frames {
        carried.extend_from_slice(&f[3..3 + 1024]);
    }
    let mut expected = data.clone();
    expected.resize(2048, 0);
    assert_eq!(carried, expected);
    assert!(xmodem_frames(&[]).is_empty());
}

#[test]
fn xmodem_block_numbers_wrap() {
    let data = vec![0x5Au8; 257 * 1024];
    let frames = xmodem_frames(&data);
    assert_eq!(frames.len(), 257);
    assert_eq!(frames[254][1], 255);
    assert_eq!(frames[255][1], 0);
    assert_eq!(frames[255][2], 255);
    assert_eq!(frames[256][1], 1);
}
