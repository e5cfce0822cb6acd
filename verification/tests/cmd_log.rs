use luatos_cli::cmd_log::{
    binary_log_baud, binary_log_port, record_chunk_step, recording_file_name, LogPortError, resolve_log_mode, safe_port_name, timestamp_marker, ChunkStep,
    MAX_RECORDING_FILE_BYTES,
};

#[test]
fn resolve_log_mode_ec718_forces_921600() {
    let (binary, ec718, baud) = resolve_log_mode("ec7xx", 2_000_000);
    assert!(binary);
    assert!(ec718);
    assert_eq!(baud, 921_600);
}

#[test]
fn resolve_log_mode_air1601_binary_keeps_baud() {
    let (binary, ec718, baud) = resolve_log_mode("air1601", 2_000_000);
    assert!(binary);
    assert!(!ec718);
    assert_eq!(baud, 2_000_000);
}

#[test]
fn resolve_log_mode_bk72xx_text() {
    let (binary, ec718, baud) = resolve_log_mode("bk72xx", 921_600);
    assert!(!binary);
    assert!(!ec718);
    assert_eq!(baud, 921_600);
}

#[test]
fn timestamp_marker_layout() {
    let m = timestamp_marker(0x0102_0304_0506_0708, 5);
    assert_eq!(m, vec![0xFF, 0xFE, 0xAB, 0xCD, 8, 7, 6, 5, 4, 3, 2, 1, 5, 0, 0, 0]);
    let capped = timestamp_marker(0, u64::MAX);
    assert_eq!(&capped[12..], &[0xFF, 0xFF, 0xFF, 0xFF]);
}

#[test]
fn chunk_steps_mark_pauses_and_rotate_full_files() {
    assert_eq!(record_chunk_step(0, 3, 100), ChunkStep { marker: false, rotate: false, written: 100 });
    assert_eq!(record_chunk_step(100, 4, 10), ChunkStep { marker: true, rotate: false, written: 126 });
    assert_eq!(record_chunk_step(MAX_RECORDING_FILE_BYTES - 10, 0, 10), ChunkStep { marker: false, rotate: true, written: 0 });
    assert_eq!(record_chunk_step(MAX_RECORDING_FILE_BYTES - 11, 0, 10), ChunkStep { marker: false, rotate: false, written: MAX_RECORDING_FILE_BYTES - 1 });
}

#[test]
fn recording_names_are_file_safe() {
    assert_eq!(safe_port_name("/dev/ttyUSB0"), "_dev_ttyUSB0");
    assert_eq!(safe_port_name("COM6"), "COM6");
    assert_eq!(safe_port_name("a-b_c.d"), "a-b_c_d");
    assert_eq!(safe_port_name("串口1"), "串口1");
    assert_eq!(recording_file_name("20260101_120000", "COM6"), "ap_20260101_120000_COM6.bin");
}

#[test]
fn binary_log_port_auto_detects_ec718_only() {
    assert_eq!(binary_log_port("COM7", true, None), Ok("COM7".to_string()));
    assert_eq!(binary_log_port("auto", true, Some("/dev/ttyACM2".into())), Ok("/dev/ttyACM2".to_string()));
    assert_eq!(binary_log_port("auto", true, None), Err(LogPortError::NoEc718LogPort));
    assert_eq!(binary_log_port("auto", false, Some("x".into())), Err(LogPortError::NoDevice));
    assert_eq!(binary_log_baud(true, 2_000_000), 921_600);
    assert_eq!(binary_log_baud(false, 2_000_000), 2_000_000);
    assert_eq!(binary_log_baud(true, 115_200), 115_200);
}
