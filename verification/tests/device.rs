use luatos_cli::chip::ChipFamily;
use luatos_cli::device::{
    device_enter_boot, device_reboot, ec718_diag_handshake, ec718_diag_reboot, ec718_reboot_target,
    normalize_serial_port, select_reboot_method, BootEntry, DeviceError, RebootMethod, RebootPlan,
};

#[test]
fn auto_and_empty_port_normalize_to_none() {
    assert_eq!(normalize_serial_port(None), None);
    assert_eq!(normalize_serial_port(Some("")), None);
    assert_eq!(normalize_serial_port(Some("  ")), None);
    assert_eq!(normalize_serial_port(Some("auto")), None);
    assert_eq!(normalize_serial_port(Some("AUTO")), None);
    assert_eq!(normalize_serial_port(Some(" COM6 ")), Some("COM6"));
}

#[test]
fn reboot_method_follows_chip_family() {
    // ec718
    assert_eq!(select_reboot_method(ChipFamily::Ec718, None), RebootMethod::Ec718At);
    // air8000
    assert_eq!(select_reboot_method(ChipFamily::Ec718, Some("auto")), RebootMethod::Ec718At);
    // air780epm
    assert_eq!(select_reboot_method(ChipFamily::Ec718, Some("COM8")), RebootMethod::Ec718At);
    // air8101
    assert_eq!(select_reboot_method(ChipFamily::Bk72xx, Some("COM6")), RebootMethod::UartRtsDtr);
    // bk72xx
    assert_eq!(select_reboot_method(ChipFamily::Bk72xx, Some("COM6")), RebootMethod::UartRtsDtr);
    // an empty chip name
    assert_eq!(select_reboot_method(ChipFamily::Unknown, Some("COM6")), RebootMethod::UartRtsDtr);
}

#[test]
fn ec718_usb_soc_reboot_frame_is_diag_cmd1_not_boot() {
    assert_eq!(ec718_diag_handshake(), *b"\x7e\x00\x00\x7e");
    assert_eq!(ec718_diag_reboot(), *b"\x7e\x00\x01\x7e");
    assert_ne!(ec718_diag_reboot(), *b"\x7e\x00\x02\x7e");
}

#[test]
fn boot_entry_needs_port_except_ec718_and_sf32() {
    assert_eq!(device_enter_boot(Some("COM3"), ChipFamily::Bk72xx), Ok(BootEntry::Bk7258("COM3".into())));
    assert_eq!(device_enter_boot(Some("auto"), ChipFamily::Ec718), Ok(BootEntry::Ec718(None)));
    assert_eq!(device_enter_boot(None, ChipFamily::Sf32lb58), Ok(BootEntry::Sf32Manual));
    assert_eq!(device_enter_boot(None, ChipFamily::Xt804), Err(DeviceError::PortRequired(ChipFamily::Xt804)));
    assert_eq!(device_enter_boot(Some("COM1"), ChipFamily::Air6201), Ok(BootEntry::UartRtsDtr("COM1".into())));
    assert_eq!(device_reboot(Some(" COM2 "), ChipFamily::Ccm4211), Ok(RebootPlan::UartRtsDtr("COM2".into())));
    assert_eq!(device_reboot(None, ChipFamily::Ccm4211), Err(DeviceError::PortRequired(ChipFamily::Ccm4211)));
    assert_eq!(device_reboot(None, ChipFamily::Ec718), Ok(RebootPlan::Ec718(None)));
}

#[test]
fn ec718_reboot_port_preference() {
    assert_eq!(ec718_reboot_target(None, Some("A".into()), Some("B".into()), None), Some(("A".into(), false)));
    assert_eq!(ec718_reboot_target(None, None, None, Some("U".into())), Some(("U".into(), true)));
    assert_eq!(ec718_reboot_target(None, None, None, None), None);
}
