//! LuatOS module flashing toolkit: wire formats, checksums, firmware
//! container parsing and the decisions of the command line front end.

pub mod bytes;
pub mod checksum;
pub mod text;
pub mod ccm4211;
pub mod ports;
pub mod rda8910;
pub mod ec718;
pub mod xt804;
pub mod bk7258;
pub mod air6201;
pub mod chip;
pub mod device;
pub mod sf32lb5x;
pub mod cmd_fota;
pub mod cmd_doctor;
pub mod cmd_flash;
pub mod cmd_guide;
pub mod cmd_log;
pub mod cmd_project;
pub mod cmd_project_wizard;
pub mod cmd_trun;
pub mod event;
pub mod reset_args;
