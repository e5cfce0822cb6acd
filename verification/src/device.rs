//! Device control decisions: which serial port a command means, and how
//! each chip family is rebooted or forced into its bootloader.

use vstd::prelude::*;
use vstd::utf8::encode_utf8;
use crate::chip::ChipFamily;
use crate::text::{lemma_trim_idempotent, str_trim, trimmed};

verus! {

/// Pulse width of the generic RTS+DTR reboot, in milliseconds.
pub const UART_REBOOT_PULSE_MS: u64 = 500;

/// ASCII letters fold to lower case; other bytes stay.
pub open spec fn ascii_lower(b: u8) -> u8 {
    if 0x41 <= b <= 0x5A { (b + 32) as u8 } else { b }
}

/// Equality ignoring ASCII case (`eq_ignore_ascii_case`).
pub open spec fn eq_ignore_ascii_case(a: Seq<u8>, b: Seq<u8>) -> bool {
    a.len() == b.len() && forall|i: int| 0 <= i < a.len() ==> ascii_lower(#[trigger] a[i]) == ascii_lower(b[i])
}

/// Compares two byte strings ignoring ASCII case.
pub fn bytes_eq_ignore_ascii_case(a: &[u8], b: &[u8]) -> (r: bool)
    ensures
        r == eq_ignore_ascii_case(a@, b@),
{
    if a.len() != b.len() {
        return false;
    }
    let mut i: usize = 0;
    while i < a.len()
        invariant
            i <= a@.len(),
            a@.len() == b@.len(),
            forall|k: int| 0 <= k < i ==> ascii_lower(#[trigger] a@[k]) == ascii_lower(b@[k]),
        decreases a@.len() - i,
    {
        let x = a[i];
        let y = b[i];
        let lx = if x >= 0x41 && x <= 0x5A { x + 32 } else { x };
        let ly = if y >= 0x41 && y <= 0x5A { y + 32 } else { y };
        if lx != ly {
            return false;
        }
        i = i + 1;
    }
    true
}

/// The port a command means: blank and "auto" (any case) mean none given.
pub open spec fn normalized_port(port: Option<Seq<char>>) -> Option<Seq<char>> {
    match port {
        None => None,
        Some(p) => {
            let t = trimmed(p);
            if t.len() == 0 || eq_ignore_ascii_case(encode_utf8(t), encode_utf8("auto"@)) {
                None
            } else {
                Some(t)
            }
        },
    }
}

/// Trims a port name; an empty name or "auto" counts as no port. A port
/// it returns normalizes to itself.
pub fn normalize_serial_port<'a>(port: Option<&'a str>) -> (r: Option<&'a str>)
    ensures
        match r {
            Some(s) => normalized_port(match port { Some(p) => Some(p@), None => None }) == Some(s@),
            None => normalized_port(match port { Some(p) => Some(p@), None => None }) is None,
        },
        match r {
            Some(s) => normalized_port(Some(s@)) == Some(s@),
            None => normalized_port(None) is None,
        },
{
    match port {
        None => None,
        Some(p) => {
            let t = str_trim(p);
            proof {
                lemma_trim_idempotent(p@);
            }
            if t.is_empty() {
                return None;
            }
            if bytes_eq_ignore_ascii_case(t.as_bytes(), "auto".as_bytes()) {
                None
            } else {
                Some(t)
            }
        },
    }
}

/// How a device is rebooted.
#[derive(Debug, Clone, Copy, PartialEq, Eq, Structural)]
pub enum RebootMethod {
    /// Over the module's USB command/log port.
    Ec718At,
    /// An RTS+DTR pulse on the given serial port.
    UartRtsDtr,
}

/// EC718 modules reboot over USB; every other family by an RTS+DTR pulse.
pub fn select_reboot_method(family: ChipFamily, _port: Option<&str>) -> (r: RebootMethod)
    ensures
        r == if family == ChipFamily::Ec718 { RebootMethod::Ec718At } else { RebootMethod::UartRtsDtr },
{
    match family {
        ChipFamily::Ec718 => RebootMethod::Ec718At,
        _ => RebootMethod::UartRtsDtr,
    }
}

/// Why a device command cannot run.
#[derive(Debug, Clone, Copy, PartialEq, Eq, Structural)]
pub enum DeviceError {
    /// The family needs an explicit serial port and none was given.
    PortRequired(ChipFamily),
}

/// What forcing a device into its bootloader does.
#[derive(Debug, Clone, PartialEq, Eq)]
pub enum BootEntry {
    /// The five-phase DTR+RTS pulse of BK72xx on this port.
    Bk7258(String),
    /// The DTR/RTS sequence of XT804 on this port.
    Xt804(String),
    /// AT+ECRST and the DIAG boot frame on this port, or on the detected
    /// command port when none is given.
    Ec718(Option<String>),
    /// The ISP entry pulse of CCM4211 on this port.
    Ccm4211(String),
    /// SF32LB58 can only be entered by hand; print the instructions.
    Sf32Manual,
    /// The generic RTS+DTR pulse on this port.
    UartRtsDtr(String),
}

/// The port names of a boot entry, as plain values.
pub open spec fn boot_entry_view(e: BootEntry) -> (int, Option<Seq<char>>) {
    match e {
        BootEntry::Bk7258(p) => (0, Some(p@)),
        BootEntry::Xt804(p) => (1, Some(p@)),
        BootEntry::Ec718(p) => (2, match p { Some(s) => Some(s@), None => None }),
        BootEntry::Ccm4211(p) => (3, Some(p@)),
        BootEntry::Sf32Manual => (4, None),
        BootEntry::UartRtsDtr(p) => (5, Some(p@)),
    }
}

/// How a family enters its bootloader, given the (normalized) port.
pub open spec fn boot_entry_spec(family: ChipFamily, port: Option<Seq<char>>) -> Result<(int, Option<Seq<char>>), DeviceError> {
    match family {
        ChipFamily::Ec718 => Ok((2, port)),
        ChipFamily::Sf32lb58 => Ok((4, None)),
        _ => match port {
            None => Err(DeviceError::PortRequired(family)),
            Some(p) => Ok((
                match family {
                    ChipFamily::Bk72xx => 0int,
                    ChipFamily::Xt804 => 1int,
                    ChipFamily::Ccm4211 => 3int,
                    _ => 5int,
                },
                Some(p),
            )),
        },
    }
}

/// Decides how to force a device of `family` into its bootloader; every
/// family but EC718 and SF32LB58 needs a port.
pub fn device_enter_boot(port_name: Option<&str>, family: ChipFamily) -> (r: Result<BootEntry, DeviceError>)
    ensures
        match r {
            Ok(e) => boot_entry_spec(family, normalized_port(match port_name { Some(p) => Some(p@), None => None })) == Ok::<(int, Option<Seq<char>>), DeviceError>(boot_entry_view(e)),
            Err(err) => boot_entry_spec(family, normalized_port(match port_name { Some(p) => Some(p@), None => None })) == Err::<(int, Option<Seq<char>>), DeviceError>(err),
        },
{
    let port = normalize_serial_port(port_name);
    match family {
        ChipFamily::Ec718 => Ok(BootEntry::Ec718(
            match port {
                Some(p) => Some(p.to_owned()),
                None => None,
            },
        )),
        ChipFamily::Sf32lb58 => Ok(BootEntry::Sf32Manual),
        _ => match port {
            None => Err(DeviceError::PortRequired(family)),
            Some(p) => {
                let name = p.to_owned();
                match family {
                    ChipFamily::Bk72xx => Ok(BootEntry::Bk7258(name)),
                    ChipFamily::Xt804 => Ok(BootEntry::Xt804(name)),
                    ChipFamily::Ccm4211 => Ok(BootEntry::Ccm4211(name)),
                    _ => Ok(BootEntry::UartRtsDtr(name)),
                }
            },
        },
    }
}

/// What rebooting a device does.
#[derive(Debug, Clone, PartialEq, Eq)]
pub enum RebootPlan {
    /// Over the EC718 USB ports, starting with this port if one is given.
    Ec718(Option<String>),
    /// An RTS+DTR pulse on this port.
    UartRtsDtr(String),
}

/// Decides how to reboot a device: EC718 over USB, any other family by an
/// RTS+DTR pulse on the given port (which it then needs).
pub fn device_reboot(port_name: Option<&str>, family: ChipFamily) -> (r: Result<RebootPlan, DeviceError>)
    ensures
        ({
            let port = normalized_port(match port_name { Some(p) => Some(p@), None => None });
            match r {
                Ok(RebootPlan::Ec718(p)) => family == ChipFamily::Ec718 && port == match p { Some(s) => Some(s@), None => None },
                Ok(RebootPlan::UartRtsDtr(p)) => family != ChipFamily::Ec718 && port == Some(p@),
                Err(DeviceError::PortRequired(f)) => family != ChipFamily::Ec718 && port is None && f == family,
            }
        }),
{
    let port = normalize_serial_port(port_name);
    match select_reboot_method(family, port) {
        RebootMethod::Ec718At => Ok(RebootPlan::Ec718(
            match port {
                Some(p) => Some(p.to_owned()),
                None => None,
            },
        )),
        RebootMethod::UartRtsDtr => match port {
            Some(p) => Ok(RebootPlan::UartRtsDtr(p.to_owned())),
            None => Err(DeviceError::PortRequired(family)),
        },
    }
}

/// The port an EC718 reboot goes to: the given port, else the command
/// port, else the log port (the DIAG reboot); failing those the user port
/// (the AT reboot, flagged true).
pub fn ec718_reboot_target(
    given: Option<String>,
    cmd_port: Option<String>,
    log_port: Option<String>,
    user_port: Option<String>,
) -> (r: Option<(String, bool)>)
    ensures
        match r {
            Some((p, at)) => if given is Some {
                !at && p == given->0
            } else if cmd_port is Some {
                !at && p == cmd_port->0
            } else if log_port is Some {
                !at && p == log_port->0
            } else {
                at && user_port == Some(p)
            },
            None => given is None && cmd_port is None && log_port is None && user_port is None,
        },
{
    match given {
        Some(p) => Some((p, false)),
        None => match cmd_port {
            Some(p) => Some((p, false)),
            None => match log_port {
                Some(p) => Some((p, false)),
                None => match user_port {
                    Some(p) => Some((p, true)),
                    None => None,
                },
            },
        },
    }
}

/// The SOC log channel handshake sent before the DIAG reboot: 7E 00 00 7E.
pub fn ec718_diag_handshake() -> (f: [u8; 4])
    ensures
        f@ == seq![0x7Eu8, 0x00, 0x00, 0x7E],
{
    let f: [u8; 4] = [0x7E, 0x00, 0x00, 0x7E];
    assert(f@ =~= seq![0x7Eu8, 0x00, 0x00, 0x7E]);
    f
}

/// The DIAG reboot frame on the SOC log port: 7E 00 01 7E.
pub fn ec718_diag_reboot() -> (f: [u8; 4])
    ensures
        f@ == seq![0x7Eu8, 0x00, 0x01, 0x7E],
{
    let f: [u8; 4] = [0x7E, 0x00, 0x01, 0x7E];
    assert(f@ =~= seq![0x7Eu8, 0x00, 0x01, 0x7E]);
    f
}

} // verus!
