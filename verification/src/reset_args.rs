//! Serial reset options: pin levels, the SF32LB58 automatic reset
//! settings they make, and the RTS reset pulse before an operation.

use vstd::prelude::*;
use crate::sf32lb5x::Sf32ResetConfig;

verus! {

/// A DTR/RTS pin level.
#[derive(Debug, Clone, Copy, PartialEq, Eq, Structural)]
pub enum SignalLevel {
    High,
    Low,
}

impl SignalLevel {
    /// High is true.
    pub fn as_bool(self) -> (r: bool)
        ensures
            r == (self == SignalLevel::High),
    {
        match self {
            SignalLevel::High => true,
            SignalLevel::Low => false,
        }
    }
}

/// The SF32LB58 automatic reset options.
#[derive(Debug, Clone, Copy, PartialEq, Eq, Structural)]
pub struct Sf32ResetArgs {
    /// Drive DTR/RTS into and out of the ROM bootloader.
    pub auto_reset: bool,
    /// DTR level while entering boot.
    pub dtr_boot: SignalLevel,
    /// RTS level that asserts reset.
    pub sf32_rts_reset: SignalLevel,
    /// Reset pulse width, ms.
    pub reset_ms: u64,
    /// Wait after entering boot, ms.
    pub sf32_boot_wait_ms: u64,
}

impl Sf32ResetArgs {
    /// The reset settings, when automatic reset is asked for; the exit wait
    /// keeps its default.
    pub fn to_reset_config(&self) -> (r: Option<Sf32ResetConfig>)
        ensures
            r == if !self.auto_reset {
                None
            } else {
                Some(
                    Sf32ResetConfig {
                        dtr_boot: self.dtr_boot == SignalLevel::High,
                        rts_reset: self.sf32_rts_reset == SignalLevel::High,
                        reset_ms: self.reset_ms,
                        boot_wait_ms: self.sf32_boot_wait_ms,
                        exit_wait_ms: 200,
                    },
                )
            },
    {
        if !self.auto_reset {
            return None;
        }
        let d = Sf32ResetConfig::default();
        Some(
            Sf32ResetConfig {
                dtr_boot: self.dtr_boot.as_bool(),
                rts_reset: self.sf32_rts_reset.as_bool(),
                reset_ms: self.reset_ms,
                boot_wait_ms: self.sf32_boot_wait_ms,
                exit_wait_ms: d.exit_wait_ms,
            },
        )
    }
}

/// Reset before an operation: an RTS pulse, then a wait for the device to
/// boot.
#[derive(Debug, Clone, Copy, PartialEq, Eq, Structural)]
pub struct ResetArgs {
    /// Send an RTS reset pulse first.
    pub rts_reset: bool,
    /// Pulse width, ms.
    pub rts_reset_ms: u64,
    /// Wait after the pulse for the device to boot, ms.
    pub boot_wait_ms: u64,
}

impl ResetArgs {
    /// The pulse width and boot wait to apply, when a reset is asked for.
    pub fn pulse_plan(&self) -> (r: Option<(u64, u64)>)
        ensures
            r == if self.rts_reset { Some((self.rts_reset_ms, self.boot_wait_ms)) } else { None::<(u64, u64)> },
    {
        if !self.rts_reset {
            return None;
        }
        Some((self.rts_reset_ms, self.boot_wait_ms))
    }
}

} // verus!
