//! SF32LB58 download support: the automatic ROM bootloader entry settings
//! of CH340X-modified boards and the naming of the regions written.

use vstd::prelude::*;

verus! {

/// DTR/RTS levels and waits that put an SF32LB58 into its ROM bootloader on
/// boards whose CH340X drives BOOT0 and RESET.
#[derive(Debug, Clone, Copy, PartialEq, Eq, Structural)]
pub struct Sf32ResetConfig {
    /// DTR level while entering boot (false: low, BOOT0 raised).
    pub dtr_boot: bool,
    /// RTS level that asserts RESET (true: high, RTS# low).
    pub rts_reset: bool,
    /// Reset pulse width, ms.
    pub reset_ms: u64,
    /// Wait for the ROM bootloader after entering boot, ms.
    pub boot_wait_ms: u64,
    /// Wait for the MCU after leaving boot, ms.
    pub exit_wait_ms: u64,
}

impl Default for Sf32ResetConfig {
    /// DTR low, RTS high for reset, 100 ms pulse, 500 ms boot wait, 200 ms exit wait.
    fn default() -> (r: Self)
        ensures
            r == (Sf32ResetConfig {
                dtr_boot: false,
                rts_reset: true,
                reset_ms: 100,
                boot_wait_ms: 500,
                exit_wait_ms: 200,
            }),
    {
        Sf32ResetConfig { dtr_boot: false, rts_reset: true, reset_ms: 100, boot_wait_ms: 500, exit_wait_ms: 200 }
    }
}

/// One step of a DTR/RTS sequence: set DTR or RTS (true) to a level, then wait.
#[derive(Debug, Clone, Copy, PartialEq, Eq, Structural)]
pub struct SignalStep {
    pub rts: bool,
    pub level: bool,
    pub wait_ms: u64,
}

/// Entering the ROM bootloader: DTR to its boot level, RTS to reset for the
/// pulse width, RTS released, then the boot wait.
pub fn enter_boot_steps(cfg: &Sf32ResetConfig) -> (s: [SignalStep; 3])
    ensures
        s@ == seq![
            SignalStep { rts: false, level: cfg.dtr_boot, wait_ms: 0 },
            SignalStep { rts: true, level: cfg.rts_reset, wait_ms: cfg.reset_ms },
            SignalStep { rts: true, level: !cfg.rts_reset, wait_ms: cfg.boot_wait_ms },
        ],
{
    let s = [
        SignalStep { rts: false, level: cfg.dtr_boot, wait_ms: 0 },
        SignalStep { rts: true, level: cfg.rts_reset, wait_ms: cfg.reset_ms },
        SignalStep { rts: true, level: !cfg.rts_reset, wait_ms: cfg.boot_wait_ms },
    ];
    assert(s@ =~= seq![
        SignalStep { rts: false, level: cfg.dtr_boot, wait_ms: 0 },
        SignalStep { rts: true, level: cfg.rts_reset, wait_ms: cfg.reset_ms },
        SignalStep { rts: true, level: !cfg.rts_reset, wait_ms: cfg.boot_wait_ms },
    ]);
    s
}

/// Leaving the ROM bootloader: DTR back, RTS to reset for the pulse width,
/// RTS released, then the exit wait.
pub fn exit_boot_steps(cfg: &Sf32ResetConfig) -> (s: [SignalStep; 3])
    ensures
        s@ == seq![
            SignalStep { rts: false, level: !cfg.dtr_boot, wait_ms: 0 },
            SignalStep { rts: true, level: cfg.rts_reset, wait_ms: cfg.reset_ms },
            SignalStep { rts: true, level: !cfg.rts_reset, wait_ms: cfg.exit_wait_ms },
        ],
{
    let s = [
        SignalStep { rts: false, level: !cfg.dtr_boot, wait_ms: 0 },
        SignalStep { rts: true, level: cfg.rts_reset, wait_ms: cfg.reset_ms },
        SignalStep { rts: true, level: !cfg.rts_reset, wait_ms: cfg.exit_wait_ms },
    ];
    assert(s@ =~= seq![
        SignalStep { rts: false, level: !cfg.dtr_boot, wait_ms: 0 },
        SignalStep { rts: true, level: cfg.rts_reset, wait_ms: cfg.reset_ms },
        SignalStep { rts: true, level: !cfg.rts_reset, wait_ms: cfg.exit_wait_ms },
    ]);
    s
}

/// The regions of a full download, by address: bootloader, ftab and app
/// where the firmware gives them, then the script.
pub fn address_regions(bl: Option<u32>, ftab: Option<u32>, app: Option<u32>, script: u32) -> (v: Vec<(u32, String)>)
    ensures
        v@.map_values(|p: (u32, String)| (p.0, p.1@)) == (match bl { Some(a) => seq![(a, "bootloader"@)], None => Seq::empty() })
            + (match ftab { Some(a) => seq![(a, "ftab"@)], None => Seq::empty() })
            + (match app { Some(a) => seq![(a, "app"@)], None => Seq::empty() })
            + seq![(script, "script"@)],
{
    let mut v: Vec<(u32, String)> = Vec::new();
    if let Some(a) = bl {
        v.push((a, "bootloader".to_owned()));
    }
    if let Some(a) = ftab {
        v.push((a, "ftab".to_owned()));
    }
    if let Some(a) = app {
        v.push((a, "app".to_owned()));
    }
    v.push((script, "script".to_owned()));
    assert(v@.map_values(|p: (u32, String)| (p.0, p.1@)) =~= (match bl { Some(a) => seq![(a, "bootloader"@)], None => Seq::empty() })
        + (match ftab { Some(a) => seq![(a, "ftab"@)], None => Seq::empty() })
        + (match app { Some(a) => seq![(a, "app"@)], None => Seq::empty() })
        + seq![(script, "script"@)]);
    v
}

/// The name of the first region written at `addr`.
pub fn region_for(regions: &[(u32, String)], addr: u32) -> (r: Option<String>)
    ensures
        match r {
            Some(name) => exists|i: int|
                0 <= i < regions@.len() && (#[trigger] regions@[i]).0 == addr && name@ == regions@[i].1@
                    && forall|j: int| 0 <= j < i ==> (#[trigger] regions@[j]).0 != addr,
            None => forall|j: int| 0 <= j < regions@.len() ==> (#[trigger] regions@[j]).0 != addr,
        },
{
    let mut i: usize = 0;
    while i < regions.len()
        invariant
            i <= regions@.len(),
            forall|j: int| 0 <= j < i ==> (#[trigger] regions@[j]).0 != addr,
        decreases regions@.len() - i,
    {
        if regions[i].0 == addr {
            let name = regions[i].1.clone();
            assert(name@ == regions@[i as int].1@);
            return Some(name);
        }
        i = i + 1;
    }
    None
}

} // verus!
