//! Chip families the tools know.

use vstd::prelude::*;

verus! {

/// A chip family, as named by the firmware description's chip type.
#[derive(Debug, Clone, Copy, PartialEq, Eq, Structural)]
pub enum ChipFamily {
    /// BK7258 / Air8101.
    Bk72xx,
    /// XT804 / Air6208 / Air101 / Air103 / Air601.
    Xt804,
    /// EC718 / EC7xx / Air8000 / Air780E series.
    Ec718,
    /// CCM4211 / Air1601 / Air1602.
    Ccm4211,
    /// SF32LB58.
    Sf32lb58,
    /// Air6201 (external SPI flash).
    Air6201,
    /// RDA8910 / Air724UG.
    Rda8910,
    Unknown,
}

} // verus!
