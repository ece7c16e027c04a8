//! Read-only state classification for display.
//!
//! Rendering itself — sprites, materials, bars — lives with the engine;
//! the core only answers what a display should show: the health ratio and
//! which colour band it falls in.

use vstd::prelude::*;

verus! {

use crate::HealthComponent;

/// Ratio thresholds, in thousandths: three quarters and one quarter.
pub const HEALTH_BAND_HIGH: i64 = 750;

pub const HEALTH_BAND_MEDIUM: i64 = 250;

/// Upper bound on a health value fed to the ratio, in thousandths of a
/// hit point.
pub const HEALTH_RATIO_LIMIT: i64 = 1_000_000_000_000;

/// The colour band of a health bar.
#[derive(Clone, Copy, Debug, PartialEq, Eq, Structural)]
pub enum HealthBand {
    High,
    Medium,
    Low,
}

/// Current over maximum health, in thousandths, truncated toward zero;
/// negative while a unit's health is below zero.
pub open spec fn spec_health_ratio_millis(current: i64, max: i64) -> int {
    if current >= 0 {
        (current * 1000) / (max as int)
    } else {
        -(((-current) * 1000) / (max as int))
    }
}

/// Which band a per-mill health ratio falls in: high from three quarters
/// up, medium from one quarter up, low below.
pub open spec fn spec_health_band(ratio_millis: i64) -> HealthBand {
    if ratio_millis >= HEALTH_BAND_HIGH {
        HealthBand::High
    } else if ratio_millis >= HEALTH_BAND_MEDIUM {
        HealthBand::Medium
    } else {
        HealthBand::Low
    }
}

impl HealthComponent {
    /// Current over maximum health, in thousandths.
    pub fn ratio(&self) -> (r: i64)
        requires
            1 <= self.max_health,
            -HEALTH_RATIO_LIMIT <= self.current_health <= HEALTH_RATIO_LIMIT,
        ensures
            r == spec_health_ratio_millis(self.current_health, self.max_health),
    {
        if self.current_health >= 0 {
            let wide: i128 = (self.current_health as i128 * 1000) / (self.max_health as i128);
            wide as i64
        } else {
            let wide: i128 = ((-(self.current_health as i128)) * 1000) / (self.max_health as i128);
            -(wide as i64)
        }
    }
}

/// The colour band for a per-mill health ratio.
pub fn health_band(ratio_millis: i64) -> (r: HealthBand)
    ensures
        r == spec_health_band(ratio_millis),
{
    if ratio_millis >= HEALTH_BAND_HIGH {
        HealthBand::High
    } else if ratio_millis >= HEALTH_BAND_MEDIUM {
        HealthBand::Medium
    } else {
        HealthBand::Low
    }
}

} // verus!
