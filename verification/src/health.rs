//! The GPU lifecycle as the health score drives it.
//!
//! The composite score is a floating-point computation outside this crate; it hands in
//! where the score stands against the three configured thresholds.

use vstd::prelude::*;
use crate::types::{Gpu, GpuView, GpuStatus};

verus! {

/// Where a health score stands against the thresholds.
#[derive(Clone, Copy, Debug)]
pub struct ScoreBands {
    /// score >= healthy threshold
    pub at_least_healthy: bool,
    /// score >= degraded threshold
    pub at_least_degraded: bool,
    /// score >= at-risk threshold
    pub at_least_at_risk: bool,
}

/// The status a score maps to, the first band it reaches.
pub open spec fn status_for(b: ScoreBands) -> GpuStatus {
    if b.at_least_healthy {
        GpuStatus::Healthy
    } else if b.at_least_degraded {
        GpuStatus::Degraded
    } else if b.at_least_at_risk {
        GpuStatus::AtRisk
    } else {
        GpuStatus::Critical
    }
}

/// A health evaluation: a quarantined GPU keeps its status; any other takes the status of its
/// score.
pub open spec fn evaluated(g: GpuView, b: ScoreBands) -> GpuView {
    if g.status == GpuStatus::Quarantined { g } else { GpuView { status: status_for(b), ..g } }
}

pub struct HealthEngine;

impl HealthEngine {
    /// The status a score maps to.
    pub fn score_to_status(bands: &ScoreBands) -> (s: GpuStatus)
        ensures
            s == status_for(*bands),
    {
        if bands.at_least_healthy {
            GpuStatus::Healthy
        } else if bands.at_least_degraded {
            GpuStatus::Degraded
        } else if bands.at_least_at_risk {
            GpuStatus::AtRisk
        } else {
            GpuStatus::Critical
        }
    }

    /// Applies a health evaluation to the GPU's status; quarantine is kept.
    pub fn evaluate_gpu(gpu: &mut Gpu, bands: &ScoreBands)
        ensures
            final(gpu)@ == evaluated(old(gpu)@, *bands),
    {
        match gpu.status {
            GpuStatus::Quarantined => {},
            _ => {
                gpu.status = Self::score_to_status(bands);
            },
        }
    }
}

} // verus!

verus! {

/// Quarantine is sticky: a health evaluation never lifts it, whatever the score.
pub proof fn law_quarantine_sticky(g: GpuView, b: ScoreBands)
    requires
        g.status == GpuStatus::Quarantined,
    ensures
        evaluated(g, b) == g,
{
}

/// A health evaluation never quarantines: a GPU that was not quarantined takes the status of its
/// score, one of the four score bands.
pub proof fn law_evaluation_never_quarantines(g: GpuView, b: ScoreBands)
    requires
        g.status != GpuStatus::Quarantined,
    ensures
        evaluated(g, b).status == status_for(b),
        evaluated(g, b).status != GpuStatus::Quarantined,
        evaluated(g, b) == (GpuView { status: status_for(b), ..g }),
{
}

/// The bands are ordered: a score in a better band maps to a better status.
pub proof fn law_status_order(b: ScoreBands)
    ensures
        status_for(b) == GpuStatus::Healthy <==> b.at_least_healthy,
        status_for(b) == GpuStatus::Critical <==> !b.at_least_healthy && !b.at_least_degraded && !b.at_least_at_risk,
{
}

} // verus!
