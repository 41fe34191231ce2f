//! Chaos injection: the ten failure scenarios, their canonical names, and the
//! per-tick degradation each one applies to a GPU.
//!
//! A tick changes the GPU's counters, XID code, clocks and throttle state here; what it
//! does to the floating-point readings (performance ratio, utilisation, memory
//! utilisation, thermal resistance) is returned as [`FloatEffects`] for the physics model
//! to apply.

use vstd::prelude::*;
use rand::Rng;
use crate::types::{Gpu, GpuView};

verus! {

#[derive(Clone, Copy, Debug, PartialEq, Eq, Structural)]
pub enum ChaosScenario {
    GpuEccFailure,
    GpuThermalFailure,
    GpuXidError,
    GpuMemoryDegradation,
    NvlinkDegradation,
    NetworkPacketLoss,
    RdmaFailure,
    StorageLatency,
    DriverCrash,
    PerformanceRegression,
}

/// The canonical (upper snake case) name of a scenario.
pub open spec fn scenario_name(s: ChaosScenario) -> Seq<char> {
    match s {
        ChaosScenario::GpuEccFailure => "GPU_ECC_FAILURE"@,
        ChaosScenario::GpuThermalFailure => "GPU_THERMAL_FAILURE"@,
        ChaosScenario::GpuXidError => "GPU_XID_ERROR"@,
        ChaosScenario::GpuMemoryDegradation => "GPU_MEMORY_DEGRADATION"@,
        ChaosScenario::NvlinkDegradation => "NVLINK_DEGRADATION"@,
        ChaosScenario::NetworkPacketLoss => "NETWORK_PACKET_LOSS"@,
        ChaosScenario::RdmaFailure => "RDMA_FAILURE"@,
        ChaosScenario::StorageLatency => "STORAGE_LATENCY"@,
        ChaosScenario::DriverCrash => "DRIVER_CRASH"@,
        ChaosScenario::PerformanceRegression => "PERFORMANCE_REGRESSION"@,
    }
}

/// The scenario whose canonical name is exactly `s`.
pub open spec fn scenario_named(s: Seq<char>) -> Option<ChaosScenario> {
    if s == "GPU_ECC_FAILURE"@ { Some(ChaosScenario::GpuEccFailure) }
    else if s == "GPU_THERMAL_FAILURE"@ { Some(ChaosScenario::GpuThermalFailure) }
    else if s == "GPU_XID_ERROR"@ { Some(ChaosScenario::GpuXidError) }
    else if s == "GPU_MEMORY_DEGRADATION"@ { Some(ChaosScenario::GpuMemoryDegradation) }
    else if s == "NVLINK_DEGRADATION"@ { Some(ChaosScenario::NvlinkDegradation) }
    else if s == "NETWORK_PACKET_LOSS"@ { Some(ChaosScenario::NetworkPacketLoss) }
    else if s == "RDMA_FAILURE"@ { Some(ChaosScenario::RdmaFailure) }
    else if s == "STORAGE_LATENCY"@ { Some(ChaosScenario::StorageLatency) }
    else if s == "DRIVER_CRASH"@ { Some(ChaosScenario::DriverCrash) }
    else if s == "PERFORMANCE_REGRESSION"@ { Some(ChaosScenario::PerformanceRegression) }
    else { None }
}

/// What `str::to_uppercase` returns for `s` (the Unicode upper-case mapping).
pub uninterp spec fn uppercase_of(s: Seq<char>) -> Seq<char>;

/// Text made only of upper-case ASCII letters and underscores.
pub open spec fn upper_snake(s: Seq<char>) -> bool {
    forall|i: int| 0 <= i < s.len() ==> ('A' <= #[trigger] s[i] <= 'Z' || s[i] == '_')
}

/// Text whose characters are all ASCII.
pub open spec fn ascii_text(s: Seq<char>) -> bool {
    forall|i: int| 0 <= i < s.len() ==> (#[trigger] s[i] as int) < 128
}

/// The ASCII upper-case form of a character: `a`–`z` become `A`–`Z`, anything else stays.
pub open spec fn ascii_upper_char(c: char) -> char {
    if 'a' <= c <= 'z' { ((c as int) - 32) as char } else { c }
}

/// The ASCII lower-case form of a character: `A`–`Z` become `a`–`z`, anything else stays.
pub open spec fn ascii_lower_char(c: char) -> char {
    if 'A' <= c <= 'Z' { ((c as int) + 32) as char } else { c }
}

pub open spec fn ascii_upper(s: Seq<char>) -> Seq<char> {
    Seq::new(s.len(), |i: int| ascii_upper_char(s[i]))
}

pub open spec fn ascii_lower(s: Seq<char>) -> Seq<char> {
    Seq::new(s.len(), |i: int| ascii_lower_char(s[i]))
}

/// `str::to_uppercase` (std): the Unicode upper-case mapping of `s`, named `uppercase_of`.
/// On ASCII text the mapping is the ASCII one (`a`–`z` to `A`–`Z`, every other ASCII
/// character unchanged, one character for one); nothing more is stated of it.
#[verifier::external_body]
fn to_uppercase(s: &str) -> (r: String)
    ensures
        r@ == uppercase_of(s@),
        ascii_text(s@) ==> r@ == ascii_upper(s@),
{
    s.to_uppercase()
}

/// The scenario a name denotes regardless of case: ASCII text is compared in its ASCII
/// upper-case form, other text in its Unicode upper-case form.
pub open spec fn named_scenario(s: Seq<char>) -> Option<ChaosScenario> {
    if ascii_text(s) { scenario_named(ascii_upper(s)) } else { scenario_named(uppercase_of(s)) }
}

/// Upper snake case text is ASCII and is its own upper-case form.
pub proof fn lemma_upper_snake_is_upper(s: Seq<char>)
    requires
        upper_snake(s),
    ensures
        ascii_text(s),
        ascii_upper(s) == s,
{
    assert forall|i: int| 0 <= i < s.len() implies (#[trigger] s[i] as int) < 128 by {
        assert('A' <= s[i] <= 'Z' || s[i] == '_');
    }
    assert(ascii_upper(s) =~= s);
}

impl ChaosScenario {
    /// The scenario named by `s`, compared without regard to case (through `to_uppercase`).
    pub fn parse(s: &str) -> (r: Option<Self>)
        ensures
            r == scenario_named(uppercase_of(s@)),
            r == named_scenario(s@),
            upper_snake(s@) ==> r == scenario_named(s@),
    {
        let upper = to_uppercase(s);
        proof {
            if upper_snake(s@) {
                lemma_upper_snake_is_upper(s@);
            }
        }
        Self::from_canonical_name(&upper)
    }

    /// The scenario whose canonical name is exactly `name`.
    pub fn from_canonical_name(name: &String) -> (r: Option<Self>)
        ensures
            r == scenario_named(name@),
    {
        if *name == String::from_str("GPU_ECC_FAILURE") { Some(ChaosScenario::GpuEccFailure) }
        else if *name == String::from_str("GPU_THERMAL_FAILURE") { Some(ChaosScenario::GpuThermalFailure) }
        else if *name == String::from_str("GPU_XID_ERROR") { Some(ChaosScenario::GpuXidError) }
        else if *name == String::from_str("GPU_MEMORY_DEGRADATION") { Some(ChaosScenario::GpuMemoryDegradation) }
        else if *name == String::from_str("NVLINK_DEGRADATION") { Some(ChaosScenario::NvlinkDegradation) }
        else if *name == String::from_str("NETWORK_PACKET_LOSS") { Some(ChaosScenario::NetworkPacketLoss) }
        else if *name == String::from_str("RDMA_FAILURE") { Some(ChaosScenario::RdmaFailure) }
        else if *name == String::from_str("STORAGE_LATENCY") { Some(ChaosScenario::StorageLatency) }
        else if *name == String::from_str("DRIVER_CRASH") { Some(ChaosScenario::DriverCrash) }
        else if *name == String::from_str("PERFORMANCE_REGRESSION") { Some(ChaosScenario::PerformanceRegression) }
        else { None }
    }

    /// The canonical name of the scenario.
    pub fn as_str(&self) -> (s: &'static str)
        ensures
            s@ == scenario_name(*self),
    {
        match self {
            ChaosScenario::GpuEccFailure => "GPU_ECC_FAILURE",
            ChaosScenario::GpuThermalFailure => "GPU_THERMAL_FAILURE",
            ChaosScenario::GpuXidError => "GPU_XID_ERROR",
            ChaosScenario::GpuMemoryDegradation => "GPU_MEMORY_DEGRADATION",
            ChaosScenario::NvlinkDegradation => "NVLINK_DEGRADATION",
            ChaosScenario::NetworkPacketLoss => "NETWORK_PACKET_LOSS",
            ChaosScenario::RdmaFailure => "RDMA_FAILURE",
            ChaosScenario::StorageLatency => "STORAGE_LATENCY",
            ChaosScenario::DriverCrash => "DRIVER_CRASH",
            ChaosScenario::PerformanceRegression => "PERFORMANCE_REGRESSION",
        }
    }
}

// ---------------------------------------------------------------------------
// Effects on the floating-point readings

/// What a tick does to the performance ratio, in hundredths (35 stands for 0.35).
#[derive(Clone, Copy, Debug, PartialEq, Eq, Structural)]
pub enum PerformanceEffect {
    Unchanged,
    /// performance = value / 100
    SetTo(u32),
    /// performance = max(performance - step / 100, floor / 100)
    DecreaseWithFloor { step: u32, floor: u32 },
}

/// What a tick does to the readings kept as floating-point numbers.
#[derive(Clone, Copy, Debug, PartialEq, Eq, Structural)]
pub struct FloatEffects {
    pub performance: PerformanceEffect,
    /// utilization = value (percent)
    pub utilization_pct: Option<u32>,
    /// thermal resistance = min(thermal resistance + 0.015, 0.25)
    pub thermal_resistance_creep: bool,
    /// memory utilization = min(memory utilization + 10, 100)
    pub memory_utilization_step: bool,
}

pub open spec fn no_float_effect() -> FloatEffects {
    FloatEffects {
        performance: PerformanceEffect::Unchanged,
        utilization_pct: None,
        thermal_resistance_creep: false,
        memory_utilization_step: false,
    }
}

pub open spec fn perf_effect(p: PerformanceEffect) -> FloatEffects {
    FloatEffects { performance: p, ..no_float_effect() }
}

// ---------------------------------------------------------------------------
// Ticks

/// The random draws of one tick: a count (or, for XID errors, an index into the XID codes)
/// and a coin.
#[derive(Clone, Copy, Debug)]
pub struct ChaosDraw {
    pub count: u64,
    pub coin: bool,
}

/// The range each scenario draws its count from.
pub open spec fn draw_in_range(sc: ChaosScenario, d: ChaosDraw) -> bool {
    match sc {
        ChaosScenario::GpuEccFailure => 3 <= d.count < 8,
        ChaosScenario::GpuXidError => d.count < 5,
        ChaosScenario::NvlinkDegradation => 4 <= d.count < 12,
        ChaosScenario::NetworkPacketLoss => 2 <= d.count < 6,
        ChaosScenario::RdmaFailure => 5 <= d.count < 15,
        _ => true,
    }
}

/// The XID codes an XID-error tick picks from.
pub open spec fn xid_code(i: u64) -> u32 {
    if i == 0 { 31 } else if i == 1 { 43 } else if i == 2 { 62 } else if i == 3 { 79 } else { 92 }
}

/// One tick of scenario `sc` with draws `d` on GPU `g`; `hot` is whether the temperature
/// reading is at least 92 °C.
pub open spec fn tick_effect(g: GpuView, sc: ChaosScenario, d: ChaosDraw, hot: bool) -> (GpuView, FloatEffects) {
    match sc {
        ChaosScenario::GpuEccFailure => {
            let sbe = g.ecc_sbe_total + d.count;
            let g1 = GpuView {
                ecc_sbe_total: sbe as u64,
                ecc_window_errors: (g.ecc_window_errors + d.count) as u64,
                ..g
            };
            if sbe > 40 {
                (GpuView {
                    ecc_dbe_total: (g.ecc_dbe_total + 1) as u64,
                    latest_xid: 62,
                    xid_window_events: (g.xid_window_events + 1) as u32,
                    ..g1
                }, perf_effect(PerformanceEffect::SetTo(0)))
            } else {
                (g1, no_float_effect())
            }
        },
        ChaosScenario::GpuThermalFailure => {
            let fx = FloatEffects { thermal_resistance_creep: true, ..no_float_effect() };
            if hot {
                (GpuView { is_throttled: true, clock_throttle: 1, sm_clock: 500, ..g },
                    FloatEffects { performance: PerformanceEffect::SetTo(35), ..fx })
            } else {
                (g, fx)
            }
        },
        ChaosScenario::GpuXidError => (
            GpuView { latest_xid: xid_code(d.count), xid_window_events: (g.xid_window_events + 1) as u32, ..g },
            perf_effect(PerformanceEffect::SetTo(20)),
        ),
        ChaosScenario::GpuMemoryDegradation => (g, FloatEffects {
            memory_utilization_step: true,
            ..perf_effect(PerformanceEffect::DecreaseWithFloor { step: 15, floor: 30 })
        }),
        ChaosScenario::NvlinkDegradation => {
            let n = g.nvlink_errors + d.count;
            let g1 = GpuView { nvlink_errors: n as u64, ..g };
            let fx = perf_effect(PerformanceEffect::DecreaseWithFloor { step: 10, floor: 40 });
            if n > 50 {
                (GpuView { latest_xid: 92, xid_window_events: (g.xid_window_events + 1) as u32, ..g1 }, fx)
            } else {
                (g1, fx)
            }
        },
        ChaosScenario::NetworkPacketLoss => (
            GpuView { network_errors: (g.network_errors + d.count) as u64, ..g },
            perf_effect(PerformanceEffect::DecreaseWithFloor { step: 8, floor: 50 }),
        ),
        ChaosScenario::RdmaFailure => {
            let g1 = GpuView { network_errors: (g.network_errors + d.count) as u64, ..g };
            if d.coin {
                (g1, FloatEffects { utilization_pct: Some(0), ..perf_effect(PerformanceEffect::SetTo(10)) })
            } else {
                (g1, no_float_effect())
            }
        },
        ChaosScenario::StorageLatency => (g, FloatEffects {
            utilization_pct: Some(5),
            ..perf_effect(PerformanceEffect::DecreaseWithFloor { step: 20, floor: 20 })
        }),
        ChaosScenario::DriverCrash => (
            GpuView { sm_clock: 0, latest_xid: 79, xid_window_events: (g.xid_window_events + 1) as u32, ..g },
            FloatEffects { utilization_pct: Some(0), ..perf_effect(PerformanceEffect::SetTo(0)) },
        ),
        ChaosScenario::PerformanceRegression => (g, perf_effect(PerformanceEffect::SetTo(65))),
    }
}

/// The counters a tick of `sc` with draws `d` increments stay within their types.
pub open spec fn tick_fits(g: GpuView, sc: ChaosScenario, d: ChaosDraw) -> bool {
    match sc {
        ChaosScenario::GpuEccFailure => {
            &&& g.ecc_sbe_total + d.count <= u64::MAX
            &&& g.ecc_window_errors + d.count <= u64::MAX
            &&& g.ecc_sbe_total + d.count > 40 ==> g.ecc_dbe_total < u64::MAX && g.xid_window_events < u32::MAX
        },
        ChaosScenario::GpuXidError => g.xid_window_events < u32::MAX,
        ChaosScenario::NvlinkDegradation => {
            &&& g.nvlink_errors + d.count <= u64::MAX
            &&& g.nvlink_errors + d.count > 50 ==> g.xid_window_events < u32::MAX
        },
        ChaosScenario::NetworkPacketLoss => g.network_errors + d.count <= u64::MAX,
        ChaosScenario::RdmaFailure => g.network_errors + d.count <= u64::MAX,
        ChaosScenario::DriverCrash => g.xid_window_events < u32::MAX,
        _ => true,
    }
}

/// Every tick of `sc` that its draws allow keeps the counters within their types.
pub open spec fn scenario_fits(g: GpuView, sc: ChaosScenario) -> bool {
    forall|d: ChaosDraw| draw_in_range(sc, d) ==> #[trigger] tick_fits(g, sc, d)
}

/// The scenario a GPU runs, as its stored name parses.
pub open spec fn active_scenario(g: GpuView) -> Option<ChaosScenario> {
    match g.active_chaos_scenario {
        Some(name) => named_scenario(name),
        None => None,
    }
}

/// Whether every tick of `sc` keeps the GPU's counters within their types.
pub fn scenario_fits_exec(gpu: &Gpu, sc: ChaosScenario) -> (b: bool)
    ensures
        b == scenario_fits(gpu@, sc),
{
    let g = gpu;
    let b = match sc {
        ChaosScenario::GpuEccFailure => {
            g.ecc_sbe_total <= u64::MAX - 7 && g.ecc_window_errors <= u64::MAX - 7
                && (g.ecc_sbe_total + 7 <= 40 || (g.ecc_dbe_total < u64::MAX && g.xid_window_events < u32::MAX))
        },
        ChaosScenario::GpuXidError => g.xid_window_events < u32::MAX,
        ChaosScenario::NvlinkDegradation => {
            g.nvlink_errors <= u64::MAX - 11 && (g.nvlink_errors + 11 <= 50 || g.xid_window_events < u32::MAX)
        },
        ChaosScenario::NetworkPacketLoss => g.network_errors <= u64::MAX - 5,
        ChaosScenario::RdmaFailure => g.network_errors <= u64::MAX - 14,
        ChaosScenario::DriverCrash => g.xid_window_events < u32::MAX,
        _ => true,
    };
    proof {
        let top = match sc {
            ChaosScenario::GpuEccFailure => 7u64,
            ChaosScenario::GpuXidError => 4u64,
            ChaosScenario::NvlinkDegradation => 11u64,
            ChaosScenario::NetworkPacketLoss => 5u64,
            ChaosScenario::RdmaFailure => 14u64,
            _ => 0u64,
        };
        let w = ChaosDraw { count: top, coin: false };
        assert(draw_in_range(sc, w));
        if !b {
            assert(!tick_fits(gpu@, sc, w));
        }
    }
    b
}

/// `rand::Rng::gen_range(lo..hi)` on `rand::thread_rng()`: some value of the half-open
/// range (the range is not empty, so the call does not panic).
#[verifier::external_body]
fn random_below(lo: u64, hi: u64) -> (r: u64)
    requires
        lo < hi,
    ensures
        lo <= r < hi,
{
    rand::thread_rng().gen_range(lo..hi)
}

/// `rand::Rng::gen_ratio(1, 2)` on `rand::thread_rng()`: a fair coin. Nothing is stated of
/// the outcome.
#[verifier::external_body]
fn random_coin() -> (b: bool) {
    rand::thread_rng().gen_ratio(1, 2)
}

pub struct ChaosEngine;

impl ChaosEngine {
    /// Starts the scenario on the GPU.
    pub fn inject(gpu: &mut Gpu, scenario: ChaosScenario)
        ensures
            final(gpu)@ == (GpuView { active_chaos_scenario: Some(scenario_name(scenario)), ..old(gpu)@ }),
    {
        gpu.active_chaos_scenario = Some(String::from_str(scenario.as_str()));
    }

    /// Ends any scenario: the throttle flag and the XID code are cleared (the thermal
    /// resistance and the performance ratio return to their baselines with the float readings).
    pub fn clear(gpu: &mut Gpu)
        ensures
            final(gpu)@ == (GpuView { active_chaos_scenario: None, is_throttled: false, latest_xid: 0, ..old(gpu)@ }),
    {
        gpu.active_chaos_scenario = None;
        gpu.is_throttled = false;
        gpu.latest_xid = 0;
    }

    /// One tick of scenario `sc` with the draws given.
    pub fn apply_tick_with(gpu: &mut Gpu, sc: ChaosScenario, d: ChaosDraw, temperature_at_least_92: bool) -> (fx: FloatEffects)
        requires
            draw_in_range(sc, d),
            tick_fits(old(gpu)@, sc, d),
        ensures
            (final(gpu)@, fx) == tick_effect(old(gpu)@, sc, d, temperature_at_least_92),
    {
        match sc {
            ChaosScenario::GpuEccFailure => {
                gpu.ecc_sbe_total = gpu.ecc_sbe_total + d.count;
                gpu.ecc_window_errors = gpu.ecc_window_errors + d.count;
                if gpu.ecc_sbe_total > 40 {
                    gpu.ecc_dbe_total = gpu.ecc_dbe_total + 1;
                    gpu.latest_xid = 62;
                    gpu.xid_window_events = gpu.xid_window_events + 1;
                    FloatEffects {
                        performance: PerformanceEffect::SetTo(0),
                        utilization_pct: None,
                        thermal_resistance_creep: false,
                        memory_utilization_step: false,
                    }
                } else {
                    FloatEffects {
                        performance: PerformanceEffect::Unchanged,
                        utilization_pct: None,
                        thermal_resistance_creep: false,
                        memory_utilization_step: false,
                    }
                }
            },
            ChaosScenario::GpuThermalFailure => {
                if temperature_at_least_92 {
                    gpu.is_throttled = true;
                    gpu.clock_throttle = 1;
                    gpu.sm_clock = 500;
                    FloatEffects {
                        performance: PerformanceEffect::SetTo(35),
                        utilization_pct: None,
                        thermal_resistance_creep: true,
                        memory_utilization_step: false,
                    }
                } else {
                    FloatEffects {
                        performance: PerformanceEffect::Unchanged,
                        utilization_pct: None,
                        thermal_resistance_creep: true,
                        memory_utilization_step: false,
                    }
                }
            },
            ChaosScenario::GpuXidError => {
                let codes: [u32; 5] = [31, 43, 62, 79, 92];
                gpu.latest_xid = codes[d.count as usize];
                gpu.xid_window_events = gpu.xid_window_events + 1;
                FloatEffects {
                    performance: PerformanceEffect::SetTo(20),
                    utilization_pct: None,
                    thermal_resistance_creep: false,
                    memory_utilization_step: false,
                }
            },
            ChaosScenario::GpuMemoryDegradation => {
                FloatEffects {
                    performance: PerformanceEffect::DecreaseWithFloor { step: 15, floor: 30 },
                    utilization_pct: None,
                    thermal_resistance_creep: false,
                    memory_utilization_step: true,
                }
            },
            ChaosScenario::NvlinkDegradation => {
                gpu.nvlink_errors = gpu.nvlink_errors + d.count;
                if gpu.nvlink_errors > 50 {
                    gpu.latest_xid = 92;
                    gpu.xid_window_events = gpu.xid_window_events + 1;
                }
                FloatEffects {
                    performance: PerformanceEffect::DecreaseWithFloor { step: 10, floor: 40 },
                    utilization_pct: None,
                    thermal_resistance_creep: false,
                    memory_utilization_step: false,
                }
            },
            ChaosScenario::NetworkPacketLoss => {
                gpu.network_errors = gpu.network_errors + d.count;
                FloatEffects {
                    performance: PerformanceEffect::DecreaseWithFloor { step: 8, floor: 50 },
                    utilization_pct: None,
                    thermal_resistance_creep: false,
                    memory_utilization_step: false,
                }
            },
            ChaosScenario::RdmaFailure => {
                gpu.network_errors = gpu.network_errors + d.count;
                if d.coin {
                    FloatEffects {
                        performance: PerformanceEffect::SetTo(10),
                        utilization_pct: Some(0),
                        thermal_resistance_creep: false,
                        memory_utilization_step: false,
                    }
                } else {
                    FloatEffects {
                        performance: PerformanceEffect::Unchanged,
                        utilization_pct: None,
                        thermal_resistance_creep: false,
                        memory_utilization_step: false,
                    }
                }
            },
            ChaosScenario::StorageLatency => {
                FloatEffects {
                    performance: PerformanceEffect::DecreaseWithFloor { step: 20, floor: 20 },
                    utilization_pct: Some(5),
                    thermal_resistance_creep: false,
                    memory_utilization_step: false,
                }
            },
            ChaosScenario::DriverCrash => {
                gpu.sm_clock = 0;
                gpu.latest_xid = 79;
                gpu.xid_window_events = gpu.xid_window_events + 1;
                FloatEffects {
                    performance: PerformanceEffect::SetTo(0),
                    utilization_pct: Some(0),
                    thermal_resistance_creep: false,
                    memory_utilization_step: false,
                }
            },
            ChaosScenario::PerformanceRegression => {
                FloatEffects {
                    performance: PerformanceEffect::SetTo(65),
                    utilization_pct: None,
                    thermal_resistance_creep: false,
                    memory_utilization_step: false,
                }
            },
        }
    }

    /// One tick of scenario `sc`, its draws made with `rand`.
    pub fn apply_scenario_tick(gpu: &mut Gpu, sc: ChaosScenario, temperature_at_least_92: bool) -> (fx: FloatEffects)
        requires
            scenario_fits(old(gpu)@, sc),
        ensures
            exists|d: ChaosDraw| draw_in_range(sc, d)
                && (final(gpu)@, fx) == #[trigger] tick_effect(old(gpu)@, sc, d, temperature_at_least_92),
    {
        let count: u64 = match sc {
            ChaosScenario::GpuEccFailure => random_below(3, 8),
            ChaosScenario::GpuXidError => random_below(0, 5),
            ChaosScenario::NvlinkDegradation => random_below(4, 12),
            ChaosScenario::NetworkPacketLoss => random_below(2, 6),
            ChaosScenario::RdmaFailure => random_below(5, 15),
            _ => 0,
        };
        let coin = match sc {
            ChaosScenario::RdmaFailure => random_coin(),
            _ => false,
        };
        let d = ChaosDraw { count, coin };
        assert(draw_in_range(sc, d));
        assert(tick_fits(gpu@, sc, d));
        Self::apply_tick_with(gpu, sc, d, temperature_at_least_92)
    }

    /// One tick of the scenario the GPU runs, if its stored name parses; otherwise nothing.
    pub fn apply_tick(gpu: &mut Gpu, temperature_at_least_92: bool) -> (fx: FloatEffects)
        requires
            active_scenario(old(gpu)@) matches Some(sc) ==> scenario_fits(old(gpu)@, sc),
        ensures
            match active_scenario(old(gpu)@) {
                Some(sc) => exists|d: ChaosDraw| draw_in_range(sc, d)
                    && (final(gpu)@, fx) == #[trigger] tick_effect(old(gpu)@, sc, d, temperature_at_least_92),
                None => final(gpu)@ == old(gpu)@ && fx == no_float_effect(),
            },
    {
        let name = match &gpu.active_chaos_scenario {
            Some(s) => s.clone(),
            None => {
                return FloatEffects {
                    performance: PerformanceEffect::Unchanged,
                    utilization_pct: None,
                    thermal_resistance_creep: false,
                    memory_utilization_step: false,
                };
            },
        };
        match ChaosScenario::parse(name.as_str()) {
            Some(sc) => Self::apply_scenario_tick(gpu, sc, temperature_at_least_92),
            None => FloatEffects {
                performance: PerformanceEffect::Unchanged,
                utilization_pct: None,
                thermal_resistance_creep: false,
                memory_utilization_step: false,
            },
        }
    }
    /// One tick of the scenario the GPU runs, when its counters can take every tick of it;
    /// `None`, with the GPU untouched, when some tick of it would overflow a counter.
    pub fn apply_tick_checked(gpu: &mut Gpu, temperature_at_least_92: bool) -> (r: Option<FloatEffects>)
        ensures
            match active_scenario(old(gpu)@) {
                Some(sc) => if scenario_fits(old(gpu)@, sc) {
                    r matches Some(fx) && exists|d: ChaosDraw| draw_in_range(sc, d)
                        && (final(gpu)@, fx) == #[trigger] tick_effect(old(gpu)@, sc, d, temperature_at_least_92)
                } else {
                    r is None && final(gpu)@ == old(gpu)@
                },
                None => final(gpu)@ == old(gpu)@ && r == Some(no_float_effect()),
            },
    {
        let sc = match &gpu.active_chaos_scenario {
            Some(s) => ChaosScenario::parse(s.as_str()),
            None => None,
        };
        match sc {
            Some(sc) => {
                if scenario_fits_exec(gpu, sc) {
                    Some(Self::apply_scenario_tick(gpu, sc, temperature_at_least_92))
                } else {
                    None
                }
            },
            None => Some(FloatEffects {
                performance: PerformanceEffect::Unchanged,
                utilization_pct: None,
                thermal_resistance_creep: false,
                memory_utilization_step: false,
            }),
        }
    }
}

} // verus!

verus! {

/// An injected scenario is the one the GPU runs: the stored canonical name denotes it.
pub proof fn law_injected_scenario_runs(g: GpuView, sc: ChaosScenario)
    ensures
        active_scenario(GpuView { active_chaos_scenario: Some(scenario_name(sc)), ..g }) == Some(sc),
{
    law_canonical_name_round_trip(sc);
    lemma_upper_snake_is_upper(scenario_name(sc));
}

/// Scenario names are compared without regard to ASCII case: any ASCII spelling whose
/// upper-case form is a scenario's canonical name denotes that scenario, and so does the
/// all-lower-case spelling.
pub proof fn law_names_ignore_ascii_case(sc: ChaosScenario, s: Seq<char>)
    ensures
        ascii_text(s) && ascii_upper(s) == scenario_name(sc) ==> named_scenario(s) == Some(sc),
        named_scenario(ascii_lower(scenario_name(sc))) == Some(sc),
{
    law_canonical_name_round_trip(sc);
    let n = scenario_name(sc);
    let l = ascii_lower(n);
    assert forall|i: int| 0 <= i < l.len() implies (#[trigger] l[i] as int) < 128 && ascii_upper_char(l[i]) == n[i] by {
        assert('A' <= n[i] <= 'Z' || n[i] == '_');
    }
    assert(ascii_upper(l) =~= n);
}

/// Every scenario is found again from its canonical name.
pub proof fn law_canonical_name_round_trip(s: ChaosScenario)
    ensures
        scenario_named(scenario_name(s)) == Some(s),
        upper_snake(scenario_name(s)),
{
    reveal_strlit("GPU_ECC_FAILURE");
    reveal_strlit("GPU_THERMAL_FAILURE");
    reveal_strlit("GPU_XID_ERROR");
    reveal_strlit("GPU_MEMORY_DEGRADATION");
    reveal_strlit("NVLINK_DEGRADATION");
    reveal_strlit("NETWORK_PACKET_LOSS");
    reveal_strlit("RDMA_FAILURE");
    reveal_strlit("STORAGE_LATENCY");
    reveal_strlit("DRIVER_CRASH");
    reveal_strlit("PERFORMANCE_REGRESSION");
    match s {
        ChaosScenario::GpuEccFailure => {
            assert(scenario_named("GPU_ECC_FAILURE"@) == Some(ChaosScenario::GpuEccFailure));
        },
        ChaosScenario::GpuThermalFailure => {
            assert("GPU_THERMAL_FAILURE"@[4] != "GPU_ECC_FAILURE"@[4]);
            assert("GPU_THERMAL_FAILURE"@ != "GPU_ECC_FAILURE"@);
            assert(scenario_named("GPU_THERMAL_FAILURE"@) == Some(ChaosScenario::GpuThermalFailure));
        },
        ChaosScenario::GpuXidError => {
            assert("GPU_XID_ERROR"@[4] != "GPU_ECC_FAILURE"@[4]);
            assert("GPU_XID_ERROR"@ != "GPU_ECC_FAILURE"@);
            assert("GPU_XID_ERROR"@[4] != "GPU_THERMAL_FAILURE"@[4]);
            assert("GPU_XID_ERROR"@ != "GPU_THERMAL_FAILURE"@);
            assert(scenario_named("GPU_XID_ERROR"@) == Some(ChaosScenario::GpuXidError));
        },
        ChaosScenario::GpuMemoryDegradation => {
            assert("GPU_MEMORY_DEGRADATION"@[4] != "GPU_ECC_FAILURE"@[4]);
            assert("GPU_MEMORY_DEGRADATION"@ != "GPU_ECC_FAILURE"@);
            assert("GPU_MEMORY_DEGRADATION"@[4] != "GPU_THERMAL_FAILURE"@[4]);
            assert("GPU_MEMORY_DEGRADATION"@ != "GPU_THERMAL_FAILURE"@);
            assert("GPU_MEMORY_DEGRADATION"@[4] != "GPU_XID_ERROR"@[4]);
            assert("GPU_MEMORY_DEGRADATION"@ != "GPU_XID_ERROR"@);
            assert(scenario_named("GPU_MEMORY_DEGRADATION"@) == Some(ChaosScenario::GpuMemoryDegradation));
        },
        ChaosScenario::NvlinkDegradation => {
            assert("NVLINK_DEGRADATION"@[0] != "GPU_ECC_FAILURE"@[0]);
            assert("NVLINK_DEGRADATION"@ != "GPU_ECC_FAILURE"@);
            assert("NVLINK_DEGRADATION"@[0] != "GPU_THERMAL_FAILURE"@[0]);
            assert("NVLINK_DEGRADATION"@ != "GPU_THERMAL_FAILURE"@);
            assert("NVLINK_DEGRADATION"@[0] != "GPU_XID_ERROR"@[0]);
            assert("NVLINK_DEGRADATION"@ != "GPU_XID_ERROR"@);
            assert("NVLINK_DEGRADATION"@[0] != "GPU_MEMORY_DEGRADATION"@[0]);
            assert("NVLINK_DEGRADATION"@ != "GPU_MEMORY_DEGRADATION"@);
            assert(scenario_named("NVLINK_DEGRADATION"@) == Some(ChaosScenario::NvlinkDegradation));
        },
        ChaosScenario::NetworkPacketLoss => {
            assert("NETWORK_PACKET_LOSS"@[0] != "GPU_ECC_FAILURE"@[0]);
            assert("NETWORK_PACKET_LOSS"@ != "GPU_ECC_FAILURE"@);
            assert("NETWORK_PACKET_LOSS"@[0] != "GPU_THERMAL_FAILURE"@[0]);
            assert("NETWORK_PACKET_LOSS"@ != "GPU_THERMAL_FAILURE"@);
            assert("NETWORK_PACKET_LOSS"@[0] != "GPU_XID_ERROR"@[0]);
            assert("NETWORK_PACKET_LOSS"@ != "GPU_XID_ERROR"@);
            assert("NETWORK_PACKET_LOSS"@[0] != "GPU_MEMORY_DEGRADATION"@[0]);
            assert("NETWORK_PACKET_LOSS"@ != "GPU_MEMORY_DEGRADATION"@);
            assert("NETWORK_PACKET_LOSS"@[1] != "NVLINK_DEGRADATION"@[1]);
            assert("NETWORK_PACKET_LOSS"@ != "NVLINK_DEGRADATION"@);
            assert(scenario_named("NETWORK_PACKET_LOSS"@) == Some(ChaosScenario::NetworkPacketLoss));
        },
        ChaosScenario::RdmaFailure => {
            assert("RDMA_FAILURE"@[0] != "GPU_ECC_FAILURE"@[0]);
            assert("RDMA_FAILURE"@ != "GPU_ECC_FAILURE"@);
            assert("RDMA_FAILURE"@[0] != "GPU_THERMAL_FAILURE"@[0]);
            assert("RDMA_FAILURE"@ != "GPU_THERMAL_FAILURE"@);
            assert("RDMA_FAILURE"@[0] != "GPU_XID_ERROR"@[0]);
            assert("RDMA_FAILURE"@ != "GPU_XID_ERROR"@);
            assert("RDMA_FAILURE"@[0] != "GPU_MEMORY_DEGRADATION"@[0]);
            assert("RDMA_FAILURE"@ != "GPU_MEMORY_DEGRADATION"@);
            assert("RDMA_FAILURE"@[0] != "NVLINK_DEGRADATION"@[0]);
            assert("RDMA_FAILURE"@ != "NVLINK_DEGRADATION"@);
            assert("RDMA_FAILURE"@[0] != "NETWORK_PACKET_LOSS"@[0]);
            assert("RDMA_FAILURE"@ != "NETWORK_PACKET_LOSS"@);
            assert(scenario_named("RDMA_FAILURE"@) == Some(ChaosScenario::RdmaFailure));
        },
        ChaosScenario::StorageLatency => {
            assert("STORAGE_LATENCY"@[0] != "GPU_ECC_FAILURE"@[0]);
            assert("STORAGE_LATENCY"@ != "GPU_ECC_FAILURE"@);
            assert("STORAGE_LATENCY"@[0] != "GPU_THERMAL_FAILURE"@[0]);
            assert("STORAGE_LATENCY"@ != "GPU_THERMAL_FAILURE"@);
            assert("STORAGE_LATENCY"@[0] != "GPU_XID_ERROR"@[0]);
            assert("STORAGE_LATENCY"@ != "GPU_XID_ERROR"@);
            assert("STORAGE_LATENCY"@[0] != "GPU_MEMORY_DEGRADATION"@[0]);
            assert("STORAGE_LATENCY"@ != "GPU_MEMORY_DEGRADATION"@);
            assert("STORAGE_LATENCY"@[0] != "NVLINK_DEGRADATION"@[0]);
            assert("STORAGE_LATENCY"@ != "NVLINK_DEGRADATION"@);
            assert("STORAGE_LATENCY"@[0] != "NETWORK_PACKET_LOSS"@[0]);
            assert("STORAGE_LATENCY"@ != "NETWORK_PACKET_LOSS"@);
            assert("STORAGE_LATENCY"@[0] != "RDMA_FAILURE"@[0]);
            assert("STORAGE_LATENCY"@ != "RDMA_FAILURE"@);
            assert(scenario_named("STORAGE_LATENCY"@) == Some(ChaosScenario::StorageLatency));
        },
        ChaosScenario::DriverCrash => {
            assert("DRIVER_CRASH"@[0] != "GPU_ECC_FAILURE"@[0]);
            assert("DRIVER_CRASH"@ != "GPU_ECC_FAILURE"@);
            assert("DRIVER_CRASH"@[0] != "GPU_THERMAL_FAILURE"@[0]);
            assert("DRIVER_CRASH"@ != "GPU_THERMAL_FAILURE"@);
            assert("DRIVER_CRASH"@[0] != "GPU_XID_ERROR"@[0]);
            assert("DRIVER_CRASH"@ != "GPU_XID_ERROR"@);
            assert("DRIVER_CRASH"@[0] != "GPU_MEMORY_DEGRADATION"@[0]);
            assert("DRIVER_CRASH"@ != "GPU_MEMORY_DEGRADATION"@);
            assert("DRIVER_CRASH"@[0] != "NVLINK_DEGRADATION"@[0]);
            assert("DRIVER_CRASH"@ != "NVLINK_DEGRADATION"@);
            assert("DRIVER_CRASH"@[0] != "NETWORK_PACKET_LOSS"@[0]);
            assert("DRIVER_CRASH"@ != "NETWORK_PACKET_LOSS"@);
            assert("DRIVER_CRASH"@[0] != "RDMA_FAILURE"@[0]);
            assert("DRIVER_CRASH"@ != "RDMA_FAILURE"@);
            assert("DRIVER_CRASH"@[0] != "STORAGE_LATENCY"@[0]);
            assert("DRIVER_CRASH"@ != "STORAGE_LATENCY"@);
            assert(scenario_named("DRIVER_CRASH"@) == Some(ChaosScenario::DriverCrash));
        },
        ChaosScenario::PerformanceRegression => {
            assert("PERFORMANCE_REGRESSION"@[0] != "GPU_ECC_FAILURE"@[0]);
            assert("PERFORMANCE_REGRESSION"@ != "GPU_ECC_FAILURE"@);
            assert("PERFORMANCE_REGRESSION"@[0] != "GPU_THERMAL_FAILURE"@[0]);
            assert("PERFORMANCE_REGRESSION"@ != "GPU_THERMAL_FAILURE"@);
            assert("PERFORMANCE_REGRESSION"@[0] != "GPU_XID_ERROR"@[0]);
            assert("PERFORMANCE_REGRESSION"@ != "GPU_XID_ERROR"@);
            assert("PERFORMANCE_REGRESSION"@[0] != "GPU_MEMORY_DEGRADATION"@[0]);
            assert("PERFORMANCE_REGRESSION"@ != "GPU_MEMORY_DEGRADATION"@);
            assert("PERFORMANCE_REGRESSION"@[0] != "NVLINK_DEGRADATION"@[0]);
            assert("PERFORMANCE_REGRESSION"@ != "NVLINK_DEGRADATION"@);
            assert("PERFORMANCE_REGRESSION"@[0] != "NETWORK_PACKET_LOSS"@[0]);
            assert("PERFORMANCE_REGRESSION"@ != "NETWORK_PACKET_LOSS"@);
            assert("PERFORMANCE_REGRESSION"@[0] != "RDMA_FAILURE"@[0]);
            assert("PERFORMANCE_REGRESSION"@ != "RDMA_FAILURE"@);
            assert("PERFORMANCE_REGRESSION"@[0] != "STORAGE_LATENCY"@[0]);
            assert("PERFORMANCE_REGRESSION"@ != "STORAGE_LATENCY"@);
            assert("PERFORMANCE_REGRESSION"@[0] != "DRIVER_CRASH"@[0]);
            assert("PERFORMANCE_REGRESSION"@ != "DRIVER_CRASH"@);
            assert(scenario_named("PERFORMANCE_REGRESSION"@) == Some(ChaosScenario::PerformanceRegression));
        },
    }
}

/// A chaos tick only degrades: the cumulative error counters (ECC single- and double-bit,
/// ECC window, NVLink, network, XID events) never decrease, and the GPU's identity, lifecycle
/// status, allocation and injected scenario are left as they were.
pub proof fn law_tick_monotone(g: GpuView, sc: ChaosScenario, d: ChaosDraw, hot: bool)
    requires
        tick_fits(g, sc, d),
    ensures
        ({
            let g2 = tick_effect(g, sc, d, hot).0;
            &&& g2.ecc_sbe_total >= g.ecc_sbe_total
            &&& g2.ecc_dbe_total >= g.ecc_dbe_total
            &&& g2.ecc_window_errors >= g.ecc_window_errors
            &&& g2.nvlink_errors >= g.nvlink_errors
            &&& g2.network_errors >= g.network_errors
            &&& g2.xid_window_events >= g.xid_window_events
            &&& g2.id == g.id
            &&& g2.node_id == g.node_id
            &&& g2.status == g.status
            &&& g2.allocated_job_id == g.allocated_job_id
            &&& g2.active_chaos_scenario == g.active_chaos_scenario
        }),
{
}


/// The XID codes and counters a tick produces: an ECC tick whose single-bit total passes 40
/// records a double-bit error and XID 62; an NVLink tick whose error count passes 50 records
/// XID 92; a driver crash records XID 79 with the clock at 0; an XID-error tick records one of
/// 31, 43, 62, 79, 92; each recorded XID counts one event in the window. A tick that records
/// no XID leaves the XID code and the window as they were.
pub proof fn law_tick_xid_codes(g: GpuView, sc: ChaosScenario, d: ChaosDraw, hot: bool)
    requires
        tick_fits(g, sc, d),
    ensures
        sc == ChaosScenario::GpuEccFailure ==> ({
            let e = tick_effect(g, sc, d, hot).0;
            &&& e.ecc_sbe_total == g.ecc_sbe_total + d.count
            &&& g.ecc_sbe_total + d.count > 40 ==> e.latest_xid == 62 && e.ecc_dbe_total == g.ecc_dbe_total + 1
                && e.xid_window_events == g.xid_window_events + 1
            &&& g.ecc_sbe_total + d.count <= 40 ==> e.latest_xid == g.latest_xid && e.ecc_dbe_total == g.ecc_dbe_total
                && e.xid_window_events == g.xid_window_events
        }),
        sc == ChaosScenario::NvlinkDegradation ==> ({
            let e = tick_effect(g, sc, d, hot).0;
            &&& e.nvlink_errors == g.nvlink_errors + d.count
            &&& g.nvlink_errors + d.count > 50 ==> e.latest_xid == 92 && e.xid_window_events == g.xid_window_events + 1
            &&& g.nvlink_errors + d.count <= 50 ==> e.latest_xid == g.latest_xid
                && e.xid_window_events == g.xid_window_events
        }),
        sc == ChaosScenario::DriverCrash ==> ({
            let e = tick_effect(g, sc, d, hot).0;
            e.latest_xid == 79 && e.sm_clock == 0 && e.xid_window_events == g.xid_window_events + 1
        }),
        sc == ChaosScenario::GpuXidError ==> ({
            let e = tick_effect(g, sc, d, hot).0;
            &&& e.latest_xid == 31 || e.latest_xid == 43 || e.latest_xid == 62 || e.latest_xid == 79 || e.latest_xid == 92
            &&& e.xid_window_events == g.xid_window_events + 1
        }),
        sc == ChaosScenario::GpuThermalFailure ==> ({
            let e = tick_effect(g, sc, d, hot).0;
            &&& e.latest_xid == g.latest_xid
            &&& hot ==> e.is_throttled && e.sm_clock == 500
        }),
{
}

} // verus!
