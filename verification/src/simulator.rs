//! Fleet layout, thermal throttling hysteresis and the bounded telemetry history.
//!
//! The physics itself (power draw, Newton cooling, sensor noise) is floating-point and
//! lives outside this crate; it hands in the outcome of its threshold comparisons.

use vstd::prelude::*;
use std::collections::VecDeque;
use crate::text::{format_padded, padded_id};
use crate::types::{Gpu, GpuView, pristine_gpu};

verus! {

/// How many telemetry samples a GPU keeps.
pub const HISTORY_CAPACITY: usize = 60;

/// Nodes per rack.
pub const NODES_PER_RACK: usize = 16;

/// The shape of the simulated fleet.
pub struct SimulatorEngine {
    pub gpu_count: usize,
    pub gpus_per_node: usize,
    pub gpu_model: String,
}

/// Node number (from 1) of the GPU at position `i`.
pub open spec fn node_number(i: nat, per_node: nat) -> nat {
    i / per_node + 1
}

/// Rack number (from 1) of a node.
pub open spec fn rack_number(node: nat) -> nat {
    ((node - 1) as nat) / 16 + 1
}

/// The GPU at position `i` of a fleet with `per_node` GPUs per node: `gpu-NNNNN` counted from
/// one, on node `node-NNN`, in rack `rack-NN`, cluster `us-east-cluster-1`, fresh.
pub open spec fn laid_out(g: Gpu, i: nat, per_node: nat, model: Seq<char>) -> bool {
    let node = node_number(i, per_node);
    pristine_gpu(g, padded_id("gpu-"@, i + 1, 5), model, padded_id("node-"@, node, 3),
        padded_id("rack-"@, rack_number(node), 2), "us-east-cluster-1"@)
}

/// How the SM clock was set by the thermal control.
#[derive(Clone, Copy, Debug, PartialEq, Eq, Structural)]
pub enum ClockMode {
    /// Throttled: the clock follows the temperature; performance is clock / 1980.
    Throttled,
    /// Nominal: full clock; performance returns to its baseline.
    Nominal,
    /// Left as the active chaos scenario set it.
    Unchanged,
}

/// The throttle flag and bitmask after a tick: throttling engages at 92 °C, releases at 83 °C
/// unless a thermal failure is being injected, and is kept in between.
pub open spec fn hysteresis(g: GpuView, at_least_92: bool, at_most_83: bool) -> GpuView {
    if at_least_92 {
        GpuView { is_throttled: true, clock_throttle: g.clock_throttle | 1u32, ..g }
    } else if at_most_83 && g.active_chaos_scenario != Some("GPU_THERMAL_FAILURE"@) {
        GpuView { is_throttled: false, clock_throttle: g.clock_throttle & !1u32, ..g }
    } else {
        g
    }
}

/// `v` limited to `[lo, hi]`.
pub open spec fn clamp_u32(v: u32, lo: u32, hi: u32) -> u32 {
    if v < lo { lo } else if v > hi { hi } else { v }
}

/// The thermal control of one tick: hysteresis, then the clock. `throttled_clock` is the
/// clock the temperature allows (1980 − 15·(T − 83) MHz, as computed from the reading).
pub open spec fn thermal_control(g: GpuView, at_least_92: bool, at_most_83: bool, throttled_clock: u32) -> (GpuView, ClockMode) {
    let h = hysteresis(g, at_least_92, at_most_83);
    if h.is_throttled {
        (GpuView { sm_clock: clamp_u32(throttled_clock, 500, 1980), ..h }, ClockMode::Throttled)
    } else if h.active_chaos_scenario is None {
        (GpuView { sm_clock: 1980, ..h }, ClockMode::Nominal)
    } else {
        (h, ClockMode::Unchanged)
    }
}

impl SimulatorEngine {
    pub fn new(gpu_count: usize, gpus_per_node: usize, gpu_model: String) -> (s: Self)
        ensures
            s.gpu_count == gpu_count,
            s.gpus_per_node == gpus_per_node,
            s.gpu_model@ == gpu_model@,
    {
        SimulatorEngine { gpu_count, gpus_per_node, gpu_model }
    }

    /// Lays the fleet out: GPUs numbered from one, `gpus_per_node` to a node, 16 nodes to a rack.
    pub fn create_fleet(&self) -> (fleet: Vec<Gpu>)
        requires
            self.gpu_count > 0 ==> self.gpus_per_node > 0,
        ensures
            fleet@.len() == self.gpu_count,
            forall|i: int| 0 <= i < fleet@.len() ==> #[trigger] laid_out(fleet@[i], i as nat,
                self.gpus_per_node as nat, self.gpu_model@),
    {
        let count = self.gpu_count;
        let per_node = self.gpus_per_node;
        let mut fleet: Vec<Gpu> = Vec::new();
        let mut i: usize = 0;
        while i < count
            invariant
                i <= count,
                count == self.gpu_count,
                per_node == self.gpus_per_node,
                count > 0 ==> per_node > 0,
                fleet@.len() == i,
                forall|j: int| 0 <= j < i ==> #[trigger] laid_out(fleet@[j], j as nat, per_node as nat, self.gpu_model@),
            decreases count - i,
        {
            let gpu_idx = i + 1;
            let node_idx = i / per_node + 1;
            let rack_idx = (node_idx - 1) / NODES_PER_RACK + 1;
            let gpu_id = format_padded("gpu-", gpu_idx as u64, 5);
            let node_id = format_padded("node-", node_idx as u64, 3);
            let rack_id = format_padded("rack-", rack_idx as u64, 2);
            let cluster_id = String::from_str("us-east-cluster-1");
            let gpu = Gpu::new(gpu_id, self.gpu_model.clone(), node_id, rack_id, cluster_id);
            fleet.push(gpu);
            i = i + 1;
        }
        fleet
    }

    /// The thermal control of one tick on a GPU: throttling hysteresis on the physical
    /// temperature, then the SM clock.
    pub fn apply_thermal_control(gpu: &mut Gpu, at_least_92: bool, at_most_83: bool, throttled_clock: u32) -> (mode: ClockMode)
        ensures
            (final(gpu)@, mode) == thermal_control(old(gpu)@, at_least_92, at_most_83, throttled_clock),
    {
        if at_least_92 {
            gpu.is_throttled = true;
            gpu.clock_throttle = gpu.clock_throttle | 1;
        } else {
            let thermal_chaos = match &gpu.active_chaos_scenario {
                Some(s) => *s == String::from_str("GPU_THERMAL_FAILURE"),
                None => false,
            };
            if at_most_83 && !thermal_chaos {
                gpu.is_throttled = false;
                gpu.clock_throttle = gpu.clock_throttle & !1u32;
            }
        }
        if gpu.is_throttled {
            gpu.sm_clock = if throttled_clock < 500 { 500 } else if throttled_clock > 1980 { 1980 } else { throttled_clock };
            ClockMode::Throttled
        } else if gpu.active_chaos_scenario.is_none() {
            gpu.sm_clock = 1980;
            ClockMode::Nominal
        } else {
            ClockMode::Unchanged
        }
    }
}

/// A GPU's recent telemetry: at most [`HISTORY_CAPACITY`] samples, oldest first.
pub struct TelemetryHistory<T> {
    pub samples: VecDeque<T>,
}

/// Appending a sample to a full window drops the oldest one.
pub open spec fn window_push<T>(w: Seq<T>, s: T) -> Seq<T> {
    if w.len() >= HISTORY_CAPACITY { w.subrange(1, w.len() as int).push(s) } else { w.push(s) }
}

impl<T> TelemetryHistory<T> {
    pub fn new() -> (h: Self)
        ensures
            h.samples@.len() == 0,
    {
        TelemetryHistory { samples: VecDeque::new() }
    }

    pub fn len(&self) -> (n: usize)
        ensures
            n == self.samples@.len(),
    {
        self.samples.len()
    }

    /// Appends a sample, dropping the oldest one when the window is full.
    pub fn push(&mut self, sample: T)
        ensures
            final(self).samples@ == window_push(old(self).samples@, sample),
    {
        if self.samples.len() >= HISTORY_CAPACITY {
            self.samples.pop_front();
        }
        self.samples.push_back(sample);
    }
}

} // verus!

verus! {

/// Throttling hysteresis: at 92 °C or above the GPU is throttled; between the thresholds its
/// throttle state is kept; at 83 °C or below it is released unless a thermal failure is being
/// injected. A throttled clock stays within 500–1980 MHz.
pub proof fn law_thermal_hysteresis(g: GpuView, at_least_92: bool, at_most_83: bool, throttled_clock: u32)
    requires
        !(at_least_92 && at_most_83),
    ensures
        ({
            let (g2, mode) = thermal_control(g, at_least_92, at_most_83, throttled_clock);
            &&& at_least_92 ==> g2.is_throttled && g2.clock_throttle & 1u32 == 1u32
            &&& !at_least_92 && !at_most_83 ==> g2.is_throttled == g.is_throttled
            &&& at_most_83 && g.active_chaos_scenario != Some("GPU_THERMAL_FAILURE"@) ==> !g2.is_throttled
            &&& g2.is_throttled <==> mode == ClockMode::Throttled
            &&& g2.is_throttled ==> 500 <= g2.sm_clock <= 1980
            &&& g2.status == g.status
            &&& g2.id == g.id
        }),
{
    let c = g.clock_throttle;
    assert((c | 1u32) & 1u32 == 1u32) by (bit_vector);
}

/// The history window never holds more than its capacity and always ends with the latest
/// sample; what it keeps is the tail of the old window followed by the new sample.
pub proof fn law_history_window<T>(w: Seq<T>, s: T)
    requires
        w.len() <= HISTORY_CAPACITY,
    ensures
        window_push(w, s).len() <= HISTORY_CAPACITY,
        window_push(w, s).last() == s,
        window_push(w, s) == (w + seq![s]).subrange(
            (w.len() + 1 - window_push(w, s).len()) as int, (w.len() + 1) as int),
{
    assert(window_push(w, s) =~= (w + seq![s]).subrange(
        (w.len() + 1 - window_push(w, s).len()) as int, (w.len() + 1) as int));
}

} // verus!

verus! {

/// The fleet's layout gives every GPU its own id.
pub proof fn law_layout_ids_distinct(g1: Gpu, i: nat, g2: Gpu, j: nat, per_node: nat, model: Seq<char>)
    requires
        laid_out(g1, i, per_node, model),
        laid_out(g2, j, per_node, model),
        i != j,
    ensures
        g1.id@ != g2.id@,
{
    crate::text::law_padded_id_injective("gpu-"@, i + 1, j + 1, 5);
}

} // verus!
