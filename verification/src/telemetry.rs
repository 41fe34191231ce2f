//! The metrics export: fleet summary counts and the Prometheus text exposition. Readings
//! that are floating-point numbers arrive already formatted as text, one per GPU.

use vstd::prelude::*;
use vstd::string::StringExecFns;
use crate::text::{decimal, padded_decimal, format_padded};
use crate::types::{Gpu, GpuView, GpuStatus, fleet_view, ids_of};

verus! {

/// Number of GPUs among the first `i` of the fleet with status `s`.
pub open spec fn count_status(fleet: Seq<GpuView>, s: GpuStatus, i: int) -> nat
    decreases i,
{
    if i <= 0 || i > fleet.len() {
        0
    } else {
        count_status(fleet, s, i - 1) + if fleet[i - 1].status == s { 1nat } else { 0nat }
    }
}

/// The fleet broken down by status.
#[derive(Clone, Copy, Debug, PartialEq, Eq, Structural)]
pub struct FleetStatusCounts {
    pub total: usize,
    pub healthy: usize,
    pub degraded: usize,
    pub at_risk: usize,
    pub critical: usize,
    pub quarantined: usize,
}

pub open spec fn counts_of(c: FleetStatusCounts, fleet: Seq<GpuView>) -> bool {
    let n = fleet.len() as int;
    &&& c.total == fleet.len()
    &&& c.healthy == count_status(fleet, GpuStatus::Healthy, n)
    &&& c.degraded == count_status(fleet, GpuStatus::Degraded, n)
    &&& c.at_risk == count_status(fleet, GpuStatus::AtRisk, n)
    &&& c.critical == count_status(fleet, GpuStatus::Critical, n)
    &&& c.quarantined == count_status(fleet, GpuStatus::Quarantined, n)
}

proof fn lemma_count_bound(fleet: Seq<GpuView>, s: GpuStatus, i: int)
    requires
        0 <= i <= fleet.len(),
    ensures
        count_status(fleet, s, i) <= i,
    decreases i,
{
    if i > 0 {
        lemma_count_bound(fleet, s, i - 1);
    }
}

pub struct MetricsRenderer;

impl MetricsRenderer {
    /// Counts the fleet's GPUs by status.
    pub fn status_counts(fleet: &Vec<Gpu>) -> (c: FleetStatusCounts)
        ensures
            counts_of(c, fleet_view(fleet@)),
    {
        let ghost fv = fleet_view(fleet@);
        let mut c = FleetStatusCounts { total: fleet.len(), healthy: 0, degraded: 0, at_risk: 0, critical: 0, quarantined: 0 };
        let mut i: usize = 0;
        while i < fleet.len()
            invariant
                i <= fleet@.len(),
                fv == fleet_view(fleet@),
                c.total == fleet@.len(),
                c.healthy == count_status(fv, GpuStatus::Healthy, i as int),
                c.degraded == count_status(fv, GpuStatus::Degraded, i as int),
                c.at_risk == count_status(fv, GpuStatus::AtRisk, i as int),
                c.critical == count_status(fv, GpuStatus::Critical, i as int),
                c.quarantined == count_status(fv, GpuStatus::Quarantined, i as int),
            decreases fleet@.len() - i,
        {
            proof {
                lemma_count_bound(fv, GpuStatus::Healthy, i as int);
                lemma_count_bound(fv, GpuStatus::Degraded, i as int);
                lemma_count_bound(fv, GpuStatus::AtRisk, i as int);
                lemma_count_bound(fv, GpuStatus::Critical, i as int);
                lemma_count_bound(fv, GpuStatus::Quarantined, i as int);
            }
            assert(fv[i as int] == fleet@[i as int]@);
            match fleet[i].status {
                GpuStatus::Healthy => { c.healthy = c.healthy + 1; },
                GpuStatus::Degraded => { c.degraded = c.degraded + 1; },
                GpuStatus::AtRisk => { c.at_risk = c.at_risk + 1; },
                GpuStatus::Critical => { c.critical = c.critical + 1; },
                GpuStatus::Quarantined => { c.quarantined = c.quarantined + 1; },
            }
            i = i + 1;
        }
        c
    }

    /// The Prometheus text exposition of the fleet: the summary gauges, then one series per
    /// GPU for each metric. The float readings come formatted, GPU by GPU in fleet order
    /// (temperature, power and utilization with two decimals, the health score likewise),
    /// and so do the fleet's mean utilization and availability ratio.
    pub fn render_prometheus(fleet: &Vec<Gpu>, temperatures: &Vec<String>, powers: &Vec<String>,
        utilizations: &Vec<String>, health_scores: &Vec<String>, utilization: &str, availability: &str,
        active_incidents: usize, remediations: usize) -> (out: String)
        requires
            temperatures@.len() == fleet@.len(),
            powers@.len() == fleet@.len(),
            utilizations@.len() == fleet@.len(),
            health_scores@.len() == fleet@.len(),
        ensures
            out@ == prometheus_text(fleet_view(fleet@), ids_of(temperatures@), ids_of(powers@), ids_of(utilizations@),
                ids_of(health_scores@), utilization@, availability@, active_incidents as nat, remediations as nat),
    {
        let c = Self::status_counts(fleet);
        let mut out = summary_metric("fleet_gpus_total", "Total count of managed GPUs", "gauge",
            decimal_text(c.total as u64).as_str());
        out.append(summary_metric("fleet_gpus_healthy", "Count of healthy GPUs", "gauge",
            decimal_text(c.healthy as u64).as_str()).as_str());
        out.append(summary_metric("fleet_gpus_degraded", "Count of degraded GPUs", "gauge",
            decimal_text(c.degraded as u64).as_str()).as_str());
        out.append(summary_metric("fleet_gpus_at_risk", "Count of at-risk GPUs", "gauge",
            decimal_text(c.at_risk as u64).as_str()).as_str());
        out.append(summary_metric("fleet_gpus_critical", "Count of critical GPUs", "gauge",
            decimal_text(c.critical as u64).as_str()).as_str());
        out.append(summary_metric("fleet_gpus_quarantined", "Count of quarantined GPUs", "gauge",
            decimal_text(c.quarantined as u64).as_str()).as_str());
        out.append(summary_metric("fleet_utilization_ratio", "Average fleet compute utilization [0.0 - 100.0]", "gauge",
            utilization).as_str());
        out.append(summary_metric("fleet_availability_ratio", "Fleet availability ratio [0.0 - 1.0]", "gauge",
            availability).as_str());
        out.append(summary_metric("autopilot_active_incidents", "Currently active autopilot incidents", "gauge",
            decimal_text(active_incidents as u64).as_str()).as_str());
        out.append(summary_metric("autopilot_remediations_total", "Cumulative count of autonomous remediations", "counter",
            decimal_text(remediations as u64).as_str()).as_str());
        out.append(series_metric("dcgm_gpu_temp", "GPU temperature in Celsius", "gauge", fleet, temperatures).as_str());
        out.append(series_metric("dcgm_power_usage", "GPU power consumption in Watts", "gauge", fleet, powers).as_str());
        out.append(series_metric("dcgm_gpu_utilization", "GPU SM utilization percentage", "gauge", fleet,
            utilizations).as_str());
        let clocks = int_texts(fleet, IntSeries::SmClock);
        out.append(series_metric("dcgm_sm_clock", "GPU SM clock frequency in MHz", "gauge", fleet, &clocks).as_str());
        let sbe = int_texts(fleet, IntSeries::EccSbe);
        out.append(series_metric("dcgm_ecc_sbe_volatile_total", "Cumulative single-bit ECC errors", "counter", fleet,
            &sbe).as_str());
        let dbe = int_texts(fleet, IntSeries::EccDbe);
        out.append(series_metric("dcgm_ecc_dbe_volatile_total", "Cumulative double-bit ECC errors", "counter", fleet,
            &dbe).as_str());
        out.append(series_metric("gpu_health_score", "Normalized composite health score [0.0 - 100.0]", "gauge", fleet,
            health_scores).as_str());
        out
    }
}

// ---------------------------------------------------------------------------
// The exposition format

/// A summary metric: its help and type lines, then its value.
#[verifier::opaque]
pub open spec fn summary_block(name: Seq<char>, help: Seq<char>, kind: Seq<char>, value: Seq<char>) -> Seq<char> {
    "# HELP "@ + name + " "@ + help + "\n# TYPE "@ + name + " "@ + kind + "\n"@ + name + " "@ + value + "\n"@
}

/// The help and type lines that open a per-GPU series, after a blank line.
pub open spec fn series_head(name: Seq<char>, help: Seq<char>, kind: Seq<char>) -> Seq<char> {
    "\n# HELP "@ + name + " "@ + help + "\n# TYPE "@ + name + " "@ + kind + "\n"@
}

/// One sample of a series: the GPU's labels, then the value.
pub open spec fn series_line(name: Seq<char>, g: GpuView, value: Seq<char>) -> Seq<char> {
    name + "{gpu_id=\""@ + g.id + "\",node_id=\""@ + g.node_id + "\",rack_id=\""@ + g.rack_id + "\",model=\""@
        + g.model + "\"} "@ + value + "\n"@
}

/// `head` followed by the samples of the first `n` GPUs.
pub open spec fn series_upto(head: Seq<char>, name: Seq<char>, f: Seq<GpuView>, values: Seq<Seq<char>>, n: int) -> Seq<char>
    decreases n,
{
    if n <= 0 {
        head
    } else {
        series_upto(head, name, f, values, n - 1) + series_line(name, f[n - 1], values[n - 1])
    }
}

#[verifier::opaque]
pub open spec fn series_block(name: Seq<char>, help: Seq<char>, kind: Seq<char>, f: Seq<GpuView>, values: Seq<Seq<char>>) -> Seq<char> {
    series_upto(series_head(name, help, kind), name, f, values, f.len() as int)
}

/// The integer readings exported per GPU.
#[derive(Clone, Copy, Debug, PartialEq, Eq, Structural)]
pub enum IntSeries {
    SmClock,
    EccSbe,
    EccDbe,
}

pub open spec fn int_reading(g: GpuView, which: IntSeries) -> nat {
    match which {
        IntSeries::SmClock => g.sm_clock as nat,
        IntSeries::EccSbe => g.ecc_sbe_total as nat,
        IntSeries::EccDbe => g.ecc_dbe_total as nat,
    }
}

/// The decimal texts of one integer reading, GPU by GPU.
pub open spec fn int_column(f: Seq<GpuView>, which: IntSeries) -> Seq<Seq<char>> {
    Seq::new(f.len(), |i: int| decimal(int_reading(f[i], which)))
}

/// The whole exposition.
pub open spec fn prometheus_text(f: Seq<GpuView>, temperatures: Seq<Seq<char>>, powers: Seq<Seq<char>>,
    utilizations: Seq<Seq<char>>, health_scores: Seq<Seq<char>>, utilization: Seq<char>, availability: Seq<char>,
    active_incidents: nat, remediations: nat) -> Seq<char> {
    let n = f.len() as int;
    summary_block("fleet_gpus_total"@, "Total count of managed GPUs"@, "gauge"@, decimal(f.len()))
        + summary_block("fleet_gpus_healthy"@, "Count of healthy GPUs"@, "gauge"@,
            decimal(count_status(f, GpuStatus::Healthy, n)))
        + summary_block("fleet_gpus_degraded"@, "Count of degraded GPUs"@, "gauge"@,
            decimal(count_status(f, GpuStatus::Degraded, n)))
        + summary_block("fleet_gpus_at_risk"@, "Count of at-risk GPUs"@, "gauge"@,
            decimal(count_status(f, GpuStatus::AtRisk, n)))
        + summary_block("fleet_gpus_critical"@, "Count of critical GPUs"@, "gauge"@,
            decimal(count_status(f, GpuStatus::Critical, n)))
        + summary_block("fleet_gpus_quarantined"@, "Count of quarantined GPUs"@, "gauge"@,
            decimal(count_status(f, GpuStatus::Quarantined, n)))
        + summary_block("fleet_utilization_ratio"@, "Average fleet compute utilization [0.0 - 100.0]"@, "gauge"@,
            utilization)
        + summary_block("fleet_availability_ratio"@, "Fleet availability ratio [0.0 - 1.0]"@, "gauge"@, availability)
        + summary_block("autopilot_active_incidents"@, "Currently active autopilot incidents"@, "gauge"@,
            decimal(active_incidents))
        + summary_block("autopilot_remediations_total"@, "Cumulative count of autonomous remediations"@, "counter"@,
            decimal(remediations))
        + series_block("dcgm_gpu_temp"@, "GPU temperature in Celsius"@, "gauge"@, f, temperatures)
        + series_block("dcgm_power_usage"@, "GPU power consumption in Watts"@, "gauge"@, f, powers)
        + series_block("dcgm_gpu_utilization"@, "GPU SM utilization percentage"@, "gauge"@, f, utilizations)
        + series_block("dcgm_sm_clock"@, "GPU SM clock frequency in MHz"@, "gauge"@, f, int_column(f, IntSeries::SmClock))
        + series_block("dcgm_ecc_sbe_volatile_total"@, "Cumulative single-bit ECC errors"@, "counter"@, f,
            int_column(f, IntSeries::EccSbe))
        + series_block("dcgm_ecc_dbe_volatile_total"@, "Cumulative double-bit ECC errors"@, "counter"@, f,
            int_column(f, IntSeries::EccDbe))
        + series_block("gpu_health_score"@, "Normalized composite health score [0.0 - 100.0]"@, "gauge"@, f, health_scores)
}

/// The decimal text of `n`.
fn decimal_text(n: u64) -> (s: String)
    ensures
        s@ == decimal(n as nat),
{
    let s = format_padded("", n, 0);
    proof {
        reveal_strlit("");
        assert(padded_decimal(n as nat, 0) == decimal(n as nat));
        assert(s@ =~= decimal(n as nat));
    }
    s
}

fn summary_metric(name: &str, help: &str, kind: &str, value: &str) -> (s: String)
    ensures
        s@ == summary_block(name@, help@, kind@, value@),
{
    reveal(summary_block);
    let mut s = String::from_str("# HELP ");
    s.append(name);
    s.append(" ");
    s.append(help);
    s.append("\n# TYPE ");
    s.append(name);
    s.append(" ");
    s.append(kind);
    s.append("\n");
    s.append(name);
    s.append(" ");
    s.append(value);
    s.append("\n");
    s
}

fn series_metric(name: &str, help: &str, kind: &str, fleet: &Vec<Gpu>, values: &Vec<String>) -> (s: String)
    requires
        values@.len() == fleet@.len(),
    ensures
        s@ == series_block(name@, help@, kind@, fleet_view(fleet@), ids_of(values@)),
{
    reveal(series_block);
    let ghost fv = fleet_view(fleet@);
    let ghost vals = ids_of(values@);
    let mut s = String::from_str("\n# HELP ");
    s.append(name);
    s.append(" ");
    s.append(help);
    s.append("\n# TYPE ");
    s.append(name);
    s.append(" ");
    s.append(kind);
    s.append("\n");
    let ghost head = s@;
    let mut i: usize = 0;
    while i < fleet.len()
        invariant
            i <= fleet@.len(),
            values@.len() == fleet@.len(),
            fv == fleet_view(fleet@),
            vals == ids_of(values@),
            head == series_head(name@, help@, kind@),
            s@ == series_upto(head, name@, fv, vals, i as int),
        decreases fleet@.len() - i,
    {
        let g = &fleet[i];
        assert(fv[i as int] == g@);
        let mut line = String::from_str(name);
        line.append("{gpu_id=\"");
        line.append(g.id.as_str());
        line.append("\",node_id=\"");
        line.append(g.node_id.as_str());
        line.append("\",rack_id=\"");
        line.append(g.rack_id.as_str());
        line.append("\",model=\"");
        line.append(g.model.as_str());
        line.append("\"} ");
        line.append(values[i].as_str());
        line.append("\n");
        assert(line@ == series_line(name@, fv[i as int], vals[i as int]));
        s.append(line.as_str());
        i = i + 1;
    }
    s
}

/// The decimal texts of one integer reading, GPU by GPU.
fn int_texts(fleet: &Vec<Gpu>, which: IntSeries) -> (v: Vec<String>)
    ensures
        v@.len() == fleet@.len(),
        ids_of(v@) == int_column(fleet_view(fleet@), which),
{
    let ghost fv = fleet_view(fleet@);
    let mut v: Vec<String> = Vec::new();
    let mut i: usize = 0;
    while i < fleet.len()
        invariant
            i <= fleet@.len(),
            fv == fleet_view(fleet@),
            v@.len() == i,
            forall|k: int| 0 <= k < i ==> (#[trigger] v@[k])@ == decimal(int_reading(fv[k], which)),
        decreases fleet@.len() - i,
    {
        assert(fv[i as int] == fleet@[i as int]@);
        let n: u64 = match which {
            IntSeries::SmClock => fleet[i].sm_clock as u64,
            IntSeries::EccSbe => fleet[i].ecc_sbe_total,
            IntSeries::EccDbe => fleet[i].ecc_dbe_total,
        };
        v.push(decimal_text(n));
        i = i + 1;
    }
    assert(ids_of(v@) =~= int_column(fv, which));
    v
}

} // verus!

verus! {

/// Every GPU is counted under exactly one status: the five counts add up to the fleet size.
pub proof fn law_counts_partition_fleet(fleet: Seq<GpuView>, i: int)
    requires
        0 <= i <= fleet.len(),
    ensures
        count_status(fleet, GpuStatus::Healthy, i) + count_status(fleet, GpuStatus::Degraded, i)
            + count_status(fleet, GpuStatus::AtRisk, i) + count_status(fleet, GpuStatus::Critical, i)
            + count_status(fleet, GpuStatus::Quarantined, i) == i,
    decreases i,
{
    if i > 0 {
        law_counts_partition_fleet(fleet, i - 1);
    }
}


/// `line` occurs in `text`.
pub open spec fn occurs_in(line: Seq<char>, text: Seq<char>) -> bool {
    exists|a: Seq<char>, b: Seq<char>| text == a + line + b
}

proof fn lemma_occurs_extends(line: Seq<char>)
    ensures
        forall|x: Seq<char>, y: Seq<char>| #[trigger] occurs_in(line, x + y) <== occurs_in(line, x) || occurs_in(line, y),
{
    assert forall|x: Seq<char>, y: Seq<char>| occurs_in(line, x) || occurs_in(line, y) implies #[trigger] occurs_in(line, x + y) by {
        if occurs_in(line, x) {
            let (a, b) = choose|a: Seq<char>, b: Seq<char>| x == a + line + b;
            assert(x + y =~= a + line + (b + y));
        } else {
            let (a, b) = choose|a: Seq<char>, b: Seq<char>| y == a + line + b;
            assert(x + y =~= (x + a) + line + b);
        }
    }
}

proof fn lemma_summary_line_occurs(name: Seq<char>, help: Seq<char>, kind: Seq<char>, value: Seq<char>)
    ensures
        occurs_in(name + " "@ + value + "\n"@, summary_block(name, help, kind, value)),
{
    reveal(summary_block);
    let head = "# HELP "@ + name + " "@ + help + "\n# TYPE "@ + name + " "@ + kind + "\n"@;
    assert(summary_block(name, help, kind, value) =~= head + (name + " "@ + value + "\n"@) + Seq::<char>::empty());
}

proof fn lemma_series_line_occurs(head: Seq<char>, name: Seq<char>, f: Seq<GpuView>, values: Seq<Seq<char>>, n: int, k: int)
    requires
        0 <= k < n,
    ensures
        occurs_in(series_line(name, f[k], values[k]), series_upto(head, name, f, values, n)),
    decreases n,
{
    lemma_occurs_extends(series_line(name, f[k], values[k]));
    if k < n - 1 {
        lemma_series_line_occurs(head, name, f, values, n - 1, k);
    } else {
        let prev = series_upto(head, name, f, values, n - 1);
        assert(prev + series_line(name, f[k], values[k]) =~= prev + series_line(name, f[k], values[k]) + Seq::<char>::empty());
    }
}

/// The blocks the exposition is made of, in order: ten summary metrics, then seven per-GPU
/// series.
pub open spec fn exposition_blocks(f: Seq<GpuView>, temperatures: Seq<Seq<char>>, powers: Seq<Seq<char>>,
    utilizations: Seq<Seq<char>>, health_scores: Seq<Seq<char>>, utilization: Seq<char>, availability: Seq<char>,
    active_incidents: nat, remediations: nat) -> Seq<Seq<char>> {
    let n = f.len() as int;
    seq![
        summary_block("fleet_gpus_total"@, "Total count of managed GPUs"@, "gauge"@, decimal(f.len())),
        summary_block("fleet_gpus_healthy"@, "Count of healthy GPUs"@, "gauge"@, decimal(count_status(f, GpuStatus::Healthy, n))),
        summary_block("fleet_gpus_degraded"@, "Count of degraded GPUs"@, "gauge"@, decimal(count_status(f, GpuStatus::Degraded, n))),
        summary_block("fleet_gpus_at_risk"@, "Count of at-risk GPUs"@, "gauge"@, decimal(count_status(f, GpuStatus::AtRisk, n))),
        summary_block("fleet_gpus_critical"@, "Count of critical GPUs"@, "gauge"@, decimal(count_status(f, GpuStatus::Critical, n))),
        summary_block("fleet_gpus_quarantined"@, "Count of quarantined GPUs"@, "gauge"@,
            decimal(count_status(f, GpuStatus::Quarantined, n))),
        summary_block("fleet_utilization_ratio"@, "Average fleet compute utilization [0.0 - 100.0]"@, "gauge"@, utilization),
        summary_block("fleet_availability_ratio"@, "Fleet availability ratio [0.0 - 1.0]"@, "gauge"@, availability),
        summary_block("autopilot_active_incidents"@, "Currently active autopilot incidents"@, "gauge"@, decimal(active_incidents)),
        summary_block("autopilot_remediations_total"@, "Cumulative count of autonomous remediations"@, "counter"@,
            decimal(remediations)),
        series_block("dcgm_gpu_temp"@, "GPU temperature in Celsius"@, "gauge"@, f, temperatures),
        series_block("dcgm_power_usage"@, "GPU power consumption in Watts"@, "gauge"@, f, powers),
        series_block("dcgm_gpu_utilization"@, "GPU SM utilization percentage"@, "gauge"@, f, utilizations),
        series_block("dcgm_sm_clock"@, "GPU SM clock frequency in MHz"@, "gauge"@, f, int_column(f, IntSeries::SmClock)),
        series_block("dcgm_ecc_sbe_volatile_total"@, "Cumulative single-bit ECC errors"@, "counter"@, f,
            int_column(f, IntSeries::EccSbe)),
        series_block("dcgm_ecc_dbe_volatile_total"@, "Cumulative double-bit ECC errors"@, "counter"@, f,
            int_column(f, IntSeries::EccDbe)),
        series_block("gpu_health_score"@, "Normalized composite health score [0.0 - 100.0]"@, "gauge"@, f, health_scores)
    ]
}

/// The first `n` blocks, one after another.
pub open spec fn concat_blocks(bs: Seq<Seq<char>>, n: int) -> Seq<char>
    decreases n,
{
    if n <= 0 { Seq::empty() } else { concat_blocks(bs, n - 1) + bs[n - 1] }
}

proof fn lemma_block_occurs(bs: Seq<Seq<char>>, n: int, i: int, line: Seq<char>)
    requires
        0 <= i < n,
        occurs_in(line, bs[i]),
    ensures
        occurs_in(line, concat_blocks(bs, n)),
    decreases n,
{
    lemma_occurs_extends(line);
    if i < n - 1 {
        lemma_block_occurs(bs, n - 1, i, line);
    }
}

proof fn lemma_exposition_is_blocks(f: Seq<GpuView>, temperatures: Seq<Seq<char>>, powers: Seq<Seq<char>>,
    utilizations: Seq<Seq<char>>, health_scores: Seq<Seq<char>>, utilization: Seq<char>, availability: Seq<char>,
    active_incidents: nat, remediations: nat)
    ensures
        prometheus_text(f, temperatures, powers, utilizations, health_scores, utilization, availability, active_incidents,
            remediations) == concat_blocks(exposition_blocks(f, temperatures, powers, utilizations, health_scores,
            utilization, availability, active_incidents, remediations), 17),
{
    let bs = exposition_blocks(f, temperatures, powers, utilizations, health_scores, utilization, availability,
        active_incidents, remediations);
    assert(concat_blocks(bs, 0) =~= Seq::<char>::empty());
    assert(concat_blocks(bs, 1) =~= bs[0]);
    assert(concat_blocks(bs, 2) == concat_blocks(bs, 1) + bs[1]);
    assert(concat_blocks(bs, 3) == concat_blocks(bs, 2) + bs[2]);
    assert(concat_blocks(bs, 4) == concat_blocks(bs, 3) + bs[3]);
    assert(concat_blocks(bs, 5) == concat_blocks(bs, 4) + bs[4]);
    assert(concat_blocks(bs, 6) == concat_blocks(bs, 5) + bs[5]);
    assert(concat_blocks(bs, 7) == concat_blocks(bs, 6) + bs[6]);
    assert(concat_blocks(bs, 8) == concat_blocks(bs, 7) + bs[7]);
    assert(concat_blocks(bs, 9) == concat_blocks(bs, 8) + bs[8]);
    assert(concat_blocks(bs, 10) == concat_blocks(bs, 9) + bs[9]);
    assert(concat_blocks(bs, 11) == concat_blocks(bs, 10) + bs[10]);
    assert(concat_blocks(bs, 12) == concat_blocks(bs, 11) + bs[11]);
    assert(concat_blocks(bs, 13) == concat_blocks(bs, 12) + bs[12]);
    assert(concat_blocks(bs, 14) == concat_blocks(bs, 13) + bs[13]);
    assert(concat_blocks(bs, 15) == concat_blocks(bs, 14) + bs[14]);
    assert(concat_blocks(bs, 16) == concat_blocks(bs, 15) + bs[15]);
    assert(concat_blocks(bs, 17) == concat_blocks(bs, 16) + bs[16]);
}

/// The exposition carries every count on a line of its own of the form `<metric> <value>`:
/// the fleet size, the number of GPUs of each status (the five add up to the fleet size), the
/// open incidents and the remediations.
pub proof fn law_exposition_carries_counts(f: Seq<GpuView>, temperatures: Seq<Seq<char>>, powers: Seq<Seq<char>>,
    utilizations: Seq<Seq<char>>, health_scores: Seq<Seq<char>>, utilization: Seq<char>, availability: Seq<char>,
    active_incidents: nat, remediations: nat, status: GpuStatus)
    ensures
        ({
            let text = prometheus_text(f, temperatures, powers, utilizations, health_scores, utilization, availability,
                active_incidents, remediations);
            let n = f.len() as int;
            let name = match status {
                GpuStatus::Healthy => "fleet_gpus_healthy"@,
                GpuStatus::Degraded => "fleet_gpus_degraded"@,
                GpuStatus::AtRisk => "fleet_gpus_at_risk"@,
                GpuStatus::Critical => "fleet_gpus_critical"@,
                GpuStatus::Quarantined => "fleet_gpus_quarantined"@,
            };
            &&& occurs_in("fleet_gpus_total"@ + " "@ + decimal(f.len()) + "\n"@, text)
            &&& occurs_in(name + " "@ + decimal(count_status(f, status, n)) + "\n"@, text)
            &&& occurs_in("autopilot_active_incidents"@ + " "@ + decimal(active_incidents) + "\n"@, text)
            &&& occurs_in("autopilot_remediations_total"@ + " "@ + decimal(remediations) + "\n"@, text)
            &&& count_status(f, GpuStatus::Healthy, n) + count_status(f, GpuStatus::Degraded, n)
                + count_status(f, GpuStatus::AtRisk, n) + count_status(f, GpuStatus::Critical, n)
                + count_status(f, GpuStatus::Quarantined, n) == f.len()
        }),
{
    let n = f.len() as int;
    law_counts_partition_fleet(f, n);
    lemma_exposition_is_blocks(f, temperatures, powers, utilizations, health_scores, utilization, availability,
        active_incidents, remediations);
    let bs = exposition_blocks(f, temperatures, powers, utilizations, health_scores, utilization, availability,
        active_incidents, remediations);
    lemma_summary_line_occurs("fleet_gpus_total"@, "Total count of managed GPUs"@, "gauge"@, decimal(f.len()));
    lemma_block_occurs(bs, 17, 0, "fleet_gpus_total"@ + " "@ + decimal(f.len()) + "\n"@);
    lemma_summary_line_occurs("autopilot_active_incidents"@, "Currently active autopilot incidents"@, "gauge"@,
        decimal(active_incidents));
    lemma_block_occurs(bs, 17, 8, "autopilot_active_incidents"@ + " "@ + decimal(active_incidents) + "\n"@);
    lemma_summary_line_occurs("autopilot_remediations_total"@, "Cumulative count of autonomous remediations"@,
        "counter"@, decimal(remediations));
    lemma_block_occurs(bs, 17, 9, "autopilot_remediations_total"@ + " "@ + decimal(remediations) + "\n"@);
    match status {
        GpuStatus::Healthy => {
            lemma_summary_line_occurs("fleet_gpus_healthy"@, "Count of healthy GPUs"@, "gauge"@,
                decimal(count_status(f, status, n)));
            lemma_block_occurs(bs, 17, 1, "fleet_gpus_healthy"@ + " "@ + decimal(count_status(f, status, n)) + "\n"@);
        },
        GpuStatus::Degraded => {
            lemma_summary_line_occurs("fleet_gpus_degraded"@, "Count of degraded GPUs"@, "gauge"@,
                decimal(count_status(f, status, n)));
            lemma_block_occurs(bs, 17, 2, "fleet_gpus_degraded"@ + " "@ + decimal(count_status(f, status, n)) + "\n"@);
        },
        GpuStatus::AtRisk => {
            lemma_summary_line_occurs("fleet_gpus_at_risk"@, "Count of at-risk GPUs"@, "gauge"@,
                decimal(count_status(f, status, n)));
            lemma_block_occurs(bs, 17, 3, "fleet_gpus_at_risk"@ + " "@ + decimal(count_status(f, status, n)) + "\n"@);
        },
        GpuStatus::Critical => {
            lemma_summary_line_occurs("fleet_gpus_critical"@, "Count of critical GPUs"@, "gauge"@,
                decimal(count_status(f, status, n)));
            lemma_block_occurs(bs, 17, 4, "fleet_gpus_critical"@ + " "@ + decimal(count_status(f, status, n)) + "\n"@);
        },
        GpuStatus::Quarantined => {
            lemma_summary_line_occurs("fleet_gpus_quarantined"@, "Count of quarantined GPUs"@, "gauge"@,
                decimal(count_status(f, status, n)));
            lemma_block_occurs(bs, 17, 5, "fleet_gpus_quarantined"@ + " "@ + decimal(count_status(f, status, n)) + "\n"@);
        },
    }
}


/// The metric name of the `j`-th per-GPU series.
pub open spec fn series_name(j: int) -> Seq<char> {
    if j == 0 { "dcgm_gpu_temp"@ }
    else if j == 1 { "dcgm_power_usage"@ }
    else if j == 2 { "dcgm_gpu_utilization"@ }
    else if j == 3 { "dcgm_sm_clock"@ }
    else if j == 4 { "dcgm_ecc_sbe_volatile_total"@ }
    else if j == 5 { "dcgm_ecc_dbe_volatile_total"@ }
    else { "gpu_health_score"@ }
}

/// The values of the `j`-th per-GPU series, GPU by GPU.
pub open spec fn series_values(j: int, f: Seq<GpuView>, temperatures: Seq<Seq<char>>, powers: Seq<Seq<char>>,
    utilizations: Seq<Seq<char>>, health_scores: Seq<Seq<char>>) -> Seq<Seq<char>> {
    if j == 0 { temperatures }
    else if j == 1 { powers }
    else if j == 2 { utilizations }
    else if j == 3 { int_column(f, IntSeries::SmClock) }
    else if j == 4 { int_column(f, IntSeries::EccSbe) }
    else if j == 5 { int_column(f, IntSeries::EccDbe) }
    else { health_scores }
}

/// Every per-GPU series has a sample line for every GPU, labelled with the GPU's id, node,
/// rack and model and carrying the GPU's value.
pub proof fn law_exposition_has_every_sample(f: Seq<GpuView>, temperatures: Seq<Seq<char>>, powers: Seq<Seq<char>>,
    utilizations: Seq<Seq<char>>, health_scores: Seq<Seq<char>>, utilization: Seq<char>, availability: Seq<char>,
    active_incidents: nat, remediations: nat, j: int, k: int)
    requires
        0 <= j < 7,
        0 <= k < f.len(),
    ensures
        occurs_in(series_line(series_name(j), f[k], series_values(j, f, temperatures, powers, utilizations, health_scores)[k]),
            prometheus_text(f, temperatures, powers, utilizations, health_scores, utilization, availability,
                active_incidents, remediations)),
{
    lemma_exposition_is_blocks(f, temperatures, powers, utilizations, health_scores, utilization, availability,
        active_incidents, remediations);
    let bs = exposition_blocks(f, temperatures, powers, utilizations, health_scores, utilization, availability,
        active_incidents, remediations);
    let name = series_name(j);
    let vals = series_values(j, f, temperatures, powers, utilizations, health_scores);
    let line = series_line(name, f[k], vals[k]);
    let (help, kind) = if j == 0 { ("GPU temperature in Celsius"@, "gauge"@) }
        else if j == 1 { ("GPU power consumption in Watts"@, "gauge"@) }
        else if j == 2 { ("GPU SM utilization percentage"@, "gauge"@) }
        else if j == 3 { ("GPU SM clock frequency in MHz"@, "gauge"@) }
        else if j == 4 { ("Cumulative single-bit ECC errors"@, "counter"@) }
        else if j == 5 { ("Cumulative double-bit ECC errors"@, "counter"@) }
        else { ("Normalized composite health score [0.0 - 100.0]"@, "gauge"@) };
    assert(bs[10 + j] == series_block(name, help, kind, f, vals));
    reveal(series_block);
    lemma_series_line_occurs(series_head(name, help, kind), name, f, vals, f.len() as int, k);
    lemma_block_occurs(bs, 17, 10 + j, line);
}

} // verus!
