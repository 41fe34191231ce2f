//! The infrastructure agent: diagnostic and remediation tools, the priority-ordered
//! rule engine, and the autonomous incident loop.
//!
//! Readings that are floating-point numbers (temperature, thermal resistance, performance
//! ratio, utilisation, health score) reach this module as the outcome of the comparisons
//! the rules make on them, in [`ThermalReadings`], [`RuleSignals`] and
//! [`AgentObservation`]. Health scores themselves travel as an opaque `S`.

use vstd::prelude::*;
use crate::clock::{read_clock, WallClock};
use crate::config::AgentConfig;
use crate::lookup::{first_index, find_gpu, lemma_first_index_from, key_index, key_index_from, lemma_key_index_from, lemma_key_index_skip};
use crate::text::{format_padded, padded_id};
use crate::types::{
    Gpu, GpuView, GpuStatus, Incident, IncidentSeverity, IncidentState, EventDetails, TelemetryEvent,
    fleet_view, ids_of,
};

verus! {

// ---------------------------------------------------------------------------
// Inputs from the floating-point readings

/// Threshold comparisons that the diagnostics make on a GPU's float readings.
#[derive(Clone, Copy, Debug)]
pub struct ThermalReadings {
    /// temperature >= 92.0 °C
    pub temperature_at_least_92: bool,
    /// thermal resistance > 0.15
    pub thermal_resistance_above_015: bool,
}

/// Threshold comparisons that the rule engine makes on a GPU's float readings.
#[derive(Clone, Copy, Debug)]
pub struct RuleSignals {
    /// performance < 0.8
    pub performance_below_080: bool,
    /// temperature >= 92.0 °C
    pub temperature_at_least_92: bool,
    /// utilization == 0.0
    pub utilization_zero: bool,
    /// performance < 0.70
    pub performance_below_070: bool,
    /// health score < 70.0
    pub health_below_70: bool,
}

/// What the autonomous loop reads of one GPU beyond its counters.
#[derive(Clone, Copy, Debug)]
pub struct AgentObservation<S> {
    pub health_score: S,
    /// health score < 40.0, the incident trigger
    pub health_below_40: bool,
    pub signals: RuleSignals,
}

// ---------------------------------------------------------------------------
// Diagnostics

#[derive(Debug)]
pub struct DiagnosticReport {
    pub gpu_id: String,
    pub passed: bool,
    pub ecc_health: String,
    pub thermal_health: String,
    pub nvlink_health: String,
    pub details: String,
}

pub open spec fn ecc_fails(g: GpuView) -> bool {
    g.ecc_dbe_total > 0 || g.ecc_window_errors > 15
}

pub open spec fn thermal_fails(r: ThermalReadings) -> bool {
    r.temperature_at_least_92 || r.thermal_resistance_above_015
}

pub open spec fn nvlink_fails(g: GpuView) -> bool {
    g.nvlink_errors > 25 || g.latest_xid == 92
}

/// The diagnostics pass when the ECC, thermal and NVLink checks all pass.
pub open spec fn diagnostics_pass(g: GpuView, r: ThermalReadings) -> bool {
    !ecc_fails(g) && !thermal_fails(r) && !nvlink_fails(g)
}

/// The report the diagnostics give for `g`.
pub open spec fn diagnostic_report(d: DiagnosticReport, g: GpuView, r: ThermalReadings) -> bool {
    let passed = diagnostics_pass(g, r);
    &&& d.gpu_id@ == g.id
    &&& d.passed == passed
    &&& d.ecc_health@ == if ecc_fails(g) { "FAIL_DBE_DETECTED"@ } else { "PASS"@ }
    &&& d.thermal_health@ == if thermal_fails(r) { "FAIL_THERMAL_RESISTANCE_HIGH"@ } else { "PASS"@ }
    &&& d.nvlink_health@ == if nvlink_fails(g) { "FAIL_NVLINK_CRC_STORM"@ } else { "PASS"@ }
    &&& d.details@ == "Diagnostics complete. Overall: "@ + if passed { "PASS"@ } else { "FAIL"@ }
}

// ---------------------------------------------------------------------------
// Rules

/// The rules of the engine, in priority order.
#[derive(Clone, Copy, Debug, PartialEq, Eq, Structural)]
pub enum Rule {
    HardwareDegradation,
    ThermalRunaway,
    DriverCrashBusDrop,
    NvlinkStorm,
    PerformanceRegression,
}

/// A diagnosis with its confidence (in hundredths) and the actions it recommends.
#[derive(Debug)]
pub struct RuleMatch {
    pub rule_name: String,
    pub diagnosis: String,
    pub confidence_pct: u32,
    pub recommended_actions: Vec<String>,
}

/// The first rule, in priority order, whose condition holds.
pub open spec fn rule_for(g: GpuView, s: RuleSignals) -> Option<Rule> {
    if g.ecc_window_errors > 10 && g.latest_xid != 0 && s.performance_below_080 {
        Some(Rule::HardwareDegradation)
    } else if s.temperature_at_least_92 && g.is_throttled {
        Some(Rule::ThermalRunaway)
    } else if g.latest_xid == 79 || (g.sm_clock == 0 && s.utilization_zero) {
        Some(Rule::DriverCrashBusDrop)
    } else if g.nvlink_errors > 25 || g.latest_xid == 92 {
        Some(Rule::NvlinkStorm)
    } else if s.performance_below_070 && s.health_below_70 {
        Some(Rule::PerformanceRegression)
    } else {
        None
    }
}

pub open spec fn rule_name(r: Rule) -> Seq<char> {
    match r {
        Rule::HardwareDegradation => "hardware_degradation"@,
        Rule::ThermalRunaway => "thermal_runaway"@,
        Rule::DriverCrashBusDrop => "driver_crash_bus_drop"@,
        Rule::NvlinkStorm => "nvlink_storm"@,
        Rule::PerformanceRegression => "performance_regression"@,
    }
}

pub open spec fn rule_diagnosis(r: Rule) -> Seq<char> {
    match r {
        Rule::HardwareDegradation => "Probable uncorrectable memory or ASIC hardware fault"@,
        Rule::ThermalRunaway => "Critical thermal dissipation failure or fan stall"@,
        Rule::DriverCrashBusDrop => "GPU fallen off PCIe/NVLink bus or kernel driver crashed"@,
        Rule::NvlinkStorm => "NVLink high CRC replay rate or link retraining failure"@,
        Rule::PerformanceRegression => "Workload straggler bottlenecking distributed collective"@,
    }
}

pub open spec fn rule_confidence_pct(r: Rule) -> u32 {
    match r {
        Rule::HardwareDegradation => 93,
        Rule::ThermalRunaway => 95,
        Rule::DriverCrashBusDrop => 90,
        Rule::NvlinkStorm => 88,
        Rule::PerformanceRegression => 85,
    }
}

pub open spec fn rule_actions(r: Rule) -> Seq<Seq<char>> {
    match r {
        Rule::HardwareDegradation => seq!["quarantine_gpu"@, "run_diagnostics"@, "request_rma"@],
        Rule::ThermalRunaway => seq!["quarantine_gpu"@, "run_diagnostics"@],
        Rule::DriverCrashBusDrop => seq!["restart_driver"@, "quarantine_gpu"@],
        Rule::NvlinkStorm => seq!["quarantine_gpu"@, "run_diagnostics"@],
        Rule::PerformanceRegression => seq!["quarantine_gpu"@],
    }
}

/// `m` is the match that rule `r` produces.
pub open spec fn matches_rule(m: RuleMatch, r: Rule) -> bool {
    &&& m.rule_name@ == rule_name(r)
    &&& m.diagnosis@ == rule_diagnosis(r)
    &&& m.confidence_pct == rule_confidence_pct(r)
    &&& ids_of(m.recommended_actions@) == rule_actions(r)
}

fn string_list(a: &str, b: &str, c: &str, n: usize) -> (v: Vec<String>)
    requires
        1 <= n <= 3,
    ensures
        ids_of(v@) == seq![a@, b@, c@].take(n as int),
{
    let mut v: Vec<String> = Vec::new();
    v.push(String::from_str(a));
    if n >= 2 {
        v.push(String::from_str(b));
    }
    if n >= 3 {
        v.push(String::from_str(c));
    }
    assert(ids_of(v@) =~= seq![a@, b@, c@].take(n as int));
    v
}

fn make_match(r: Rule) -> (m: RuleMatch)
    ensures
        matches_rule(m, r),
{
    match r {
        Rule::HardwareDegradation => {
            let acts = string_list("quarantine_gpu", "run_diagnostics", "request_rma", 3);
            assert(seq!["quarantine_gpu"@, "run_diagnostics"@, "request_rma"@].take(3) =~= rule_actions(r));
            RuleMatch {
                rule_name: String::from_str("hardware_degradation"),
                diagnosis: String::from_str("Probable uncorrectable memory or ASIC hardware fault"),
                confidence_pct: 93,
                recommended_actions: acts,
            }
        },
        Rule::ThermalRunaway => {
            let acts = string_list("quarantine_gpu", "run_diagnostics", "", 2);
            assert(seq!["quarantine_gpu"@, "run_diagnostics"@, ""@].take(2) =~= rule_actions(r));
            RuleMatch {
                rule_name: String::from_str("thermal_runaway"),
                diagnosis: String::from_str("Critical thermal dissipation failure or fan stall"),
                confidence_pct: 95,
                recommended_actions: acts,
            }
        },
        Rule::DriverCrashBusDrop => {
            let acts = string_list("restart_driver", "quarantine_gpu", "", 2);
            assert(seq!["restart_driver"@, "quarantine_gpu"@, ""@].take(2) =~= rule_actions(r));
            RuleMatch {
                rule_name: String::from_str("driver_crash_bus_drop"),
                diagnosis: String::from_str("GPU fallen off PCIe/NVLink bus or kernel driver crashed"),
                confidence_pct: 90,
                recommended_actions: acts,
            }
        },
        Rule::NvlinkStorm => {
            let acts = string_list("quarantine_gpu", "run_diagnostics", "", 2);
            assert(seq!["quarantine_gpu"@, "run_diagnostics"@, ""@].take(2) =~= rule_actions(r));
            RuleMatch {
                rule_name: String::from_str("nvlink_storm"),
                diagnosis: String::from_str("NVLink high CRC replay rate or link retraining failure"),
                confidence_pct: 88,
                recommended_actions: acts,
            }
        },
        Rule::PerformanceRegression => {
            let acts = string_list("quarantine_gpu", "", "", 1);
            assert(seq!["quarantine_gpu"@, ""@, ""@].take(1) =~= rule_actions(r));
            RuleMatch {
                rule_name: String::from_str("performance_regression"),
                diagnosis: String::from_str("Workload straggler bottlenecking distributed collective"),
                confidence_pct: 85,
                recommended_actions: acts,
            }
        },
    }
}

/// Which rule fires for the GPU, without building the match.
pub fn select_rule(gpu: &Gpu, signals: &RuleSignals) -> (r: Option<Rule>)
    ensures
        r == rule_for(gpu@, *signals),
{
    if gpu.ecc_window_errors > 10 && gpu.latest_xid != 0 && signals.performance_below_080 {
        Some(Rule::HardwareDegradation)
    } else if signals.temperature_at_least_92 && gpu.is_throttled {
        Some(Rule::ThermalRunaway)
    } else if gpu.latest_xid == 79 || (gpu.sm_clock == 0 && signals.utilization_zero) {
        Some(Rule::DriverCrashBusDrop)
    } else if gpu.nvlink_errors > 25 || gpu.latest_xid == 92 {
        Some(Rule::NvlinkStorm)
    } else if signals.performance_below_070 && signals.health_below_70 {
        Some(Rule::PerformanceRegression)
    } else {
        None
    }
}

// ---------------------------------------------------------------------------
// Remediation actions of the autonomous loop

/// Carrying out one recommended action: the GPU afterwards, and the action as recorded.
pub open spec fn take_action(g: GpuView, a: Seq<char>) -> (GpuView, Option<Seq<char>>) {
    if a == "quarantine_gpu"@ {
        (GpuView { status: GpuStatus::Quarantined, ..g }, Some("quarantine_gpu"@))
    } else if a == "restart_driver"@ {
        (GpuView { latest_xid: 0, ..g }, Some("restart_driver"@))
    } else if a == "run_diagnostics"@ {
        (g, Some("run_diagnostics"@))
    } else if a == "request_rma"@ {
        (g, Some("request_rma_simulated"@))
    } else {
        (g, None)
    }
}

/// Carrying out the actions in order.
pub open spec fn apply_actions(g: GpuView, acts: Seq<Seq<char>>) -> (GpuView, Seq<Seq<char>>)
    decreases acts.len(),
{
    if acts.len() == 0 {
        (g, Seq::empty())
    } else {
        let (g1, t1) = apply_actions(g, acts.drop_last());
        let (g2, o) = take_action(g1, acts.last());
        (g2, match o { Some(x) => t1.push(x), None => t1 })
    }
}

#[derive(Clone, Copy, Debug, PartialEq, Eq, Structural)]
enum ActionKind {
    Quarantine,
    RestartDriver,
    RunDiagnostics,
    RequestRma,
    Unknown,
}

fn classify_action(a: &String) -> (k: ActionKind)
    ensures
        k == ActionKind::Quarantine <==> a@ == "quarantine_gpu"@,
        k == ActionKind::RestartDriver <==> (a@ != "quarantine_gpu"@ && a@ == "restart_driver"@),
        k == ActionKind::RunDiagnostics <==> (a@ != "quarantine_gpu"@ && a@ != "restart_driver"@ && a@ == "run_diagnostics"@),
        k == ActionKind::RequestRma <==> (a@ != "quarantine_gpu"@ && a@ != "restart_driver"@ && a@ != "run_diagnostics"@ && a@ == "request_rma"@),
{
    if *a == String::from_str("quarantine_gpu") {
        ActionKind::Quarantine
    } else if *a == String::from_str("restart_driver") {
        ActionKind::RestartDriver
    } else if *a == String::from_str("run_diagnostics") {
        ActionKind::RunDiagnostics
    } else if *a == String::from_str("request_rma") {
        ActionKind::RequestRma
    } else {
        ActionKind::Unknown
    }
}

// ---------------------------------------------------------------------------
// Incidents, events and the agent's state

pub struct IncidentView<S> {
    pub id: Seq<char>,
    pub gpu_id: Seq<char>,
    pub node_id: Seq<char>,
    pub severity: IncidentSeverity,
    pub state: IncidentState,
    pub detected_at_ms: i64,
    pub resolved_at_ms: Option<i64>,
    pub trigger_health: S,
    pub diagnosis: Option<Seq<char>>,
    pub confidence_pct: Option<u32>,
    pub actions_taken: Seq<Seq<char>>,
}

impl<S> View for Incident<S> {
    type V = IncidentView<S>;

    open spec fn view(&self) -> IncidentView<S> {
        IncidentView {
            id: self.id@,
            gpu_id: self.gpu_id@,
            node_id: self.node_id@,
            severity: self.severity,
            state: self.state,
            detected_at_ms: self.detected_at_ms,
            resolved_at_ms: self.resolved_at_ms,
            trigger_health: self.trigger_health,
            diagnosis: self.diagnosis.deep_view(),
            confidence_pct: self.confidence_pct,
            actions_taken: ids_of(self.actions_taken@),
        }
    }
}

pub enum DetailsView<S> {
    Quarantined { health_score: S },
    DriverRestarted { previous_xid: u32 },
    ReturnedToService { health_score: S },
    IncidentCreated { incident_id: Seq<char>, trigger_health: S },
    IncidentResolved { incident_id: Seq<char>, actions: Seq<Seq<char>> },
}

impl<S> View for EventDetails<S> {
    type V = DetailsView<S>;

    open spec fn view(&self) -> DetailsView<S> {
        match self {
            EventDetails::Quarantined { health_score } => DetailsView::Quarantined { health_score: *health_score },
            EventDetails::DriverRestarted { previous_xid } => DetailsView::DriverRestarted { previous_xid: *previous_xid },
            EventDetails::ReturnedToService { health_score } => DetailsView::ReturnedToService { health_score: *health_score },
            EventDetails::IncidentCreated { incident_id, trigger_health } =>
                DetailsView::IncidentCreated { incident_id: incident_id@, trigger_health: *trigger_health },
            EventDetails::IncidentResolved { incident_id, actions } =>
                DetailsView::IncidentResolved { incident_id: incident_id@, actions: ids_of(actions@) },
        }
    }
}

/// An event as the log records it, all but its timestamp (which is read from the clock as the
/// event is logged).
pub struct EventCore<S> {
    pub event_id: Seq<char>,
    pub event_type: Seq<char>,
    pub severity: Seq<char>,
    pub gpu_id: Seq<char>,
    pub node_id: Seq<char>,
    pub details: DetailsView<S>,
}

pub open spec fn event_core<S>(e: TelemetryEvent<S>) -> EventCore<S> {
    EventCore {
        event_id: e.event_id@,
        event_type: e.event_type@,
        severity: e.severity@,
        gpu_id: e.gpu_id@,
        node_id: e.node_id@,
        details: e.details@,
    }
}

/// The event logged as the `n`-th entry plus one: its id is `evt-` and its position in the log,
/// counting from one, on eight digits.
pub open spec fn new_event<S>(n: nat, event_type: Seq<char>, severity: Seq<char>, gpu_id: Seq<char>,
    node_id: Seq<char>, details: DetailsView<S>) -> EventCore<S> {
    EventCore {
        event_id: padded_id("evt-"@, n + 1, 8),
        event_type,
        severity,
        gpu_id,
        node_id,
        details,
    }
}

/// The last time an incident for a GPU was resolved, in whole seconds since the Unix epoch.
pub struct Cooldown {
    pub gpu_id: String,
    pub at_secs: i64,
}

/// The agent's state as the contracts speak of it.
pub struct AgentModel<S> {
    /// Open incidents (at most one per GPU), oldest first.
    pub incidents: Seq<IncidentView<S>>,
    /// Resolution times per GPU.
    pub cooldowns: Seq<(Seq<char>, i64)>,
    /// The event log, timestamps aside.
    pub events: Seq<EventCore<S>>,
    /// Incidents opened so far.
    pub counter: nat,
}

pub struct AgentEngine<S> {
    pub config: AgentConfig,
    pub active_incidents: Vec<Incident<S>>,
    pub cooldowns: Vec<Cooldown>,
    pub event_log: Vec<TelemetryEvent<S>>,
    pub incident_counter: usize,
}

pub open spec fn incident_keys<S>(incs: Seq<IncidentView<S>>) -> Seq<Seq<char>> {
    incs.map_values(|x: IncidentView<S>| x.gpu_id)
}

pub open spec fn cooldown_keys(cs: Seq<(Seq<char>, i64)>) -> Seq<Seq<char>> {
    cs.map_values(|c: (Seq<char>, i64)| c.0)
}

/// When the GPU's last incident was resolved; 0 when it never was.
pub open spec fn cooldown_of(cs: Seq<(Seq<char>, i64)>, id: Seq<char>) -> i64 {
    let k = key_index(cooldown_keys(cs), id);
    if k >= 0 { cs[k].1 } else { 0 }
}

/// Records that the GPU's incident was resolved at `t`.
pub open spec fn set_cooldown(cs: Seq<(Seq<char>, i64)>, id: Seq<char>, t: i64) -> Seq<(Seq<char>, i64)> {
    let k = key_index(cooldown_keys(cs), id);
    if k >= 0 { cs.update(k, (id, t)) } else { cs.push((id, t)) }
}

/// The incident that the agent opens for GPU `g` as the `n`-th.
pub open spec fn opened_incident<S>(n: nat, g: GpuView, health: S, now: WallClock) -> IncidentView<S> {
    IncidentView {
        id: padded_id("inc-"@, n, 6),
        gpu_id: g.id,
        node_id: g.node_id,
        severity: IncidentSeverity::Critical,
        state: IncidentState::Detected,
        detected_at_ms: now.millis,
        resolved_at_ms: None,
        trigger_health: health,
        diagnosis: None,
        confidence_pct: None,
        actions_taken: Seq::empty(),
    }
}

/// An incident is due for a GPU whose health fell below 40, that has no open incident, is not
/// quarantined, and whose last incident was resolved at least `cooldown_s` seconds ago.
pub open spec fn incident_due<S>(m: AgentModel<S>, g: GpuView, o: AgentObservation<S>, now: WallClock, cooldown_s: i64) -> bool {
    &&& o.health_below_40
    &&& key_index(incident_keys(m.incidents), g.id) < 0
    &&& g.status != GpuStatus::Quarantined
    &&& now.secs - cooldown_of(m.cooldowns, g.id) >= cooldown_s
}

/// First half of the loop's visit to a GPU: open an incident if one is due.
pub open spec fn open_phase<S>(m: AgentModel<S>, g: GpuView, o: AgentObservation<S>, now: WallClock, cooldown_s: i64) -> AgentModel<S> {
    if incident_due(m, g, o, now, cooldown_s) {
        let n = m.counter + 1;
        let inc = opened_incident(n, g, o.health_score, now);
        AgentModel {
            incidents: m.incidents.push(inc),
            events: m.events.push(new_event(m.events.len(), "INCIDENT_CREATED"@, "CRITICAL"@, g.id, g.node_id,
                DetailsView::IncidentCreated { incident_id: inc.id, trigger_health: o.health_score })),
            counter: n,
            cooldowns: m.cooldowns,
        }
    } else {
        m
    }
}

/// Second half of the visit: an open incident of the GPU is investigated; when a rule fires, its
/// actions are carried out, the incident is closed (and leaves the open set) and the GPU enters
/// its cooldown; otherwise the incident stays open, under investigation.
pub open spec fn handle_phase<S>(m: AgentModel<S>, g: GpuView, s: RuleSignals, now: WallClock) -> (AgentModel<S>, GpuView) {
    let k = key_index(incident_keys(m.incidents), g.id);
    if k < 0 {
        (m, g)
    } else {
        let inc = m.incidents[k];
        let rest = m.incidents.remove(k);
        match rule_for(g, s) {
            Some(r) => {
                let (g2, taken) = apply_actions(g, rule_actions(r));
                (AgentModel {
                    incidents: rest,
                    events: m.events.push(new_event(m.events.len(), "INCIDENT_RESOLVED"@, "INFO"@, g.id, g.node_id,
                        DetailsView::IncidentResolved { incident_id: inc.id, actions: inc.actions_taken + taken })),
                    cooldowns: set_cooldown(m.cooldowns, g.id, now.secs),
                    counter: m.counter,
                }, g2)
            },
            None => (AgentModel {
                incidents: rest.push(IncidentView { state: IncidentState::Investigating, ..inc }),
                ..m
            }, g),
        }
    }
}

/// The agent and the fleet after the loop visited the first `i` GPUs, in fleet order.
pub open spec fn agent_upto<S>(m0: AgentModel<S>, f0: Seq<GpuView>, obs: Seq<AgentObservation<S>>, i: nat,
    now: WallClock, cooldown_s: i64) -> (AgentModel<S>, Seq<GpuView>)
    decreases i,
{
    if i == 0 || i > f0.len() {
        (m0, f0)
    } else {
        let (m, f) = agent_upto(m0, f0, obs, (i - 1) as nat, now, cooldown_s);
        let m1 = open_phase(m, f[i - 1], obs[i - 1], now, cooldown_s);
        let (m2, g2) = handle_phase(m1, f[i - 1], obs[i - 1].signals, now);
        (m2, f.update(i - 1, g2))
    }
}

impl<S> AgentEngine<S> {
    pub open spec fn model(&self) -> AgentModel<S> {
        AgentModel {
            incidents: self.active_incidents@.map_values(|x: Incident<S>| x@),
            cooldowns: self.cooldowns@.map_values(|c: Cooldown| (c.gpu_id@, c.at_secs)),
            events: self.event_log@.map_values(|e: TelemetryEvent<S>| event_core(e)),
            counter: self.incident_counter as nat,
        }
    }
}

impl<S: Copy> AgentEngine<S> {
    pub fn new(config: AgentConfig) -> (a: Self)
        ensures
            a.config == config,
            a.model().incidents.len() == 0,
            a.model().cooldowns.len() == 0,
            a.model().events.len() == 0,
            a.model().counter == 0,
    {
        let a = AgentEngine {
            config,
            active_incidents: Vec::new(),
            cooldowns: Vec::new(),
            event_log: Vec::new(),
            incident_counter: 0,
        };
        assert(a.model().incidents =~= Seq::<IncidentView<S>>::empty());
        assert(a.model().cooldowns =~= Seq::<(Seq<char>, i64)>::empty());
        assert(a.model().events =~= Seq::<EventCore<S>>::empty());
        a
    }

    pub fn get_event_log(&self) -> (l: &Vec<TelemetryEvent<S>>)
        ensures
            l == &self.event_log,
    {
        &self.event_log
    }

    fn emit_event(&mut self, event_type: &str, severity: &str, gpu_id: &String, node_id: &String, details: EventDetails<S>)
        requires
            old(self).event_log@.len() < usize::MAX,
        ensures
            final(self).config == old(self).config,
            final(self).model() == (AgentModel {
                events: old(self).model().events.push(new_event(old(self).model().events.len(), event_type@,
                    severity@, gpu_id@, node_id@, details@)),
                ..old(self).model()
            }),
            final(self).event_log@.len() == old(self).event_log@.len() + 1,
            final(self).event_log@.drop_last() == old(self).event_log@,
    {
        let now = read_clock();
        let n = self.event_log.len() + 1;
        let event = TelemetryEvent {
            event_id: format_padded("evt-", n as u64, 8),
            timestamp_ms: now.millis,
            event_type: String::from_str(event_type),
            severity: String::from_str(severity),
            gpu_id: gpu_id.clone(),
            node_id: node_id.clone(),
            details,
        };
        let ghost before = self.event_log@;
        self.event_log.push(event);
        proof {
            assert(self.event_log@.drop_last() =~= before);
            assert(self.model().events =~= old(self).model().events.push(new_event(old(self).model().events.len(),
                event_type@, severity@, gpu_id@, node_id@, details@)));
            assert(self.model().incidents =~= old(self).model().incidents);
            assert(self.model().cooldowns =~= old(self).model().cooldowns);
        }
    }

    fn find_incident(&self, gpu_id: &String) -> (r: Option<usize>)
        ensures
            match r {
                Some(k) => k as int == key_index(incident_keys(self.model().incidents), gpu_id@)
                    && k < self.active_incidents@.len(),
                None => key_index(incident_keys(self.model().incidents), gpu_id@) == -1,
            },
    {
        let ghost keys = incident_keys(self.model().incidents);
        let mut i: usize = 0;
        while i < self.active_incidents.len()
            invariant
                i <= self.active_incidents@.len(),
                keys == incident_keys(self.model().incidents),
                keys.len() == self.active_incidents@.len(),
                forall|j: int| 0 <= j < i ==> keys[j] != gpu_id@,
            decreases self.active_incidents@.len() - i,
        {
            assert(keys[i as int] == self.active_incidents@[i as int].gpu_id@);
            if self.active_incidents[i].gpu_id == *gpu_id {
                proof { lemma_key_index_skip(keys, gpu_id@, 0, i as int); }
                return Some(i);
            }
            i = i + 1;
        }
        proof { lemma_key_index_skip(keys, gpu_id@, 0, i as int); }
        None
    }

    fn find_cooldown(&self, gpu_id: &String) -> (r: Option<usize>)
        ensures
            match r {
                Some(k) => k as int == key_index(cooldown_keys(self.model().cooldowns), gpu_id@)
                    && k < self.cooldowns@.len(),
                None => key_index(cooldown_keys(self.model().cooldowns), gpu_id@) == -1,
            },
    {
        let ghost keys = cooldown_keys(self.model().cooldowns);
        let mut i: usize = 0;
        while i < self.cooldowns.len()
            invariant
                i <= self.cooldowns@.len(),
                keys == cooldown_keys(self.model().cooldowns),
                keys.len() == self.cooldowns@.len(),
                forall|j: int| 0 <= j < i ==> keys[j] != gpu_id@,
            decreases self.cooldowns@.len() - i,
        {
            assert(keys[i as int] == self.cooldowns@[i as int].gpu_id@);
            if self.cooldowns[i].gpu_id == *gpu_id {
                proof { lemma_key_index_skip(keys, gpu_id@, 0, i as int); }
                return Some(i);
            }
            i = i + 1;
        }
        proof { lemma_key_index_skip(keys, gpu_id@, 0, i as int); }
        None
    }

    /// Tool 6: runs the ECC, thermal and NVLink checks on a GPU.
    pub fn tool_run_diagnostics(&self, gpu: &Gpu, readings: &ThermalReadings) -> (d: DiagnosticReport)
        ensures
            diagnostic_report(d, gpu@, *readings),
    {
        let mut passed = true;
        let ecc_health = if gpu.ecc_dbe_total > 0 || gpu.ecc_window_errors > 15 {
            passed = false;
            String::from_str("FAIL_DBE_DETECTED")
        } else {
            String::from_str("PASS")
        };
        let thermal_health = if readings.temperature_at_least_92 || readings.thermal_resistance_above_015 {
            passed = false;
            String::from_str("FAIL_THERMAL_RESISTANCE_HIGH")
        } else {
            String::from_str("PASS")
        };
        let nvlink_health = if gpu.nvlink_errors > 25 || gpu.latest_xid == 92 {
            passed = false;
            String::from_str("FAIL_NVLINK_CRC_STORM")
        } else {
            String::from_str("PASS")
        };
        let mut details = String::from_str("Diagnostics complete. Overall: ");
        if passed {
            details.append("PASS");
        } else {
            details.append("FAIL");
        }
        DiagnosticReport {
            gpu_id: gpu.id.clone(),
            passed,
            ecc_health,
            thermal_health,
            nvlink_health,
            details,
        }
    }

    /// Tool 8: quarantines a GPU and logs it.
    pub fn tool_quarantine_gpu(&mut self, gpu: &mut Gpu, health_score: S)
        requires
            old(self).event_log@.len() < usize::MAX,
        ensures
            final(gpu)@ == (GpuView { status: GpuStatus::Quarantined, ..old(gpu)@ }),
            final(self).config == old(self).config,
            final(self).model() == (AgentModel {
                events: old(self).model().events.push(new_event(old(self).model().events.len(), "GPU_QUARANTINED"@,
                    "CRITICAL"@, old(gpu).id@, old(gpu).node_id@, DetailsView::Quarantined { health_score })),
                ..old(self).model()
            }),
            final(self).event_log@.drop_last() == old(self).event_log@,
    {
        gpu.status = GpuStatus::Quarantined;
        self.emit_event("GPU_QUARANTINED", "CRITICAL", &gpu.id, &gpu.node_id, EventDetails::Quarantined { health_score });
    }

    /// Tool 9: restarts the driver, clearing the transient error state, and logs it. The
    /// performance ratio's reset to baseline belongs to the float readings.
    pub fn tool_restart_driver(&mut self, gpu: &mut Gpu) -> (ok: bool)
        requires
            old(self).event_log@.len() < usize::MAX,
        ensures
            ok,
            final(gpu)@ == (GpuView { latest_xid: 0, clock_throttle: 0, sm_clock: 1980, ..old(gpu)@ }),
            final(self).config == old(self).config,
            final(self).model() == (AgentModel {
                events: old(self).model().events.push(new_event(old(self).model().events.len(), "DRIVER_RESTARTED"@,
                    "WARNING"@, old(gpu).id@, old(gpu).node_id@, DetailsView::DriverRestarted { previous_xid: old(gpu).latest_xid })),
                ..old(self).model()
            }),
            final(self).event_log@.drop_last() == old(self).event_log@,
    {
        self.emit_event("DRIVER_RESTARTED", "WARNING", &gpu.id, &gpu.node_id,
            EventDetails::DriverRestarted { previous_xid: gpu.latest_xid });
        gpu.latest_xid = 0;
        gpu.clock_throttle = 0;
        gpu.sm_clock = 1980;
        true
    }

    /// Tool 10: returns a GPU to healthy service when the diagnostics pass and its health score
    /// is at least 80; logs the return.
    pub fn tool_return_to_service(&mut self, gpu: &mut Gpu, readings: &ThermalReadings, health_at_least_80: bool,
        health_score: S) -> (ok: bool)
        requires
            old(self).event_log@.len() < usize::MAX,
        ensures
            ok == (diagnostics_pass(old(gpu)@, *readings) && health_at_least_80),
            final(self).config == old(self).config,
            ok ==> final(gpu)@ == (GpuView { status: GpuStatus::Healthy, ..old(gpu)@ }),
            ok ==> final(self).model() == (AgentModel {
                events: old(self).model().events.push(new_event(old(self).model().events.len(), "RETURN_TO_SERVICE"@,
                    "INFO"@, old(gpu).id@, old(gpu).node_id@, DetailsView::ReturnedToService { health_score })),
                ..old(self).model()
            }),
            ok ==> final(self).event_log@.drop_last() == old(self).event_log@,
            !ok ==> final(gpu)@ == old(gpu)@ && final(self).model() == old(self).model(),
            !ok ==> final(self).event_log@ == old(self).event_log@ && final(self).active_incidents@ == old(self).active_incidents@
                && final(self).cooldowns@ == old(self).cooldowns@ && final(self).incident_counter == old(self).incident_counter,
    {
        let diag = self.tool_run_diagnostics(gpu, readings);
        if diag.passed && health_at_least_80 {
            gpu.status = GpuStatus::Healthy;
            self.emit_event("RETURN_TO_SERVICE", "INFO", &gpu.id, &gpu.node_id,
                EventDetails::ReturnedToService { health_score });
            true
        } else {
            false
        }
    }

    /// The rule engine: the first rule, in priority order, whose condition the GPU meets.
    pub fn evaluate_rules(&self, gpu: &Gpu, signals: &RuleSignals) -> (m: Option<RuleMatch>)
        ensures
            match rule_for(gpu@, *signals) {
                Some(r) => m is Some && matches_rule(m->0, r),
                None => m is None,
            },
    {
        match select_rule(gpu, signals) {
            Some(r) => Some(make_match(r)),
            None => None,
        }
    }
}

proof fn lemma_apply_actions_keeps_identity(g: GpuView, acts: Seq<Seq<char>>)
    ensures
        apply_actions(g, acts).0.id == g.id,
        apply_actions(g, acts).0.node_id == g.node_id,
    decreases acts.len(),
{
    if acts.len() > 0 {
        lemma_apply_actions_keeps_identity(g, acts.drop_last());
    }
}

fn clone_strings(v: &Vec<String>) -> (r: Vec<String>)
    ensures
        ids_of(r@) == ids_of(v@),
{
    let mut r: Vec<String> = Vec::new();
    let mut i: usize = 0;
    while i < v.len()
        invariant
            i <= v@.len(),
            ids_of(r@) == ids_of(v@).take(i as int),
        decreases v@.len() - i,
    {
        let ghost before = r@;
        let c = v[i].clone();
        assert(c@ == v@[i as int]@);
        r.push(c);
        assert(ids_of(r@) =~= ids_of(before).push(c@));
        assert(ids_of(v@).take((i + 1) as int) =~= ids_of(v@).take(i as int).push(v@[i as int]@));
        i = i + 1;
    }
    assert(ids_of(v@).take(v@.len() as int) =~= ids_of(v@));
    r
}

impl<S: Copy> AgentEngine<S> {
    fn open_incident_if_due(&mut self, gpu: &Gpu, obs: &AgentObservation<S>, now: WallClock)
        requires
            old(self).incident_counter < usize::MAX,
            old(self).event_log@.len() < usize::MAX,
        ensures
            final(self).config == old(self).config,
            final(self).model() == open_phase(old(self).model(), gpu@, *obs, now, old(self).config.cooldown_s),
            final(self).incident_counter <= old(self).incident_counter + 1,
            final(self).event_log@.len() <= old(self).event_log@.len() + 1,
            final(self).event_log@.len() >= old(self).event_log@.len(),
            final(self).event_log@.subrange(0, old(self).event_log@.len() as int) == old(self).event_log@,
    {
        if !obs.health_below_40 {
            return;
        }
        match self.find_incident(&gpu.id) {
            Some(_) => return,
            None => {},
        }
        match gpu.status {
            GpuStatus::Quarantined => return,
            _ => {},
        }
        let last: i64 = match self.find_cooldown(&gpu.id) {
            Some(c) => self.cooldowns[c].at_secs,
            None => 0,
        };
        if (now.secs as i128) - (last as i128) >= self.config.cooldown_s as i128 {
            let ghost m = self.model();
            self.incident_counter = self.incident_counter + 1;
            let incident_id = format_padded("inc-", self.incident_counter as u64, 6);
            let incident = Incident {
                id: incident_id.clone(),
                gpu_id: gpu.id.clone(),
                node_id: gpu.node_id.clone(),
                severity: IncidentSeverity::Critical,
                state: IncidentState::Detected,
                detected_at_ms: now.millis,
                resolved_at_ms: None,
                trigger_health: obs.health_score,
                diagnosis: None,
                confidence_pct: None,
                actions_taken: Vec::new(),
            };
            self.emit_event("INCIDENT_CREATED", "CRITICAL", &gpu.id, &gpu.node_id,
                EventDetails::IncidentCreated { incident_id, trigger_health: obs.health_score });
            assert(self.event_log@.subrange(0, old(self).event_log@.len() as int) =~= self.event_log@.drop_last());
            let ghost before = self.active_incidents@;
            self.active_incidents.push(incident);
            proof {
                assert(incident@.actions_taken =~= Seq::<Seq<char>>::empty());
                assert(incident@ == opened_incident((m.counter + 1) as nat, gpu@, obs.health_score, now));
                assert(self.model().incidents =~= m.incidents.push(incident@));
            }
        }
    }

    fn handle_active_incident(&mut self, gpu: &mut Gpu, signals: &RuleSignals, now: WallClock)
        requires
            old(self).event_log@.len() < usize::MAX,
        ensures
            final(self).config == old(self).config,
            (final(self).model(), final(gpu)@) == handle_phase(old(self).model(), old(gpu)@, *signals, now),
            final(self).incident_counter == old(self).incident_counter,
            final(self).event_log@.len() <= old(self).event_log@.len() + 1,
            final(self).event_log@.len() >= old(self).event_log@.len(),
            final(self).event_log@.subrange(0, old(self).event_log@.len() as int) == old(self).event_log@,
    {
        let ghost m = self.model();
        let ghost g0 = gpu@;
        let k = match self.find_incident(&gpu.id) {
            Some(k) => k,
            None => return,
        };
        let mut incident = self.active_incidents.remove(k);
        let ghost inc0 = incident@;
        proof {
            assert(self.model().incidents =~= m.incidents.remove(k as int));
        }
        incident.state = IncidentState::Investigating;
        match self.evaluate_rules(gpu, signals) {
            Some(rm) => {
                let ghost r = rule_for(g0, *signals)->0;
                let ghost acts = rule_actions(r);
                incident.state = IncidentState::Diagnosed;
                incident.diagnosis = Some(rm.diagnosis.clone());
                incident.confidence_pct = Some(rm.confidence_pct);
                incident.state = IncidentState::Remediating;
                let mut t: usize = 0;
                while t < rm.recommended_actions.len()
                    invariant
                        t <= rm.recommended_actions@.len(),
                        ids_of(rm.recommended_actions@) == acts,
                        gpu@ == apply_actions(g0, acts.take(t as int)).0,
                        ids_of(incident.actions_taken@) == inc0.actions_taken + apply_actions(g0, acts.take(t as int)).1,
                        incident.id@ == inc0.id,
                    decreases rm.recommended_actions@.len() - t,
                {
                    proof {
                        assert(acts.take((t + 1) as int).drop_last() =~= acts.take(t as int));
                        assert(acts.take((t + 1) as int).last() == rm.recommended_actions@[t as int]@);
                    }
                    let ghost before = incident.actions_taken@;
                    match classify_action(&rm.recommended_actions[t]) {
                        ActionKind::Quarantine => {
                            gpu.status = GpuStatus::Quarantined;
                            incident.actions_taken.push(String::from_str("quarantine_gpu"));
                        },
                        ActionKind::RestartDriver => {
                            gpu.latest_xid = 0;
                            incident.actions_taken.push(String::from_str("restart_driver"));
                        },
                        ActionKind::RunDiagnostics => {
                            incident.actions_taken.push(String::from_str("run_diagnostics"));
                        },
                        ActionKind::RequestRma => {
                            incident.actions_taken.push(String::from_str("request_rma_simulated"));
                        },
                        ActionKind::Unknown => {},
                    }
                    proof {
                        if incident.actions_taken@.len() > before.len() {
                            assert(ids_of(incident.actions_taken@) =~= ids_of(before).push(incident.actions_taken@.last()@));
                        }
                        assert(inc0.actions_taken + apply_actions(g0, acts.take((t + 1) as int)).1
                            =~= ids_of(incident.actions_taken@));
                    }
                    t = t + 1;
                }
                proof {
                    assert(acts.take(acts.len() as int) =~= acts);
                    lemma_apply_actions_keeps_identity(g0, acts);
                }
                incident.state = IncidentState::Resolved;
                incident.resolved_at_ms = Some(now.millis);
                let taken = clone_strings(&incident.actions_taken);
                let incident_id = incident.id.clone();
                self.emit_event("INCIDENT_RESOLVED", "INFO", &gpu.id, &gpu.node_id,
                    EventDetails::IncidentResolved { incident_id, actions: taken });
                let ghost m2 = self.model();
                proof {
                    lemma_key_index_from(cooldown_keys(m2.cooldowns), g0.id, 0);
                }
                match self.find_cooldown(&gpu.id) {
                    Some(c) => {
                        self.cooldowns[c].at_secs = now.secs;
                    },
                    None => {
                        self.cooldowns.push(Cooldown { gpu_id: gpu.id.clone(), at_secs: now.secs });
                    },
                }
                proof {
                    assert(self.model().cooldowns =~= set_cooldown(m2.cooldowns, g0.id, now.secs));
                    assert(self.model().incidents == m2.incidents);
                    assert(self.model().events == m2.events);
                }
            },
            None => {
                self.active_incidents.push(incident);
                proof {
                    assert(self.model().incidents =~= m.incidents.remove(k as int).push(
                        IncidentView { state: IncidentState::Investigating, ..inc0 }));
                }
            },
        }
    }

    /// The autonomous loop: visits every GPU in fleet order, opens the incidents that are due,
    /// and resolves those a rule diagnoses by carrying out its actions.
    pub fn step_autonomous_agent(&mut self, fleet: &mut Vec<Gpu>, observations: &Vec<AgentObservation<S>>)
        requires
            observations@.len() == old(fleet)@.len(),
            old(self).incident_counter + old(fleet)@.len() <= usize::MAX,
            old(self).event_log@.len() + 2 * old(fleet)@.len() < usize::MAX,
        ensures
            final(self).config == old(self).config,
            final(fleet)@.len() == old(fleet)@.len(),
            exists|now: WallClock| (final(self).model(), fleet_view(final(fleet)@)) == #[trigger] agent_upto(
                old(self).model(), fleet_view(old(fleet)@), observations@, old(fleet)@.len() as nat, now,
                old(self).config.cooldown_s),
    {
        let now = read_clock();
        self.step_autonomous_agent_at(fleet, observations, now);
    }

    /// [`Self::step_autonomous_agent`] with the clock reading given.
    pub fn step_autonomous_agent_at(&mut self, fleet: &mut Vec<Gpu>, observations: &Vec<AgentObservation<S>>, now: WallClock)
        requires
            observations@.len() == old(fleet)@.len(),
            old(self).incident_counter + old(fleet)@.len() <= usize::MAX,
            old(self).event_log@.len() + 2 * old(fleet)@.len() < usize::MAX,
        ensures
            final(self).config == old(self).config,
            final(fleet)@.len() == old(fleet)@.len(),
            (final(self).model(), fleet_view(final(fleet)@)) == agent_upto(old(self).model(), fleet_view(old(fleet)@),
                observations@, old(fleet)@.len() as nat, now, old(self).config.cooldown_s),
            final(self).event_log@.len() >= old(self).event_log@.len(),
            final(self).event_log@.subrange(0, old(self).event_log@.len() as int) == old(self).event_log@,
    {
        let ghost m0 = self.model();
        let ghost f0 = fleet_view(fleet@);
        let ghost c0 = self.incident_counter;
        let ghost e0 = self.event_log@.len();
        let ghost cd = self.config.cooldown_s;
        let n = fleet.len();
        let mut i: usize = 0;
        assert(self.event_log@.subrange(0, e0 as int) =~= old(self).event_log@);
        while i < n
            invariant
                n == fleet@.len(),
                n == f0.len(),
                i <= n,
                observations@.len() == n,
                self.config == old(self).config,
                cd == self.config.cooldown_s,
                self.incident_counter <= c0 + i,
                self.event_log@.len() <= e0 + 2 * i,
                c0 + n <= usize::MAX,
                e0 + 2 * n < usize::MAX,
                (self.model(), fleet_view(fleet@)) == agent_upto(m0, f0, observations@, i as nat, now, cd),
                self.event_log@.len() >= e0,
                self.event_log@.subrange(0, e0 as int) == old(self).event_log@,
            decreases n - i,
        {
            let ghost f = fleet_view(fleet@);
            let ghost log0 = self.event_log@;
            assert(f[i as int] == fleet@[i as int]@);
            self.open_incident_if_due(&fleet[i], &observations[i], now);
            let ghost fb = fleet@;
            self.handle_active_incident(&mut fleet[i], &observations[i].signals, now);
            proof {
                assert(fleet_view(fleet@) =~= f.update(i as int, fleet@[i as int]@));
                assert(self.event_log@.subrange(0, e0 as int) =~= log0.subrange(0, e0 as int));
            }
            i = i + 1;
        }
    }
}

// ---------------------------------------------------------------------------
// Read-only and fleet-wide tools

/// A logged event with its timestamp.
pub open spec fn event_entry<S>(e: TelemetryEvent<S>) -> (EventCore<S>, i64) {
    (event_core(e), e.timestamp_ms)
}

/// The last `k` events, among the first `i` of the log, that concern GPU `id`, latest first.
pub open spec fn recent_events<S>(log: Seq<(EventCore<S>, i64)>, id: Seq<char>, i: int, k: nat) -> Seq<(EventCore<S>, i64)>
    decreases i,
{
    if i <= 0 || k == 0 || i > log.len() {
        Seq::empty()
    } else if log[i - 1].0.gpu_id == id {
        seq![log[i - 1]] + recent_events(log, id, i - 1, (k - 1) as nat)
    } else {
        recent_events(log, id, i - 1, k)
    }
}

/// The GPUs of node `node` among the first `i` of the fleet: how many there are and how many
/// of them are healthy.
pub open spec fn node_counts(fleet: Seq<GpuView>, node: Seq<char>, i: int) -> (nat, nat)
    decreases i,
{
    if i <= 0 || i > fleet.len() {
        (0, 0)
    } else {
        let (h, t) = node_counts(fleet, node, i - 1);
        if fleet[i - 1].node_id == node {
            (if fleet[i - 1].status == GpuStatus::Healthy { h + 1 } else { h }, t + 1)
        } else {
            (h, t)
        }
    }
}

/// Draining quarantines every GPU of the node and leaves the others as they are.
pub open spec fn drained(g: GpuView, node: Seq<char>) -> GpuView {
    if g.node_id == node { GpuView { status: GpuStatus::Quarantined, ..g } } else { g }
}

/// The ids of the GPUs of node `node` among the first `i` of the fleet, in fleet order.
pub open spec fn node_gpu_ids(fleet: Seq<GpuView>, node: Seq<char>, i: int) -> Seq<Seq<char>>
    decreases i,
{
    if i <= 0 || i > fleet.len() {
        Seq::empty()
    } else if fleet[i - 1].node_id == node {
        node_gpu_ids(fleet, node, i - 1).push(fleet[i - 1].id)
    } else {
        node_gpu_ids(fleet, node, i - 1)
    }
}

/// Index of the first healthy GPU at or after `i` whose id is not `id`, or -1.
pub open spec fn healthy_peer_from(fleet: Seq<GpuView>, id: Seq<char>, i: int) -> int
    decreases fleet.len() - i,
{
    if i < 0 || i >= fleet.len() {
        -1
    } else if fleet[i].status == GpuStatus::Healthy && fleet[i].id != id {
        i
    } else {
        healthy_peer_from(fleet, id, i + 1)
    }
}

fn copy_opt_string(o: &Option<String>) -> (r: Option<String>)
    ensures
        r.deep_view() == o.deep_view(),
{
    match o {
        Some(s) => Some(s.clone()),
        None => None,
    }
}

fn copy_incident<S: Copy>(i: &Incident<S>) -> (r: Incident<S>)
    ensures
        r@ == i@,
{
    Incident {
        id: i.id.clone(),
        gpu_id: i.gpu_id.clone(),
        node_id: i.node_id.clone(),
        severity: i.severity,
        state: i.state,
        detected_at_ms: i.detected_at_ms,
        resolved_at_ms: i.resolved_at_ms,
        trigger_health: i.trigger_health,
        diagnosis: copy_opt_string(&i.diagnosis),
        confidence_pct: i.confidence_pct,
        actions_taken: clone_strings(&i.actions_taken),
    }
}

fn copy_details<S: Copy>(d: &EventDetails<S>) -> (r: EventDetails<S>)
    ensures
        r@ == d@,
{
    match d {
        EventDetails::Quarantined { health_score } => EventDetails::Quarantined { health_score: *health_score },
        EventDetails::DriverRestarted { previous_xid } => EventDetails::DriverRestarted { previous_xid: *previous_xid },
        EventDetails::ReturnedToService { health_score } => EventDetails::ReturnedToService { health_score: *health_score },
        EventDetails::IncidentCreated { incident_id, trigger_health } =>
            EventDetails::IncidentCreated { incident_id: incident_id.clone(), trigger_health: *trigger_health },
        EventDetails::IncidentResolved { incident_id, actions } =>
            EventDetails::IncidentResolved { incident_id: incident_id.clone(), actions: clone_strings(actions) },
    }
}

fn copy_event<S: Copy>(e: &TelemetryEvent<S>) -> (r: TelemetryEvent<S>)
    ensures
        event_entry(r) == event_entry(*e),
{
    TelemetryEvent {
        event_id: e.event_id.clone(),
        timestamp_ms: e.timestamp_ms,
        event_type: e.event_type.clone(),
        severity: e.severity.clone(),
        gpu_id: e.gpu_id.clone(),
        node_id: e.node_id.clone(),
        details: copy_details(&e.details),
    }
}

impl<S: Copy> AgentEngine<S> {
    /// Copies of the open incidents.
    pub fn get_incidents(&self) -> (v: Vec<Incident<S>>)
        ensures
            v@.map_values(|x: Incident<S>| x@) == self.model().incidents,
    {
        let mut v: Vec<Incident<S>> = Vec::new();
        let mut i: usize = 0;
        while i < self.active_incidents.len()
            invariant
                i <= self.active_incidents@.len(),
                v@.map_values(|x: Incident<S>| x@) == self.model().incidents.take(i as int),
            decreases self.active_incidents@.len() - i,
        {
            let c = copy_incident(&self.active_incidents[i]);
            let ghost before = v@;
            v.push(c);
            assert(self.model().incidents[i as int] == self.active_incidents@[i as int]@);
            assert(v@.map_values(|x: Incident<S>| x@) =~= before.map_values(|x: Incident<S>| x@).push(c@));
            assert(self.model().incidents.take((i + 1) as int) =~= self.model().incidents.take(i as int).push(c@));
            i = i + 1;
        }
        assert(self.model().incidents.take(i as int) =~= self.model().incidents);
        v
    }

    /// Tool 1: the first GPU of the fleet named `gpu_id`.
    pub fn tool_get_gpu_health<'a>(&self, fleet: &'a Vec<Gpu>, gpu_id: &str) -> (r: Option<&'a Gpu>)
        ensures
            match r {
                Some(g) => {
                    let k = first_index(fleet_view(fleet@), gpu_id@);
                    k >= 0 && *g == fleet@[k]
                },
                None => first_index(fleet_view(fleet@), gpu_id@) == -1,
            },
    {
        let id = String::from_str(gpu_id);
        match find_gpu(fleet, &id) {
            Some(k) => Some(&fleet[k]),
            None => None,
        }
    }

    /// Tool 2: how many healthy GPUs the node has, and how many GPUs in all. (The mean health
    /// score belongs to the float readings.)
    pub fn tool_get_node_health(&self, fleet: &Vec<Gpu>, node_id: &str) -> (r: (usize, usize))
        ensures
            (r.0 as nat, r.1 as nat) == node_counts(fleet_view(fleet@), node_id@, fleet@.len() as int),
    {
        let node = String::from_str(node_id);
        let ghost fv = fleet_view(fleet@);
        let mut healthy: usize = 0;
        let mut total: usize = 0;
        let mut i: usize = 0;
        while i < fleet.len()
            invariant
                i <= fleet@.len(),
                fv == fleet_view(fleet@),
                node@ == node_id@,
                (healthy as nat, total as nat) == node_counts(fv, node_id@, i as int),
                total <= i,
                healthy <= total,
            decreases fleet@.len() - i,
        {
            assert(fv[i as int] == fleet@[i as int]@);
            if fleet[i].node_id == node {
                total = total + 1;
                match fleet[i].status {
                    GpuStatus::Healthy => { healthy = healthy + 1; },
                    _ => {},
                }
            }
            i = i + 1;
        }
        (healthy, total)
    }

    /// Tool 3: the last `limit` events about GPU `gpu_id`, latest first.
    pub fn tool_get_recent_events(&self, gpu_id: &str, limit: usize) -> (v: Vec<TelemetryEvent<S>>)
        ensures
            v@.map_values(|e: TelemetryEvent<S>| event_entry(e)) == recent_events(
                self.event_log@.map_values(|e: TelemetryEvent<S>| event_entry(e)), gpu_id@,
                self.event_log@.len() as int, limit as nat),
    {
        let id = String::from_str(gpu_id);
        let ghost log = self.event_log@.map_values(|e: TelemetryEvent<S>| event_entry(e));
        let mut res: Vec<TelemetryEvent<S>> = Vec::new();
        let mut i: usize = self.event_log.len();
        while i > 0 && res.len() < limit
            invariant
                i <= self.event_log@.len(),
                log == self.event_log@.map_values(|e: TelemetryEvent<S>| event_entry(e)),
                id@ == gpu_id@,
                res@.len() <= limit,
                res@.map_values(|e: TelemetryEvent<S>| event_entry(e))
                    + recent_events(log, gpu_id@, i as int, (limit - res@.len()) as nat)
                    == recent_events(log, gpu_id@, self.event_log@.len() as int, limit as nat),
            decreases i,
        {
            let ghost before = res@;
            assert(log[i - 1] == event_entry(self.event_log@[i - 1]));
            if self.event_log[i - 1].gpu_id == id {
                let e = copy_event(&self.event_log[i - 1]);
                res.push(e);
                proof {
                    assert(res@.map_values(|e: TelemetryEvent<S>| event_entry(e))
                        =~= before.map_values(|e: TelemetryEvent<S>| event_entry(e)).push(log[i - 1]));
                    assert(res@.map_values(|e: TelemetryEvent<S>| event_entry(e))
                        + recent_events(log, gpu_id@, (i - 1) as int, (limit - res@.len()) as nat)
                        =~= before.map_values(|e: TelemetryEvent<S>| event_entry(e))
                        + recent_events(log, gpu_id@, i as int, (limit - before.len()) as nat));
                }
            }
            i = i - 1;
        }
        assert(res@.map_values(|e: TelemetryEvent<S>| event_entry(e)) + Seq::<(EventCore<S>, i64)>::empty()
            =~= res@.map_values(|e: TelemetryEvent<S>| event_entry(e)));
        res
    }

    /// Tool 5: the GPU named `gpu_id` beside the first healthy GPU of another name.
    pub fn tool_compare_with_healthy_gpu<'a>(&self, fleet: &'a Vec<Gpu>, gpu_id: &str) -> (r: Option<(&'a Gpu, &'a Gpu)>)
        ensures
            ({
                let k = first_index(fleet_view(fleet@), gpu_id@);
                let h = healthy_peer_from(fleet_view(fleet@), gpu_id@, 0);
                match r {
                    Some(p) => k >= 0 && h >= 0 && *p.0 == fleet@[k] && *p.1 == fleet@[h],
                    None => k == -1 || h == -1,
                }
            }),
    {
        let id = String::from_str(gpu_id);
        let ghost fv = fleet_view(fleet@);
        let k = match find_gpu(fleet, &id) {
            Some(k) => k,
            None => return None,
        };
        let mut i: usize = 0;
        while i < fleet.len()
            invariant
                i <= fleet@.len(),
                fv == fleet_view(fleet@),
                id@ == gpu_id@,
                k < fleet@.len(),
                k as int == first_index(fv, gpu_id@),
                healthy_peer_from(fv, gpu_id@, 0) == healthy_peer_from(fv, gpu_id@, i as int),
            decreases fleet@.len() - i,
        {
            assert(fv[i as int] == fleet@[i as int]@);
            let healthy = match fleet[i].status {
                GpuStatus::Healthy => true,
                _ => false,
            };
            if healthy && fleet[i].id != id {
                return Some((&fleet[k], &fleet[i]));
            }
            i = i + 1;
        }
        None
    }

    /// Tool 7: quarantines every GPU of the node; returns their ids in fleet order.
    pub fn tool_drain_node(&mut self, fleet: &mut Vec<Gpu>, node_id: &str) -> (ids: Vec<String>)
        ensures
            final(self).model() == old(self).model(),
            final(self).config == old(self).config,
            fleet_view(final(fleet)@) == fleet_view(old(fleet)@).map_values(|g: GpuView| drained(g, node_id@)),
            ids_of(ids@) == node_gpu_ids(fleet_view(old(fleet)@), node_id@, old(fleet)@.len() as int),
    {
        let node = String::from_str(node_id);
        let ghost f0 = fleet_view(fleet@);
        let mut drained_ids: Vec<String> = Vec::new();
        let mut i: usize = 0;
        while i < fleet.len()
            invariant
                i <= fleet@.len(),
                fleet@.len() == f0.len(),
                node@ == node_id@,
                forall|j: int| 0 <= j < i ==> #[trigger] fleet_view(fleet@)[j] == drained(f0[j], node_id@),
                forall|j: int| i <= j < f0.len() ==> #[trigger] fleet_view(fleet@)[j] == f0[j],
                ids_of(drained_ids@) == node_gpu_ids(f0, node_id@, i as int),
            decreases f0.len() - i,
        {
            let ghost fb = fleet_view(fleet@);
            assert(fb[i as int] == f0[i as int]);
            if fleet[i].node_id == node {
                fleet[i].status = GpuStatus::Quarantined;
                let ghost before = drained_ids@;
                drained_ids.push(fleet[i].id.clone());
                assert(ids_of(drained_ids@) =~= ids_of(before).push(f0[i as int].id));
            }
            proof {
                assert forall|j: int| 0 <= j < f0.len() && j != i implies #[trigger] fleet_view(fleet@)[j] == fb[j] by {}
            }
            i = i + 1;
        }
        assert(fleet_view(fleet@) =~= f0.map_values(|g: GpuView| drained(g, node_id@)));
        drained_ids
    }
}

} // verus!

verus! {

proof fn lemma_apply_actions_status(g: GpuView, acts: Seq<Seq<char>>)
    ensures
        apply_actions(g, acts).0.status == g.status || apply_actions(g, acts).0.status == GpuStatus::Quarantined,
        g.status == GpuStatus::Quarantined ==> apply_actions(g, acts).0.status == GpuStatus::Quarantined,
        acts.contains("quarantine_gpu"@) ==> apply_actions(g, acts).0.status == GpuStatus::Quarantined,
        apply_actions(g, acts).0.id == g.id,
        apply_actions(g, acts).0.allocated_job_id == g.allocated_job_id,
    decreases acts.len(),
{
    if acts.len() > 0 {
        lemma_apply_actions_status(g, acts.drop_last());
        if acts.contains("quarantine_gpu"@) && acts.last() != "quarantine_gpu"@ {
            let k = choose|k: int| 0 <= k < acts.len() && acts[k] == "quarantine_gpu"@;
            assert(acts.drop_last()[k] == "quarantine_gpu"@);
        }
    }
}

/// Every rule's remediation quarantines the GPU: an incident is resolved only with the GPU out
/// of service.
pub proof fn law_resolution_quarantines(g: GpuView, r: Rule)
    ensures
        apply_actions(g, rule_actions(r)).0.status == GpuStatus::Quarantined,
        apply_actions(g, rule_actions(r)).0.id == g.id,
        apply_actions(g, rule_actions(r)).0.allocated_job_id == g.allocated_job_id,
{
    let acts = rule_actions(r);
    match r {
        Rule::DriverCrashBusDrop => assert(acts[1] == "quarantine_gpu"@),
        _ => assert(acts[0] == "quarantine_gpu"@),
    }
    lemma_apply_actions_status(g, acts);
}

/// A visit of the agent's loop leaves a quarantined GPU quarantined and keeps every GPU's id
/// and allocation.
proof fn lemma_visit_keeps<S>(m: AgentModel<S>, g: GpuView, s: RuleSignals, now: WallClock)
    ensures
        handle_phase(m, g, s, now).1.id == g.id,
        handle_phase(m, g, s, now).1.allocated_job_id == g.allocated_job_id,
        g.status == GpuStatus::Quarantined ==> handle_phase(m, g, s, now).1.status == GpuStatus::Quarantined,
{
    let k = key_index(incident_keys(m.incidents), g.id);
    if k >= 0 {
        match rule_for(g, s) {
            Some(r) => lemma_apply_actions_status(g, rule_actions(r)),
            None => {},
        }
    }
}

/// The agent's loop keeps the fleet's size, every GPU's id and allocation, and never lifts a
/// quarantine.
pub proof fn law_agent_keeps_quarantine<S>(m0: AgentModel<S>, f0: Seq<GpuView>, obs: Seq<AgentObservation<S>>, i: nat,
    now: WallClock, cooldown_s: i64)
    requires
        obs.len() == f0.len(),
    ensures
        agent_upto(m0, f0, obs, i, now, cooldown_s).1.len() == f0.len(),
        forall|p: int| 0 <= p < f0.len() ==> {
            &&& (#[trigger] agent_upto(m0, f0, obs, i, now, cooldown_s).1[p]).id == f0[p].id
            &&& agent_upto(m0, f0, obs, i, now, cooldown_s).1[p].allocated_job_id == f0[p].allocated_job_id
            &&& f0[p].status == GpuStatus::Quarantined ==> agent_upto(m0, f0, obs, i, now, cooldown_s).1[p].status == GpuStatus::Quarantined
        },
    decreases i,
{
    if i > 0 && i <= f0.len() {
        law_agent_keeps_quarantine(m0, f0, obs, (i - 1) as nat, now, cooldown_s);
        let (m, f) = agent_upto(m0, f0, obs, (i - 1) as nat, now, cooldown_s);
        let m1 = open_phase(m, f[i - 1], obs[i - 1], now, cooldown_s);
        lemma_visit_keeps(m1, f[i - 1], obs[i - 1].signals, now);
    }
}

proof fn lemma_no_dup_remove(s: Seq<Seq<char>>, k: int)
    requires
        s.no_duplicates(),
        0 <= k < s.len(),
    ensures
        s.remove(k).no_duplicates(),
        !s.remove(k).contains(s[k]),
{
    let r = s.remove(k);
    assert forall|a: int, b: int| 0 <= a < r.len() && 0 <= b < r.len() && a != b implies r[a] != r[b] by {
        let a2 = if a < k { a } else { a + 1 };
        let b2 = if b < k { b } else { b + 1 };
        assert(r[a] == s[a2] && r[b] == s[b2]);
    }
    if r.contains(s[k]) {
        let a = choose|a: int| 0 <= a < r.len() && r[a] == s[k];
        let a2 = if a < k { a } else { a + 1 };
        assert(r[a] == s[a2]);
    }
}

proof fn lemma_no_dup_push(s: Seq<Seq<char>>, x: Seq<char>)
    requires
        s.no_duplicates(),
        !s.contains(x),
    ensures
        s.push(x).no_duplicates(),
{
    let t = s.push(x);
    assert forall|a: int, b: int| 0 <= a < t.len() && 0 <= b < t.len() && a != b implies t[a] != t[b] by {
        if a < s.len() && b < s.len() {
            assert(t[a] == s[a] && t[b] == s[b]);
        } else if a < s.len() {
            assert(t[a] == s[a]);
            assert(s.contains(s[a]));
        } else {
            assert(t[b] == s[b]);
            assert(s.contains(s[b]));
        }
    }
}

/// The agent keeps at most one open incident per GPU.
pub proof fn law_one_incident_per_gpu<S>(m0: AgentModel<S>, f0: Seq<GpuView>, obs: Seq<AgentObservation<S>>, i: nat,
    now: WallClock, cooldown_s: i64)
    requires
        obs.len() == f0.len(),
        incident_keys(m0.incidents).no_duplicates(),
    ensures
        incident_keys(agent_upto(m0, f0, obs, i, now, cooldown_s).0.incidents).no_duplicates(),
    decreases i,
{
    if i > 0 && i <= f0.len() {
        law_one_incident_per_gpu(m0, f0, obs, (i - 1) as nat, now, cooldown_s);
        let (m, f) = agent_upto(m0, f0, obs, (i - 1) as nat, now, cooldown_s);
        let g = f[i - 1];
        let m1 = open_phase(m, g, obs[i - 1], now, cooldown_s);
        let keys = incident_keys(m.incidents);
        lemma_key_index_from(keys, g.id, 0);
        if incident_due(m, g, obs[i - 1], now, cooldown_s) {
            let inc = opened_incident((m.counter + 1) as nat, g, obs[i - 1].health_score, now);
            assert(incident_keys(m1.incidents) =~= keys.push(g.id));
            lemma_no_dup_push(keys, g.id);
        }
        let keys1 = incident_keys(m1.incidents);
        lemma_key_index_from(keys1, g.id, 0);
        let k = key_index(keys1, g.id);
        if k >= 0 {
            let rest = m1.incidents.remove(k);
            assert(incident_keys(rest) =~= keys1.remove(k));
            lemma_no_dup_remove(keys1, k);
            match rule_for(g, obs[i - 1].signals) {
                Some(r) => {},
                None => {
                    let inc = m1.incidents[k];
                    assert(incident_keys(rest.push(IncidentView { state: IncidentState::Investigating, ..inc }))
                        =~= keys1.remove(k).push(g.id));
                    lemma_no_dup_push(keys1.remove(k), g.id);
                },
            }
        }
    }
}


proof fn lemma_set_cooldown(cs: Seq<(Seq<char>, i64)>, id: Seq<char>, t: i64)
    ensures
        cooldown_of(set_cooldown(cs, id, t), id) == t,
{
    let keys = cooldown_keys(cs);
    lemma_key_index_from(keys, id, 0);
    let k = key_index(keys, id);
    let cs2 = set_cooldown(cs, id, t);
    let keys2 = cooldown_keys(cs2);
    if k >= 0 {
        assert(keys2 =~= keys);
    } else {
        assert(keys2 =~= keys.push(id));
        lemma_key_index_skip(keys2, id, 0, keys.len() as int);
        assert(keys2[keys.len() as int] == id);
    }
}

/// The cooldown: when the agent resolves a GPU's incident at `now`, it records `now` for that
/// GPU, and a later visit to it (whatever the GPU's state then, for instance returned to
/// service) opens no incident until `cooldown_s` seconds have passed.
pub proof fn law_cooldown_after_resolution<S>(m: AgentModel<S>, g: GpuView, s: RuleSignals, now: WallClock,
    later_gpu: GpuView, o: AgentObservation<S>, later: WallClock, cooldown_s: i64)
    requires
        key_index(incident_keys(m.incidents), g.id) >= 0,
        rule_for(g, s) is Some,
        later_gpu.id == g.id,
        later.secs - now.secs < cooldown_s,
    ensures
        cooldown_of(handle_phase(m, g, s, now).0.cooldowns, g.id) == now.secs,
        open_phase(handle_phase(m, g, s, now).0, later_gpu, o, later, cooldown_s) == handle_phase(m, g, s, now).0,
{
    lemma_set_cooldown(m.cooldowns, g.id, now.secs);
}


proof fn lemma_actions_only_quarantine_or_reset(g: GpuView, acts: Seq<Seq<char>>)
    ensures
        ({
            let h = apply_actions(g, acts).0;
            &&& h == (GpuView { status: h.status, latest_xid: h.latest_xid, ..g })
            &&& h.status == g.status || h.status == GpuStatus::Quarantined
            &&& h.latest_xid == g.latest_xid || h.latest_xid == 0
        }),
    decreases acts.len(),
{
    if acts.len() > 0 {
        lemma_actions_only_quarantine_or_reset(g, acts.drop_last());
    }
}

/// The agent acts on a GPU only through the actions of a rule it matches: after the loop a
/// GPU is either as it was, or as that rule's actions leave it, which differs from it at most
/// by being quarantined and by a cleared XID code.
pub proof fn law_agent_acts_only_on_rule_match<S>(m0: AgentModel<S>, f0: Seq<GpuView>, obs: Seq<AgentObservation<S>>,
    i: nat, now: WallClock, cooldown_s: i64)
    requires
        obs.len() == f0.len(),
    ensures
        agent_upto(m0, f0, obs, i, now, cooldown_s).1.len() == f0.len(),
        forall|p: int| 0 <= p < f0.len() ==> {
            let h = #[trigger] agent_upto(m0, f0, obs, i, now, cooldown_s).1[p];
            &&& p >= i ==> h == f0[p]
            &&& h == f0[p] || (rule_for(f0[p], obs[p].signals) matches Some(r)
                    && h == apply_actions(f0[p], rule_actions(r)).0)
            &&& h == (GpuView { status: h.status, latest_xid: h.latest_xid, ..f0[p] })
            &&& h.status == f0[p].status || h.status == GpuStatus::Quarantined
            &&& h.latest_xid == f0[p].latest_xid || h.latest_xid == 0
        },
    decreases i,
{
    if i > 0 && i <= f0.len() {
        law_agent_acts_only_on_rule_match(m0, f0, obs, (i - 1) as nat, now, cooldown_s);
        let (m, f) = agent_upto(m0, f0, obs, (i - 1) as nat, now, cooldown_s);
        assert(f[i - 1] == f0[i - 1]);
        match rule_for(f0[i - 1], obs[i - 1].signals) {
            Some(r) => lemma_actions_only_quarantine_or_reset(f0[i - 1], rule_actions(r)),
            None => {},
        }
    }
}


/// GPU `id` is cooling down since `t` in `m`: it has no open incident and its last incident
/// was resolved at `t`.
pub open spec fn cooling_down<S>(m: AgentModel<S>, id: Seq<char>, t: i64) -> bool {
    !incident_keys(m.incidents).contains(id) && cooldown_of(m.cooldowns, id) == t
}

proof fn lemma_set_other_cooldown(cs: Seq<(Seq<char>, i64)>, other: Seq<char>, x: i64, id: Seq<char>)
    requires
        other != id,
    ensures
        cooldown_of(set_cooldown(cs, other, x), id) == cooldown_of(cs, id),
{
    let keys = cooldown_keys(cs);
    lemma_key_index_from(keys, other, 0);
    lemma_key_index_from(keys, id, 0);
    let ko = key_index(keys, other);
    let kid = key_index(keys, id);
    let cs2 = set_cooldown(cs, other, x);
    let keys2 = cooldown_keys(cs2);
    if ko >= 0 {
        assert(keys2 =~= keys);
    } else {
        assert(keys2 =~= keys.push(other));
        if kid >= 0 {
            lemma_key_index_skip(keys2, id, 0, kid);
            assert(keys2[kid] == id);
        } else {
            lemma_key_index_skip(keys2, id, 0, keys2.len() as int);
        }
    }
}

/// The cooldown holds across calls: while a GPU is cooling down (no open incident, last
/// resolved at `t`) and less than `cooldown_s` seconds have passed since `t`, a run of the
/// agent's loop opens no incident for it, logs no event about it, leaves it as it was in the
/// fleet, and leaves it cooling down since `t`. Nothing else the agent does between calls
/// (its tools log events only) opens an incident or moves a cooldown, so the law applies
/// again at every later call within the cooldown, whatever became of the GPU meanwhile.
pub proof fn law_cooldown_holds_across_calls<S>(m0: AgentModel<S>, f0: Seq<GpuView>, obs: Seq<AgentObservation<S>>,
    i: nat, now: WallClock, cooldown_s: i64, id: Seq<char>, t: i64)
    requires
        obs.len() == f0.len(),
        cooling_down(m0, id, t),
        now.secs - t < cooldown_s,
    ensures
        ({
            let (m, f) = agent_upto(m0, f0, obs, i, now, cooldown_s);
            &&& cooling_down(m, id, t)
            &&& m.events.len() >= m0.events.len()
            &&& m.events.subrange(0, m0.events.len() as int) == m0.events
            &&& forall|e: int| m0.events.len() <= e < m.events.len() ==> (#[trigger] m.events[e]).gpu_id != id
            &&& forall|p: int| 0 <= p < f0.len() && f0[p].id == id ==> #[trigger] f[p] == f0[p]
        }),
    decreases i,
{
    law_agent_acts_only_on_rule_match(m0, f0, obs, i, now, cooldown_s);
    if i > 0 && i <= f0.len() {
        law_cooldown_holds_across_calls(m0, f0, obs, (i - 1) as nat, now, cooldown_s, id, t);
        law_agent_acts_only_on_rule_match(m0, f0, obs, (i - 1) as nat, now, cooldown_s);
        let (m, f) = agent_upto(m0, f0, obs, (i - 1) as nat, now, cooldown_s);
        let g = f[i - 1];
        assert(g == f0[i - 1]);
        let o = obs[i - 1];
        let m1 = open_phase(m, g, o, now, cooldown_s);
        let keys = incident_keys(m.incidents);
        if incident_due(m, g, o, now, cooldown_s) {
            assert(g.id != id);
            assert(incident_keys(m1.incidents) =~= keys.push(g.id));
            assert(!incident_keys(m1.incidents).contains(id)) by {
                if incident_keys(m1.incidents).contains(id) {
                    let w = choose|w: int| 0 <= w < incident_keys(m1.incidents).len() && incident_keys(m1.incidents)[w] == id;
                    assert(keys[w] == id);
                }
            }
        }
        assert(cooling_down(m1, id, t));
        assert(m1.events.subrange(0, m0.events.len() as int) =~= m0.events);
        let keys1 = incident_keys(m1.incidents);
        lemma_key_index_from(keys1, g.id, 0);
        let k = key_index(keys1, g.id);
        let (m2, g2) = handle_phase(m1, g, o.signals, now);
        if k >= 0 {
            assert(g.id != id);
            let rest = m1.incidents.remove(k);
            assert(incident_keys(rest) =~= keys1.remove(k));
            assert(!incident_keys(rest).contains(id)) by {
                if incident_keys(rest).contains(id) {
                    let w = choose|w: int| 0 <= w < incident_keys(rest).len() && incident_keys(rest)[w] == id;
                    if w < k {
                        assert(keys1[w] == id);
                    } else {
                        assert(keys1[w + 1] == id);
                    }
                }
            }
            match rule_for(g, o.signals) {
                Some(r) => {
                    lemma_set_other_cooldown(m1.cooldowns, g.id, now.secs, id);
                },
                None => {
                    let inc = m1.incidents[k];
                    assert(inc.gpu_id == g.id);
                    let pushed = rest.push(IncidentView { state: IncidentState::Investigating, ..inc });
                    assert(incident_keys(pushed) =~= incident_keys(rest).push(g.id));
                    assert(!incident_keys(pushed).contains(id)) by {
                        if incident_keys(pushed).contains(id) {
                            let w = choose|w: int| 0 <= w < incident_keys(pushed).len() && incident_keys(pushed)[w] == id;
                            assert(incident_keys(rest)[w] == id);
                        }
                    }
                },
            }
        }
        assert(m2.events.subrange(0, m0.events.len() as int) =~= m0.events);
        let (mo, fo) = agent_upto(m0, f0, obs, i, now, cooldown_s);
        assert(mo == m2);
        assert forall|p: int| 0 <= p < f0.len() && f0[p].id == id implies #[trigger] fo[p] == f0[p] by {
            if p == i - 1 {
                assert(g2 == g);
            }
        }
    } else {
        assert(m0.events.subrange(0, m0.events.len() as int) =~= m0.events);
    }
}


/// A quarantined GPU never gets an incident: whatever its health, its open incidents and its
/// cooldown, visiting it opens nothing, logs nothing and counts nothing.
pub proof fn law_no_incident_for_quarantined<S>(m: AgentModel<S>, g: GpuView, o: AgentObservation<S>, now: WallClock,
    cooldown_s: i64)
    requires
        g.status == GpuStatus::Quarantined,
    ensures
        open_phase(m, g, o, now, cooldown_s) == m,
        open_phase(m, g, o, now, cooldown_s).counter == m.counter,
        open_phase(m, g, o, now, cooldown_s).events.len() == m.events.len(),
{
}

/// The rules in priority order: hardware degradation (ECC window above 10, an XID recorded and
/// performance below 0.8), then thermal runaway (at least 92 °C while throttled), then a driver
/// crash or bus drop (XID 79, or no clock with no utilization), then an NVLink storm (more than
/// 25 NVLink errors, or XID 92), then a performance regression (performance below 0.7 with
/// health below 70); no rule otherwise.
pub proof fn law_rule_priority(g: GpuView, s: RuleSignals)
    ensures
        ({
            let hw = g.ecc_window_errors > 10 && g.latest_xid != 0 && s.performance_below_080;
            let thermal = s.temperature_at_least_92 && g.is_throttled;
            let crash = g.latest_xid == 79 || (g.sm_clock == 0 && s.utilization_zero);
            let nvlink = g.nvlink_errors > 25 || g.latest_xid == 92;
            let perf = s.performance_below_070 && s.health_below_70;
            &&& hw ==> rule_for(g, s) == Some(Rule::HardwareDegradation)
            &&& !hw && thermal ==> rule_for(g, s) == Some(Rule::ThermalRunaway)
            &&& !hw && !thermal && crash ==> rule_for(g, s) == Some(Rule::DriverCrashBusDrop)
            &&& !hw && !thermal && !crash && nvlink ==> rule_for(g, s) == Some(Rule::NvlinkStorm)
            &&& !hw && !thermal && !crash && !nvlink && perf ==> rule_for(g, s) == Some(Rule::PerformanceRegression)
            &&& !hw && !thermal && !crash && !nvlink && !perf ==> rule_for(g, s) is None
            &&& g.latest_xid == 92 && !hw && !thermal && !(g.sm_clock == 0 && s.utilization_zero)
                ==> rule_for(g, s) == Some(Rule::NvlinkStorm)
        }),
{
}

} // verus!
