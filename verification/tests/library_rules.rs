use fleet_autopilot::agent::{AgentEngine, AgentObservation, RuleSignals, ThermalReadings};
use fleet_autopilot::chaos::{ChaosEngine, ChaosScenario, PerformanceEffect, scenario_fits_exec};
use fleet_autopilot::config::{self, AgentConfig, ConfigError};
use fleet_autopilot::fleet::{FleetEngine, FleetError, ServiceReadings};
use fleet_autopilot::health::{HealthEngine, ScoreBands};
use fleet_autopilot::listing::list_gpus;
use fleet_autopilot::lookup::{contains_id, find_gpu};
use fleet_autopilot::ml::{Branch, NodeLinks, TreeIndex, XgbEvaluator};
use fleet_autopilot::remediation::RemediationController;
use fleet_autopilot::scheduler::{SchedulerConfig, SchedulerEngine};
use fleet_autopilot::simulator::{ClockMode, SimulatorEngine, TelemetryHistory};
use fleet_autopilot::telemetry::MetricsRenderer;
use fleet_autopilot::text::format_padded;
use fleet_autopilot::types::{Gpu, GpuStatus, Job, JobStatus, JobType};

fn agent_config() -> AgentConfig {
    AgentConfig {
        mode: "rules".to_string(),
        max_tool_calls: 10,
        evaluation_interval_s: 30,
        incident_trigger: "CRITICAL".to_string(),
        cooldown_s: 300,
    }
}

fn scheduler_config(auto: bool) -> SchedulerConfig {
    SchedulerConfig {
        max_concurrent_jobs: 10,
        default_gpus_per_job: 4,
        auto_generate_jobs: auto,
        migration_time_ms: 10_000,
        checkpoint_interval_ms: 600_000,
    }
}

fn gpu(id: &str, node: &str) -> Gpu {
    Gpu::new(id.to_string(), "H100".to_string(), node.to_string(), "rack-01".to_string(), "c1".to_string())
}

fn quiet_signals() -> RuleSignals {
    RuleSignals {
        performance_below_080: false,
        temperature_at_least_92: false,
        utilization_zero: false,
        performance_below_070: false,
        health_below_70: false,
    }
}

fn cool() -> ThermalReadings {
    ThermalReadings { temperature_at_least_92: false, thermal_resistance_above_015: false }
}

fn calm(score: f64) -> AgentObservation<f64> {
    AgentObservation { health_score: score, health_below_40: false, signals: quiet_signals() }
}

// ---------------------------------------------------------------- identifiers

#[test]
fn padded_ids_have_fixed_width() {
    assert_eq!(format_padded("job-", 1, 5), "job-00001");
    assert_eq!(format_padded("gpu-", 42, 5), "gpu-00042");
    assert_eq!(format_padded("evt-", 1, 8), "evt-00000001");
    assert_eq!(format_padded("node-", 0, 3), "node-000");
    assert_eq!(format_padded("x-", 123456, 3), "x-123456");
}

#[test]
fn distinct_numbers_give_distinct_ids() {
    let a = format_padded("inc-", 7, 6);
    let b = format_padded("inc-", 70, 6);
    assert_ne!(a, b);
    assert_eq!(b, "inc-000070");
}

// ---------------------------------------------------------------- configuration

#[test]
fn validation_reports_the_first_failing_check() {
    assert_eq!(config::validate(false, 0, 0), Err(ConfigError::WeightsDoNotSumToOne));
    assert_eq!(config::validate(true, 0, 8), Err(ConfigError::ZeroGpuCount));
    assert_eq!(config::validate(true, 16, 0), Err(ConfigError::ZeroGpusPerNode));
    assert_eq!(config::validate(true, 16, 8), Ok(()));
}

#[test]
fn configuration_defaults() {
    assert_eq!(config::default_gpu_count(), 1000);
    assert_eq!(config::default_gpus_per_node(), 8);
    assert_eq!(config::default_gpu_model(), "H100");
    assert_eq!(config::default_tick_interval_ms(), 2000);
    assert_eq!(config::default_cooldown_s(), 300);
    assert_eq!(config::default_horizons(), vec![2, 6, 24]);
    assert_eq!(config::default_port(), 8080);
    assert_eq!(config::default_bind(), "127.0.0.1");
    assert!(config::default_true());
}

// ---------------------------------------------------------------- chaos

#[test]
fn scenario_names_parse_in_any_case() {
    assert_eq!(ChaosScenario::parse("gpu_ecc_failure"), Some(ChaosScenario::GpuEccFailure));
    assert_eq!(ChaosScenario::parse("Driver_Crash"), Some(ChaosScenario::DriverCrash));
    assert_eq!(ChaosScenario::parse("NOT_A_SCENARIO"), None);
    assert_eq!(ChaosScenario::parse(""), None);
}

#[test]
fn every_scenario_round_trips_through_its_name() {
    let all = [
        ChaosScenario::GpuEccFailure,
        ChaosScenario::GpuThermalFailure,
        ChaosScenario::GpuXidError,
        ChaosScenario::GpuMemoryDegradation,
        ChaosScenario::NvlinkDegradation,
        ChaosScenario::NetworkPacketLoss,
        ChaosScenario::RdmaFailure,
        ChaosScenario::StorageLatency,
        ChaosScenario::DriverCrash,
        ChaosScenario::PerformanceRegression,
    ];
    for s in all {
        assert_eq!(ChaosScenario::parse(s.as_str()), Some(s));
    }
    assert_eq!(ChaosScenario::NvlinkDegradation.as_str(), "NVLINK_DEGRADATION");
}

#[test]
fn ecc_failure_accumulates_until_a_double_bit_error() {
    let mut g = gpu("gpu-00001", "node-001");
    ChaosEngine::inject(&mut g, ChaosScenario::GpuEccFailure);
    let mut last_sbe = 0;
    for _ in 0..12 {
        ChaosEngine::apply_tick(&mut g, false);
        assert!(g.ecc_sbe_total >= last_sbe + 3 && g.ecc_sbe_total <= last_sbe + 7);
        last_sbe = g.ecc_sbe_total;
    }
    assert!(g.ecc_dbe_total >= 1);
    assert_eq!(g.latest_xid, 62);
}

#[test]
fn driver_crash_drops_the_gpu_off_the_bus() {
    let mut g = gpu("gpu-00001", "node-001");
    ChaosEngine::inject(&mut g, ChaosScenario::DriverCrash);
    let fx = ChaosEngine::apply_tick(&mut g, false);
    assert_eq!(g.sm_clock, 0);
    assert_eq!(g.latest_xid, 79);
    assert_eq!(g.xid_window_events, 1);
    assert_eq!(fx.performance, PerformanceEffect::SetTo(0));
    assert_eq!(fx.utilization_pct, Some(0));
}

#[test]
fn a_gpu_without_chaos_is_left_alone() {
    let mut g = gpu("gpu-00001", "node-001");
    let fx = ChaosEngine::apply_tick(&mut g, true);
    assert_eq!(fx.performance, PerformanceEffect::Unchanged);
    assert_eq!(g.ecc_sbe_total, 0);
    assert!(!g.is_throttled);
}

#[test]
fn clearing_chaos_resets_the_scenario() {
    let mut g = gpu("gpu-00001", "node-001");
    ChaosEngine::inject(&mut g, ChaosScenario::GpuXidError);
    ChaosEngine::apply_tick(&mut g, false);
    ChaosEngine::clear(&mut g);
    assert_eq!(g.active_chaos_scenario, None);
    assert_eq!(g.latest_xid, 0);
    assert!(!g.is_throttled);
}

// ---------------------------------------------------------------- health

#[test]
fn scores_map_to_status_bands() {
    let b = |h, d, a| ScoreBands { at_least_healthy: h, at_least_degraded: d, at_least_at_risk: a };
    assert_eq!(HealthEngine::score_to_status(&b(true, true, true)), GpuStatus::Healthy);
    assert_eq!(HealthEngine::score_to_status(&b(false, true, true)), GpuStatus::Degraded);
    assert_eq!(HealthEngine::score_to_status(&b(false, false, true)), GpuStatus::AtRisk);
    assert_eq!(HealthEngine::score_to_status(&b(false, false, false)), GpuStatus::Critical);
}

#[test]
fn evaluation_never_quarantines() {
    let mut g = gpu("gpu-00001", "node-001");
    HealthEngine::evaluate_gpu(&mut g, &ScoreBands { at_least_healthy: false, at_least_degraded: false, at_least_at_risk: false });
    assert_eq!(g.status, GpuStatus::Critical);
}

#[test]
fn status_names() {
    assert_eq!(GpuStatus::AtRisk.display_name(), "AT_RISK");
    assert_eq!(GpuStatus::Quarantined.display_name(), "QUARANTINED");
    assert_eq!(GpuStatus::default(), GpuStatus::Healthy);
}

// ---------------------------------------------------------------- simulator

#[test]
fn fleet_layout_uses_sixteen_nodes_per_rack() {
    let sim = SimulatorEngine::new(17 * 8, 8, "H100".to_string());
    let fleet = sim.create_fleet();
    assert_eq!(fleet[127].node_id, "node-016");
    assert_eq!(fleet[127].rack_id, "rack-01");
    assert_eq!(fleet[128].node_id, "node-017");
    assert_eq!(fleet[128].rack_id, "rack-02");
    assert_eq!(fleet[128].id, "gpu-00129");
    assert_eq!(fleet[0].cluster_id, "us-east-cluster-1");
}

#[test]
fn throttling_has_hysteresis() {
    let mut g = gpu("gpu-00001", "node-001");
    assert_eq!(SimulatorEngine::apply_thermal_control(&mut g, true, false, 1500), ClockMode::Throttled);
    assert!(g.is_throttled);
    assert_eq!(g.clock_throttle & 1, 1);
    assert_eq!(g.sm_clock, 1500);
    // Between 83 and 92 the throttle is kept.
    assert_eq!(SimulatorEngine::apply_thermal_control(&mut g, false, false, 1800), ClockMode::Throttled);
    assert!(g.is_throttled);
    // At or below 83 it releases.
    assert_eq!(SimulatorEngine::apply_thermal_control(&mut g, false, true, 1980), ClockMode::Nominal);
    assert!(!g.is_throttled);
    assert_eq!(g.sm_clock, 1980);
    assert_eq!(g.clock_throttle & 1, 0);
}

#[test]
fn thermal_failure_keeps_the_throttle_when_cool() {
    let mut g = gpu("gpu-00001", "node-001");
    SimulatorEngine::apply_thermal_control(&mut g, true, false, 1000);
    ChaosEngine::inject(&mut g, ChaosScenario::GpuThermalFailure);
    SimulatorEngine::apply_thermal_control(&mut g, false, true, 1980);
    assert!(g.is_throttled);
}

#[test]
fn history_keeps_the_last_sixty_samples() {
    let mut h: TelemetryHistory<u32> = TelemetryHistory::new();
    for s in 0..75u32 {
        h.push(s);
    }
    assert_eq!(h.len(), 60);
    assert_eq!(h.samples.front(), Some(&15));
    assert_eq!(h.samples.back(), Some(&74));
}

// ---------------------------------------------------------------- scheduler

fn small_fleet(n: usize) -> Vec<Gpu> {
    (1..=n).map(|i| gpu(&format!("gpu-{:05}", i), "node-001")).collect()
}

#[test]
fn warm_spares_are_the_last_available_gpus() {
    let mut fleet = small_fleet(6);
    fleet[5].status = GpuStatus::Degraded;
    let s = SchedulerEngine::new(scheduler_config(false));
    assert_eq!(s.get_warm_spares(&fleet, 2), vec!["gpu-00005".to_string(), "gpu-00004".to_string()]);
}

#[test]
fn scheduling_skips_spares_and_leaves_short_jobs_queued() {
    let mut fleet = small_fleet(6);
    let mut s = SchedulerEngine::new(scheduler_config(false));
    let a = s.submit_job(JobType::Training, 1, 3);
    let b = s.submit_job(JobType::Serving, 2, 3);
    assert_eq!(a, "job-00001");
    assert_eq!(b, "job-00002");
    s.schedule_pending_jobs(&mut fleet, 1);
    let jobs = s.get_jobs();
    assert_eq!(jobs[0].status, JobStatus::Running);
    assert_eq!(jobs[0].gpu_ids, vec!["gpu-00001", "gpu-00002", "gpu-00003"]);
    // Only two GPUs are left once gpu-00006 is held back as a spare.
    assert_eq!(jobs[1].status, JobStatus::Queued);
    assert!(jobs[1].gpu_ids.is_empty());
    assert_eq!(fleet[0].allocated_job_id, Some("job-00001".to_string()));
    assert_eq!(fleet[5].allocated_job_id, None);
}

#[test]
fn checkpoints_age_and_migrations_resume() {
    let mut s = SchedulerEngine::new(scheduler_config(false));
    let mut fleet = small_fleet(4);
    s.submit_job(JobType::Training, 1, 2);
    s.schedule_pending_jobs(&mut fleet, 0);
    s.step_scheduler(400_000);
    assert_eq!(s.get_jobs()[0].checkpoint_age_ms, 400_000);
    s.step_scheduler(300_000);
    assert_eq!(s.get_jobs()[0].checkpoint_age_ms, 0);
    s.jobs[0].status = JobStatus::Migrating;
    s.jobs[0].migration_started_at_ms = Some(0);
    s.step_scheduler(1);
    assert_eq!(s.get_jobs()[0].status, JobStatus::Running);
    assert_eq!(s.get_jobs()[0].migration_started_at_ms, None);
}

// ---------------------------------------------------------------- remediation

fn running_job(id: &str, gpus: &[&str]) -> Job {
    let mut j = Job::new(id.to_string(), JobType::Training, 1, gpus.len());
    j.status = JobStatus::Running;
    j.gpu_ids = gpus.iter().map(|s| s.to_string()).collect();
    j
}

#[test]
fn remediation_fails_over_to_a_spare() {
    let mut fleet = small_fleet(3);
    fleet[0].allocated_job_id = Some("job-00001".to_string());
    fleet[1].allocated_job_id = Some("job-00001".to_string());
    let mut jobs = vec![running_job("job-00001", &["gpu-00001", "gpu-00002"])];
    let mut rc = RemediationController::new();
    let spare = rc.remediate_job_gpu("gpu-00001", &mut fleet, &mut jobs, &vec!["gpu-00003".to_string()]);
    assert_eq!(spare, Some("gpu-00003".to_string()));
    assert_eq!(jobs[0].status, JobStatus::Migrating);
    assert_eq!(jobs[0].gpu_ids, vec!["gpu-00002", "gpu-00003"]);
    assert_eq!(jobs[0].migrations_count, 1);
    assert_eq!(fleet[0].status, GpuStatus::Quarantined);
    assert_eq!(fleet[0].allocated_job_id, None);
    assert_eq!(fleet[2].allocated_job_id, Some("job-00001".to_string()));
    let r = &rc.get_records()[0];
    assert_eq!(r.action, "EVICT_AND_FAILOVER");
    assert_eq!(r.outcome, "MIGRATION_INITIATED");
}

#[test]
fn remediation_pauses_without_spares() {
    let mut fleet = small_fleet(2);
    let mut jobs = vec![running_job("job-00001", &["gpu-00001", "gpu-00002"])];
    let mut rc = RemediationController::new();
    let spare = rc.remediate_job_gpu("gpu-00002", &mut fleet, &mut jobs, &Vec::new());
    assert_eq!(spare, None);
    assert_eq!(jobs[0].status, JobStatus::Paused);
    assert_eq!(jobs[0].gpu_ids, vec!["gpu-00001"]);
    assert_eq!(rc.get_records()[0].outcome, "PAUSED_NO_SPARES");
}

#[test]
fn remediation_of_an_idle_gpu_does_nothing() {
    let mut fleet = small_fleet(2);
    let mut jobs: Vec<Job> = Vec::new();
    let mut rc = RemediationController::new();
    let spare = rc.remediate_job_gpu("gpu-00001", &mut fleet, &mut jobs, &vec!["gpu-00002".to_string()]);
    assert_eq!(spare, None);
    assert!(rc.get_records().is_empty());
    assert_eq!(fleet[0].status, GpuStatus::Healthy);
}

// ---------------------------------------------------------------- agent

#[test]
fn rules_fire_in_priority_order() {
    let agent: AgentEngine<f64> = AgentEngine::new(agent_config());
    let mut g = gpu("gpu-00001", "node-001");
    g.ecc_window_errors = 11;
    g.latest_xid = 79;
    g.is_throttled = true;
    let mut s = quiet_signals();
    s.performance_below_080 = true;
    s.temperature_at_least_92 = true;
    let m = agent.evaluate_rules(&g, &s).unwrap();
    assert_eq!(m.rule_name, "hardware_degradation");
    assert_eq!(m.confidence_pct, 93);
    assert_eq!(m.recommended_actions, vec!["quarantine_gpu", "run_diagnostics", "request_rma"]);

    s.performance_below_080 = false;
    s.temperature_at_least_92 = false;
    let m = agent.evaluate_rules(&g, &s).unwrap();
    assert_eq!(m.rule_name, "driver_crash_bus_drop");
    assert_eq!(m.recommended_actions, vec!["restart_driver", "quarantine_gpu"]);

    let healthy = gpu("gpu-00002", "node-001");
    assert!(agent.evaluate_rules(&healthy, &quiet_signals()).is_none());
}

#[test]
fn diagnostics_report_each_check() {
    let agent: AgentEngine<f64> = AgentEngine::new(agent_config());
    let mut g = gpu("gpu-00001", "node-001");
    let ok = agent.tool_run_diagnostics(&g, &cool());
    assert!(ok.passed);
    assert_eq!(ok.details, "Diagnostics complete. Overall: PASS");
    g.nvlink_errors = 30;
    let bad = agent.tool_run_diagnostics(&g, &cool());
    assert!(!bad.passed);
    assert_eq!(bad.nvlink_health, "FAIL_NVLINK_CRC_STORM");
    assert_eq!(bad.ecc_health, "PASS");
    assert_eq!(bad.details, "Diagnostics complete. Overall: FAIL");
}

#[test]
fn critical_gpu_is_quarantined_and_its_incident_resolved() {
    let mut agent: AgentEngine<f64> = AgentEngine::new(agent_config());
    let mut fleet = vec![gpu("gpu-00001", "node-001"), gpu("gpu-00002", "node-001")];
    fleet[0].is_throttled = true;
    let mut signals = quiet_signals();
    signals.temperature_at_least_92 = true;
    let obs = vec![
        AgentObservation { health_score: 30.0, health_below_40: true, signals },
        calm(100.0),
    ];
    agent.step_autonomous_agent(&mut fleet, &obs);
    assert_eq!(fleet[0].status, GpuStatus::Quarantined);
    assert_eq!(fleet[1].status, GpuStatus::Healthy);
    assert!(agent.get_incidents().is_empty());
    let kinds: Vec<&str> = agent.get_event_log().iter().map(|e| e.event_type.as_str()).collect();
    assert_eq!(kinds, vec!["INCIDENT_CREATED", "INCIDENT_RESOLVED"]);
    assert_eq!(agent.get_event_log()[0].event_id, "evt-00000001");

    // A quarantined GPU gets no new incident.
    agent.step_autonomous_agent(&mut fleet, &obs);
    assert_eq!(agent.get_event_log().len(), 2);
    assert_eq!(agent.incident_counter, 1);
}

#[test]
fn a_resolved_gpu_gets_no_incident_during_its_cooldown() {
    let mut agent: AgentEngine<f64> = AgentEngine::new(agent_config());
    let mut fleet = vec![gpu("gpu-00001", "node-001")];
    fleet[0].latest_xid = 79;
    let obs = vec![AgentObservation { health_score: 10.0, health_below_40: true, signals: quiet_signals() }];
    agent.step_autonomous_agent(&mut fleet, &obs);
    assert_eq!(fleet[0].status, GpuStatus::Quarantined);
    assert_eq!(fleet[0].latest_xid, 0);
    assert_eq!(agent.incident_counter, 1);
    // Returned to service, then critical again well within the 300 s cooldown.
    assert!(agent.tool_return_to_service(&mut fleet[0], &cool(), true, 90.0));
    fleet[0].latest_xid = 79;
    agent.step_autonomous_agent(&mut fleet, &obs);
    assert_eq!(agent.incident_counter, 1);
    assert!(agent.get_incidents().is_empty());
    assert_eq!(fleet[0].status, GpuStatus::Healthy);
}

#[test]
fn an_unexplained_incident_stays_open() {
    let mut agent: AgentEngine<f64> = AgentEngine::new(agent_config());
    let mut fleet = vec![gpu("gpu-00001", "node-001")];
    let obs = vec![AgentObservation { health_score: 20.0, health_below_40: true, signals: quiet_signals() }];
    agent.step_autonomous_agent(&mut fleet, &obs);
    agent.step_autonomous_agent(&mut fleet, &obs);
    let open = agent.get_incidents();
    assert_eq!(open.len(), 1);
    assert_eq!(open[0].id, "inc-000001");
    assert_eq!(fleet[0].status, GpuStatus::Healthy);
}

#[test]
fn agent_tools_act_on_the_fleet() {
    let mut agent: AgentEngine<f64> = AgentEngine::new(agent_config());
    let mut fleet = vec![gpu("gpu-00001", "node-001"), gpu("gpu-00002", "node-001"), gpu("gpu-00003", "node-002")];
    assert_eq!(agent.tool_get_node_health(&fleet, "node-001"), (2, 2));
    let (target, peer) = agent.tool_compare_with_healthy_gpu(&fleet, "gpu-00001").unwrap();
    assert_eq!(target.id, "gpu-00001");
    assert_eq!(peer.id, "gpu-00002");
    assert!(agent.tool_get_gpu_health(&fleet, "gpu-00009").is_none());

    fleet[0].latest_xid = 79;
    assert!(agent.tool_restart_driver(&mut fleet[0]));
    assert_eq!(fleet[0].latest_xid, 0);
    agent.tool_quarantine_gpu(&mut fleet[1], 35.0);
    assert_eq!(agent.tool_get_node_health(&fleet, "node-001"), (1, 2));
    let recent = agent.tool_get_recent_events("gpu-00002", 5);
    assert_eq!(recent.len(), 1);
    assert_eq!(recent[0].event_type, "GPU_QUARANTINED");

    assert!(!agent.tool_return_to_service(&mut fleet[1], &cool(), false, 70.0));
    assert_eq!(fleet[1].status, GpuStatus::Quarantined);
    assert!(agent.tool_return_to_service(&mut fleet[1], &cool(), true, 95.0));
    assert_eq!(fleet[1].status, GpuStatus::Healthy);

    let drained = agent.tool_drain_node(&mut fleet, "node-001");
    assert_eq!(drained, vec!["gpu-00001", "gpu-00002"]);
    assert_eq!(fleet[0].status, GpuStatus::Quarantined);
    assert_eq!(fleet[2].status, GpuStatus::Healthy);
}

// ---------------------------------------------------------------- telemetry and lookup

#[test]
fn status_counts_partition_the_fleet() {
    let mut fleet = small_fleet(5);
    fleet[1].status = GpuStatus::Degraded;
    fleet[2].status = GpuStatus::Quarantined;
    fleet[3].status = GpuStatus::Critical;
    let c = MetricsRenderer::status_counts(&fleet);
    assert_eq!((c.total, c.healthy, c.degraded, c.at_risk, c.critical, c.quarantined), (5, 2, 1, 0, 1, 1));
}

#[test]
fn lookups_find_the_first_match() {
    let fleet = small_fleet(3);
    assert_eq!(find_gpu(&fleet, &"gpu-00002".to_string()), Some(1));
    assert_eq!(find_gpu(&fleet, &"gpu-00009".to_string()), None);
    let ids = vec!["a".to_string(), "b".to_string()];
    assert!(contains_id(&ids, &"b".to_string()));
    assert!(!contains_id(&ids, &"c".to_string()));
}

// ---------------------------------------------------------------- fleet engine

fn engine(auto: bool) -> FleetEngine<f64> {
    FleetEngine::new(SimulatorEngine::new(16, 8, "H100".to_string()), agent_config(), scheduler_config(auto), 1)
}

#[test]
fn seeding_queues_four_jobs_and_starts_those_that_fit() {
    let e = engine(true);
    let jobs = e.scheduler.get_jobs();
    assert_eq!(jobs.len(), 4);
    assert_eq!(e.scheduler.job_counter, 4);
    assert_eq!(jobs[3].id, "job-00004");
    // Fifteen GPUs can be scheduled (one is a warm spare): three jobs of four start.
    let running = jobs.iter().filter(|j| j.status == JobStatus::Running).count();
    assert_eq!(running, 3);
    assert_eq!(jobs[3].status, JobStatus::Queued);
    assert_eq!(e.get_fleet()[15].allocated_job_id, None);
}

#[test]
fn without_seeding_the_scheduler_is_idle() {
    let e = engine(false);
    assert!(e.scheduler.get_jobs().is_empty());
    assert_eq!(e.get_fleet().len(), 16);
    assert_eq!(e.get_gpu("gpu-00016").unwrap().node_id, "node-002");
    assert!(e.get_gpu("gpu-00099").is_none());
}

#[test]
fn control_requests_report_unknown_gpus_and_scenarios() {
    let mut e = engine(false);
    assert!(matches!(e.inject_chaos("gpu-00099", "DRIVER_CRASH"), Err(FleetError::GpuNotFound(id)) if id == "gpu-00099"));
    assert!(matches!(e.inject_chaos("gpu-00001", "meteor"), Err(FleetError::InvalidScenario(s)) if s == "meteor"));
    assert!(e.inject_chaos("gpu-00001", "driver_crash").is_ok());
    assert_eq!(e.get_gpu("gpu-00001").unwrap().active_chaos_scenario, Some("DRIVER_CRASH".to_string()));
    assert_eq!(e.clear_chaos("gpu-00001").unwrap(), 0);
    assert!(matches!(e.clear_chaos("nope"), Err(FleetError::GpuNotFound(_))));
    let scores = vec![100.0; 16];
    assert!(e.quarantine_gpu("gpu-00002", &scores).is_ok());
    assert_eq!(e.get_gpu("gpu-00002").unwrap().status, GpuStatus::Quarantined);
    assert!(matches!(e.quarantine_gpu("gpu-00099", &scores), Err(FleetError::GpuNotFound(_))));
    let readings = vec![ServiceReadings { health_score: 100.0, health_at_least_80: true, thermal: cool() }; 16];
    assert!(e.return_to_service("gpu-00002", &readings).unwrap());
    assert_eq!(e.get_gpu("gpu-00002").unwrap().status, GpuStatus::Healthy);
    assert_eq!(e.drain_node("node-002").len(), 8);
}

#[test]
fn a_control_tick_keeps_quarantine_and_schedules() {
    let mut e = engine(false);
    let scores = vec![100.0; 16];
    e.quarantine_gpu("gpu-00003", &scores).unwrap();
    let id = e.submit_job(JobType::Evaluation, 3, 2, 1);
    assert_eq!(id, "job-00001");
    let bands = vec![ScoreBands { at_least_healthy: true, at_least_degraded: true, at_least_at_risk: true }; 16];
    let obs: Vec<AgentObservation<f64>> = (0..16).map(|_| calm(100.0)).collect();
    e.control_tick(2000, 1, &bands, &obs);
    assert_eq!(e.get_gpu("gpu-00003").unwrap().status, GpuStatus::Quarantined);
    assert_eq!(e.scheduler.get_jobs()[0].status, JobStatus::Running);
    assert_eq!(e.scheduler.get_jobs()[0].gpu_ids, vec!["gpu-00001", "gpu-00002"]);
}

// ---------------------------------------------------------------- tree walks

fn split(id: usize, yes: usize, no: usize) -> NodeLinks {
    NodeLinks { id, split_feature: Some(0), has_threshold: true, yes: Some(yes), no: Some(no), missing: Some(yes), is_leaf: false }
}

fn leaf(id: usize) -> NodeLinks {
    NodeLinks { id, split_feature: None, has_threshold: false, yes: None, no: None, missing: None, is_leaf: true }
}

#[test]
fn a_walk_follows_the_branches_to_a_leaf() {
    // Node ids need not match positions.
    let t = TreeIndex::new(&vec![leaf(2), split(0, 1, 2), leaf(1)]);
    assert_eq!(t.walk(&vec![Branch::Yes, Branch::No, Branch::Yes]), Some(Some(0)));
    assert_eq!(t.walk(&vec![Branch::Yes, Branch::Yes, Branch::Yes]), Some(Some(2)));
    assert_eq!(t.walk(&vec![Branch::Yes, Branch::Missing, Branch::Yes]), Some(Some(2)));
}

#[test]
fn a_walk_that_cycles_never_ends() {
    let t = TreeIndex::new(&vec![split(0, 1, 1), split(1, 0, 0)]);
    assert_eq!(t.walk(&vec![Branch::Yes, Branch::Yes]), None);
    let e = XgbEvaluator::from_artifact(&vec![vec![leaf(0)], vec![split(0, 1, 1), split(1, 0, 0)]]);
    assert_eq!(e.leaves_reached(&vec![vec![Branch::Yes], vec![Branch::Yes, Branch::Yes]]), None);
}

#[test]
fn a_walk_stops_at_an_unknown_node() {
    let t = TreeIndex::new(&vec![split(0, 5, 1), leaf(1)]);
    assert_eq!(t.walk(&vec![Branch::Yes, Branch::Yes]), Some(None));
    let e = XgbEvaluator::from_artifact(&vec![vec![split(0, 5, 1), leaf(1)], vec![leaf(0)]]);
    assert_eq!(e.leaves_reached(&vec![vec![Branch::No, Branch::No], vec![Branch::No]]), Some(vec![Some(1), Some(0)]));
}

// ---------------------------------------------------------------- listing

#[test]
fn listing_puts_gpus_needing_attention_first() {
    let mut fleet = vec![gpu("gpu-00003", "node-001"), gpu("gpu-00001", "node-002"), gpu("gpu-00002", "node-001")];
    fleet[0].status = GpuStatus::Degraded;
    assert_eq!(list_gpus(&fleet, None, None), vec![0, 1, 2]);
    fleet[0].status = GpuStatus::Healthy;
    assert_eq!(list_gpus(&fleet, None, None), vec![1, 2, 0]);
    ChaosEngine::inject(&mut fleet[2], ChaosScenario::StorageLatency);
    assert_eq!(list_gpus(&fleet, None, None), vec![2, 1, 0]);
}

#[test]
fn listing_filters_ignore_ascii_case() {
    let mut fleet = vec![gpu("gpu-00001", "node-001"), gpu("gpu-00002", "node-002"), gpu("gpu-00003", "NODE-001")];
    fleet[1].status = GpuStatus::AtRisk;
    assert_eq!(list_gpus(&fleet, None, Some("Node-001")), vec![0, 2]);
    assert_eq!(list_gpus(&fleet, Some("at_risk"), None), vec![1]);
    assert_eq!(list_gpus(&fleet, Some("healthy"), Some("node-002")), Vec::<usize>::new());
    assert_eq!(list_gpus(&fleet, Some("HEALTH"), None), Vec::<usize>::new());
}

#[test]
fn unfiltered_listing_shows_one_page() {
    let mut fleet = small_fleet(150);
    fleet[120].status = GpuStatus::Critical;
    let page = list_gpus(&fleet, None, None);
    assert_eq!(page.len(), 100);
    assert_eq!(page[0], 120);
    assert_eq!(page[1], 0);
    assert_eq!(page[99], 98);
    assert_eq!(list_gpus(&fleet, None, Some("node-001")).len(), 150);
}

// ---------------------------------------------------------------- locality

#[test]
fn a_job_is_kept_to_one_node_when_one_can_hold_it() {
    let mut fleet = vec![
        gpu("gpu-00001", "node-001"),
        gpu("gpu-00002", "node-001"),
        gpu("gpu-00003", "node-002"),
        gpu("gpu-00004", "node-002"),
        gpu("gpu-00005", "node-002"),
    ];
    let mut s = SchedulerEngine::new(scheduler_config(false));
    s.submit_job(JobType::Training, 1, 3);
    s.schedule_pending_jobs(&mut fleet, 0);
    assert_eq!(s.get_jobs()[0].gpu_ids, vec!["gpu-00003", "gpu-00004", "gpu-00005"]);
    assert_eq!(fleet[0].allocated_job_id, None);
}

#[test]
fn a_job_spans_nodes_when_none_can_hold_it() {
    let mut fleet = vec![gpu("gpu-00001", "node-001"), gpu("gpu-00002", "node-002"), gpu("gpu-00003", "node-003")];
    let mut s = SchedulerEngine::new(scheduler_config(false));
    s.submit_job(JobType::Training, 1, 2);
    s.schedule_pending_jobs(&mut fleet, 0);
    assert_eq!(s.get_jobs()[0].gpu_ids, vec!["gpu-00001", "gpu-00002"]);
}

// ---------------------------------------------------------------- chaos headroom

#[test]
fn a_scenario_only_needs_headroom_on_its_own_counters() {
    let mut g = gpu("gpu-00001", "node-001");
    g.nvlink_errors = u64::MAX;
    assert!(scenario_fits_exec(&g, ChaosScenario::GpuEccFailure));
    assert!(!scenario_fits_exec(&g, ChaosScenario::NvlinkDegradation));
    ChaosEngine::inject(&mut g, ChaosScenario::GpuThermalFailure);
    let fx = ChaosEngine::apply_tick(&mut g, true);
    assert!(fx.thermal_resistance_creep);
    assert_eq!(g.sm_clock, 500);
    assert_eq!(fx.performance, PerformanceEffect::SetTo(35));
}

#[test]
fn a_tick_that_would_overflow_is_refused() {
    let mut g = gpu("gpu-00001", "node-001");
    g.ecc_sbe_total = u64::MAX - 3;
    ChaosEngine::inject(&mut g, ChaosScenario::GpuEccFailure);
    assert_eq!(ChaosEngine::apply_tick_checked(&mut g, false), None);
    assert_eq!(g.ecc_sbe_total, u64::MAX - 3);
    let mut h = gpu("gpu-00002", "node-001");
    ChaosEngine::inject(&mut h, ChaosScenario::PerformanceRegression);
    assert_eq!(ChaosEngine::apply_tick_checked(&mut h, false).map(|fx| fx.performance), Some(PerformanceEffect::SetTo(65)));
}

#[test]
fn an_injected_driver_crash_takes_effect() {
    let mut g = gpu("gpu-00001", "node-001");
    ChaosEngine::inject(&mut g, ChaosScenario::DriverCrash);
    ChaosEngine::apply_tick(&mut g, false);
    assert_eq!(g.latest_xid, 79);
    assert_eq!(ChaosScenario::parse("GPU_THERMAL_FAILURE"), Some(ChaosScenario::GpuThermalFailure));
}

// ---------------------------------------------------------------- remediation counter

#[test]
fn pausing_needs_no_room_in_the_migration_count() {
    let mut fleet = small_fleet(2);
    let mut job = running_job("job-00001", &["gpu-00001", "gpu-00002"]);
    job.migrations_count = u32::MAX;
    let mut jobs = vec![job];
    let mut rc = RemediationController::new();
    assert_eq!(rc.remediate_job_gpu("gpu-00001", &mut fleet, &mut jobs, &Vec::new()), None);
    assert_eq!(jobs[0].status, JobStatus::Paused);
    assert_eq!(jobs[0].migrations_count, u32::MAX);
}

// ---------------------------------------------------------------- metrics

#[test]
fn prometheus_exposition_of_a_small_fleet() {
    let mut fleet = vec![gpu("gpu-00001", "node-001"), gpu("gpu-00002", "node-001")];
    fleet[1].status = GpuStatus::Critical;
    fleet[1].ecc_sbe_total = 12;
    let t = vec!["65.00".to_string(), "70.50".to_string()];
    let p = vec!["280.00".to_string(), "300.00".to_string()];
    let u = vec!["10.00".to_string(), "0.00".to_string()];
    let h = vec!["100.00".to_string(), "35.00".to_string()];
    let out = MetricsRenderer::render_prometheus(&fleet, &t, &p, &u, &h, "5.00", "0.5000", 1, 3);
    assert!(out.starts_with(
        "# HELP fleet_gpus_total Total count of managed GPUs\n# TYPE fleet_gpus_total gauge\nfleet_gpus_total 2\n"
    ));
    assert!(out.contains("fleet_gpus_healthy 1\n"));
    assert!(out.contains("fleet_gpus_critical 1\n"));
    assert!(out.contains("fleet_utilization_ratio 5.00\n"));
    assert!(out.contains("fleet_availability_ratio 0.5000\n"));
    assert!(out.contains("autopilot_active_incidents 1\n"));
    assert!(out.contains("# TYPE autopilot_remediations_total counter\nautopilot_remediations_total 3\n"));
    assert!(out.contains(
        "\n# HELP dcgm_gpu_temp GPU temperature in Celsius\n# TYPE dcgm_gpu_temp gauge\n\
         dcgm_gpu_temp{gpu_id=\"gpu-00001\",node_id=\"node-001\",rack_id=\"rack-01\",model=\"H100\"} 65.00\n\
         dcgm_gpu_temp{gpu_id=\"gpu-00002\",node_id=\"node-001\",rack_id=\"rack-01\",model=\"H100\"} 70.50\n"
    ));
    assert!(out.contains("dcgm_sm_clock{gpu_id=\"gpu-00002\",node_id=\"node-001\",rack_id=\"rack-01\",model=\"H100\"} 1980\n"));
    assert!(out.contains(
        "dcgm_ecc_sbe_volatile_total{gpu_id=\"gpu-00002\",node_id=\"node-001\",rack_id=\"rack-01\",model=\"H100\"} 12\n"
    ));
    assert!(out.ends_with(
        "gpu_health_score{gpu_id=\"gpu-00002\",node_id=\"node-001\",rack_id=\"rack-01\",model=\"H100\"} 35.00\n"
    ));
}

#[test]
fn after_a_tick_each_gpu_has_its_band_status_unless_quarantined() {
    let mut e = engine(false);
    e.quarantine_gpu("gpu-00002", &vec![100.0; 16]).unwrap();
    let mut bands = vec![ScoreBands { at_least_healthy: true, at_least_degraded: true, at_least_at_risk: true }; 16];
    bands[0] = ScoreBands { at_least_healthy: false, at_least_degraded: true, at_least_at_risk: true };
    bands[1] = ScoreBands { at_least_healthy: false, at_least_degraded: false, at_least_at_risk: false };
    let obs: Vec<AgentObservation<f64>> = (0..16).map(|_| calm(100.0)).collect();
    e.control_tick(2000, 1, &bands, &obs);
    assert_eq!(e.get_gpu("gpu-00001").unwrap().status, GpuStatus::Degraded);
    assert_eq!(e.get_gpu("gpu-00002").unwrap().status, GpuStatus::Quarantined);
    assert_eq!(e.get_gpu("gpu-00003").unwrap().status, GpuStatus::Healthy);
    assert!(e.remediation.get_records().is_empty());
}

#[test]
fn after_a_tick_no_running_job_keeps_a_critical_gpu() {
    let mut e = engine(false);
    let id = e.submit_job(JobType::Training, 1, 2, 1);
    assert_eq!(e.scheduler.get_jobs()[0].gpu_ids, vec!["gpu-00001", "gpu-00002"]);
    let mut bands = vec![ScoreBands { at_least_healthy: true, at_least_degraded: true, at_least_at_risk: true }; 16];
    bands[0] = ScoreBands { at_least_healthy: false, at_least_degraded: false, at_least_at_risk: false };
    let obs: Vec<AgentObservation<f64>> = (0..16).map(|_| calm(100.0)).collect();
    e.control_tick(2000, 1, &bands, &obs);
    let job = &e.scheduler.get_jobs()[0];
    assert_eq!(job.id, id);
    assert_eq!(job.status, JobStatus::Migrating);
    assert_eq!(job.gpu_ids, vec!["gpu-00002", "gpu-00016"]);
    assert_eq!(e.get_gpu("gpu-00001").unwrap().status, GpuStatus::Quarantined);
    let r = &e.remediation.get_records()[0];
    assert_eq!(r.gpu_id, "gpu-00001");
    assert_eq!(r.spare_gpu_id, Some("gpu-00016".to_string()));
    assert_eq!(r.outcome, "MIGRATION_INITIATED");
}

#[test]
fn scenario_names_in_lower_case_parse() {
    assert_eq!(ChaosScenario::parse("gpu_thermal_failure"), Some(ChaosScenario::GpuThermalFailure));
    assert_eq!(ChaosScenario::parse("rdma_failure"), Some(ChaosScenario::RdmaFailure));
    assert_eq!(ChaosScenario::parse("Storage_Latency"), Some(ChaosScenario::StorageLatency));
}
