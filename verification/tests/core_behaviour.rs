use fleet_autopilot::agent::{AgentEngine, RuleSignals};
use fleet_autopilot::chaos::{ChaosEngine, ChaosScenario};
use fleet_autopilot::config::AgentConfig;
use fleet_autopilot::health::{HealthEngine, ScoreBands};
use fleet_autopilot::scheduler::{SchedulerConfig, SchedulerEngine};
use fleet_autopilot::simulator::{SimulatorEngine, TelemetryHistory};
use fleet_autopilot::types::{Gpu, GpuStatus, JobStatus, JobType};

fn test_agent_config() -> AgentConfig {
    AgentConfig {
        mode: "rules".to_string(),
        max_tool_calls: 10,
        evaluation_interval_s: 30,
        incident_trigger: "CRITICAL".to_string(),
        cooldown_s: 300,
    }
}

fn new_gpu(id: &str, node: &str) -> Gpu {
    Gpu::new(
        id.to_string(),
        "H100".to_string(),
        node.to_string(),
        "rack-01".to_string(),
        "us-east-1".to_string(),
    )
}

/// The rule signals of a GPU whose temperature reading is 94 °C, at full performance, 10 %
/// utilization and a health score of 100.
fn signals_at_94_degrees() -> RuleSignals {
    RuleSignals {
        performance_below_080: false,
        temperature_at_least_92: true,
        utilization_zero: false,
        performance_below_070: false,
        health_below_70: false,
    }
}

/// Where a score stands against the thresholds 80 / 60 / 40.
fn bands(healthy: bool, degraded: bool, at_risk: bool) -> ScoreBands {
    ScoreBands { at_least_healthy: healthy, at_least_degraded: degraded, at_least_at_risk: at_risk }
}

#[test]
fn test_agent_evaluates_thermal_failure() {
    let agent: AgentEngine<f64> = AgentEngine::new(test_agent_config());
    let mut gpu = new_gpu("gpu-00001", "node-001");
    gpu.is_throttled = true;

    let rule_match = agent.evaluate_rules(&gpu, &signals_at_94_degrees());
    assert!(rule_match.is_some());
    let r = rule_match.unwrap();
    assert_eq!(r.rule_name, "thermal_runaway");
    assert!(r.confidence_pct >= 90);
}

#[test]
fn test_inject_thermal_failure() {
    let mut gpu = new_gpu("gpu-00042", "node-006");

    ChaosEngine::inject(&mut gpu, ChaosScenario::GpuThermalFailure);
    assert_eq!(gpu.active_chaos_scenario, Some("GPU_THERMAL_FAILURE".to_string()));

    // Every tick makes the thermal resistance creep up (0.075 + 10 x 0.015 > 0.10).
    let mut creeps = 0;
    for _ in 0..10 {
        let fx = ChaosEngine::apply_tick(&mut gpu, false);
        if fx.thermal_resistance_creep {
            creeps += 1;
        }
    }
    assert_eq!(creeps, 10);
}

#[test]
fn test_pristine_gpu_is_healthy() {
    let mut gpu = new_gpu("gpu-00001", "node-001");
    // A pristine GPU scores 100, at or above every threshold.
    HealthEngine::evaluate_gpu(&mut gpu, &bands(true, true, true));
    assert_eq!(gpu.status, GpuStatus::Healthy);
}

#[test]
fn test_thermal_and_ecc_degradation() {
    let mut gpu = new_gpu("gpu-00002", "node-001");
    gpu.ecc_window_errors = 20;
    gpu.is_throttled = true;
    // 95 °C, 20 ECC errors and throttling score 50: below 80 and 60, at least 40.
    HealthEngine::evaluate_gpu(&mut gpu, &bands(false, false, true));
    assert_eq!(gpu.status, GpuStatus::AtRisk);
    assert_eq!(gpu.ecc_window_errors, 20);
}

#[test]
fn test_quarantine_is_sticky() {
    let mut gpu = new_gpu("gpu-00003", "node-001");
    gpu.status = GpuStatus::Quarantined;
    HealthEngine::evaluate_gpu(&mut gpu, &bands(true, true, true));
    assert_eq!(gpu.status, GpuStatus::Quarantined);
}

fn test_scheduler_config() -> SchedulerConfig {
    SchedulerConfig {
        max_concurrent_jobs: 10,
        default_gpus_per_job: 4,
        auto_generate_jobs: true,
        migration_time_ms: 10_000,
        checkpoint_interval_ms: 600_000,
    }
}

#[test]
fn test_job_allocation() {
    let mut scheduler = SchedulerEngine::new(test_scheduler_config());
    let mut fleet = vec![
        Gpu::new("gpu-00001".to_string(), "H100".to_string(), "n1".to_string(), "r1".to_string(), "c1".to_string()),
        Gpu::new("gpu-00002".to_string(), "H100".to_string(), "n1".to_string(), "r1".to_string(), "c1".to_string()),
        Gpu::new("gpu-00003".to_string(), "H100".to_string(), "n1".to_string(), "r1".to_string(), "c1".to_string()),
        Gpu::new("gpu-00004".to_string(), "H100".to_string(), "n1".to_string(), "r1".to_string(), "c1".to_string()),
        Gpu::new("gpu-00005".to_string(), "H100".to_string(), "n1".to_string(), "r1".to_string(), "c1".to_string()),
    ];
    // A warm-spare ratio of 10 % of five GPUs, rounded up.
    let spares = 1;

    let job_id = scheduler.submit_job(JobType::Training, 1, 4);
    scheduler.schedule_pending_jobs(&mut fleet, spares);

    let job = scheduler.get_jobs().iter().find(|j| j.id == job_id).unwrap();
    assert_eq!(job.status, JobStatus::Running);
    assert_eq!(job.gpu_ids.len(), 4);
}

fn test_simulator() -> SimulatorEngine {
    SimulatorEngine::new(16, 8, "H100".to_string())
}

#[test]
fn test_fleet_creation() {
    let sim = test_simulator();
    let fleet = sim.create_fleet();
    assert_eq!(fleet.len(), 16);
    assert_eq!(fleet[0].id, "gpu-00001");
    assert_eq!(fleet[0].node_id, "node-001");
    assert_eq!(fleet[8].node_id, "node-002");
}

#[test]
fn test_step_fleet_thermal_ode() {
    let sim = test_simulator();
    let mut fleet = sim.create_fleet();
    let mut histories: Vec<TelemetryHistory<u32>> = fleet.iter().map(|_| TelemetryHistory::new()).collect();

    // Five ticks of an idle GPU between 83 and 92 °C: no chaos, no throttling, full clock.
    for _ in 0..5 {
        for (i, gpu) in fleet.iter_mut().enumerate() {
            ChaosEngine::apply_tick(gpu, false);
            SimulatorEngine::apply_thermal_control(gpu, false, false, 1980);
            histories[i].push(gpu.sm_clock);
        }
    }

    assert_eq!(histories[0].len(), 5);
    assert!(!fleet[0].is_throttled);
    assert_eq!(fleet[0].sm_clock, 1980);
}
