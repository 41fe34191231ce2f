//! Fleet entities: GPUs, jobs, incidents and telemetry events.
//!
//! Every quantity that is a floating-point number (temperatures, power, utilisation,
//! performance ratios, health scores) lives with the physics model outside this crate;
//! the types here hold the counters, identifiers and lifecycle states that the
//! fleet's decisions read and write. Health scores are carried as an opaque value of
//! type `S`, never inspected here.

use vstd::prelude::*;
use crate::clock::read_clock;

verus! {

/// Lifecycle state of a GPU.
#[derive(Clone, Copy, Debug, PartialEq, Eq, Structural)]
pub enum GpuStatus {
    Healthy,
    Degraded,
    AtRisk,
    Critical,
    Quarantined,
}

/// The canonical upper-case name of a status (its `Display` text).
pub open spec fn status_name(s: GpuStatus) -> Seq<char> {
    match s {
        GpuStatus::Healthy => "HEALTHY"@,
        GpuStatus::Degraded => "DEGRADED"@,
        GpuStatus::AtRisk => "AT_RISK"@,
        GpuStatus::Critical => "CRITICAL"@,
        GpuStatus::Quarantined => "QUARANTINED"@,
    }
}

impl Default for GpuStatus {
    fn default() -> (s: Self)
        ensures
            s == GpuStatus::Healthy,
    {
        GpuStatus::Healthy
    }
}

impl GpuStatus {
    /// The display text of the status, e.g. `AT_RISK`.
    pub fn display_name(&self) -> (s: &'static str)
        ensures
            s@ == status_name(*self),
    {
        match self {
            GpuStatus::Healthy => "HEALTHY",
            GpuStatus::Degraded => "DEGRADED",
            GpuStatus::AtRisk => "AT_RISK",
            GpuStatus::Critical => "CRITICAL",
            GpuStatus::Quarantined => "QUARANTINED",
        }
    }
}

/// A GPU of the fleet, as far as the fleet's decisions read it.
pub struct Gpu {
    pub id: String,
    pub model: String,
    pub node_id: String,
    pub rack_id: String,
    pub cluster_id: String,
    /// SM clock in MHz.
    pub sm_clock: u32,
    /// DCGM throttle-reason bitmask (bit 0: thermal).
    pub clock_throttle: u32,
    pub is_throttled: bool,
    pub ecc_sbe_total: u64,
    pub ecc_dbe_total: u64,
    pub ecc_window_errors: u64,
    pub latest_xid: u32,
    pub xid_window_events: u32,
    pub nvlink_errors: u64,
    pub network_errors: u64,
    pub status: GpuStatus,
    pub allocated_job_id: Option<String>,
    /// Milliseconds since the Unix epoch of the last update.
    pub last_updated_ms: i64,
    /// Canonical name of the injected chaos scenario, if any.
    pub active_chaos_scenario: Option<String>,
}

/// The mathematical model of a [`Gpu`]: strings as character sequences.
pub struct GpuView {
    pub id: Seq<char>,
    pub model: Seq<char>,
    pub node_id: Seq<char>,
    pub rack_id: Seq<char>,
    pub cluster_id: Seq<char>,
    pub sm_clock: u32,
    pub clock_throttle: u32,
    pub is_throttled: bool,
    pub ecc_sbe_total: u64,
    pub ecc_dbe_total: u64,
    pub ecc_window_errors: u64,
    pub latest_xid: u32,
    pub xid_window_events: u32,
    pub nvlink_errors: u64,
    pub network_errors: u64,
    pub status: GpuStatus,
    pub allocated_job_id: Option<Seq<char>>,
    pub last_updated_ms: i64,
    pub active_chaos_scenario: Option<Seq<char>>,
}

impl View for Gpu {
    type V = GpuView;

    open spec fn view(&self) -> GpuView {
        GpuView {
            id: self.id@,
            model: self.model@,
            node_id: self.node_id@,
            rack_id: self.rack_id@,
            cluster_id: self.cluster_id@,
            sm_clock: self.sm_clock,
            clock_throttle: self.clock_throttle,
            is_throttled: self.is_throttled,
            ecc_sbe_total: self.ecc_sbe_total,
            ecc_dbe_total: self.ecc_dbe_total,
            ecc_window_errors: self.ecc_window_errors,
            latest_xid: self.latest_xid,
            xid_window_events: self.xid_window_events,
            nvlink_errors: self.nvlink_errors,
            network_errors: self.network_errors,
            status: self.status,
            allocated_job_id: self.allocated_job_id.deep_view(),
            last_updated_ms: self.last_updated_ms,
            active_chaos_scenario: self.active_chaos_scenario.deep_view(),
        }
    }
}

/// The model of a fleet: the model of each GPU, in fleet order.
pub open spec fn fleet_view(f: Seq<Gpu>) -> Seq<GpuView> {
    f.map_values(|g: Gpu| g@)
}

/// The models of a sequence of strings.
pub open spec fn ids_of(v: Seq<String>) -> Seq<Seq<char>> {
    v.map_values(|s: String| s@)
}

/// The state of a freshly commissioned GPU with the given identity (all but the clock reading).
pub open spec fn pristine_gpu(g: Gpu, id: Seq<char>, model: Seq<char>, node_id: Seq<char>,
    rack_id: Seq<char>, cluster_id: Seq<char>) -> bool {
    &&& g.id@ == id
    &&& g.model@ == model
    &&& g.node_id@ == node_id
    &&& g.rack_id@ == rack_id
    &&& g.cluster_id@ == cluster_id
    &&& g.sm_clock == 1980
    &&& g.clock_throttle == 0
    &&& !g.is_throttled
    &&& g.ecc_sbe_total == 0
    &&& g.ecc_dbe_total == 0
    &&& g.ecc_window_errors == 0
    &&& g.latest_xid == 0
    &&& g.xid_window_events == 0
    &&& g.nvlink_errors == 0
    &&& g.network_errors == 0
    &&& g.status == GpuStatus::Healthy
    &&& g.allocated_job_id is None
    &&& g.active_chaos_scenario is None
}

/// A GPU can take a workload when it is healthy and holds none.
pub open spec fn available_for_workload(g: GpuView) -> bool {
    g.status == GpuStatus::Healthy && g.allocated_job_id is None
}

impl Gpu {
    /// A healthy, idle GPU with clean counters, stamped with the current time.
    pub fn new(id: String, model: String, node_id: String, rack_id: String, cluster_id: String) -> (g: Self)
        ensures
            pristine_gpu(g, id@, model@, node_id@, rack_id@, cluster_id@),
    {
        let now = read_clock();
        Gpu {
            id,
            model,
            node_id,
            rack_id,
            cluster_id,
            sm_clock: 1980,
            clock_throttle: 0,
            is_throttled: false,
            ecc_sbe_total: 0,
            ecc_dbe_total: 0,
            ecc_window_errors: 0,
            latest_xid: 0,
            xid_window_events: 0,
            nvlink_errors: 0,
            network_errors: 0,
            status: GpuStatus::Healthy,
            allocated_job_id: None,
            last_updated_ms: now.millis,
            active_chaos_scenario: None,
        }
    }

    pub fn is_available_for_workload(&self) -> (b: bool)
        ensures
            b == available_for_workload(self@),
    {
        match self.status {
            GpuStatus::Healthy => self.allocated_job_id.is_none(),
            _ => false,
        }
    }
}

#[derive(Clone, Copy, Debug, PartialEq, Eq, Structural)]
pub enum JobType {
    Training,
    Serving,
    Evaluation,
}

#[derive(Clone, Copy, Debug, PartialEq, Eq, Structural)]
pub enum JobStatus {
    Queued,
    Running,
    Paused,
    Migrating,
    Completed,
    Failed,
}

/// A workload on the cluster. Times are milliseconds since the Unix epoch.
pub struct Job {
    pub id: String,
    pub job_type: JobType,
    pub priority: u32,
    pub gpu_count: usize,
    pub gpu_ids: Vec<String>,
    pub status: JobStatus,
    pub created_at_ms: i64,
    pub started_at_ms: Option<i64>,
    pub migration_started_at_ms: Option<i64>,
    /// Time since the last checkpoint, in milliseconds.
    pub checkpoint_age_ms: u64,
    pub migrations_count: u32,
}

/// The mathematical model of a [`Job`].
pub struct JobView {
    pub id: Seq<char>,
    pub job_type: JobType,
    pub priority: u32,
    pub gpu_count: usize,
    pub gpu_ids: Seq<Seq<char>>,
    pub status: JobStatus,
    pub created_at_ms: i64,
    pub started_at_ms: Option<i64>,
    pub migration_started_at_ms: Option<i64>,
    pub checkpoint_age_ms: u64,
    pub migrations_count: u32,
}

impl View for Job {
    type V = JobView;

    open spec fn view(&self) -> JobView {
        JobView {
            id: self.id@,
            job_type: self.job_type,
            priority: self.priority,
            gpu_count: self.gpu_count,
            gpu_ids: ids_of(self.gpu_ids@),
            status: self.status,
            created_at_ms: self.created_at_ms,
            started_at_ms: self.started_at_ms,
            migration_started_at_ms: self.migration_started_at_ms,
            checkpoint_age_ms: self.checkpoint_age_ms,
            migrations_count: self.migrations_count,
        }
    }
}

/// The model of a job list.
pub open spec fn jobs_view(j: Seq<Job>) -> Seq<JobView> {
    j.map_values(|x: Job| x@)
}

/// A job as it is submitted: queued, holding no GPU.
pub open spec fn fresh_job(j: Job, id: Seq<char>, job_type: JobType, priority: u32, gpu_count: usize) -> bool {
    &&& j.id@ == id
    &&& j.job_type == job_type
    &&& j.priority == priority
    &&& j.gpu_count == gpu_count
    &&& j.gpu_ids@.len() == 0
    &&& j.status == JobStatus::Queued
    &&& j.started_at_ms is None
    &&& j.migration_started_at_ms is None
    &&& j.checkpoint_age_ms == 0
    &&& j.migrations_count == 0
}

impl Job {
    /// A queued job holding no GPU, stamped with the current time.
    pub fn new(id: String, job_type: JobType, priority: u32, gpu_count: usize) -> (j: Self)
        ensures
            fresh_job(j, id@, job_type, priority, gpu_count),
    {
        let now = read_clock();
        Job {
            id,
            job_type,
            priority,
            gpu_count,
            gpu_ids: Vec::new(),
            status: JobStatus::Queued,
            created_at_ms: now.millis,
            started_at_ms: None,
            migration_started_at_ms: None,
            checkpoint_age_ms: 0,
            migrations_count: 0,
        }
    }
}

#[derive(Clone, Copy, Debug, PartialEq, Eq, Structural)]
pub enum IncidentSeverity {
    Warning,
    Degraded,
    Critical,
}

#[derive(Clone, Copy, Debug, PartialEq, Eq, Structural)]
pub enum IncidentState {
    Detected,
    Investigating,
    Diagnosed,
    Remediating,
    Resolved,
}

/// An incident opened by the agent for one GPU. `S` is the health-score type, carried as is.
/// Confidence is in hundredths (93 stands for 0.93).
pub struct Incident<S> {
    pub id: String,
    pub gpu_id: String,
    pub node_id: String,
    pub severity: IncidentSeverity,
    pub state: IncidentState,
    pub detected_at_ms: i64,
    pub resolved_at_ms: Option<i64>,
    pub trigger_health: S,
    pub diagnosis: Option<String>,
    pub confidence_pct: Option<u32>,
    pub actions_taken: Vec<String>,
}

/// The structured payload of a telemetry event.
pub enum EventDetails<S> {
    Quarantined { health_score: S },
    DriverRestarted { previous_xid: u32 },
    ReturnedToService { health_score: S },
    IncidentCreated { incident_id: String, trigger_health: S },
    IncidentResolved { incident_id: String, actions: Vec<String> },
}

/// An entry of the agent's event log. The timestamp is milliseconds since the Unix epoch.
pub struct TelemetryEvent<S> {
    pub event_id: String,
    pub timestamp_ms: i64,
    pub event_type: String,
    pub severity: String,
    pub gpu_id: String,
    pub node_id: String,
    pub details: EventDetails<S>,
}

} // verus!
