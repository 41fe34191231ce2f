//! The fleet engine: the fleet with its scheduler, agent and remediation controller,
//! its control API, and the decision half of a simulation tick.
//!
//! Per-GPU health scores of type `S` and the outcome of comparisons on float readings are
//! handed in, one entry per GPU in fleet order.

use vstd::prelude::*;
use crate::agent::{AgentEngine, AgentModel, AgentObservation, ThermalReadings, agent_upto, diagnostics_pass};
use crate::chaos::{ChaosEngine, ChaosScenario, scenario_name, named_scenario};
use crate::clock::{read_clock, WallClock};
use crate::config::AgentConfig;
use crate::health::{HealthEngine, ScoreBands, evaluated, status_for};
use crate::lookup::{first_index, find_gpu};
use crate::remediation::{RemediationController, RemediationActionRecord, remediate};
use crate::scheduler::{SchedulerConfig, SchedulerEngine, advance_all, schedule_all, warm_spare_ids, ages_fit};
use crate::simulator::{SimulatorEngine, laid_out};
use crate::types::{Gpu, GpuView, GpuStatus, Job, JobView, JobType, JobStatus, fleet_view, jobs_view, ids_of};

verus! {

/// Why a control request is refused.
#[derive(Debug)]
pub enum FleetError {
    /// The scenario name parses to no scenario.
    InvalidScenario(String),
    /// No GPU has this id.
    GpuNotFound(String),
}

/// What returning a GPU to service reads of it.
#[derive(Clone, Copy, Debug)]
pub struct ServiceReadings<S> {
    pub health_score: S,
    /// health score >= 80.0
    pub health_at_least_80: bool,
    pub thermal: ThermalReadings,
}

pub struct FleetEngine<S> {
    pub fleet: Vec<Gpu>,
    pub simulator: SimulatorEngine,
    pub agent: AgentEngine<S>,
    pub remediation: RemediationController,
    pub scheduler: SchedulerEngine,
}

/// The fleet, the jobs and the agent, as the contracts speak of them.
pub struct FleetState<S> {
    pub fleet: Seq<GpuView>,
    pub jobs: Seq<JobView>,
    pub agent: AgentModel<S>,
}

impl<S> FleetEngine<S> {
    pub open spec fn state(&self) -> FleetState<S> {
        FleetState { fleet: fleet_view(self.fleet@), jobs: jobs_view(self.scheduler.jobs@), agent: self.agent.model() }
    }
}

/// The ids of the GPUs that are quarantined or critical, among the first `i`, in fleet order.
pub open spec fn degraded_ids(fleet: Seq<GpuView>, i: int) -> Seq<Seq<char>>
    decreases i,
{
    if i <= 0 || i > fleet.len() {
        Seq::empty()
    } else if fleet[i - 1].status == GpuStatus::Quarantined || fleet[i - 1].status == GpuStatus::Critical {
        degraded_ids(fleet, i - 1).push(fleet[i - 1].id)
    } else {
        degraded_ids(fleet, i - 1)
    }
}

/// Remediating each GPU of `ids` in turn, the `k`-th at time `ts[k]`.
pub open spec fn remediate_all(fleet: Seq<GpuView>, jobs: Seq<JobView>, ids: Seq<Seq<char>>, spares: Seq<Seq<char>>,
    ts: Seq<i64>) -> (Seq<GpuView>, Seq<JobView>)
    decreases ids.len(),
{
    if ids.len() == 0 || ts.len() < ids.len() {
        (fleet, jobs)
    } else {
        let (f, j) = remediate_all(fleet, jobs, ids.drop_last(), spares, ts.take(ids.len() - 1));
        let r = remediate(f, j, ids.last(), spares, ts[ids.len() - 1]);
        (r.0, r.1)
    }
}

/// A health evaluation of every GPU, each with its own bands.
pub open spec fn evaluate_all(fleet: Seq<GpuView>, bands: Seq<ScoreBands>) -> Seq<GpuView> {
    Seq::new(fleet.len(), |i: int| evaluated(fleet[i], bands[i]))
}

/// The decision half of a tick: health evaluation, the scheduler's clock at `t1`, scheduling at
/// `t2`, the agent's loop at `t3`, then remediation of every quarantined or critical GPU, the
/// `k`-th at `ts[k]`, against the warm spares left after the agent's loop.
pub open spec fn tick_outcome<S>(s: FleetState<S>, cfg: SchedulerConfig, cooldown_s: i64, dt_ms: u64,
    spare_count: nat, bands: Seq<ScoreBands>, obs: Seq<AgentObservation<S>>, t1: i64, t2: i64, t3: WallClock,
    ts: Seq<i64>) -> FleetState<S> {
    let f1 = evaluate_all(s.fleet, bands);
    let j1 = advance_all(s.jobs, dt_ms, t1, cfg);
    let (f2, j2) = schedule_all(f1, j1, spare_count, t2);
    let (a3, f3) = agent_upto(s.agent, f2, obs, f2.len(), t3, cooldown_s);
    let (f4, j4) = remediate_all(f3, j2, degraded_ids(f3, f3.len() as int), warm_spare_ids(f3, spare_count), ts);
    FleetState { fleet: f4, jobs: j4, agent: a3 }
}

/// The records a run of [`remediate_all`] writes, in order: for each GPU held by a running job,
/// the GPU, that job, the spare handed over (if any) and the time.
pub open spec fn remediation_log(fleet: Seq<GpuView>, jobs: Seq<JobView>, ids: Seq<Seq<char>>, spares: Seq<Seq<char>>,
    ts: Seq<i64>) -> Seq<(Seq<char>, Seq<char>, Option<Seq<char>>, i64)>
    decreases ids.len(),
{
    if ids.len() == 0 || ts.len() < ids.len() {
        Seq::empty()
    } else {
        let prev = remediation_log(fleet, jobs, ids.drop_last(), spares, ts.take(ids.len() - 1));
        let (f, j) = remediate_all(fleet, jobs, ids.drop_last(), spares, ts.take(ids.len() - 1));
        let id = ids.last();
        let t = ts[ids.len() - 1];
        let k = crate::remediation::first_running_job(j, id);
        if k >= 0 { prev.push((id, j[k].id, remediate(f, j, id, spares, t).2, t)) } else { prev }
    }
}

/// The remediation records a tick writes (see [`tick_outcome`]).
pub open spec fn tick_records<S>(s: FleetState<S>, cfg: SchedulerConfig, cooldown_s: i64, dt_ms: u64,
    spare_count: nat, bands: Seq<ScoreBands>, obs: Seq<AgentObservation<S>>, t1: i64, t2: i64, t3: WallClock,
    ts: Seq<i64>) -> Seq<(Seq<char>, Seq<char>, Option<Seq<char>>, i64)> {
    let f1 = evaluate_all(s.fleet, bands);
    let j1 = advance_all(s.jobs, dt_ms, t1, cfg);
    let (f2, j2) = schedule_all(f1, j1, spare_count, t2);
    let (a3, f3) = agent_upto(s.agent, f2, obs, f2.len(), t3, cooldown_s);
    remediation_log(f3, j2, degraded_ids(f3, f3.len() as int), warm_spare_ids(f3, spare_count), ts)
}

/// `after` is `before` followed by one eviction record per entry of `log`.
pub open spec fn records_logged(after: Seq<RemediationActionRecord>, before: Seq<RemediationActionRecord>,
    log: Seq<(Seq<char>, Seq<char>, Option<Seq<char>>, i64)>) -> bool {
    &&& after.len() == before.len() + log.len()
    &&& after.subrange(0, before.len() as int) == before
    &&& forall|i: int| 0 <= i < log.len() ==> crate::remediation::eviction_record(#[trigger] after[before.len() + i],
            log[i].0, log[i].1, log[i].2, log[i].3)
}

/// Every job can count `k` more migrations.
pub open spec fn migrations_fit(jobs: Seq<JobView>, k: nat) -> bool {
    forall|i: int| 0 <= i < jobs.len() ==> #[trigger] jobs[i].migrations_count + k <= u32::MAX
}

/// A job as it is submitted, as a model.
pub open spec fn fresh_job_view(j: JobView, id: Seq<char>, job_type: JobType, priority: u32, gpu_count: usize) -> bool {
    &&& j.id == id
    &&& j.job_type == job_type
    &&& j.priority == priority
    &&& j.gpu_count == gpu_count
    &&& j.gpu_ids.len() == 0
    &&& j.status == JobStatus::Queued
    &&& j.started_at_ms is None
    &&& j.migration_started_at_ms is None
    &&& j.checkpoint_age_ms == 0
    &&& j.migrations_count == 0
}

proof fn lemma_remediate_shape(fleet: Seq<GpuView>, jobs: Seq<JobView>, id: Seq<char>, spares: Seq<Seq<char>>, t: i64)
    ensures
        remediate(fleet, jobs, id, spares, t).0.len() == fleet.len(),
        remediate(fleet, jobs, id, spares, t).1.len() == jobs.len(),
        forall|i: int| 0 <= i < jobs.len() ==> #[trigger] remediate(fleet, jobs, id, spares, t).1[i].migrations_count
            <= jobs[i].migrations_count + 1,
{
    let k = crate::remediation::first_running_job(jobs, id);
    crate::remediation::lemma_first_running_job_from(jobs, id, 0);
    crate::lookup::lemma_first_index_from(fleet, id, 0);
    if k >= 0 {
        let f1 = crate::remediation::evict_gpu(fleet, id);
        if spares.len() > 0 {
            crate::lookup::lemma_first_index_from(f1, spares[0], 0);
        }
    }
}

fn degraded_gpu_ids(fleet: &Vec<Gpu>) -> (ids: Vec<String>)
    ensures
        ids_of(ids@) == degraded_ids(fleet_view(fleet@), fleet@.len() as int),
        ids@.len() <= fleet@.len(),
{
    let ghost fv = fleet_view(fleet@);
    let mut ids: Vec<String> = Vec::new();
    let mut i: usize = 0;
    while i < fleet.len()
        invariant
            i <= fleet@.len(),
            fv == fleet_view(fleet@),
            ids_of(ids@) == degraded_ids(fv, i as int),
            ids@.len() <= i,
        decreases fleet@.len() - i,
    {
        assert(fv[i as int] == fleet@[i as int]@);
        let bad = match fleet[i].status {
            GpuStatus::Quarantined => true,
            GpuStatus::Critical => true,
            _ => false,
        };
        if bad {
            let ghost before = ids@;
            ids.push(fleet[i].id.clone());
            assert(ids_of(ids@) =~= ids_of(before).push(fv[i as int].id));
        }
        i = i + 1;
    }
    ids
}


/// The `n` training jobs that seeding queues after job number `counter`: priority 1,
/// `gpus_per_job` GPUs each, numbered on from `counter`.
pub open spec fn seeded_jobs(q: Seq<JobView>, counter: nat, n: nat, gpus_per_job: usize) -> bool {
    &&& q.len() == n
    &&& forall|k: int| 0 <= k < n ==> fresh_job_view(#[trigger] q[k],
            crate::text::padded_id("job-"@, (counter + k + 1) as nat, 5), JobType::Training, 1, gpus_per_job)
}

/// How many jobs seeding queues: four, or fewer where fewer may run at once.
pub open spec fn seed_count(max_concurrent_jobs: usize) -> nat {
    if max_concurrent_jobs < 4 { max_concurrent_jobs as nat } else { 4 }
}

impl<S: Copy> FleetEngine<S> {
    /// A fleet laid out by the simulator, with an idle agent and remediation controller; when
    /// `scheduler_config.auto_generate_jobs` holds, the scheduler is seeded (see
    /// [`Self::seed_initial_jobs`]), with a warm-spare pool of `spare_count`.
    pub fn new(simulator: SimulatorEngine, agent_config: AgentConfig, scheduler_config: SchedulerConfig,
        spare_count: usize) -> (e: Self)
        requires
            simulator.gpu_count > 0 ==> simulator.gpus_per_node > 0,
        ensures
            e.fleet@.len() == simulator.gpu_count,
            e.scheduler.config == scheduler_config,
            e.agent.config == agent_config,
            e.agent.model().incidents.len() == 0,
            e.agent.model().events.len() == 0,
            e.agent.model().cooldowns.len() == 0,
            e.agent.model().counter == 0,
            e.remediation.records@.len() == 0,
            !scheduler_config.auto_generate_jobs ==> {
                &&& forall|i: int| 0 <= i < e.fleet@.len() ==> #[trigger] laid_out(e.fleet@[i], i as nat,
                        simulator.gpus_per_node as nat, simulator.gpu_model@)
                &&& e.scheduler.jobs@.len() == 0
                &&& e.scheduler.job_counter == 0
            },
            scheduler_config.auto_generate_jobs ==> {
                &&& e.scheduler.job_counter == seed_count(scheduler_config.max_concurrent_jobs)
                &&& exists|laid: Seq<Gpu>, q: Seq<JobView>, now_ms: i64|
                    #![trigger schedule_all(fleet_view(laid), q, spare_count as nat, now_ms)]
                    laid.len() == simulator.gpu_count
                    && (forall|i: int| 0 <= i < laid.len() ==> #[trigger] laid_out(laid[i], i as nat,
                        simulator.gpus_per_node as nat, simulator.gpu_model@))
                    && seeded_jobs(q, 0, seed_count(scheduler_config.max_concurrent_jobs),
                        scheduler_config.default_gpus_per_job)
                    && (fleet_view(e.fleet@), jobs_view(e.scheduler.jobs@))
                        == schedule_all(fleet_view(laid), q, spare_count as nat, now_ms)
            },
    {
        let fleet = simulator.create_fleet();
        let mut engine = FleetEngine {
            fleet,
            simulator,
            agent: AgentEngine::new(agent_config),
            remediation: RemediationController::new(),
            scheduler: SchedulerEngine::new(scheduler_config),
        };
        if scheduler_config.auto_generate_jobs {
            let ghost laid = engine.fleet@;
            proof {
                assert(jobs_view(engine.scheduler.jobs@) =~= Seq::<JobView>::empty());
            }
            engine.seed_initial_jobs(spare_count);
            proof {
                let q = choose|q: Seq<JobView>, now_ms: i64| seeded_jobs(q, 0,
                    seed_count(scheduler_config.max_concurrent_jobs), scheduler_config.default_gpus_per_job)
                    && (fleet_view(engine.fleet@), jobs_view(engine.scheduler.jobs@)) == schedule_all(
                        fleet_view(laid), Seq::<JobView>::empty() + q, spare_count as nat, now_ms);
                assert(Seq::<JobView>::empty() + q.0 =~= q.0);
                crate::scheduler::lemma_schedule_shape(fleet_view(laid), q.0, q.0.len(),
                    warm_spare_ids(fleet_view(laid), spare_count as nat), q.1);
            }
        }
        engine
    }

    /// Queues [`seed_count`] training jobs of priority 1 and `default_gpus_per_job` GPUs each,
    /// then runs one scheduling pass with a warm-spare pool of `spare_count`.
    pub fn seed_initial_jobs(&mut self, spare_count: usize)
        requires
            old(self).scheduler.job_counter + 4 <= usize::MAX,
        ensures
            final(self).agent == old(self).agent,
            final(self).remediation == old(self).remediation,
            final(self).scheduler.config == old(self).scheduler.config,
            final(self).scheduler.job_counter
                == old(self).scheduler.job_counter + seed_count(old(self).scheduler.config.max_concurrent_jobs),
            exists|q: Seq<JobView>, now_ms: i64|
                #![trigger schedule_all(fleet_view(old(self).fleet@), jobs_view(old(self).scheduler.jobs@) + q,
                    spare_count as nat, now_ms)]
                seeded_jobs(q, old(self).scheduler.job_counter as nat,
                    seed_count(old(self).scheduler.config.max_concurrent_jobs), old(self).scheduler.config.default_gpus_per_job)
                && (fleet_view(final(self).fleet@), jobs_view(final(self).scheduler.jobs@)) == schedule_all(
                    fleet_view(old(self).fleet@), jobs_view(old(self).scheduler.jobs@) + q, spare_count as nat, now_ms),
    {
        let cfg = self.scheduler.config;
        let n: usize = if cfg.max_concurrent_jobs < 4 { cfg.max_concurrent_jobs } else { 4 };
        let ghost j0 = jobs_view(self.scheduler.jobs@);
        let ghost c0 = self.scheduler.job_counter as nat;
        let mut k: usize = 0;
        while k < n
            invariant
                k <= n,
                n == seed_count(cfg.max_concurrent_jobs),
                n <= 4,
                cfg == old(self).scheduler.config,
                self.scheduler.config == cfg,
                self.agent == old(self).agent,
                self.remediation == old(self).remediation,
                self.fleet == old(self).fleet,
                self.scheduler.job_counter == c0 + k,
                c0 + 4 <= usize::MAX,
                jobs_view(self.scheduler.jobs@).len() == j0.len() + k,
                jobs_view(self.scheduler.jobs@).take(j0.len() as int) == j0,
                seeded_jobs(jobs_view(self.scheduler.jobs@).skip(j0.len() as int), c0, k as nat, cfg.default_gpus_per_job),
            decreases n - k,
        {
            let ghost before = jobs_view(self.scheduler.jobs@);
            let id = self.scheduler.submit_job(JobType::Training, 1, cfg.default_gpus_per_job);
            proof {
                let after = jobs_view(self.scheduler.jobs@);
                assert forall|i: int| 0 <= i < before.len() implies after[i] == before[i] by {
                    assert(self.scheduler.jobs@[i] == self.scheduler.jobs@.drop_last()[i]);
                }
                assert(after.take(j0.len() as int) =~= j0) by {
                    assert forall|i: int| 0 <= i < j0.len() implies after[i] == j0[i] by {
                        assert(after[i] == before[i]);
                        assert(before.take(j0.len() as int)[i] == before[i]);
                    }
                }
                let q = after.skip(j0.len() as int);
                assert forall|i: int| 0 <= i < k + 1 implies fresh_job_view(#[trigger] q[i],
                    crate::text::padded_id("job-"@, (c0 + i + 1) as nat, 5), JobType::Training, 1, cfg.default_gpus_per_job) by {
                    if i < k {
                        assert(q[i] == after[j0.len() + i]);
                        assert(after[j0.len() + i] == before[j0.len() + i]);
                        assert(before.skip(j0.len() as int)[i] == before[j0.len() + i]);
                    } else {
                        assert(q[i] == after[j0.len() + k]);
                        assert(after[j0.len() + k] == self.scheduler.jobs@.last()@);
                    }
                }
            }
            k = k + 1;
        }
        let ghost q = jobs_view(self.scheduler.jobs@).skip(j0.len() as int);
        proof {
            assert(jobs_view(self.scheduler.jobs@) =~= j0 + q);
        }
        let now = read_clock();
        self.scheduler.schedule_pending_jobs_at(&mut self.fleet, spare_count, now.millis);
    }

    pub fn get_fleet(&self) -> (f: &Vec<Gpu>)
        ensures
            f == &self.fleet,
    {
        &self.fleet
    }

    /// The first GPU named `id`.
    pub fn get_gpu(&self, id: &str) -> (r: Option<&Gpu>)
        ensures
            match r {
                Some(g) => {
                    let k = first_index(fleet_view(self.fleet@), id@);
                    k >= 0 && *g == self.fleet@[k]
                },
                None => first_index(fleet_view(self.fleet@), id@) == -1,
            },
    {
        let key = String::from_str(id);
        match find_gpu(&self.fleet, &key) {
            Some(k) => Some(&self.fleet[k]),
            None => None,
        }
    }

    /// Injects the named scenario (any case) into the GPU named `gpu_id`.
    pub fn inject_chaos(&mut self, gpu_id: &str, scenario: &str) -> (r: Result<(), FleetError>)
        ensures
            final(self).scheduler == old(self).scheduler,
            final(self).simulator == old(self).simulator,
            final(self).remediation == old(self).remediation,
            final(self).agent == old(self).agent,
            match named_scenario(scenario@) {
                None => (r matches Err(FleetError::InvalidScenario(s)) && s@ == scenario@)
                    && final(self).fleet == old(self).fleet,
                Some(sc) => {
                    let k = first_index(fleet_view(old(self).fleet@), gpu_id@);
                    if k < 0 {
                        (r matches Err(FleetError::GpuNotFound(s)) && s@ == gpu_id@)
                            && final(self).fleet == old(self).fleet
                    } else {
                        r is Ok && fleet_view(final(self).fleet@) == fleet_view(old(self).fleet@).update(k,
                            GpuView { active_chaos_scenario: Some(scenario_name(sc)), ..fleet_view(old(self).fleet@)[k] })
                    }
                },
            },
    {
        let sc = match ChaosScenario::parse(scenario) {
            Some(sc) => sc,
            None => return Err(FleetError::InvalidScenario(String::from_str(scenario))),
        };
        let key = String::from_str(gpu_id);
        match find_gpu(&self.fleet, &key) {
            Some(k) => {
                let ghost f0 = fleet_view(self.fleet@);
                ChaosEngine::inject(&mut self.fleet[k], sc);
                assert(fleet_view(self.fleet@) =~= f0.update(k as int,
                    GpuView { active_chaos_scenario: Some(scenario_name(sc)), ..f0[k as int] }));
                Ok(())
            },
            None => Err(FleetError::GpuNotFound(key)),
        }
    }

    /// Clears the scenario of the GPU named `gpu_id`; returns its position, whose health is to be
    /// evaluated again once its float readings are reset.
    pub fn clear_chaos(&mut self, gpu_id: &str) -> (r: Result<usize, FleetError>)
        ensures
            final(self).scheduler == old(self).scheduler,
            final(self).simulator == old(self).simulator,
            final(self).remediation == old(self).remediation,
            final(self).agent == old(self).agent,
            ({
                let k = first_index(fleet_view(old(self).fleet@), gpu_id@);
                if k < 0 {
                    (r matches Err(FleetError::GpuNotFound(s)) && s@ == gpu_id@) && final(self).fleet == old(self).fleet
                } else {
                    r == Ok::<usize, FleetError>(k as usize) && fleet_view(final(self).fleet@) == fleet_view(old(self).fleet@).update(k,
                        GpuView { active_chaos_scenario: None, is_throttled: false, latest_xid: 0,
                            ..fleet_view(old(self).fleet@)[k] })
                }
            }),
    {
        let key = String::from_str(gpu_id);
        match find_gpu(&self.fleet, &key) {
            Some(k) => {
                let ghost f0 = fleet_view(self.fleet@);
                ChaosEngine::clear(&mut self.fleet[k]);
                assert(fleet_view(self.fleet@) =~= f0.update(k as int,
                    GpuView { active_chaos_scenario: None, is_throttled: false, latest_xid: 0, ..f0[k as int] }));
                Ok(k)
            },
            None => Err(FleetError::GpuNotFound(key)),
        }
    }

    /// Quarantines the GPU named `gpu_id` through the agent's tool; `scores` holds each GPU's
    /// health score in fleet order.
    pub fn quarantine_gpu(&mut self, gpu_id: &str, scores: &Vec<S>) -> (r: Result<(), FleetError>)
        requires
            scores@.len() == old(self).fleet@.len(),
            old(self).agent.event_log@.len() < usize::MAX,
        ensures
            final(self).scheduler == old(self).scheduler,
            final(self).simulator == old(self).simulator,
            final(self).remediation == old(self).remediation,
            final(self).agent.config == old(self).agent.config,
            ({
                let k = first_index(fleet_view(old(self).fleet@), gpu_id@);
                let f0 = fleet_view(old(self).fleet@);
                if k < 0 {
                    (r matches Err(FleetError::GpuNotFound(s)) && s@ == gpu_id@)
                        && final(self).fleet == old(self).fleet && final(self).agent == old(self).agent
                } else {
                    &&& r is Ok
                    &&& fleet_view(final(self).fleet@) == f0.update(k, GpuView { status: GpuStatus::Quarantined, ..f0[k] })
                    &&& final(self).agent.model() == (AgentModel {
                        events: old(self).agent.model().events.push(crate::agent::new_event(old(self).agent.model().events.len(),
                            "GPU_QUARANTINED"@, "CRITICAL"@, f0[k].id, f0[k].node_id,
                            crate::agent::DetailsView::Quarantined { health_score: scores@[k] })),
                        ..old(self).agent.model()
                    })
                }
            }),
    {
        let key = String::from_str(gpu_id);
        match find_gpu(&self.fleet, &key) {
            Some(k) => {
                let ghost f0 = fleet_view(self.fleet@);
                assert(f0[k as int] == self.fleet@[k as int]@);
                self.agent.tool_quarantine_gpu(&mut self.fleet[k], scores[k]);
                assert(fleet_view(self.fleet@) =~= f0.update(k as int, GpuView { status: GpuStatus::Quarantined, ..f0[k as int] }));
                Ok(())
            },
            None => Err(FleetError::GpuNotFound(key)),
        }
    }

    /// Returns the GPU named `gpu_id` to healthy service if its diagnostics pass and its health
    /// score is at least 80; `readings` holds each GPU's readings in fleet order.
    pub fn return_to_service(&mut self, gpu_id: &str, readings: &Vec<ServiceReadings<S>>) -> (r: Result<bool, FleetError>)
        requires
            readings@.len() == old(self).fleet@.len(),
            old(self).agent.event_log@.len() < usize::MAX,
        ensures
            final(self).scheduler == old(self).scheduler,
            final(self).simulator == old(self).simulator,
            final(self).remediation == old(self).remediation,
            final(self).agent.config == old(self).agent.config,
            ({
                let k = first_index(fleet_view(old(self).fleet@), gpu_id@);
                let f0 = fleet_view(old(self).fleet@);
                if k < 0 {
                    (r matches Err(FleetError::GpuNotFound(s)) && s@ == gpu_id@)
                        && final(self).fleet == old(self).fleet && final(self).agent == old(self).agent
                } else {
                    let ok = diagnostics_pass(f0[k], readings@[k].thermal) && readings@[k].health_at_least_80;
                    &&& r == Ok::<bool, FleetError>(ok)
                    &&& ok ==> fleet_view(final(self).fleet@) == f0.update(k, GpuView { status: GpuStatus::Healthy, ..f0[k] })
                    &&& ok ==> final(self).agent.model() == (AgentModel {
                        events: old(self).agent.model().events.push(crate::agent::new_event(old(self).agent.model().events.len(),
                            "RETURN_TO_SERVICE"@, "INFO"@, f0[k].id, f0[k].node_id,
                            crate::agent::DetailsView::ReturnedToService { health_score: readings@[k].health_score })),
                        ..old(self).agent.model()
                    })
                    &&& ok ==> final(self).agent.event_log@.drop_last() == old(self).agent.event_log@
                    &&& !ok ==> fleet_view(final(self).fleet@) == f0 && final(self).agent.model() == old(self).agent.model()
                        && final(self).agent.event_log@ == old(self).agent.event_log@
                }
            }),
    {
        let key = String::from_str(gpu_id);
        match find_gpu(&self.fleet, &key) {
            Some(k) => {
                let ghost f0 = fleet_view(self.fleet@);
                assert(f0[k as int] == self.fleet@[k as int]@);
                let rd = readings[k];
                let ok = self.agent.tool_return_to_service(&mut self.fleet[k], &rd.thermal, rd.health_at_least_80, rd.health_score);
                proof {
                    if ok {
                        assert(fleet_view(self.fleet@) =~= f0.update(k as int, GpuView { status: GpuStatus::Healthy, ..f0[k as int] }));
                    } else {
                        assert(fleet_view(self.fleet@) =~= f0);
                    }
                }
                Ok(ok)
            },
            None => Err(FleetError::GpuNotFound(key)),
        }
    }

    /// Quarantines every GPU of the node; returns their ids in fleet order.
    pub fn drain_node(&mut self, node_id: &str) -> (ids: Vec<String>)
        ensures
            final(self).scheduler == old(self).scheduler,
            final(self).simulator == old(self).simulator,
            final(self).remediation == old(self).remediation,
            final(self).agent.model() == old(self).agent.model(),
            fleet_view(final(self).fleet@) == fleet_view(old(self).fleet@).map_values(|g: GpuView| crate::agent::drained(g, node_id@)),
            ids_of(ids@) == crate::agent::node_gpu_ids(fleet_view(old(self).fleet@), node_id@, old(self).fleet@.len() as int),
    {
        self.agent.tool_drain_node(&mut self.fleet, node_id)
    }

    /// Queues a job and runs a scheduling pass.
    pub fn submit_job(&mut self, job_type: JobType, priority: u32, gpu_count: usize, spare_count: usize) -> (id: String)
        requires
            old(self).scheduler.job_counter < usize::MAX,
        ensures
            final(self).agent == old(self).agent,
            final(self).scheduler.job_counter == old(self).scheduler.job_counter + 1,
            final(self).scheduler.config == old(self).scheduler.config,
            id@ == crate::text::padded_id("job-"@, final(self).scheduler.job_counter as nat, 5),
            exists|queued: JobView, now_ms: i64| #![trigger schedule_all(fleet_view(old(self).fleet@),
                    jobs_view(old(self).scheduler.jobs@).push(queued), spare_count as nat, now_ms)]
                fresh_job_view(queued, id@, job_type, priority, gpu_count)
                && (fleet_view(final(self).fleet@), jobs_view(final(self).scheduler.jobs@)) == schedule_all(
                    fleet_view(old(self).fleet@), jobs_view(old(self).scheduler.jobs@).push(queued), spare_count as nat, now_ms),
    {
        let id = self.scheduler.submit_job(job_type, priority, gpu_count);
        let ghost queued = self.scheduler.jobs@.last()@;
        proof {
            assert(jobs_view(self.scheduler.jobs@) =~= jobs_view(old(self).scheduler.jobs@).push(queued));
        }
        let now = read_clock();
        self.scheduler.schedule_pending_jobs_at(&mut self.fleet, spare_count, now.millis);
        id
    }

    /// The decision half of a simulation tick (see [`tick_outcome`]).
    pub fn control_tick(&mut self, dt_ms: u64, spare_count: usize, bands: &Vec<ScoreBands>,
        observations: &Vec<AgentObservation<S>>)
        requires
            bands@.len() == old(self).fleet@.len(),
            observations@.len() == old(self).fleet@.len(),
            ages_fit(jobs_view(old(self).scheduler.jobs@), dt_ms),
            old(self).agent.incident_counter + old(self).fleet@.len() <= usize::MAX,
            old(self).agent.event_log@.len() + 2 * old(self).fleet@.len() < usize::MAX,
            migrations_fit(jobs_view(old(self).scheduler.jobs@), old(self).fleet@.len() as nat),
        ensures
            final(self).scheduler.config == old(self).scheduler.config,
            final(self).scheduler.job_counter == old(self).scheduler.job_counter,
            final(self).agent.config == old(self).agent.config,
            final(self).remediation.records@.len() <= old(self).remediation.records@.len() + old(self).fleet@.len(),
            final(self).remediation.records@.subrange(0, old(self).remediation.records@.len() as int)
                == old(self).remediation.records@,
            forall|r: int| old(self).remediation.records@.len() <= r < final(self).remediation.records@.len() ==>
                (#[trigger] final(self).remediation.records@[r]).action@ == "EVICT_AND_FAILOVER"@,
            final(self).fleet@.len() == old(self).fleet@.len(),
            forall|p: int| 0 <= p < old(self).fleet@.len() ==> (#[trigger] final(self).fleet@[p]).id@ == old(self).fleet@[p].id@,
            forall|p: int| 0 <= p < old(self).fleet@.len() && old(self).fleet@[p].status == GpuStatus::Quarantined
                ==> (#[trigger] final(self).fleet@[p]).status == GpuStatus::Quarantined,
            forall|p: int| 0 <= p < old(self).fleet@.len() ==> (#[trigger] final(self).fleet@[p]).status == status_for(bands@[p])
                || final(self).fleet@[p].status == GpuStatus::Quarantined,
            allocation_consistent(old(self).state().fleet, old(self).state().jobs) ==> forall|k: int, p: int|
                0 <= k < final(self).state().jobs.len() && 0 <= p < final(self).state().fleet.len()
                && (#[trigger] final(self).state().jobs[k]).status == JobStatus::Running
                && final(self).state().jobs[k].gpu_ids.contains((#[trigger] final(self).state().fleet[p]).id)
                ==> final(self).state().fleet[p].status != GpuStatus::Quarantined
                    && final(self).state().fleet[p].status != GpuStatus::Critical,
            exists|t1: i64, t2: i64, t3: WallClock, ts: Seq<i64>| final(self).state() == #[trigger] tick_outcome(
                old(self).state(), old(self).scheduler.config, old(self).agent.config.cooldown_s, dt_ms, spare_count as nat,
                bands@, observations@, t1, t2, t3, ts)
                && records_logged(final(self).remediation.records@, old(self).remediation.records@, tick_records(
                old(self).state(), old(self).scheduler.config, old(self).agent.config.cooldown_s, dt_ms, spare_count as nat,
                bands@, observations@, t1, t2, t3, ts)),
    {
        let ghost s0 = self.state();
        let n = self.fleet.len();
        // 1. Health evaluation
        let mut i: usize = 0;
        while i < n
            invariant
                i <= n,
                n == self.fleet@.len(),
                bands@.len() == n,
                s0.fleet.len() == n,
                self.scheduler == old(self).scheduler,
                self.agent == old(self).agent,
                self.remediation == old(self).remediation,
                forall|j: int| 0 <= j < i ==> #[trigger] fleet_view(self.fleet@)[j] == evaluated(s0.fleet[j], bands@[j]),
                forall|j: int| i <= j < n ==> #[trigger] fleet_view(self.fleet@)[j] == s0.fleet[j],
            decreases n - i,
        {
            let ghost fb = fleet_view(self.fleet@);
            let ghost g0 = self.fleet@[i as int];
            assert(g0@ == fb[i as int]);
            assert(fb[i as int] == s0.fleet[i as int]);
            HealthEngine::evaluate_gpu(&mut self.fleet[i], &bands[i]);
            assert(self.fleet@[i as int]@ == evaluated(g0@, bands@[i as int]));
            assert(fleet_view(self.fleet@)[i as int] == self.fleet@[i as int]@);
            assert forall|j: int| 0 <= j < n && j != i implies #[trigger] fleet_view(self.fleet@)[j] == fb[j] by {}
            i = i + 1;
        }
        let ghost f1 = fleet_view(self.fleet@);
        assert(f1 =~= evaluate_all(s0.fleet, bands@));
        // 2. Scheduler clock and scheduling pass
        let t1 = read_clock();
        self.scheduler.step_scheduler_at(dt_ms, t1.millis);
        let ghost j1 = jobs_view(self.scheduler.jobs@);
        let t2 = read_clock();
        self.scheduler.schedule_pending_jobs_at(&mut self.fleet, spare_count, t2.millis);
        let ghost f2 = fleet_view(self.fleet@);
        let ghost j2 = jobs_view(self.scheduler.jobs@);
        proof {
            crate::scheduler::lemma_advance_keeps_migrations(s0.jobs, dt_ms, t1.millis, old(self).scheduler.config);
            crate::scheduler::lemma_schedule_shape(f1, j1, j1.len(), warm_spare_ids(f1, spare_count as nat), t2.millis);
            assert forall|k: int| 0 <= k < j2.len() implies #[trigger] j2[k].migrations_count + n <= u32::MAX by {
                assert(j2[k].migrations_count == j1[k].migrations_count);
                assert(j1[k].migrations_count == s0.jobs[k].migrations_count);
            }
        }
        // 3. The agent's loop
        let t3 = read_clock();
        self.agent.step_autonomous_agent_at(&mut self.fleet, observations, t3);
        let ghost f3 = fleet_view(self.fleet@);
        let ghost a3 = self.agent;
        assert((a3.model(), f3) == agent_upto(s0.agent, f2, observations@, f2.len(), t3, old(self).agent.config.cooldown_s));
        assert(f3.len() == n);
        // 4. Remediation of quarantined and critical GPUs
        let spares = self.scheduler.get_warm_spares(&self.fleet, spare_count);
        let degraded = degraded_gpu_ids(&self.fleet);
        let ghost ids = ids_of(degraded@);
        let ghost mut ts: Seq<i64> = Seq::empty();
        assert(self.remediation.records@.subrange(0, old(self).remediation.records@.len() as int)
            =~= old(self).remediation.records@);
        assert(ids.take(0) =~= Seq::<Seq<char>>::empty());
        let mut k: usize = 0;
        while k < degraded.len()
            invariant
                k <= degraded@.len(),
                degraded@.len() <= n,
                ids == ids_of(degraded@),
                ids == degraded_ids(f3, n as int),
                f3.len() == n,
                self.agent == a3,
                ts.len() == k,
                self.fleet@.len() == n,
                self.scheduler.config == old(self).scheduler.config,
                self.scheduler.job_counter == old(self).scheduler.job_counter,
                self.agent.config == old(self).agent.config,
                ids_of(spares@) == warm_spare_ids(f3, spare_count as nat),
                migrations_fit(jobs_view(self.scheduler.jobs@), (n - k) as nat),
                (fleet_view(self.fleet@), jobs_view(self.scheduler.jobs@)) == remediate_all(f3, j2, ids.take(k as int),
                    ids_of(spares@), ts),
                self.remediation.records@.len() <= old(self).remediation.records@.len() + k,
                self.remediation.records@.len() >= old(self).remediation.records@.len(),
                self.remediation.records@.subrange(0, old(self).remediation.records@.len() as int)
                    == old(self).remediation.records@,
                forall|r: int| old(self).remediation.records@.len() <= r < self.remediation.records@.len() ==>
                    (#[trigger] self.remediation.records@[r]).action@ == "EVICT_AND_FAILOVER"@,
                records_logged(self.remediation.records@, old(self).remediation.records@,
                    remediation_log(f3, j2, ids.take(k as int), ids_of(spares@), ts)),
            decreases degraded@.len() - k,
        {
            let t = read_clock();
            let ghost fb = fleet_view(self.fleet@);
            let ghost jb = jobs_view(self.scheduler.jobs@);
            let ghost rb = self.remediation.records@;
            proof {
                crate::remediation::lemma_first_running_job_from(jb, degraded@[k as int]@, 0);
            }
            self.remediation.remediate_job_gpu_at(degraded[k].as_str(), &mut self.fleet, &mut self.scheduler.jobs,
                &spares, t.millis);
            proof {
                let r0 = old(self).remediation.records@.len() as int;
                let ra = self.remediation.records@;
                if ra.len() > rb.len() {
                    assert(ra.drop_last() == rb);
                    assert(ra.subrange(0, r0) =~= rb.subrange(0, r0));
                    assert forall|r: int| r0 <= r < ra.len() implies (#[trigger] ra[r]).action@ == "EVICT_AND_FAILOVER"@ by {
                        if r < rb.len() {
                            assert(ra[r] == rb[r]);
                        }
                    }
                }
                lemma_remediate_shape(fb, jb, degraded@[k as int]@, ids_of(spares@), t.millis);
                let before_log = remediation_log(f3, j2, ids.take(k as int), ids_of(spares@), ts);
                let ts_next = ts.push(t.millis);
                assert(ids.take((k + 1) as int).drop_last() =~= ids.take(k as int));
                assert(ts_next.take(k as int) =~= ts);
                assert(ids.take((k + 1) as int).last() == degraded@[k as int]@);
                let after_log = remediation_log(f3, j2, ids.take((k + 1) as int), ids_of(spares@), ts_next);
                let r0 = old(self).remediation.records@.len() as int;
                let ra = self.remediation.records@;
                if ra.len() > rb.len() {
                    assert(after_log == before_log.push((degraded@[k as int]@,
                        jb[crate::remediation::first_running_job(jb, degraded@[k as int]@)].id,
                        remediate(fb, jb, degraded@[k as int]@, ids_of(spares@), t.millis).2, t.millis)));
                    assert forall|i: int| 0 <= i < after_log.len() implies crate::remediation::eviction_record(
                        #[trigger] ra[r0 + i], after_log[i].0, after_log[i].1, after_log[i].2, after_log[i].3) by {
                        if i < before_log.len() {
                            assert(ra[r0 + i] == rb[r0 + i]);
                        }
                    }
                } else {
                    assert(after_log == before_log);
                }
                assert(ids.take((k + 1) as int).drop_last() =~= ids.take(k as int));
                let ts2 = ts.push(t.millis);
                assert(ts2.take(k as int) =~= ts);
                ts = ts2;
            }
            k = k + 1;
        }
        proof {
            assert(ids.take(ids.len() as int) =~= ids);
        }
        assert(self.state() == tick_outcome(s0, old(self).scheduler.config, old(self).agent.config.cooldown_s, dt_ms,
            spare_count as nat, bands@, observations@, t1.millis, t2.millis, t3, ts));
        proof {
            let cfg = old(self).scheduler.config;
            let cd = old(self).agent.config.cooldown_s;
            law_tick_keeps_quarantine(s0, cfg, cd, dt_ms, spare_count as nat, bands@, observations@, t1.millis, t2.millis, t3, ts);
            law_tick_status_follows_bands(s0, cfg, cd, dt_ms, spare_count as nat, bands@, observations@, t1.millis,
                t2.millis, t3, ts);
            if allocation_consistent(s0.fleet, s0.jobs) {
                assert(tick_failed_gpus(s0, cfg, cd, dt_ms, spare_count as nat, bands@, observations@, t1.millis,
                    t2.millis, t3) == ids);
                law_tick_clears_failed_gpus_from_running_jobs(s0, cfg, cd, dt_ms, spare_count as nat, bands@, observations@,
                    t1.millis, t2.millis, t3, ts);
            }
            assert forall|p: int| 0 <= p < old(self).fleet@.len() implies {
                &&& (#[trigger] self.fleet@[p]).id@ == old(self).fleet@[p].id@
                &&& (old(self).fleet@[p].status == GpuStatus::Quarantined ==> self.fleet@[p].status == GpuStatus::Quarantined)
                &&& (self.fleet@[p].status == status_for(bands@[p]) || self.fleet@[p].status == GpuStatus::Quarantined)
            } by {
                let out = tick_outcome(s0, cfg, cd, dt_ms, spare_count as nat, bands@, observations@, t1.millis,
                    t2.millis, t3, ts);
                assert(out.fleet == fleet_view(self.fleet@));
                assert(out.fleet[p] == self.fleet@[p]@);
                assert(s0.fleet.len() == old(self).fleet@.len());
                assert(s0.fleet[p] == old(self).fleet@[p]@);
                assert(out.fleet[p].id == s0.fleet[p].id);
                assert(out.fleet[p].status == status_for(bands@[p]) || out.fleet[p].status == GpuStatus::Quarantined);
            }
        }
    }
}

} // verus!

verus! {

proof fn lemma_remediate_keeps_quarantine(fleet: Seq<GpuView>, jobs: Seq<JobView>, ids: Seq<Seq<char>>,
    spares: Seq<Seq<char>>, ts: Seq<i64>)
    ensures
        remediate_all(fleet, jobs, ids, spares, ts).0.len() == fleet.len(),
        forall|p: int| 0 <= p < fleet.len() ==> (#[trigger] remediate_all(fleet, jobs, ids, spares, ts).0[p]).id == fleet[p].id,
        forall|p: int| 0 <= p < fleet.len() && fleet[p].status == GpuStatus::Quarantined
            ==> (#[trigger] remediate_all(fleet, jobs, ids, spares, ts).0[p]).status == GpuStatus::Quarantined,
        forall|p: int| 0 <= p < fleet.len() ==> (#[trigger] remediate_all(fleet, jobs, ids, spares, ts).0[p]).status
            == fleet[p].status || remediate_all(fleet, jobs, ids, spares, ts).0[p].status == GpuStatus::Quarantined,
    decreases ids.len(),
{
    if ids.len() > 0 && ts.len() >= ids.len() {
        lemma_remediate_keeps_quarantine(fleet, jobs, ids.drop_last(), spares, ts.take(ids.len() - 1));
        let (f, j) = remediate_all(fleet, jobs, ids.drop_last(), spares, ts.take(ids.len() - 1));
        let id = ids.last();
        crate::lookup::lemma_first_index_from(f, id, 0);
        let f1 = crate::remediation::evict_gpu(f, id);
        if spares.len() > 0 {
            crate::lookup::lemma_first_index_from(f1, spares[0], 0);
        }
    }
}

/// A tick never lifts a quarantine: the health evaluation, the scheduler, the agent and the
/// remediation controller may quarantine GPUs, but only returning a GPU to service (outside
/// the tick) releases one. The fleet keeps its size and every GPU its id.
pub proof fn law_tick_keeps_quarantine<S>(s: FleetState<S>, cfg: SchedulerConfig, cooldown_s: i64, dt_ms: u64,
    spare_count: nat, bands: Seq<ScoreBands>, obs: Seq<AgentObservation<S>>, t1: i64, t2: i64, t3: WallClock,
    ts: Seq<i64>)
    requires
        bands.len() == s.fleet.len(),
        obs.len() == s.fleet.len(),
    ensures
        ({
            let out = tick_outcome(s, cfg, cooldown_s, dt_ms, spare_count, bands, obs, t1, t2, t3, ts);
            &&& out.fleet.len() == s.fleet.len()
            &&& forall|p: int| 0 <= p < s.fleet.len() ==> (#[trigger] out.fleet[p]).id == s.fleet[p].id
            &&& forall|p: int| 0 <= p < s.fleet.len() && s.fleet[p].status == GpuStatus::Quarantined
                ==> (#[trigger] out.fleet[p]).status == GpuStatus::Quarantined
        }),
{
    let f1 = evaluate_all(s.fleet, bands);
    let j1 = advance_all(s.jobs, dt_ms, t1, cfg);
    let sp = warm_spare_ids(f1, spare_count);
    crate::scheduler::lemma_schedule_keeps_status(f1, j1, j1.len(), sp, t2);
    let (f2, j2) = schedule_all(f1, j1, spare_count, t2);
    crate::agent::law_agent_keeps_quarantine(s.agent, f2, obs, f2.len(), t3, cooldown_s);
    let (a3, f3) = agent_upto(s.agent, f2, obs, f2.len(), t3, cooldown_s);
    lemma_remediate_keeps_quarantine(f3, j2, degraded_ids(f3, f3.len() as int), warm_spare_ids(f3, spare_count), ts);
    let out = tick_outcome(s, cfg, cooldown_s, dt_ms, spare_count, bands, obs, t1, t2, t3, ts);
    assert forall|p: int| 0 <= p < s.fleet.len() && s.fleet[p].status == GpuStatus::Quarantined
        implies (#[trigger] out.fleet[p]).status == GpuStatus::Quarantined by {
        assert(f1[p].status == GpuStatus::Quarantined);
        assert(f2[p].status == GpuStatus::Quarantined);
        assert(f3[p].status == GpuStatus::Quarantined);
    }
    assert forall|p: int| 0 <= p < s.fleet.len() implies (#[trigger] out.fleet[p]).id == s.fleet[p].id by {
        assert(f1[p].id == s.fleet[p].id);
        assert(f2[p].id == f1[p].id);
        assert(f3[p].id == f2[p].id);
    }
}


/// After a tick, every GPU has the status its health bands give it, unless it is quarantined:
/// the scheduler leaves statuses alone, and the agent and the remediation controller change a
/// status only to quarantine a GPU.
pub proof fn law_tick_status_follows_bands<S>(s: FleetState<S>, cfg: SchedulerConfig, cooldown_s: i64, dt_ms: u64,
    spare_count: nat, bands: Seq<ScoreBands>, obs: Seq<AgentObservation<S>>, t1: i64, t2: i64, t3: WallClock,
    ts: Seq<i64>)
    requires
        bands.len() == s.fleet.len(),
        obs.len() == s.fleet.len(),
    ensures
        ({
            let out = tick_outcome(s, cfg, cooldown_s, dt_ms, spare_count, bands, obs, t1, t2, t3, ts);
            forall|p: int| 0 <= p < s.fleet.len() ==> (#[trigger] out.fleet[p]).status == status_for(bands[p])
                || out.fleet[p].status == GpuStatus::Quarantined
        }),
{
    let f1 = evaluate_all(s.fleet, bands);
    let j1 = advance_all(s.jobs, dt_ms, t1, cfg);
    let sp = warm_spare_ids(f1, spare_count);
    crate::scheduler::lemma_schedule_keeps_status(f1, j1, j1.len(), sp, t2);
    let (f2, j2) = schedule_all(f1, j1, spare_count, t2);
    crate::agent::law_agent_acts_only_on_rule_match(s.agent, f2, obs, f2.len(), t3, cooldown_s);
    let (a3, f3) = agent_upto(s.agent, f2, obs, f2.len(), t3, cooldown_s);
    lemma_remediate_keeps_quarantine(f3, j2, degraded_ids(f3, f3.len() as int), warm_spare_ids(f3, spare_count), ts);
    let out = tick_outcome(s, cfg, cooldown_s, dt_ms, spare_count, bands, obs, t1, t2, t3, ts);
    assert forall|p: int| 0 <= p < s.fleet.len() implies (#[trigger] out.fleet[p]).status == status_for(bands[p])
        || out.fleet[p].status == GpuStatus::Quarantined by {
        assert(f1[p] == evaluated(s.fleet[p], bands[p]));
        assert(f2[p].status == f1[p].status);
        assert(f3[p].status == f2[p].status || f3[p].status == GpuStatus::Quarantined);
    }
}


/// At most one job lists GPU `x`.
pub open spec fn listed_once(js: Seq<JobView>, x: Seq<char>) -> bool {
    forall|a: int, b: int| 0 <= a < js.len() && 0 <= b < js.len() && #[trigger] js[a].gpu_ids.contains(x)
        && #[trigger] js[b].gpu_ids.contains(x) ==> a == b
}

/// No running job lists GPU `x`.
pub open spec fn no_running_job_lists(js: Seq<JobView>, x: Seq<char>) -> bool {
    forall|k: int| 0 <= k < js.len() && (#[trigger] js[k]).status == JobStatus::Running ==> !js[k].gpu_ids.contains(x)
}

proof fn lemma_without(ids: Seq<Seq<char>>, x: Seq<char>)
    ensures
        !crate::remediation::without(ids, x).contains(x),
        forall|y: Seq<char>| #[trigger] crate::remediation::without(ids, x).contains(y) ==> ids.contains(y),
    decreases ids.len(),
{
    if ids.len() > 0 {
        lemma_without(ids.drop_last(), x);
        let r = crate::remediation::without(ids.drop_last(), x);
        let w = crate::remediation::without(ids, x);
        assert forall|y: Seq<char>| #[trigger] w.contains(y) implies ids.contains(y) by {
            let q = choose|q: int| 0 <= q < w.len() && w[q] == y;
            if q < r.len() {
                assert(r[q] == y);
                assert(r.contains(y));
                let q2 = choose|q2: int| 0 <= q2 < ids.drop_last().len() && ids.drop_last()[q2] == y;
                assert(ids[q2] == y);
            } else {
                assert(ids[ids.len() - 1] == y);
            }
        }
        if w.contains(x) {
            let q = choose|q: int| 0 <= q < w.len() && w[q] == x;
            if q < r.len() {
                assert(r[q] == x);
            }
        }
    }
}

/// Remediating the GPUs of `ids` in turn leaves no running job listing any of them, given that
/// each GPU of `all` (which holds `ids`) is listed by at most one job and that the spare handed
/// over is none of them; every GPU keeps its status unless it is one of `ids`.
proof fn lemma_remediate_all_clears(fleet: Seq<GpuView>, jobs: Seq<JobView>, ids: Seq<Seq<char>>,
    all: Seq<Seq<char>>, spares: Seq<Seq<char>>, ts: Seq<i64>)
    requires
        ts.len() >= ids.len(),
        forall|x: Seq<char>| #[trigger] ids.contains(x) ==> all.contains(x),
        forall|x: Seq<char>| #[trigger] all.contains(x) ==> listed_once(jobs, x),
        spares.len() > 0 ==> !all.contains(spares[0]),
    ensures
        ({
            let (f, j) = remediate_all(fleet, jobs, ids, spares, ts);
            &&& f.len() == fleet.len()
            &&& j.len() == jobs.len()
            &&& forall|x: Seq<char>| #[trigger] all.contains(x) ==> listed_once(j, x)
            &&& forall|x: Seq<char>| #[trigger] ids.contains(x) ==> no_running_job_lists(j, x)
            &&& forall|p: int| 0 <= p < fleet.len() ==> (#[trigger] f[p]).id == fleet[p].id
                && (f[p].status == fleet[p].status || ids.contains(fleet[p].id))
        }),
    decreases ids.len(),
{
    lemma_remediate_keeps_quarantine(fleet, jobs, ids, spares, ts);
    if ids.len() > 0 {
        let pre = ids.drop_last();
        let tp = ts.take(ids.len() - 1);
        assert forall|x: Seq<char>| #[trigger] pre.contains(x) implies all.contains(x) by {
            let q = choose|q: int| 0 <= q < pre.len() && pre[q] == x;
            assert(ids[q] == x);
            assert(ids.contains(x));
        }
        lemma_remediate_all_clears(fleet, jobs, pre, all, spares, tp);
        lemma_remediate_keeps_quarantine(fleet, jobs, pre, spares, tp);
        let (f, j) = remediate_all(fleet, jobs, pre, spares, tp);
        let x = ids.last();
        let t = ts[ids.len() - 1];
        assert(ids.contains(x));
        assert(all.contains(x));
        crate::remediation::lemma_first_running_job_from(j, x, 0);
        crate::lookup::lemma_first_index_from(f, x, 0);
        let k = crate::remediation::first_running_job(j, x);
        let r = remediate(f, j, x, spares, t);
        assert forall|y: Seq<char>| #[trigger] ids.contains(y) implies (pre.contains(y) || y == x) by {
            let q = choose|q: int| 0 <= q < ids.len() && ids[q] == y;
            if q < pre.len() {
                assert(pre[q] == y);
            }
        }
        assert forall|y: Seq<char>| #[trigger] pre.contains(y) implies ids.contains(y) by {
            let q = choose|q: int| 0 <= q < pre.len() && pre[q] == y;
            assert(ids[q] == y);
        }
        if k >= 0 {
            let job = j[k];
            lemma_without(job.gpu_ids, x);
            let j2 = r.1;
            let f1 = crate::remediation::evict_gpu(f, x);
            if spares.len() > 0 {
                crate::lookup::lemma_first_index_from(f1, spares[0], 0);
            }
            assert(j2.len() == j.len());
            assert(j2[k].status != JobStatus::Running);
            assert forall|y: Seq<char>| #[trigger] j2[k].gpu_ids.contains(y) && all.contains(y) implies job.gpu_ids.contains(y) by {
                let w = crate::remediation::without(job.gpu_ids, x);
                if spares.len() > 0 && j2[k].gpu_ids.len() > w.len() {
                    let q = choose|q: int| 0 <= q < j2[k].gpu_ids.len() && j2[k].gpu_ids[q] == y;
                    if q < w.len() {
                        assert(w[q] == y);
                        assert(w.contains(y));
                    } else {
                        assert(y == spares[0]);
                    }
                } else {
                    assert(w.contains(y));
                }
            }
            assert forall|y: Seq<char>| #[trigger] all.contains(y) implies listed_once(j2, y) by {
                assert forall|a: int, b: int| 0 <= a < j2.len() && 0 <= b < j2.len() && #[trigger] j2[a].gpu_ids.contains(y)
                    && #[trigger] j2[b].gpu_ids.contains(y) implies a == b by {
                    assert(j[a].gpu_ids.contains(y));
                    assert(j[b].gpu_ids.contains(y));
                }
            }
            assert forall|y: Seq<char>| #[trigger] ids.contains(y) implies no_running_job_lists(j2, y) by {
                assert forall|q: int| 0 <= q < j2.len() && (#[trigger] j2[q]).status == JobStatus::Running
                    implies !j2[q].gpu_ids.contains(y) by {
                    assert(q != k);
                    assert(j2[q] == j[q]);
                    if y == x {
                        assert(j[k].gpu_ids.contains(x));
                        if j[q].gpu_ids.contains(x) {
                            assert(listed_once(j, x));
                        }
                    }
                }
            }
        } else {
            assert forall|y: Seq<char>| #[trigger] ids.contains(y) implies no_running_job_lists(j, y) by {
                if y == x {
                    assert forall|q: int| 0 <= q < j.len() && (#[trigger] j[q]).status == JobStatus::Running
                        implies !j[q].gpu_ids.contains(y) by {
                        assert(!crate::remediation::holds_running(j[q], x));
                    }
                }
            }
        }
    }
}


proof fn lemma_degraded_ids(f: Seq<GpuView>, n: int)
    requires
        0 <= n <= f.len(),
    ensures
        degraded_ids(f, n).len() <= n,
        forall|p: int| 0 <= p < n && (f[p].status == GpuStatus::Quarantined || f[p].status == GpuStatus::Critical)
            ==> #[trigger] degraded_ids(f, n).contains(f[p].id),
        forall|x: Seq<char>| #[trigger] degraded_ids(f, n).contains(x) ==> exists|p: int| 0 <= p < n && f[p].id == x
            && (f[p].status == GpuStatus::Quarantined || f[p].status == GpuStatus::Critical),
    decreases n,
{
    if n > 0 {
        lemma_degraded_ids(f, n - 1);
        let r = degraded_ids(f, n - 1);
        let d = degraded_ids(f, n);
        assert forall|p: int| 0 <= p < n && (f[p].status == GpuStatus::Quarantined || f[p].status == GpuStatus::Critical)
            implies #[trigger] d.contains(f[p].id) by {
            if p < n - 1 {
                assert(degraded_ids(f, n - 1).contains(f[p].id));
                let w = choose|w: int| 0 <= w < r.len() && r[w] == f[p].id;
                assert(d[w] == f[p].id);
            } else {
                assert(d[d.len() - 1] == f[p].id);
            }
        }
        assert forall|x: Seq<char>| #[trigger] d.contains(x) implies exists|p: int| 0 <= p < n && f[p].id == x
            && (f[p].status == GpuStatus::Quarantined || f[p].status == GpuStatus::Critical) by {
            let w = choose|w: int| 0 <= w < d.len() && d[w] == x;
            if w < r.len() {
                assert(r[w] == x);
                assert(r.contains(x));
            } else {
                assert(f[n - 1].id == x);
            }
        }
    }
}

/// GPUs and jobs are in a consistent allocation state: distinct GPU ids and job ids, each GPU
/// naming a job exactly when that job lists it, and queued jobs holding nothing.
pub open spec fn allocation_consistent(f: Seq<GpuView>, js: Seq<JobView>) -> bool {
    &&& crate::scheduler::unique_ids(f)
    &&& crate::scheduler::unique_job_ids(js)
    &&& crate::scheduler::allocations_agree(f, js)
    &&& crate::scheduler::queued_hold_nothing(js)
}

/// The GPUs the remediation stage of a tick handles: those quarantined or critical after the
/// agent's loop (see [`tick_outcome`]).
pub open spec fn tick_failed_gpus<S>(s: FleetState<S>, cfg: SchedulerConfig, cooldown_s: i64, dt_ms: u64,
    spare_count: nat, bands: Seq<ScoreBands>, obs: Seq<AgentObservation<S>>, t1: i64, t2: i64, t3: WallClock)
    -> Seq<Seq<char>> {
    let f1 = evaluate_all(s.fleet, bands);
    let j1 = advance_all(s.jobs, dt_ms, t1, cfg);
    let (f2, j2) = schedule_all(f1, j1, spare_count, t2);
    let (a3, f3) = agent_upto(s.agent, f2, obs, f2.len(), t3, cooldown_s);
    degraded_ids(f3, f3.len() as int)
}

/// After a tick no running job lists a quarantined or critical GPU: each such GPU was evicted
/// from the job running on it, which then migrates to a warm spare or pauses. Stated for a
/// consistent allocation state (see [`allocation_consistent`]), and for a remediation stage
/// that handled every failed GPU (one time reading each).
pub proof fn law_tick_clears_failed_gpus_from_running_jobs<S>(s: FleetState<S>, cfg: SchedulerConfig, cooldown_s: i64,
    dt_ms: u64, spare_count: nat, bands: Seq<ScoreBands>, obs: Seq<AgentObservation<S>>, t1: i64, t2: i64,
    t3: WallClock, ts: Seq<i64>)
    requires
        bands.len() == s.fleet.len(),
        obs.len() == s.fleet.len(),
        allocation_consistent(s.fleet, s.jobs),
        ts.len() >= tick_failed_gpus(s, cfg, cooldown_s, dt_ms, spare_count, bands, obs, t1, t2, t3).len(),
    ensures
        ({
            let out = tick_outcome(s, cfg, cooldown_s, dt_ms, spare_count, bands, obs, t1, t2, t3, ts);
            forall|k: int, p: int| 0 <= k < out.jobs.len() && 0 <= p < out.fleet.len()
                && (#[trigger] out.jobs[k]).status == JobStatus::Running && out.jobs[k].gpu_ids.contains((#[trigger] out.fleet[p]).id)
                ==> out.fleet[p].status != GpuStatus::Quarantined && out.fleet[p].status != GpuStatus::Critical
        }),
{
    let f0 = s.fleet;
    let f1 = evaluate_all(f0, bands);
    let j1 = advance_all(s.jobs, dt_ms, t1, cfg);
    assert(crate::scheduler::unique_ids(f1)) by {
        assert forall|a: int, b: int| 0 <= a < f1.len() && 0 <= b < f1.len() && a != b implies f1[a].id != f1[b].id by {
            assert(f1[a].id == f0[a].id && f1[b].id == f0[b].id);
        }
    }
    assert(crate::scheduler::unique_job_ids(j1)) by {
        assert forall|a: int, b: int| 0 <= a < j1.len() && 0 <= b < j1.len() && a != b implies j1[a].id != j1[b].id by {
            assert(j1[a].id == s.jobs[a].id && j1[b].id == s.jobs[b].id);
        }
    }
    assert(crate::scheduler::allocations_agree(f1, j1)) by {
        assert forall|p: int, k: int| 0 <= p < f1.len() && 0 <= k < j1.len() implies
            (#[trigger] f1[p].allocated_job_id == Some(#[trigger] j1[k].id) <==> j1[k].gpu_ids.contains(f1[p].id)) by {
            assert(f1[p].allocated_job_id == f0[p].allocated_job_id && f1[p].id == f0[p].id);
            assert(j1[k].id == s.jobs[k].id && j1[k].gpu_ids == s.jobs[k].gpu_ids);
            assert(f0[p].allocated_job_id == Some(s.jobs[k].id) <==> s.jobs[k].gpu_ids.contains(f0[p].id));
        }
    }
    assert(crate::scheduler::queued_hold_nothing(j1)) by {
        assert forall|k: int| 0 <= k < j1.len() && (#[trigger] j1[k]).status == JobStatus::Queued implies j1[k].gpu_ids.len() == 0 by {
            assert(s.jobs[k].status == JobStatus::Queued);
        }
    }
    crate::scheduler::law_schedule_keeps_allocations_agreed(f1, j1, spare_count, t2);
    crate::scheduler::law_gang_all_or_nothing(f1, j1, spare_count, t2);
    let sp1 = warm_spare_ids(f1, spare_count);
    crate::scheduler::lemma_schedule_keeps_status(f1, j1, j1.len(), sp1, t2);
    let (f2, j2) = schedule_all(f1, j1, spare_count, t2);
    crate::agent::law_agent_acts_only_on_rule_match(s.agent, f2, obs, f2.len(), t3, cooldown_s);
    let (a3, f3) = agent_upto(s.agent, f2, obs, f2.len(), t3, cooldown_s);
    let n = f3.len() as int;
    let ids = degraded_ids(f3, n);
    lemma_degraded_ids(f3, n);
    assert(crate::scheduler::unique_ids(f3)) by {
        assert forall|a: int, b: int| 0 <= a < f3.len() && 0 <= b < f3.len() && a != b implies f3[a].id != f3[b].id by {
            assert(f3[a].id == f2[a].id && f2[a].id == f1[a].id);
            assert(f3[b].id == f2[b].id && f2[b].id == f1[b].id);
        }
    }
    assert forall|x: Seq<char>| #[trigger] ids.contains(x) implies listed_once(j2, x) by {
        let p = choose|p: int| 0 <= p < n && f3[p].id == x
            && (f3[p].status == GpuStatus::Quarantined || f3[p].status == GpuStatus::Critical);
        assert forall|a: int, b: int| 0 <= a < j2.len() && 0 <= b < j2.len() && #[trigger] j2[a].gpu_ids.contains(x)
            && #[trigger] j2[b].gpu_ids.contains(x) implies a == b by {
            assert(f3[p].id == f2[p].id && f3[p].allocated_job_id == f2[p].allocated_job_id);
            assert(f2[p].allocated_job_id == Some(j2[a].id) <==> j2[a].gpu_ids.contains(f2[p].id));
            assert(f2[p].allocated_job_id == Some(j2[b].id) <==> j2[b].gpu_ids.contains(f2[p].id));
            if a != b {
                assert(crate::scheduler::gang_turn(j1[a], j2[a], t2));
                assert(crate::scheduler::gang_turn(j1[b], j2[b], t2));
                assert(j2[a].id != j2[b].id);
            }
        }
    }
    let spares = warm_spare_ids(f3, spare_count);
    crate::scheduler::lemma_spares_available(f3, f3.len() as int, spare_count);
    if spares.len() > 0 {
        assert(spares.contains(spares[0]));
        if ids.contains(spares[0]) {
            let q = choose|q: int| 0 <= q < f3.len() && f3[q].id == spares[0] && crate::types::available_for_workload(f3[q]);
            let p = choose|p: int| 0 <= p < n && f3[p].id == spares[0]
                && (f3[p].status == GpuStatus::Quarantined || f3[p].status == GpuStatus::Critical);
            assert(p == q);
        }
    }
    lemma_remediate_all_clears(f3, j2, ids, ids, spares, ts);
    let out = tick_outcome(s, cfg, cooldown_s, dt_ms, spare_count, bands, obs, t1, t2, t3, ts);
    assert forall|k: int, p: int| 0 <= k < out.jobs.len() && 0 <= p < out.fleet.len()
        && (#[trigger] out.jobs[k]).status == JobStatus::Running && out.jobs[k].gpu_ids.contains((#[trigger] out.fleet[p]).id)
        implies out.fleet[p].status != GpuStatus::Quarantined && out.fleet[p].status != GpuStatus::Critical by {
        if out.fleet[p].status == GpuStatus::Quarantined || out.fleet[p].status == GpuStatus::Critical {
            assert(out.fleet[p].id == f3[p].id);
            assert(ids.contains(f3[p].id));
            assert(no_running_job_lists(out.jobs, f3[p].id));
        }
    }
}

} // verus!
