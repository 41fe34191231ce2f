//! The gang scheduler: job submission, warm-spare reservation, allocation of
//! healthy GPUs to queued jobs, and the checkpoint / migration clock.

use vstd::prelude::*;
use crate::clock::read_clock;
use crate::lookup::{first_index, find_gpu, contains_id, lemma_first_index_from, lemma_first_index_same_ids};
use crate::text::{format_padded, padded_id};
use crate::types::{
    Gpu, GpuView, GpuStatus, Job, JobView, JobType, JobStatus, fleet_view, jobs_view, ids_of,
    available_for_workload, fresh_job,
};

verus! {

/// Scheduler settings. Durations are in milliseconds.
#[derive(Clone, Copy, Debug)]
pub struct SchedulerConfig {
    pub max_concurrent_jobs: usize,
    pub default_gpus_per_job: usize,
    pub auto_generate_jobs: bool,
    pub migration_time_ms: u64,
    pub checkpoint_interval_ms: u64,
}

pub struct SchedulerEngine {
    pub config: SchedulerConfig,
    pub jobs: Vec<Job>,
    pub job_counter: usize,
}

// ---------------------------------------------------------------------------
// Warm spares

/// The ids of the last `k` GPUs, among the first `i` of the fleet, that are available for a
/// workload, latest first.
pub open spec fn spares_below(fleet: Seq<GpuView>, i: int, k: nat) -> Seq<Seq<char>>
    decreases i,
{
    if i <= 0 || k == 0 || i > fleet.len() {
        Seq::empty()
    } else if available_for_workload(fleet[i - 1]) {
        seq![fleet[i - 1].id] + spares_below(fleet, i - 1, (k - 1) as nat)
    } else {
        spares_below(fleet, i - 1, k)
    }
}

/// The warm-spare pool: the `k` available GPUs nearest the end of the fleet, latest first.
pub open spec fn warm_spare_ids(fleet: Seq<GpuView>, k: nat) -> Seq<Seq<char>> {
    spares_below(fleet, fleet.len() as int, k)
}

// ---------------------------------------------------------------------------
// Allocation

/// A GPU can be given to a queued job: it is available and not held back as a warm spare.
pub open spec fn schedulable(g: GpuView, spares: Seq<Seq<char>>) -> bool {
    available_for_workload(g) && !spares.contains(g.id)
}

/// A GPU a job may take when the job is kept to `node` (if given): schedulable, and on that node.
pub open spec fn eligible(g: GpuView, spares: Seq<Seq<char>>, node: Option<Seq<char>>) -> bool {
    schedulable(g, spares) && (node matches Some(n) ==> g.node_id == n)
}

/// The ids of the first `k` eligible GPUs at or after position `i`, in fleet order.
pub open spec fn pick_from(fleet: Seq<GpuView>, i: int, k: nat, spares: Seq<Seq<char>>, node: Option<Seq<char>>)
    -> Seq<Seq<char>>
    decreases fleet.len() - i,
{
    if i < 0 || i >= fleet.len() || k == 0 {
        Seq::empty()
    } else if eligible(fleet[i], spares, node) {
        seq![fleet[i].id] + pick_from(fleet, i + 1, (k - 1) as nat, spares, node)
    } else {
        pick_from(fleet, i + 1, k, spares, node)
    }
}

/// How many schedulable GPUs at or after position `i` sit on node `node`.
pub open spec fn node_room(fleet: Seq<GpuView>, i: int, node: Seq<char>, spares: Seq<Seq<char>>) -> nat
    decreases fleet.len() - i,
{
    if i < 0 || i >= fleet.len() {
        0
    } else {
        (if eligible(fleet[i], spares, Some(node)) { 1nat } else { 0nat }) + node_room(fleet, i + 1, node, spares)
    }
}

/// The node of the first schedulable GPU at or after position `i` whose node alone has `k`
/// schedulable GPUs, if there is one.
pub open spec fn roomy_node_from(fleet: Seq<GpuView>, i: int, k: nat, spares: Seq<Seq<char>>) -> Option<Seq<char>>
    decreases fleet.len() - i,
{
    if i < 0 || i >= fleet.len() {
        None
    } else if schedulable(fleet[i], spares) && node_room(fleet, 0, fleet[i].node_id, spares) >= k {
        Some(fleet[i].node_id)
    } else {
        roomy_node_from(fleet, i + 1, k, spares)
    }
}

/// The GPUs a job of `k` GPUs is offered, with locality: when one node can hold the whole job,
/// the first `k` schedulable GPUs of the first such node (in fleet order); otherwise the first
/// `k` schedulable GPUs of the fleet.
pub open spec fn pick_for_job(fleet: Seq<GpuView>, k: nat, spares: Seq<Seq<char>>) -> Seq<Seq<char>> {
    pick_from(fleet, 0, k, spares, roomy_node_from(fleet, 0, k, spares))
}

/// Marks the first GPU named `id` as held by `job`.
pub open spec fn allocate_one(fleet: Seq<GpuView>, id: Seq<char>, job: Seq<char>) -> Seq<GpuView> {
    let k = first_index(fleet, id);
    if k >= 0 {
        fleet.update(k, GpuView { allocated_job_id: Some(job), ..fleet[k] })
    } else {
        fleet
    }
}

/// Marks, id after id, the first GPU of each name as held by `job`.
pub open spec fn allocate_all(fleet: Seq<GpuView>, ids: Seq<Seq<char>>, job: Seq<char>) -> Seq<GpuView>
    decreases ids.len(),
{
    if ids.len() == 0 {
        fleet
    } else {
        allocate_one(allocate_all(fleet, ids.drop_last(), job), ids.last(), job)
    }
}

/// A queued job that received its GPUs.
pub open spec fn start_job(job: JobView, gpus: Seq<Seq<char>>, now_ms: i64) -> JobView {
    JobView { gpu_ids: gpus, status: JobStatus::Running, started_at_ms: Some(now_ms), ..job }
}

/// Fleet and jobs after the first `n` jobs had their turn, in job order: a queued job starts
/// when it is offered `gpu_count` GPUs (see [`pick_for_job`]), and takes them.
pub open spec fn schedule_upto(
    fleet: Seq<GpuView>,
    jobs: Seq<JobView>,
    n: nat,
    spares: Seq<Seq<char>>,
    now_ms: i64,
) -> (Seq<GpuView>, Seq<JobView>)
    decreases n,
{
    if n == 0 || n > jobs.len() {
        (fleet, jobs)
    } else {
        let (f, js) = schedule_upto(fleet, jobs, (n - 1) as nat, spares, now_ms);
        let job = js[n - 1];
        if job.status != JobStatus::Queued {
            (f, js)
        } else {
            let picked = pick_for_job(f, job.gpu_count as nat, spares);
            if picked.len() == job.gpu_count {
                (allocate_all(f, picked, job.id), js.update(n - 1, start_job(job, picked, now_ms)))
            } else {
                (f, js)
            }
        }
    }
}

/// One pass over all jobs, with the warm-spare pool of `spare_count` reserved from the fleet
/// as it was before the pass.
pub open spec fn schedule_all(fleet: Seq<GpuView>, jobs: Seq<JobView>, spare_count: nat, now_ms: i64)
    -> (Seq<GpuView>, Seq<JobView>) {
    schedule_upto(fleet, jobs, jobs.len(), warm_spare_ids(fleet, spare_count), now_ms)
}

// ---------------------------------------------------------------------------
// Checkpoint and migration clock

/// One scheduler tick for one job: running jobs age towards their next checkpoint; a migrating
/// job whose migration has lasted `migration_time_ms` resumes from its last checkpoint.
pub open spec fn advance_job(j: JobView, dt_ms: u64, now_ms: i64, cfg: SchedulerConfig) -> JobView {
    match j.status {
        JobStatus::Running => {
            let age = j.checkpoint_age_ms + dt_ms;
            if age >= cfg.checkpoint_interval_ms {
                JobView { checkpoint_age_ms: 0, ..j }
            } else {
                JobView { checkpoint_age_ms: age as u64, ..j }
            }
        },
        JobStatus::Migrating => match j.migration_started_at_ms {
            Some(started) => if now_ms - started >= cfg.migration_time_ms {
                JobView {
                    status: JobStatus::Running,
                    migration_started_at_ms: None,
                    checkpoint_age_ms: 0,
                    ..j
                }
            } else {
                j
            },
            None => j,
        },
        _ => j,
    }
}

/// One scheduler tick for every job.
pub open spec fn advance_all(jobs: Seq<JobView>, dt_ms: u64, now_ms: i64, cfg: SchedulerConfig) -> Seq<JobView> {
    jobs.map_values(|j: JobView| advance_job(j, dt_ms, now_ms, cfg))
}

/// Every job's checkpoint age can grow by `dt_ms` without overflow.
pub open spec fn ages_fit(jobs: Seq<JobView>, dt_ms: u64) -> bool {
    forall|i: int| 0 <= i < jobs.len() ==> #[trigger] jobs[i].checkpoint_age_ms + dt_ms <= u64::MAX
}

// ---------------------------------------------------------------------------
// Proof helpers

proof fn lemma_ids_push(v: Seq<String>, s: String)
    ensures
        ids_of(v.push(s)) == ids_of(v).push(s@),
{
    assert(ids_of(v.push(s)) =~= ids_of(v).push(s@));
}

proof fn lemma_allocate_keeps_ids(fleet: Seq<GpuView>, ids: Seq<Seq<char>>, job: Seq<char>)
    ensures
        allocate_all(fleet, ids, job).len() == fleet.len(),
        forall|j: int| 0 <= j < fleet.len() ==> #[trigger] allocate_all(fleet, ids, job)[j].id == fleet[j].id,
    decreases ids.len(),
{
    if ids.len() > 0 {
        lemma_allocate_keeps_ids(fleet, ids.drop_last(), job);
        let prev = allocate_all(fleet, ids.drop_last(), job);
        lemma_first_index_from(prev, ids.last(), 0);
    }
}

impl SchedulerEngine {
    pub fn new(config: SchedulerConfig) -> (s: Self)
        ensures
            s.config == config,
            s.jobs@.len() == 0,
            s.job_counter == 0,
    {
        SchedulerEngine { config, jobs: Vec::new(), job_counter: 0 }
    }

    pub fn get_jobs(&self) -> (j: &Vec<Job>)
        ensures
            j == &self.jobs,
    {
        &self.jobs
    }

    /// Queues a new job named `job-NNNNN` after the running counter.
    pub fn submit_job(&mut self, job_type: JobType, priority: u32, gpu_count: usize) -> (id: String)
        requires
            old(self).job_counter < usize::MAX,
        ensures
            final(self).job_counter == old(self).job_counter + 1,
            final(self).config == old(self).config,
            id@ == padded_id("job-"@, final(self).job_counter as nat, 5),
            final(self).jobs@.len() == old(self).jobs@.len() + 1,
            final(self).jobs@.drop_last() == old(self).jobs@,
            fresh_job(final(self).jobs@.last(), id@, job_type, priority, gpu_count),
    {
        self.job_counter = self.job_counter + 1;
        let job_id = format_padded("job-", self.job_counter as u64, 5);
        let job = Job::new(job_id.clone(), job_type, priority, gpu_count);
        self.jobs.push(job);
        assert(self.jobs@.drop_last() =~= old(self).jobs@);
        job_id
    }

    /// The warm-spare pool: ids of the last `spare_count` available GPUs, latest first.
    pub fn get_warm_spares(&self, fleet: &Vec<Gpu>, spare_count: usize) -> (ids: Vec<String>)
        ensures
            ids_of(ids@) == warm_spare_ids(fleet_view(fleet@), spare_count as nat),
    {
        let ghost fv = fleet_view(fleet@);
        let mut res: Vec<String> = Vec::new();
        let mut i: usize = fleet.len();
        while i > 0 && res.len() < spare_count
            invariant
                i <= fleet@.len(),
                fv == fleet_view(fleet@),
                res@.len() <= spare_count,
                ids_of(res@) + spares_below(fv, i as int, (spare_count - res@.len()) as nat)
                    == spares_below(fv, fleet@.len() as int, spare_count as nat),
            decreases i,
        {
            let ghost before = res@;
            if fleet[i - 1].is_available_for_workload() {
                let id = fleet[i - 1].id.clone();
                res.push(id);
                proof {
                    lemma_ids_push(before, id);
                    assert(ids_of(res@) + spares_below(fv, (i - 1) as int, (spare_count - res@.len()) as nat)
                        =~= ids_of(before) + spares_below(fv, i as int, (spare_count - before.len()) as nat));
                }
            }
            i = i - 1;
        }
        assert(ids_of(res@) + Seq::<Seq<char>>::empty() =~= ids_of(res@));
        res
    }

    fn pick_gpus(fleet: &Vec<Gpu>, k: usize, spares: &Vec<String>, node: &Option<String>) -> (ids: Vec<String>)
        ensures
            ids_of(ids@) == pick_from(fleet_view(fleet@), 0, k as nat, ids_of(spares@), node.deep_view()),
    {
        let ghost fv = fleet_view(fleet@);
        let ghost sp = ids_of(spares@);
        let ghost nd = node.deep_view();
        let mut res: Vec<String> = Vec::new();
        let mut i: usize = 0;
        while i < fleet.len() && res.len() < k
            invariant
                i <= fleet@.len(),
                fv == fleet_view(fleet@),
                sp == ids_of(spares@),
                nd == node.deep_view(),
                res@.len() <= k,
                ids_of(res@) + pick_from(fv, i as int, (k - res@.len()) as nat, sp, nd) == pick_from(fv, 0, k as nat, sp, nd),
            decreases fleet@.len() - i,
        {
            let ghost before = res@;
            assert(fv[i as int] == fleet@[i as int]@);
            let on_node = match node {
                Some(n) => fleet[i].node_id == *n,
                None => true,
            };
            if on_node && fleet[i].is_available_for_workload() && !contains_id(spares, &fleet[i].id) {
                let id = fleet[i].id.clone();
                res.push(id);
                proof {
                    lemma_ids_push(before, id);
                    assert(ids_of(res@) + pick_from(fv, (i + 1) as int, (k - res@.len()) as nat, sp, nd)
                        =~= ids_of(before) + pick_from(fv, i as int, (k - before.len()) as nat, sp, nd));
                }
            }
            i = i + 1;
        }
        assert(ids_of(res@) + Seq::<Seq<char>>::empty() =~= ids_of(res@));
        res
    }

    /// How many schedulable GPUs sit on `node`.
    fn node_room_exec(fleet: &Vec<Gpu>, node: &String, spares: &Vec<String>) -> (r: usize)
        ensures
            r as nat == node_room(fleet_view(fleet@), 0, node@, ids_of(spares@)),
    {
        let ghost fv = fleet_view(fleet@);
        let ghost sp = ids_of(spares@);
        let mut cnt: usize = 0;
        let mut i: usize = 0;
        while i < fleet.len()
            invariant
                i <= fleet@.len(),
                fv == fleet_view(fleet@),
                sp == ids_of(spares@),
                cnt <= i,
                cnt + node_room(fv, i as int, node@, sp) == node_room(fv, 0, node@, sp),
            decreases fleet@.len() - i,
        {
            assert(fv[i as int] == fleet@[i as int]@);
            if fleet[i].node_id == *node && fleet[i].is_available_for_workload() && !contains_id(spares, &fleet[i].id) {
                cnt = cnt + 1;
            }
            i = i + 1;
        }
        cnt
    }

    /// The node a job of `k` GPUs is kept to, if one can hold it (see [`roomy_node_from`]).
    fn roomy_node(fleet: &Vec<Gpu>, k: usize, spares: &Vec<String>) -> (r: Option<String>)
        ensures
            r.deep_view() == roomy_node_from(fleet_view(fleet@), 0, k as nat, ids_of(spares@)),
    {
        let ghost fv = fleet_view(fleet@);
        let ghost sp = ids_of(spares@);
        let mut i: usize = 0;
        while i < fleet.len()
            invariant
                i <= fleet@.len(),
                fv == fleet_view(fleet@),
                sp == ids_of(spares@),
                roomy_node_from(fv, i as int, k as nat, sp) == roomy_node_from(fv, 0, k as nat, sp),
            decreases fleet@.len() - i,
        {
            assert(fv[i as int] == fleet@[i as int]@);
            if fleet[i].is_available_for_workload() && !contains_id(spares, &fleet[i].id) {
                let room = Self::node_room_exec(fleet, &fleet[i].node_id, spares);
                if room >= k {
                    return Some(fleet[i].node_id.clone());
                }
            }
            i = i + 1;
        }
        None
    }

    fn allocate(fleet: &mut Vec<Gpu>, ids: &Vec<String>, job_id: &String)
        ensures
            fleet_view(final(fleet)@) == allocate_all(fleet_view(old(fleet)@), ids_of(ids@), job_id@),
    {
        let ghost f0 = fleet_view(fleet@);
        let mut t: usize = 0;
        while t < ids.len()
            invariant
                t <= ids@.len(),
                fleet_view(fleet@) == allocate_all(f0, ids_of(ids@).take(t as int), job_id@),
            decreases ids@.len() - t,
        {
            let ghost cur = fleet_view(fleet@);
            proof {
                assert(ids_of(ids@).take((t + 1) as int).drop_last() =~= ids_of(ids@).take(t as int));
                assert(ids_of(ids@).take((t + 1) as int).last() == ids@[t as int]@);
            }
            match find_gpu(fleet, &ids[t]) {
                Some(k) => {
                    let ghost g = fleet@[k as int];
                    fleet[k].allocated_job_id = Some(job_id.clone());
                    proof {
                        assert(fleet_view(fleet@) =~= cur.update(k as int,
                            GpuView { allocated_job_id: Some(job_id@), ..cur[k as int] }));
                    }
                },
                None => {},
            }
            t = t + 1;
        }
        assert(ids_of(ids@).take(ids@.len() as int) =~= ids_of(ids@));
    }

    /// Gives queued jobs, in submission order, `gpu_count` available GPUs that are not warm
    /// spares, all from one node when one node can hold the job (see [`pick_for_job`]); a job
    /// that cannot get all of them stays queued.
    pub fn schedule_pending_jobs(&mut self, fleet: &mut Vec<Gpu>, spare_count: usize)
        ensures
            final(self).config == old(self).config,
            final(self).job_counter == old(self).job_counter,
            final(self).jobs@.len() == old(self).jobs@.len(),
            exists|now_ms: i64| (fleet_view(final(fleet)@), jobs_view(final(self).jobs@))
                == #[trigger] schedule_all(fleet_view(old(fleet)@), jobs_view(old(self).jobs@), spare_count as nat, now_ms),
    {
        let now = read_clock();
        self.schedule_pending_jobs_at(fleet, spare_count, now.millis);
    }

    /// [`Self::schedule_pending_jobs`] with the clock reading given.
    pub fn schedule_pending_jobs_at(&mut self, fleet: &mut Vec<Gpu>, spare_count: usize, now_ms: i64)
        ensures
            final(self).config == old(self).config,
            final(self).job_counter == old(self).job_counter,
            final(self).jobs@.len() == old(self).jobs@.len(),
            (fleet_view(final(fleet)@), jobs_view(final(self).jobs@))
                == schedule_all(fleet_view(old(fleet)@), jobs_view(old(self).jobs@), spare_count as nat, now_ms),
    {
        let warm_spares = self.get_warm_spares(fleet, spare_count);
        let ghost f0 = fleet_view(fleet@);
        let ghost j0 = jobs_view(self.jobs@);
        let ghost sp = ids_of(warm_spares@);
        let mut j: usize = 0;
        while j < self.jobs.len()
            invariant
                j <= self.jobs@.len(),
                self.jobs@.len() == j0.len(),
                self.config == old(self).config,
                self.job_counter == old(self).job_counter,
                sp == ids_of(warm_spares@),
                sp == warm_spare_ids(f0, spare_count as nat),
                (fleet_view(fleet@), jobs_view(self.jobs@)) == schedule_upto(f0, j0, j as nat, sp, now_ms),
            decreases j0.len() - j,
        {
            let ghost fb = fleet_view(fleet@);
            let ghost jb = jobs_view(self.jobs@);
            let is_queued = match self.jobs[j].status {
                JobStatus::Queued => true,
                _ => false,
            };
            if is_queued {
                let count = self.jobs[j].gpu_count;
                let node = Self::roomy_node(fleet, count, &warm_spares);
                let picked = Self::pick_gpus(fleet, count, &warm_spares, &node);
                if picked.len() == count {
                    let job_id = self.jobs[j].id.clone();
                    Self::allocate(fleet, &picked, &job_id);
                    self.jobs[j].gpu_ids = picked;
                    self.jobs[j].status = JobStatus::Running;
                    self.jobs[j].started_at_ms = Some(now_ms);
                    proof {
                        assert(jobs_view(self.jobs@) =~= jb.update(j as int, start_job(jb[j as int], ids_of(picked@), now_ms)));
                    }
                }
            }
            j = j + 1;
        }
    }

    /// Advances the checkpoint and migration clock of every job by `dt_ms`.
    pub fn step_scheduler(&mut self, dt_ms: u64)
        requires
            ages_fit(jobs_view(old(self).jobs@), dt_ms),
        ensures
            final(self).config == old(self).config,
            final(self).job_counter == old(self).job_counter,
            exists|now_ms: i64| jobs_view(final(self).jobs@)
                == #[trigger] advance_all(jobs_view(old(self).jobs@), dt_ms, now_ms, old(self).config),
    {
        let now = read_clock();
        self.step_scheduler_at(dt_ms, now.millis);
    }

    /// [`Self::step_scheduler`] with the clock reading given.
    pub fn step_scheduler_at(&mut self, dt_ms: u64, now_ms: i64)
        requires
            ages_fit(jobs_view(old(self).jobs@), dt_ms),
        ensures
            final(self).config == old(self).config,
            final(self).job_counter == old(self).job_counter,
            jobs_view(final(self).jobs@)
                == advance_all(jobs_view(old(self).jobs@), dt_ms, now_ms, old(self).config),
    {
        let ghost j0 = jobs_view(self.jobs@);
        let cfg = self.config;
        let mut j: usize = 0;
        while j < self.jobs.len()
            invariant
                j <= self.jobs@.len(),
                self.jobs@.len() == j0.len(),
                self.config == cfg,
                cfg == old(self).config,
                self.job_counter == old(self).job_counter,
                ages_fit(j0, dt_ms),
                forall|i: int| 0 <= i < j ==> #[trigger] jobs_view(self.jobs@)[i] == advance_job(j0[i], dt_ms, now_ms, cfg),
                forall|i: int| j <= i < j0.len() ==> #[trigger] jobs_view(self.jobs@)[i] == j0[i],
            decreases j0.len() - j,
        {
            let ghost jb = jobs_view(self.jobs@);
            assert(jb[j as int] == j0[j as int]);
            match self.jobs[j].status {
                JobStatus::Running => {
                    let age = self.jobs[j].checkpoint_age_ms + dt_ms;
                    if age >= cfg.checkpoint_interval_ms {
                        self.jobs[j].checkpoint_age_ms = 0;
                    } else {
                        self.jobs[j].checkpoint_age_ms = age;
                    }
                },
                JobStatus::Migrating => {
                    match self.jobs[j].migration_started_at_ms {
                        Some(started) => {
                            let elapsed: i128 = (now_ms as i128) - (started as i128);
                            if elapsed >= cfg.migration_time_ms as i128 {
                                self.jobs[j].status = JobStatus::Running;
                                self.jobs[j].migration_started_at_ms = None;
                                self.jobs[j].checkpoint_age_ms = 0;
                            }
                        },
                        None => {},
                    }
                },
                _ => {},
            }
            proof {
                assert forall|i: int| 0 <= i < j0.len() && i != j implies #[trigger] jobs_view(self.jobs@)[i] == jb[i] by {
                    assert(self.jobs@[i] == old(self).jobs@[i] || true);
                }
            }
            j = j + 1;
        }
        assert(jobs_view(self.jobs@) =~= advance_all(j0, dt_ms, now_ms, cfg));
    }
}

} // verus!

verus! {

/// A scheduler tick changes no job's migration count.
pub proof fn lemma_advance_keeps_migrations(jobs: Seq<JobView>, dt_ms: u64, now_ms: i64, cfg: SchedulerConfig)
    ensures
        advance_all(jobs, dt_ms, now_ms, cfg).len() == jobs.len(),
        forall|k: int| 0 <= k < jobs.len() ==> #[trigger] advance_all(jobs, dt_ms, now_ms, cfg)[k].migrations_count
            == jobs[k].migrations_count,
{
}

/// A scheduling pass keeps the number of GPUs and jobs, and changes no job's migration count.
pub proof fn lemma_schedule_shape(fleet: Seq<GpuView>, jobs: Seq<JobView>, n: nat, spares: Seq<Seq<char>>, now_ms: i64)
    ensures
        schedule_upto(fleet, jobs, n, spares, now_ms).0.len() == fleet.len(),
        schedule_upto(fleet, jobs, n, spares, now_ms).1.len() == jobs.len(),
        forall|k: int| 0 <= k < jobs.len() ==> #[trigger] schedule_upto(fleet, jobs, n, spares, now_ms).1[k].migrations_count
            == jobs[k].migrations_count,
    decreases n,
{
    if n > 0 && n <= jobs.len() {
        lemma_schedule_shape(fleet, jobs, (n - 1) as nat, spares, now_ms);
        let (f, js) = schedule_upto(fleet, jobs, (n - 1) as nat, spares, now_ms);
        let job = js[n - 1];
        let picked = pick_for_job(f, job.gpu_count as nat, spares);
        lemma_allocate_keeps_ids(f, picked, job.id);
    }
}

} // verus!

verus! {

/// Allocation touches nothing but the allocation of GPUs.
pub proof fn lemma_allocate_keeps_status(fleet: Seq<GpuView>, ids: Seq<Seq<char>>, job: Seq<char>)
    ensures
        allocate_all(fleet, ids, job).len() == fleet.len(),
        forall|p: int| 0 <= p < fleet.len() ==> (#[trigger] allocate_all(fleet, ids, job)[p]).status == fleet[p].status
            && allocate_all(fleet, ids, job)[p].id == fleet[p].id,
    decreases ids.len(),
{
    if ids.len() > 0 {
        lemma_allocate_keeps_status(fleet, ids.drop_last(), job);
        let prev = allocate_all(fleet, ids.drop_last(), job);
        lemma_first_index_from(prev, ids.last(), 0);
    }
}

/// A scheduling pass changes no GPU's id or lifecycle status.
pub proof fn lemma_schedule_keeps_status(fleet: Seq<GpuView>, jobs: Seq<JobView>, n: nat, spares: Seq<Seq<char>>, now_ms: i64)
    ensures
        schedule_upto(fleet, jobs, n, spares, now_ms).0.len() == fleet.len(),
        forall|p: int| 0 <= p < fleet.len() ==> (#[trigger] schedule_upto(fleet, jobs, n, spares, now_ms).0[p]).status
            == fleet[p].status && schedule_upto(fleet, jobs, n, spares, now_ms).0[p].id == fleet[p].id,
    decreases n,
{
    if n > 0 && n <= jobs.len() {
        lemma_schedule_keeps_status(fleet, jobs, (n - 1) as nat, spares, now_ms);
        let (f, js) = schedule_upto(fleet, jobs, (n - 1) as nat, spares, now_ms);
        let job = js[n - 1];
        let picked = pick_for_job(f, job.gpu_count as nat, spares);
        lemma_allocate_keeps_status(f, picked, job.id);
    }
}

} // verus!

verus! {

/// No two GPUs of the fleet share an id.
pub open spec fn unique_ids(f: Seq<GpuView>) -> bool {
    forall|a: int, b: int| 0 <= a < f.len() && 0 <= b < f.len() && a != b ==> f[a].id != f[b].id
}

proof fn lemma_allocate_all_unique(f: Seq<GpuView>, ids: Seq<Seq<char>>, job: Seq<char>)
    requires
        unique_ids(f),
    ensures
        allocate_all(f, ids, job).len() == f.len(),
        forall|p: int| 0 <= p < f.len() ==> #[trigger] allocate_all(f, ids, job)[p] == if ids.contains(f[p].id) {
            GpuView { allocated_job_id: Some(job), ..f[p] }
        } else {
            f[p]
        },
    decreases ids.len(),
{
    if ids.len() > 0 {
        let pre = ids.drop_last();
        let x = ids.last();
        lemma_allocate_all_unique(f, pre, job);
        let prev = allocate_all(f, pre, job);
        lemma_first_index_from(prev, x, 0);
        let k = first_index(prev, x);
        assert forall|p: int| 0 <= p < f.len() implies #[trigger] allocate_all(f, ids, job)[p] == if ids.contains(f[p].id) {
            GpuView { allocated_job_id: Some(job), ..f[p] }
        } else {
            f[p]
        } by {
            assert(prev[p].id == f[p].id);
            if k >= 0 {
                assert(prev[k].id == f[k].id);
            }
            assert(ids.contains(f[p].id) <==> (pre.contains(f[p].id) || x == f[p].id)) by {
                if ids.contains(f[p].id) && x != f[p].id {
                    let w = choose|w: int| 0 <= w < ids.len() && ids[w] == f[p].id;
                    assert(pre[w] == f[p].id);
                }
                if pre.contains(f[p].id) {
                    let w = choose|w: int| 0 <= w < pre.len() && pre[w] == f[p].id;
                    assert(ids[w] == f[p].id);
                }
                if x == f[p].id {
                    assert(ids[ids.len() - 1] == f[p].id);
                }
            }
        }
    }
}

proof fn lemma_pick_schedulable(f: Seq<GpuView>, i: int, k: nat, sp: Seq<Seq<char>>, node: Option<Seq<char>>)
    requires
        0 <= i,
    ensures
        forall|x: Seq<char>| #[trigger] pick_from(f, i, k, sp, node).contains(x) ==> exists|q: int|
            i <= q < f.len() && f[q].id == x && eligible(f[q], sp, node),
    decreases f.len() - i,
{
    if i < f.len() && k > 0 {
        if eligible(f[i], sp, node) {
            lemma_pick_schedulable(f, i + 1, (k - 1) as nat, sp, node);
            let rest = pick_from(f, i + 1, (k - 1) as nat, sp, node);
            assert forall|x: Seq<char>| #[trigger] pick_from(f, i, k, sp, node).contains(x) implies exists|q: int|
                i <= q < f.len() && f[q].id == x && eligible(f[q], sp, node) by {
                let w = choose|w: int| 0 <= w < pick_from(f, i, k, sp, node).len() && pick_from(f, i, k, sp, node)[w] == x;
                if w == 0 {
                    assert(f[i].id == x);
                    assert(i <= i < f.len() && f[i].id == x && eligible(f[i], sp, node));
                } else {
                    assert(rest[w - 1] == x);
                    assert(rest.contains(x));
                }
            }
        } else {
            lemma_pick_schedulable(f, i + 1, k, sp, node);
            assert(pick_from(f, i, k, sp, node) == pick_from(f, i + 1, k, sp, node));
        }
    } else {
        assert(pick_from(f, i, k, sp, node) =~= Seq::<Seq<char>>::empty());
    }
}

proof fn lemma_pick_len_on_node(f: Seq<GpuView>, i: int, k: nat, sp: Seq<Seq<char>>, n: Seq<char>)
    requires
        0 <= i,
    ensures
        pick_from(f, i, k, sp, Some(n)).len() == if node_room(f, i, n, sp) >= k { k } else { node_room(f, i, n, sp) },
    decreases f.len() - i,
{
    if i < f.len() {
        if k > 0 && eligible(f[i], sp, Some(n)) {
            lemma_pick_len_on_node(f, i + 1, (k - 1) as nat, sp, n);
        } else {
            lemma_pick_len_on_node(f, i + 1, k, sp, n);
        }
    }
}

proof fn lemma_roomy_node_has_room(f: Seq<GpuView>, i: int, k: nat, sp: Seq<Seq<char>>)
    requires
        0 <= i,
    ensures
        roomy_node_from(f, i, k, sp) matches Some(n) ==> node_room(f, 0, n, sp) >= k,
    decreases f.len() - i,
{
    if i < f.len() {
        lemma_roomy_node_has_room(f, i + 1, k, sp);
    }
}

/// Locality: when some node alone can hold a job of `k` GPUs, the job is offered all `k`, and
/// every one of them is a schedulable GPU of one node (the node of the first schedulable GPU,
/// in fleet order, whose node can hold it).
pub proof fn law_job_kept_to_one_node(fleet: Seq<GpuView>, k: nat, spares: Seq<Seq<char>>)
    requires
        roomy_node_from(fleet, 0, k, spares) is Some,
    ensures
        ({
            let n = roomy_node_from(fleet, 0, k, spares)->0;
            &&& pick_for_job(fleet, k, spares).len() == k
            &&& forall|x: Seq<char>| #[trigger] pick_for_job(fleet, k, spares).contains(x) ==> exists|q: int|
                0 <= q < fleet.len() && fleet[q].id == x && fleet[q].node_id == n && schedulable(fleet[q], spares)
        }),
{
    let n = roomy_node_from(fleet, 0, k, spares)->0;
    lemma_roomy_node_has_room(fleet, 0, k, spares);
    lemma_pick_len_on_node(fleet, 0, k, spares, n);
    lemma_pick_schedulable(fleet, 0, k, spares, Some(n));
}

/// Only allocations change in a pass, and only of GPUs that were then available and not warm
/// spares.
pub open spec fn pass_respects(fleet: Seq<GpuView>, f: Seq<GpuView>, sp: Seq<Seq<char>>) -> bool {
    &&& f.len() == fleet.len()
    &&& forall|p: int| 0 <= p < fleet.len() ==> #[trigger] f[p] == (GpuView { allocated_job_id: f[p].allocated_job_id, ..fleet[p] })
    &&& forall|p: int| 0 <= p < fleet.len() && #[trigger] f[p].allocated_job_id != fleet[p].allocated_job_id
        ==> available_for_workload(fleet[p]) && !sp.contains(fleet[p].id) && f[p].allocated_job_id is Some
}

proof fn lemma_schedule_respects(fleet: Seq<GpuView>, jobs: Seq<JobView>, n: nat, sp: Seq<Seq<char>>, now_ms: i64)
    requires
        unique_ids(fleet),
    ensures
        pass_respects(fleet, schedule_upto(fleet, jobs, n, sp, now_ms).0, sp),
    decreases n,
{
    if n > 0 && n <= jobs.len() {
        lemma_schedule_respects(fleet, jobs, (n - 1) as nat, sp, now_ms);
        let (f, js) = schedule_upto(fleet, jobs, (n - 1) as nat, sp, now_ms);
        let job = js[n - 1];
        if job.status == JobStatus::Queued {
            let picked = pick_for_job(f, job.gpu_count as nat, sp);
            if picked.len() == job.gpu_count {
                assert(unique_ids(f)) by {
                    assert forall|a: int, b: int| 0 <= a < f.len() && 0 <= b < f.len() && a != b implies f[a].id != f[b].id by {
                        assert(f[a].id == fleet[a].id);
                        assert(f[b].id == fleet[b].id);
                    }
                }
                lemma_allocate_all_unique(f, picked, job.id);
                lemma_pick_schedulable(f, 0, job.gpu_count as nat, sp, roomy_node_from(f, 0, job.gpu_count as nat, sp));
                let f2 = allocate_all(f, picked, job.id);
                assert forall|p: int| 0 <= p < fleet.len() implies #[trigger] f2[p] == (GpuView { allocated_job_id: f2[p].allocated_job_id, ..fleet[p] }) by {
                    assert(f[p] == (GpuView { allocated_job_id: f[p].allocated_job_id, ..fleet[p] }));
                }
                assert forall|p: int| 0 <= p < fleet.len() && #[trigger] f2[p].allocated_job_id != fleet[p].allocated_job_id
                    implies available_for_workload(fleet[p]) && !sp.contains(fleet[p].id) && f2[p].allocated_job_id is Some by {
                    if picked.contains(f[p].id) {
                        let q = choose|q: int| 0 <= q < f.len() && f[q].id == f[p].id && schedulable(f[q], sp);
                        assert(q == p);
                        assert(f[p].allocated_job_id is None);
                        assert(f[p].allocated_job_id == fleet[p].allocated_job_id);
                        assert(f[p] == (GpuView { allocated_job_id: f[p].allocated_job_id, ..fleet[p] }));
                    }
                }
            }
        }
    }
}

/// A scheduling pass only gives out GPUs that were available and not held back as warm spares,
/// so it never takes a GPU from the job holding it; it changes nothing about a GPU but its
/// allocation. (Stated for fleets whose GPU ids are distinct: allocation goes by id.)
pub proof fn law_schedule_takes_only_free_gpus(fleet: Seq<GpuView>, jobs: Seq<JobView>, spare_count: nat, now_ms: i64)
    requires
        unique_ids(fleet),
    ensures
        pass_respects(fleet, schedule_all(fleet, jobs, spare_count, now_ms).0, warm_spare_ids(fleet, spare_count)),
{
    lemma_schedule_respects(fleet, jobs, jobs.len(), warm_spare_ids(fleet, spare_count), now_ms);
}


/// A job's turn in a pass, gang style: a job that was not queued is left as it was; a queued
/// job is left as it was or started on exactly as many GPUs as it asked for.
pub open spec fn gang_turn(before: JobView, after: JobView, now_ms: i64) -> bool {
    &&& before.status != JobStatus::Queued ==> after == before
    &&& before.status == JobStatus::Queued ==> after == before || (after == start_job(before, after.gpu_ids, now_ms)
            && after.gpu_ids.len() == before.gpu_count)
}

proof fn lemma_gang_turns(fleet: Seq<GpuView>, jobs: Seq<JobView>, n: nat, sp: Seq<Seq<char>>, now_ms: i64)
    ensures
        schedule_upto(fleet, jobs, n, sp, now_ms).1.len() == jobs.len(),
        forall|k: int| 0 <= k < jobs.len() ==> {
            &&& k >= n ==> #[trigger] schedule_upto(fleet, jobs, n, sp, now_ms).1[k] == jobs[k]
            &&& gang_turn(jobs[k], schedule_upto(fleet, jobs, n, sp, now_ms).1[k], now_ms)
        },
    decreases n,
{
    if n > 0 && n <= jobs.len() {
        lemma_gang_turns(fleet, jobs, (n - 1) as nat, sp, now_ms);
        let (f, js) = schedule_upto(fleet, jobs, (n - 1) as nat, sp, now_ms);
        assert(js[n - 1] == jobs[n - 1]);
    }
}

/// Gang scheduling is all or nothing: after a pass, every job that was queued is either still
/// as it was or running on exactly as many GPUs as it asked for, and every other job is
/// untouched.
pub proof fn law_gang_all_or_nothing(fleet: Seq<GpuView>, jobs: Seq<JobView>, spare_count: nat, now_ms: i64)
    ensures
        schedule_all(fleet, jobs, spare_count, now_ms).1.len() == jobs.len(),
        forall|k: int| 0 <= k < jobs.len() ==> gang_turn(jobs[k], #[trigger] schedule_all(fleet, jobs, spare_count, now_ms).1[k], now_ms),
{
    lemma_gang_turns(fleet, jobs, jobs.len(), warm_spare_ids(fleet, spare_count), now_ms);
}


/// No two jobs share an id.
pub open spec fn unique_job_ids(js: Seq<JobView>) -> bool {
    forall|a: int, b: int| 0 <= a < js.len() && 0 <= b < js.len() && a != b ==> js[a].id != js[b].id
}

/// GPUs and jobs agree on allocations: a GPU names a job exactly when the job lists it.
pub open spec fn allocations_agree(f: Seq<GpuView>, js: Seq<JobView>) -> bool {
    forall|p: int, k: int| 0 <= p < f.len() && 0 <= k < js.len() ==>
        (#[trigger] f[p].allocated_job_id == Some(#[trigger] js[k].id) <==> js[k].gpu_ids.contains(f[p].id))
}

/// Queued jobs hold no GPUs.
pub open spec fn queued_hold_nothing(js: Seq<JobView>) -> bool {
    forall|k: int| 0 <= k < js.len() && (#[trigger] js[k]).status == JobStatus::Queued ==> js[k].gpu_ids.len() == 0
}

proof fn lemma_schedule_agrees(fleet: Seq<GpuView>, jobs: Seq<JobView>, n: nat, sp: Seq<Seq<char>>, now_ms: i64)
    requires
        unique_ids(fleet),
        unique_job_ids(jobs),
        allocations_agree(fleet, jobs),
        queued_hold_nothing(jobs),
    ensures
        allocations_agree(schedule_upto(fleet, jobs, n, sp, now_ms).0, schedule_upto(fleet, jobs, n, sp, now_ms).1),
        queued_hold_nothing(schedule_upto(fleet, jobs, n, sp, now_ms).1),
    decreases n,
{
    lemma_gang_turns(fleet, jobs, n, sp, now_ms);
    lemma_schedule_keeps_status(fleet, jobs, n, sp, now_ms);
    if n > 0 && n <= jobs.len() {
        lemma_schedule_agrees(fleet, jobs, (n - 1) as nat, sp, now_ms);
        lemma_gang_turns(fleet, jobs, (n - 1) as nat, sp, now_ms);
        lemma_schedule_keeps_status(fleet, jobs, (n - 1) as nat, sp, now_ms);
        let (f, js) = schedule_upto(fleet, jobs, (n - 1) as nat, sp, now_ms);
        let job = js[n - 1];
        assert(job == jobs[n - 1]);
        let picked = pick_for_job(f, job.gpu_count as nat, sp);
        if job.status == JobStatus::Queued && picked.len() == job.gpu_count {
            assert(unique_ids(f)) by {
                assert forall|a: int, b: int| 0 <= a < f.len() && 0 <= b < f.len() && a != b implies f[a].id != f[b].id by {
                    assert(f[a].id == fleet[a].id);
                    assert(f[b].id == fleet[b].id);
                }
            }
            assert(unique_job_ids(js)) by {
                assert forall|a: int, b: int| 0 <= a < js.len() && 0 <= b < js.len() && a != b implies js[a].id != js[b].id by {
                    assert(gang_turn(jobs[a], js[a], now_ms));
                    assert(gang_turn(jobs[b], js[b], now_ms));
                }
            }
            lemma_allocate_all_unique(f, picked, job.id);
            lemma_pick_schedulable(f, 0, job.gpu_count as nat, sp, roomy_node_from(f, 0, job.gpu_count as nat, sp));
            let f2 = allocate_all(f, picked, job.id);
            let js2 = js.update(n - 1, start_job(job, picked, now_ms));
            assert forall|p: int, k: int| 0 <= p < f2.len() && 0 <= k < js2.len() implies
                (#[trigger] f2[p].allocated_job_id == Some(#[trigger] js2[k].id) <==> js2[k].gpu_ids.contains(f2[p].id)) by {
                assert(f2[p].id == f[p].id);
                if picked.contains(f[p].id) {
                    let q = choose|q: int| 0 <= q < f.len() && f[q].id == f[p].id
                        && eligible(f[q], sp, roomy_node_from(f, 0, job.gpu_count as nat, sp));
                    assert(q == p);
                    assert(f[p].allocated_job_id is None);
                    if k != n - 1 {
                        assert(js[k].id != job.id);
                        assert(!js[k].gpu_ids.contains(f[p].id));
                    }
                } else if k == n - 1 {
                    assert(job.gpu_ids.len() == 0);
                    assert(!job.gpu_ids.contains(f[p].id));
                }
            }
        }
    }
}

/// A scheduling pass keeps GPUs and jobs in agreement: when every GPU names a job exactly when
/// that job lists it (ids distinct, queued jobs holding nothing) before the pass, the same holds
/// after it, so each GPU a started job was given now names that job.
pub proof fn law_schedule_keeps_allocations_agreed(fleet: Seq<GpuView>, jobs: Seq<JobView>, spare_count: nat, now_ms: i64)
    requires
        unique_ids(fleet),
        unique_job_ids(jobs),
        allocations_agree(fleet, jobs),
        queued_hold_nothing(jobs),
    ensures
        allocations_agree(schedule_all(fleet, jobs, spare_count, now_ms).0, schedule_all(fleet, jobs, spare_count, now_ms).1),
        queued_hold_nothing(schedule_all(fleet, jobs, spare_count, now_ms).1),
{
    lemma_schedule_agrees(fleet, jobs, jobs.len(), warm_spare_ids(fleet, spare_count), now_ms);
}


/// Every warm spare is the id of a GPU available for a workload.
pub proof fn lemma_spares_available(fleet: Seq<GpuView>, i: int, k: nat)
    ensures
        forall|x: Seq<char>| #[trigger] spares_below(fleet, i, k).contains(x) ==> exists|p: int|
            0 <= p < fleet.len() && fleet[p].id == x && available_for_workload(fleet[p]),
    decreases i,
{
    if !(i <= 0 || k == 0 || i > fleet.len()) {
        if available_for_workload(fleet[i - 1]) {
            lemma_spares_available(fleet, i - 1, (k - 1) as nat);
            let rest = spares_below(fleet, i - 1, (k - 1) as nat);
            assert forall|x: Seq<char>| #[trigger] spares_below(fleet, i, k).contains(x) implies exists|p: int|
                0 <= p < fleet.len() && fleet[p].id == x && available_for_workload(fleet[p]) by {
                let w = choose|w: int| 0 <= w < spares_below(fleet, i, k).len() && spares_below(fleet, i, k)[w] == x;
                if w == 0 {
                    assert(fleet[i - 1].id == x);
                    assert(0 <= i - 1 < fleet.len() && fleet[i - 1].id == x && available_for_workload(fleet[i - 1]));
                } else {
                    assert(rest[w - 1] == x);
                    assert(rest.contains(x));
                }
            }
        } else {
            lemma_spares_available(fleet, i - 1, k);
            assert(spares_below(fleet, i, k) == spares_below(fleet, i - 1, k));
        }
    } else {
        assert(spares_below(fleet, i, k) =~= Seq::<Seq<char>>::empty());
    }
}

} // verus!
