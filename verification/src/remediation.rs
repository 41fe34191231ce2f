//! Remediation of running jobs that hold a failed GPU: eviction, quarantine and
//! failover to a warm spare.

use vstd::prelude::*;
use crate::clock::read_clock;
use crate::lookup::{first_index, find_gpu, lemma_first_index_from};
use crate::types::{Gpu, GpuView, GpuStatus, Job, JobView, JobStatus, fleet_view, jobs_view, ids_of};

verus! {

/// One remediation taken by the controller.
pub struct RemediationActionRecord {
    pub timestamp_ms: i64,
    pub gpu_id: String,
    pub action: String,
    pub job_id: Option<String>,
    pub spare_gpu_id: Option<String>,
    pub outcome: String,
}

pub struct RemediationController {
    pub records: Vec<RemediationActionRecord>,
}

/// The job runs and holds the GPU named `id`.
pub open spec fn holds_running(j: JobView, id: Seq<char>) -> bool {
    j.status == JobStatus::Running && j.gpu_ids.contains(id)
}

/// Index of the first job at or after `i` that runs on GPU `id`, or -1.
pub open spec fn first_running_job_from(jobs: Seq<JobView>, id: Seq<char>, i: int) -> int
    decreases jobs.len() - i,
{
    if i < 0 || i >= jobs.len() {
        -1
    } else if holds_running(jobs[i], id) {
        i
    } else {
        first_running_job_from(jobs, id, i + 1)
    }
}

/// Index of the first job that runs on GPU `id`, or -1.
pub open spec fn first_running_job(jobs: Seq<JobView>, id: Seq<char>) -> int {
    first_running_job_from(jobs, id, 0)
}

/// `ids` without any occurrence of `x`, order kept.
pub open spec fn without(ids: Seq<Seq<char>>, x: Seq<char>) -> Seq<Seq<char>>
    decreases ids.len(),
{
    if ids.len() == 0 {
        Seq::empty()
    } else {
        let r = without(ids.drop_last(), x);
        if ids.last() == x { r } else { r.push(ids.last()) }
    }
}

/// The first GPU named `id` loses its workload and is quarantined.
pub open spec fn evict_gpu(fleet: Seq<GpuView>, id: Seq<char>) -> Seq<GpuView> {
    let k = first_index(fleet, id);
    if k >= 0 {
        fleet.update(k, GpuView { allocated_job_id: None, status: GpuStatus::Quarantined, ..fleet[k] })
    } else {
        fleet
    }
}

/// The outcome of remediating GPU `failed` at time `now_ms`: the fleet, the jobs, and the
/// spare that was handed to the affected job, if any. Nothing changes when no running job
/// holds the GPU.
pub open spec fn remediate(
    fleet: Seq<GpuView>,
    jobs: Seq<JobView>,
    failed: Seq<char>,
    spares: Seq<Seq<char>>,
    now_ms: i64,
) -> (Seq<GpuView>, Seq<JobView>, Option<Seq<char>>) {
    let k = first_running_job(jobs, failed);
    if k < 0 {
        (fleet, jobs, None)
    } else {
        let job = jobs[k];
        let kept = without(job.gpu_ids, failed);
        let f1 = evict_gpu(fleet, failed);
        if spares.len() > 0 {
            let sid = spares[0];
            let si = first_index(f1, sid);
            let f2 = if si >= 0 {
                f1.update(si, GpuView { allocated_job_id: Some(job.id), ..f1[si] })
            } else {
                f1
            };
            let gpus = if si >= 0 { kept.push(sid) } else { kept };
            let job2 = JobView {
                gpu_ids: gpus,
                status: JobStatus::Migrating,
                migration_started_at_ms: Some(now_ms),
                migrations_count: (job.migrations_count + 1) as u32,
                ..job
            };
            (f2, jobs.update(k, job2), Some(sid))
        } else {
            (f1, jobs.update(k, JobView { gpu_ids: kept, status: JobStatus::Paused, ..job }), None)
        }
    }
}

/// The job that remediating `failed` touches can count one more migration, where a spare
/// makes it migrate.
pub open spec fn migration_count_fits(jobs: Seq<JobView>, failed: Seq<char>, has_spare: bool) -> bool {
    let k = first_running_job(jobs, failed);
    k >= 0 && has_spare ==> jobs[k].migrations_count < u32::MAX
}

/// The record of a remediation of GPU `failed` in job `job`, with `spare` handed over or not.
pub open spec fn eviction_record(r: RemediationActionRecord, failed: Seq<char>, job: Seq<char>,
    spare: Option<Seq<char>>, now_ms: i64) -> bool {
    &&& r.timestamp_ms == now_ms
    &&& r.gpu_id@ == failed
    &&& r.action@ == "EVICT_AND_FAILOVER"@
    &&& r.job_id.deep_view() == Some(job)
    &&& r.spare_gpu_id.deep_view() == spare
    &&& r.outcome@ == if spare is Some { "MIGRATION_INITIATED"@ } else { "PAUSED_NO_SPARES"@ }
}

pub proof fn lemma_first_running_job_from(jobs: Seq<JobView>, id: Seq<char>, i: int)
    requires
        0 <= i <= jobs.len(),
    ensures
        first_running_job_from(jobs, id, i) == -1 ==> forall|j: int| i <= j < jobs.len() ==> !holds_running(#[trigger] jobs[j], id),
        first_running_job_from(jobs, id, i) != -1 ==> {
            let r = first_running_job_from(jobs, id, i);
            &&& i <= r < jobs.len()
            &&& holds_running(jobs[r], id)
            &&& forall|j: int| i <= j < r ==> !holds_running(#[trigger] jobs[j], id)
        },
    decreases jobs.len() - i,
{
    if i < jobs.len() && !holds_running(jobs[i], id) {
        lemma_first_running_job_from(jobs, id, i + 1);
    }
}

proof fn lemma_first_running_skip(jobs: Seq<JobView>, id: Seq<char>, a: int, b: int)
    requires
        0 <= a <= b <= jobs.len(),
        forall|j: int| a <= j < b ==> !holds_running(#[trigger] jobs[j], id),
    ensures
        first_running_job_from(jobs, id, a) == first_running_job_from(jobs, id, b),
    decreases b - a,
{
    if a < b {
        lemma_first_running_skip(jobs, id, a + 1, b);
    }
}

fn contains_gpu(ids: &Vec<String>, id: &String) -> (b: bool)
    ensures
        b == ids_of(ids@).contains(id@),
{
    crate::lookup::contains_id(ids, id)
}

fn find_running_job(jobs: &Vec<Job>, id: &String) -> (r: Option<usize>)
    ensures
        match r {
            Some(k) => k as int == first_running_job(jobs_view(jobs@), id@) && k < jobs@.len(),
            None => first_running_job(jobs_view(jobs@), id@) == -1,
        },
{
    let ghost jv = jobs_view(jobs@);
    let mut i: usize = 0;
    while i < jobs.len()
        invariant
            i <= jobs@.len(),
            jv == jobs_view(jobs@),
            forall|j: int| 0 <= j < i ==> !holds_running(#[trigger] jv[j], id@),
        decreases jobs@.len() - i,
    {
        let running = match jobs[i].status {
            JobStatus::Running => true,
            _ => false,
        };
        if running && contains_gpu(&jobs[i].gpu_ids, id) {
            proof {
                lemma_first_running_skip(jv, id@, 0, i as int);
            }
            return Some(i);
        }
        i = i + 1;
    }
    proof {
        lemma_first_running_skip(jv, id@, 0, i as int);
    }
    None
}

fn retain_other(ids: &Vec<String>, x: &String) -> (r: Vec<String>)
    ensures
        ids_of(r@) == without(ids_of(ids@), x@),
{
    let mut res: Vec<String> = Vec::new();
    let mut i: usize = 0;
    while i < ids.len()
        invariant
            i <= ids@.len(),
            ids_of(res@) == without(ids_of(ids@).take(i as int), x@),
        decreases ids@.len() - i,
    {
        proof {
            assert(ids_of(ids@).take((i + 1) as int).drop_last() =~= ids_of(ids@).take(i as int));
        }
        if ids[i] != *x {
            let ghost before = res@;
            res.push(ids[i].clone());
            assert(ids_of(res@) =~= ids_of(before).push(ids@[i as int]@));
        }
        i = i + 1;
    }
    assert(ids_of(ids@).take(ids@.len() as int) =~= ids_of(ids@));
    res
}

impl RemediationController {
    pub fn new() -> (c: Self)
        ensures
            c.records@.len() == 0,
    {
        RemediationController { records: Vec::new() }
    }

    pub fn get_records(&self) -> (r: &Vec<RemediationActionRecord>)
        ensures
            r == &self.records,
    {
        &self.records
    }

    /// Handles a failed GPU held by a running job: the GPU is evicted from the job, freed and
    /// quarantined; the first warm spare, if any, joins the job, which starts migrating;
    /// without a spare the job pauses. Returns the spare's id.
    pub fn remediate_job_gpu(&mut self, failed_gpu_id: &str, fleet: &mut Vec<Gpu>, jobs: &mut Vec<Job>,
        warm_spares: &Vec<String>) -> (spare: Option<String>)
        requires
            migration_count_fits(jobs_view(old(jobs)@), failed_gpu_id@, warm_spares@.len() > 0),
        ensures
            exists|now_ms: i64| {
                let r = #[trigger] remediate(fleet_view(old(fleet)@), jobs_view(old(jobs)@), failed_gpu_id@,
                    ids_of(warm_spares@), now_ms);
                &&& fleet_view(final(fleet)@) == r.0
                &&& jobs_view(final(jobs)@) == r.1
                &&& spare.deep_view() == r.2
                &&& {
                    let k = first_running_job(jobs_view(old(jobs)@), failed_gpu_id@);
                    if k < 0 {
                        final(self).records@ == old(self).records@
                    } else {
                        &&& final(self).records@.len() == old(self).records@.len() + 1
                        &&& final(self).records@.drop_last() == old(self).records@
                        &&& eviction_record(final(self).records@.last(), failed_gpu_id@,
                            jobs_view(old(jobs)@)[k].id, spare.deep_view(), now_ms)
                    }
                }
            },
    {
        let now = read_clock();
        self.remediate_job_gpu_at(failed_gpu_id, fleet, jobs, warm_spares, now.millis)
    }

    /// [`Self::remediate_job_gpu`] with the clock reading given.
    pub fn remediate_job_gpu_at(&mut self, failed_gpu_id: &str, fleet: &mut Vec<Gpu>, jobs: &mut Vec<Job>,
        warm_spares: &Vec<String>, now_ms: i64) -> (spare: Option<String>)
        requires
            migration_count_fits(jobs_view(old(jobs)@), failed_gpu_id@, warm_spares@.len() > 0),
        ensures
            ({
                let r = remediate(fleet_view(old(fleet)@), jobs_view(old(jobs)@), failed_gpu_id@,
                    ids_of(warm_spares@), now_ms);
                &&& fleet_view(final(fleet)@) == r.0
                &&& jobs_view(final(jobs)@) == r.1
                &&& spare.deep_view() == r.2
            }),
            ({
                let k = first_running_job(jobs_view(old(jobs)@), failed_gpu_id@);
                if k < 0 {
                    final(self).records@ == old(self).records@
                } else {
                    &&& final(self).records@.len() == old(self).records@.len() + 1
                    &&& final(self).records@.drop_last() == old(self).records@
                    &&& eviction_record(final(self).records@.last(), failed_gpu_id@,
                        jobs_view(old(jobs)@)[k].id, spare.deep_view(), now_ms)
                }
            }),
    {
        let failed = String::from_str(failed_gpu_id);
        let ghost f0 = fleet_view(fleet@);
        let ghost j0 = jobs_view(jobs@);
        let k = match find_running_job(jobs, &failed) {
            Some(k) => k,
            None => return None,
        };
        let ghost job0 = j0[k as int];
        // 1. Evict the failed GPU
        let kept = retain_other(&jobs[k].gpu_ids, &failed);
        jobs[k].gpu_ids = kept;
        match find_gpu(fleet, &failed) {
            Some(fi) => {
                fleet[fi].allocated_job_id = None;
                fleet[fi].status = GpuStatus::Quarantined;
            },
            None => {},
        }
        let ghost f1 = fleet_view(fleet@);
        proof {
            assert(f1 =~= evict_gpu(f0, failed@));
        }
        let job_id = jobs[k].id.clone();
        // 2. Hand over the first warm spare, if any
        let spare_id: Option<String> = if warm_spares.len() > 0 {
            Some(warm_spares[0].clone())
        } else {
            None
        };
        match &spare_id {
            Some(sid) => {
                let ghost ids_before = jobs[k as int].gpu_ids@;
                match find_gpu(fleet, sid) {
                    Some(si) => {
                        fleet[si].allocated_job_id = Some(job_id.clone());
                        jobs[k].gpu_ids.push(sid.clone());
                        proof {
                            assert(ids_of(jobs@[k as int].gpu_ids@) =~= ids_of(ids_before).push(sid@));
                        }
                    },
                    None => {},
                }
                jobs[k].status = JobStatus::Migrating;
                jobs[k].migration_started_at_ms = Some(now_ms);
                jobs[k].migrations_count = jobs[k].migrations_count + 1;
            },
            None => {
                jobs[k].status = JobStatus::Paused;
            },
        }
        let outcome = match &spare_id {
            Some(_) => String::from_str("MIGRATION_INITIATED"),
            None => String::from_str("PAUSED_NO_SPARES"),
        };
        let record = RemediationActionRecord {
            timestamp_ms: now_ms,
            gpu_id: failed,
            action: String::from_str("EVICT_AND_FAILOVER"),
            job_id: Some(job_id),
            spare_gpu_id: match &spare_id {
                Some(s) => Some(s.clone()),
                None => None,
            },
            outcome,
        };
        self.records.push(record);
        proof {
            assert(self.records@.drop_last() =~= old(self).records@);
            let r = remediate(f0, j0, failed_gpu_id@, ids_of(warm_spares@), now_ms);
            assert(fleet_view(fleet@) =~= r.0);
            assert(jobs_view(jobs@) =~= r.1);
        }
        spare_id
    }
}

} // verus!

verus! {

proof fn lemma_without(ids: Seq<Seq<char>>, x: Seq<char>)
    ensures
        !without(ids, x).contains(x),
    decreases ids.len(),
{
    if ids.len() > 0 {
        lemma_without(ids.drop_last(), x);
        let r = without(ids.drop_last(), x);
        if ids.last() != x {
            if r.push(ids.last()).contains(x) {
                let w = choose|w: int| 0 <= w < r.push(ids.last()).len() && r.push(ids.last())[w] == x;
                assert(r[w] == x);
            }
        }
    }
}

/// Remediating a GPU that a running job holds takes it out of service and out of the job: the
/// GPU is quarantined and freed, the job no longer lists it, and the job migrates onto the first
/// warm spare or, with none, pauses. Other jobs are untouched. (Stated for a spare other than
/// the failed GPU itself.)
pub proof fn law_remediation_evicts(fleet: Seq<GpuView>, jobs: Seq<JobView>, failed: Seq<char>, spares: Seq<Seq<char>>,
    now_ms: i64)
    requires
        first_running_job(jobs, failed) >= 0,
        first_index(fleet, failed) >= 0,
        spares.len() > 0 ==> spares[0] != failed,
    ensures
        ({
            let (f2, j2, spare) = remediate(fleet, jobs, failed, spares, now_ms);
            let k = first_running_job(jobs, failed);
            let p = first_index(fleet, failed);
            &&& f2[p].status == GpuStatus::Quarantined
            &&& f2[p].allocated_job_id is None
            &&& !j2[k].gpu_ids.contains(failed)
            &&& j2[k].status == if spares.len() > 0 { JobStatus::Migrating } else { JobStatus::Paused }
            &&& spare == if spares.len() > 0 { Some(spares[0]) } else { None::<Seq<char>> }
            &&& forall|i: int| 0 <= i < jobs.len() && i != k ==> #[trigger] j2[i] == jobs[i]
        }),
{
    let k = first_running_job(jobs, failed);
    let p = first_index(fleet, failed);
    lemma_first_running_job_from(jobs, failed, 0);
    lemma_first_index_from(fleet, failed, 0);
    let kept = without(jobs[k].gpu_ids, failed);
    lemma_without(jobs[k].gpu_ids, failed);
    let f1 = evict_gpu(fleet, failed);
    if spares.len() > 0 {
        let sid = spares[0];
        lemma_first_index_from(f1, sid, 0);
        let si = first_index(f1, sid);
        if si >= 0 {
            assert(si != p);
            if kept.push(sid).contains(failed) {
                let w = choose|w: int| 0 <= w < kept.push(sid).len() && kept.push(sid)[w] == failed;
                assert(kept[w] == failed);
            }
        }
    }
}

} // verus!
